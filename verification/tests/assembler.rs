//! Tests of the whole pipeline: classification, the two passes, symbol
//! resolution and the emitted machine words.

use hack_assembler::assemble::{assemble, AsmError};
use hack_assembler::encode::{Destination, JumpCondition, Operation};
use hack_assembler::parse::{AddressValue, ErrorKind, ParsedLine};

fn lines_of(src: &str) -> Vec<Vec<u8>> {
    src.split('\n').map(|l| l.as_bytes().to_vec()).collect()
}

fn text_of(out: &[Vec<u8>]) -> Vec<String> {
    out.iter().map(|w| String::from_utf8(w.clone()).unwrap()).collect()
}

fn run(src: &str) -> Result<Vec<String>, AsmError> {
    assemble(&lines_of(src)).map(|out| text_of(&out))
}

#[test]
fn two_plus_three_program() {
    let out = run("@2\nD=A\n@3\nD=D+A\n@0\nM=D").unwrap();
    assert_eq!(
        out,
        vec![
            "0000000000000010",
            "1110110000010000",
            "0000000000000011",
            "1110000010010000",
            "0000000000000000",
            "1110001100001000",
        ]
    );
}

#[test]
fn loop_label_resolves_to_own_position() {
    let out = run("(LOOP)\n@LOOP\n0;JMP").unwrap();
    assert_eq!(out, vec!["0000000000000000", "1110101010000111"]);
}

#[test]
fn invalid_compute_line_aborts_with_grammar_error() {
    let r = run("X=Y+Z\n@1");
    assert_eq!(r, Err(AsmError::Line { kind: ErrorKind::Grammar, index: 0 }));
}

#[test]
fn immediate_boundaries() {
    assert_eq!(run("@0").unwrap(), vec!["0000000000000000"]);
    assert_eq!(run("@32767").unwrap(), vec!["0111111111111111"]);
    assert_eq!(
        run("@32768"),
        Err(AsmError::Line { kind: ErrorKind::Range, index: 0 })
    );
    assert_eq!(
        run("@1\n@99999"),
        Err(AsmError::Line { kind: ErrorKind::Range, index: 1 })
    );
}

#[test]
fn reserved_identifiers_resolve_to_fixed_values() {
    let out = run(
        "@SP\n@LCL\n@ARG\n@THIS\n@THAT\n@SCREEN\n@KBD\n@R0\n@R5\n@R15",
    )
    .unwrap();
    assert_eq!(
        out,
        vec![
            "0000000000000000",
            "0000000000000001",
            "0000000000000010",
            "0000000000000011",
            "0000000000000100",
            "0100000000000000",
            "0110000000000000",
            "0000000000000000",
            "0000000000000101",
            "0000000000001111",
        ]
    );
}

#[test]
fn reserved_identifier_never_allocates_a_variable_slot() {
    // Were @SP allocated a slot, the variable after it would get 17.
    let out = run("@SP\n@fresh").unwrap();
    assert_eq!(out, vec!["0000000000000000", "0000000000010000"]);
}

#[test]
fn variables_allocate_from_sixteen_in_first_occurrence_order() {
    let out = run("@first\n@second\n@first\n@third").unwrap();
    assert_eq!(
        out,
        vec![
            "0000000000010000",
            "0000000000010001",
            "0000000000010000",
            "0000000000010010",
        ]
    );
}

#[test]
fn variable_order_is_decided_in_pass_two_not_pass_one() {
    // A forward label reference is no variable; only truly unbound symbols
    // are allocated, in instruction order.
    let out = run("@var\n@END\n(END)\n@var").unwrap();
    assert_eq!(
        out,
        vec!["0000000000010000", "0000000000000010", "0000000000010000"]
    );
}

#[test]
fn rerunning_the_pipeline_is_byte_identical() {
    let src = "(LOOP)\n@LOOP\n@x\nD=M\n0;JMP\n// done";
    let first = run(src).unwrap();
    let second = run(src).unwrap();
    assert_eq!(first, second);
}

#[test]
fn blanks_and_comments_are_dropped() {
    let out = run("\n   \n// header comment\n@1\n\nD=A // trailing words\n").unwrap();
    assert_eq!(out, vec!["0000000000000001", "1110110000010000"]);
}

#[test]
fn label_binds_to_next_instruction_index() {
    let out = run("@1\n(MID)\n@2\n@MID").unwrap();
    assert_eq!(
        out,
        vec!["0000000000000001", "0000000000000010", "0000000000000001"]
    );
}

#[test]
fn label_redefinition_last_writer_wins() {
    let out = run("(X)\n@X\n(X)\n@X").unwrap();
    assert_eq!(out, vec!["0000000000000001", "0000000000000001"]);
}

#[test]
fn label_may_shadow_a_reserved_identifier() {
    let out = run("@9\n(SP)\n@SP").unwrap();
    assert_eq!(out, vec!["0000000000001001", "0000000000000001"]);
}

#[test]
fn compute_instruction_forms() {
    let out = run("MD=D+1\nAMD=0\nD;JGE\nA=!M;JNE\n1").unwrap();
    assert_eq!(
        out,
        vec![
            "1110011111011000",
            "1110101010111000",
            "1110001100000011",
            "1111110001100101",
            "1110111111000000",
        ]
    );
}

#[test]
fn malformed_address_operands() {
    assert_eq!(
        run("@1abc"),
        Err(AsmError::Line { kind: ErrorKind::Identifier, index: 0 })
    );
    assert_eq!(
        run("@a#b"),
        Err(AsmError::Line { kind: ErrorKind::Identifier, index: 0 })
    );
    assert_eq!(
        run("@"),
        Err(AsmError::Line { kind: ErrorKind::Grammar, index: 0 })
    );
}

#[test]
fn identifier_grammar_accepts_the_special_characters() {
    let out = run("@_a.b&c:d$e9").unwrap();
    assert_eq!(out, vec!["0000000000010000"]);
}

#[test]
fn surrounding_whitespace_is_ignored() {
    let out = run("   @2\t\n  D=A  ").unwrap();
    assert_eq!(out, vec!["0000000000000010", "1110110000010000"]);
}

#[test]
fn label_at_the_top_of_the_address_space() {
    // 32767 instructions, then a label bound to 32767: still representable.
    let mut src: Vec<Vec<u8>> = std::iter::repeat(b"@1".to_vec()).take(32767).collect();
    src.push(b"(END)".to_vec());
    src.push(b"@END".to_vec());
    let out = assemble(&src).unwrap();
    assert_eq!(out.len(), 32768);
    assert_eq!(out[32767], b"0111111111111111".to_vec());
}

#[test]
fn label_past_the_address_space_is_rejected() {
    // 32768 instructions, then a label: its address no longer fits 15 bits.
    let mut src: Vec<Vec<u8>> = std::iter::repeat(b"@1".to_vec()).take(32768).collect();
    src.push(b"(END)".to_vec());
    assert_eq!(assemble(&src), Err(AsmError::AddressSpaceExhausted));
}

#[test]
fn line_classification() {
    let pl = ParsedLine::from_str(&b"@42".to_vec()).unwrap();
    assert_eq!(
        pl,
        ParsedLine::AInstruction { address_value: AddressValue::Immediate { value: 42 } }
    );
    let pl = ParsedLine::from_str(&b"@loop".to_vec()).unwrap();
    assert_eq!(
        pl,
        ParsedLine::AInstruction {
            address_value: AddressValue::Symbol { identifier: b"loop".to_vec() },
        }
    );
    let pl = ParsedLine::from_str(&b"(loop)".to_vec()).unwrap();
    assert_eq!(pl, ParsedLine::Label { label_identifier: b"loop".to_vec() });
    assert_eq!(ParsedLine::from_str(&b"".to_vec()).unwrap(), ParsedLine::Whitespace);
    assert_eq!(ParsedLine::from_str(&b"// note".to_vec()).unwrap(), ParsedLine::Comment);
    assert_eq!(
        ParsedLine::from_str(&b"(loop)x".to_vec()),
        Err(ErrorKind::Grammar)
    );
    assert_eq!(
        ParsedLine::from_str(&b"M=M+1;JGT".to_vec()).unwrap(),
        ParsedLine::CInstruction {
            destination: Destination::M,
            operation: Operation::MInc,
            jump: JumpCondition::JGT,
        }
    );
}

#[test]
fn address_operand_parsing() {
    assert_eq!(
        AddressValue::from_str(b"307".to_vec()),
        Ok(AddressValue::Immediate { value: 307 })
    );
    assert_eq!(
        AddressValue::from_str(b"counter".to_vec()),
        Ok(AddressValue::Symbol { identifier: b"counter".to_vec() })
    );
    assert_eq!(AddressValue::from_str(b"40000".to_vec()), Err(ErrorKind::Range));
    assert_eq!(AddressValue::from_str(b"9lives".to_vec()), Err(ErrorKind::Identifier));
}
