//! Tests of the fixed mnemonic tables: lookups, machine-code fields, and the
//! round trip through the inverse lookups.

use hack_assembler::encode::{Destination, JumpCondition, Operation};

fn all_destinations() -> Vec<Destination> {
    vec![
        Destination::NoDest,
        Destination::M,
        Destination::D,
        Destination::MD,
        Destination::A,
        Destination::AM,
        Destination::AD,
        Destination::AMD,
    ]
}

fn all_jumps() -> Vec<JumpCondition> {
    vec![
        JumpCondition::NoJump,
        JumpCondition::JGT,
        JumpCondition::JEQ,
        JumpCondition::JGE,
        JumpCondition::JLT,
        JumpCondition::JNE,
        JumpCondition::JLE,
        JumpCondition::JMP,
    ]
}

fn all_operations() -> Vec<(Operation, &'static str, &'static str)> {
    vec![
        (Operation::Zero, "0", "0101010"),
        (Operation::One, "1", "0111111"),
        (Operation::NegativeOne, "-1", "0111010"),
        (Operation::D, "D", "0001100"),
        (Operation::A, "A", "0110000"),
        (Operation::NotD, "!D", "0001101"),
        (Operation::NotA, "!A", "0110001"),
        (Operation::NegD, "-D", "0001111"),
        (Operation::NegA, "-A", "0110011"),
        (Operation::DInc, "D+1", "0011111"),
        (Operation::AInc, "A+1", "0110111"),
        (Operation::DDec, "D-1", "0001110"),
        (Operation::ADec, "A-1", "0110010"),
        (Operation::DPlusA, "D+A", "0000010"),
        (Operation::DSubA, "D-A", "0010011"),
        (Operation::ASubD, "A-D", "0000111"),
        (Operation::DAndA, "D&A", "0000000"),
        (Operation::DOrA, "D|A", "0010101"),
        (Operation::M, "M", "1110000"),
        (Operation::NotM, "!M", "1110001"),
        (Operation::NegM, "-M", "1110011"),
        (Operation::MInc, "M+1", "1110111"),
        (Operation::MDec, "M-1", "1110010"),
        (Operation::DPlusM, "D+M", "1000010"),
        (Operation::DSubM, "D-M", "1010011"),
        (Operation::MSubD, "M-D", "1000111"),
        (Operation::DAndM, "D&M", "1000000"),
        (Operation::DOrM, "D|M", "1010101"),
    ]
}

#[test]
fn destination_machine_code_values() {
    let expected = ["000", "001", "010", "011", "100", "101", "110", "111"];
    for (d, want) in all_destinations().into_iter().zip(expected.iter()) {
        assert_eq!(d.get_machine_code_string(), want.as_bytes().to_vec());
    }
}

#[test]
fn jump_machine_code_values() {
    let expected = ["000", "001", "010", "011", "100", "101", "110", "111"];
    for (j, want) in all_jumps().into_iter().zip(expected.iter()) {
        assert_eq!(j.get_machine_code_string(), want.as_bytes().to_vec());
    }
}

#[test]
fn operation_machine_code_values() {
    for (o, _, bits) in all_operations() {
        assert_eq!(o.get_machine_code_string(), bits.as_bytes().to_vec());
    }
}

#[test]
fn destination_round_trip() {
    for d in all_destinations() {
        let code = d.get_machine_code_string();
        assert_eq!(Destination::from_machine_code(&code), Some(d));
    }
}

#[test]
fn jump_round_trip() {
    for j in all_jumps() {
        let code = j.get_machine_code_string();
        assert_eq!(JumpCondition::from_machine_code(&code), Some(j));
    }
}

#[test]
fn operation_round_trip() {
    for (o, _, _) in all_operations() {
        let code = o.get_machine_code_string();
        assert_eq!(Operation::from_machine_code(&code), Some(o));
    }
}

#[test]
fn destination_mnemonic_lookup() {
    assert_eq!(Destination::from_str(&b"".to_vec()), Some(Destination::NoDest));
    assert_eq!(Destination::from_str(&b"M".to_vec()), Some(Destination::M));
    assert_eq!(Destination::from_str(&b"D".to_vec()), Some(Destination::D));
    assert_eq!(Destination::from_str(&b"MD".to_vec()), Some(Destination::MD));
    assert_eq!(Destination::from_str(&b"A".to_vec()), Some(Destination::A));
    assert_eq!(Destination::from_str(&b"AM".to_vec()), Some(Destination::AM));
    assert_eq!(Destination::from_str(&b"AD".to_vec()), Some(Destination::AD));
    assert_eq!(Destination::from_str(&b"AMD".to_vec()), Some(Destination::AMD));
    assert_eq!(Destination::from_str(&b"DM".to_vec()), None);
    assert_eq!(Destination::from_str(&b"X".to_vec()), None);
}

#[test]
fn jump_mnemonic_lookup() {
    assert_eq!(JumpCondition::from_str(&b"".to_vec()), Some(JumpCondition::NoJump));
    assert_eq!(JumpCondition::from_str(&b"JGT".to_vec()), Some(JumpCondition::JGT));
    assert_eq!(JumpCondition::from_str(&b"JEQ".to_vec()), Some(JumpCondition::JEQ));
    assert_eq!(JumpCondition::from_str(&b"JGE".to_vec()), Some(JumpCondition::JGE));
    assert_eq!(JumpCondition::from_str(&b"JLT".to_vec()), Some(JumpCondition::JLT));
    assert_eq!(JumpCondition::from_str(&b"JNE".to_vec()), Some(JumpCondition::JNE));
    assert_eq!(JumpCondition::from_str(&b"JLE".to_vec()), Some(JumpCondition::JLE));
    assert_eq!(JumpCondition::from_str(&b"JMP".to_vec()), Some(JumpCondition::JMP));
    assert_eq!(JumpCondition::from_str(&b"JXX".to_vec()), None);
}

#[test]
fn operation_mnemonic_lookup() {
    for (o, mnemonic, _) in all_operations() {
        assert_eq!(Operation::from_str(&mnemonic.as_bytes().to_vec()), Some(o));
    }
    assert_eq!(Operation::from_str(&b"".to_vec()), None);
    assert_eq!(Operation::from_str(&b"A+D".to_vec()), None);
    assert_eq!(Operation::from_str(&b"Y+Z".to_vec()), None);
}

#[test]
fn malformed_machine_code_is_rejected() {
    assert_eq!(Destination::from_machine_code(&b"0000".to_vec()), None);
    assert_eq!(Destination::from_machine_code(&b"01".to_vec()), None);
    assert_eq!(Destination::from_machine_code(&b"0a1".to_vec()), None);
    assert_eq!(JumpCondition::from_machine_code(&b"2x1".to_vec()), None);
    assert_eq!(Operation::from_machine_code(&b"0101".to_vec()), None);
    // A 7-bit pattern outside the operation table has no mnemonic.
    assert_eq!(Operation::from_machine_code(&b"1111111".to_vec()), None);
}
