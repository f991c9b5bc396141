//! The two-pass resolver: pass 1 walks the classified lines, binds label
//! addresses and keeps the real instructions; pass 2 resolves symbolic
//! address references, allocating variable slots from address 16 upward, and
//! encodes every instruction as a 16-character line of `0`/`1` bytes.

use vstd::prelude::*;
use vstd::pervasive::arbitrary;
use crate::encode::{
    is_bit_digit,
    Destination, JumpCondition, Operation, bin_seq, bits_of, dest_code, jump_code, op_code,
};
use crate::parse::{AddrForm, AddressValue, ErrorKind, LineForm, ParsedLine, classify, subvec};
use crate::symbols::{SymbolTable, reserved_map};

verus! {

/// Why a whole assembly run fails.
#[derive(Debug, Clone, Copy, PartialEq, Eq, Structural)]
pub enum AsmError {
    /// The line at `index` is malformed, for the given reason.
    Line { kind: ErrorKind, index: usize },
    /// A label or variable binding fell outside the 15-bit address range.
    AddressSpaceExhausted,
}

/// Whether a classified line is a real instruction: one that survives pass 1
/// and is encoded by pass 2.
pub open spec fn is_real(f: LineForm) -> bool {
    f is Addr || f is Comp
}

/// The machine word of an address-instruction: `0`, then the 15-bit value.
pub open spec fn a_word(v: u16) -> Seq<u8> {
    bin_seq(v, 16)
}

/// The machine word of a compute-instruction: `111`, then the 7-bit
/// operation field, the 3-bit destination field and the 3-bit jump field,
/// with no overlap.
pub open spec fn c_word(d: Destination, o: Operation, j: JumpCondition) -> Seq<u8> {
    seq![49u8, 49u8, 49u8] + bin_seq(op_code(o) as u16, 7) + bin_seq(dest_code(d) as u16, 3)
        + bin_seq(jump_code(j) as u16, 3)
}

/// The views of a sequence of byte vectors.
pub open spec fn byte_lines(v: Seq<Vec<u8>>) -> Seq<Seq<u8>> {
    v.map_values(|w: Vec<u8>| w@)
}

/// The classifications of a sequence of parsed lines.
pub open spec fn forms(s: Seq<ParsedLine>) -> Seq<LineForm> {
    s.map_values(|p: ParsedLine| p.form())
}

/// Pass 1 from line `i` on: binds each label to the current instruction
/// count, keeps the real instructions in order, and stops at the first
/// malformed line.
pub open spec fn pass1_rec(
    lines: Seq<Seq<u8>>,
    i: int,
    m: Map<Seq<u8>, u16>,
    count: int,
    acc: Seq<LineForm>,
) -> Result<(Map<Seq<u8>, u16>, Seq<LineForm>), AsmError>
    decreases lines.len() - i,
{
    if i < 0 || i >= lines.len() {
        Ok((m, acc))
    } else {
        match classify(lines[i]) {
            Err(k) => Err(AsmError::Line { kind: k, index: i as usize }),
            Ok(f) => match f {
                LineForm::Blank => pass1_rec(lines, i + 1, m, count, acc),
                LineForm::Comment => pass1_rec(lines, i + 1, m, count, acc),
                LineForm::Label(name) => if count <= 32767 {
                    pass1_rec(lines, i + 1, m.insert(name, count as u16), count, acc)
                } else {
                    Err(AsmError::AddressSpaceExhausted)
                },
                LineForm::Addr(av) => pass1_rec(
                    lines,
                    i + 1,
                    m,
                    count + 1,
                    acc.push(LineForm::Addr(av)),
                ),
                LineForm::Comp(d, o, j) => pass1_rec(
                    lines,
                    i + 1,
                    m,
                    count + 1,
                    acc.push(LineForm::Comp(d, o, j)),
                ),
            },
        }
    }
}

/// Pass 2 from instruction `i` on: emits one machine word per instruction,
/// resolving symbols against the table and allocating a fresh slot at `nxt`
/// for each symbol not yet bound. A non-instruction in the list would be an
/// internal-consistency violation, which pass 1 rules out; the result is
/// left unspecified there.
pub open spec fn pass2_rec(
    instrs: Seq<LineForm>,
    i: int,
    m: Map<Seq<u8>, u16>,
    nxt: int,
    out: Seq<Seq<u8>>,
) -> Result<(Seq<Seq<u8>>, Map<Seq<u8>, u16>, int), AsmError>
    decreases instrs.len() - i,
{
    if i < 0 || i >= instrs.len() {
        Ok((out, m, nxt))
    } else {
        match instrs[i] {
            LineForm::Addr(AddrForm::Immediate(v)) => pass2_rec(
                instrs,
                i + 1,
                m,
                nxt,
                out.push(a_word(v)),
            ),
            LineForm::Addr(AddrForm::Symbol(id)) => if m.contains_key(id) {
                pass2_rec(instrs, i + 1, m, nxt, out.push(a_word(m[id])))
            } else if 0 <= nxt <= 32767 {
                pass2_rec(
                    instrs,
                    i + 1,
                    m.insert(id, nxt as u16),
                    nxt + 1,
                    out.push(a_word(nxt as u16)),
                )
            } else {
                Err(AsmError::AddressSpaceExhausted)
            },
            LineForm::Comp(d, o, j) => pass2_rec(instrs, i + 1, m, nxt, out.push(c_word(d, o, j))),
            _ => arbitrary(),
        }
    }
}

/// The whole pipeline on a program given as raw lines: pass 1 from the
/// reserved bindings, then pass 2 with variable slots from address 16.
pub open spec fn assemble_spec(lines: Seq<Seq<u8>>) -> Result<Seq<Seq<u8>>, AsmError> {
    match pass1_rec(lines, 0, reserved_map(), 0, Seq::empty()) {
        Err(e) => Err(e),
        Ok((m, instrs)) => match pass2_rec(instrs, 0, m, 16, Seq::empty()) {
            Err(e) => Err(e),
            Ok((out, m2, n2)) => Ok(out),
        },
    }
}

/// Law: the word of an address-instruction is 16 characters long and opens
/// with `0`: the 15-bit value never reaches the leading bit.
pub proof fn lemma_a_word_leading_zero(v: u16)
    requires
        v < 32768,
    ensures
        a_word(v).len() == 16,
        a_word(v)[0] == 48,
{
    assert((v >> 15u16) & 1 == 0) by (bit_vector)
        requires
            v < 32768,
    ;
}

/// Law: the three fields of a compute-instruction word compose as `111`,
/// then 7 operation bits, 3 destination bits and 3 jump bits; each field
/// occupies its own bit range whatever the other two fields are, so the
/// fields encode independently and never overlap.
pub proof fn lemma_c_word_fields(d: Destination, o: Operation, j: JumpCondition)
    ensures
        c_word(d, o, j).len() == 16,
        c_word(d, o, j).subrange(0, 3) == seq![49u8, 49u8, 49u8],
        c_word(d, o, j).subrange(3, 10) == bin_seq(op_code(o) as u16, 7),
        c_word(d, o, j).subrange(10, 13) == bin_seq(dest_code(d) as u16, 3),
        c_word(d, o, j).subrange(13, 16) == bin_seq(jump_code(j) as u16, 3),
{
    let w = c_word(d, o, j);
    assert(w.subrange(0, 3) =~= seq![49u8, 49u8, 49u8]);
    assert(w.subrange(3, 10) =~= bin_seq(op_code(o) as u16, 7));
    assert(w.subrange(10, 13) =~= bin_seq(dest_code(d) as u16, 3));
    assert(w.subrange(13, 16) =~= bin_seq(jump_code(j) as u16, 3));
}

/// Law: an address-instruction naming an identifier the table already binds
/// resolves to that binding and allocates no variable slot; in particular a
/// reserved identifier, referenced before any label or variable is defined,
/// resolves to its architecture-fixed value.
pub proof fn lemma_bound_symbol_resolves(m: Map<Seq<u8>, u16>, name: Seq<u8>, nxt: int)
    requires
        m.contains_key(name),
    ensures
        pass2_rec(seq![LineForm::Addr(AddrForm::Symbol(name))], 0, m, nxt, Seq::empty())
            == Ok::<_, AsmError>((seq![a_word(m[name])], m, nxt)),
{
    let instrs = seq![LineForm::Addr(AddrForm::Symbol(name))];
    let o0 = Seq::<Seq<u8>>::empty();
    let o1 = o0.push(a_word(m[name]));
    assert(instrs[0] == LineForm::Addr(AddrForm::Symbol(name)));
    assert(pass2_rec(instrs, 0, m, nxt, o0) == pass2_rec(instrs, 1, m, nxt, o1));
    assert(o1 =~= seq![a_word(m[name])]);
}

/// Law: every reserved identifier is bound to its architecture-fixed
/// address in the table the pipeline starts from, so a reference to it
/// resolves to that address and never allocates a variable slot.
pub proof fn lemma_reserved_values()
    ensures
        reserved_map()[seq![83u8, 80u8]] == 0,  // SP
        reserved_map()[seq![76u8, 67u8, 76u8]] == 1,  // LCL
        reserved_map()[seq![65u8, 82u8, 71u8]] == 2,  // ARG
        reserved_map()[seq![84u8, 72u8, 73u8, 83u8]] == 3,  // THIS
        reserved_map()[seq![84u8, 72u8, 65u8, 84u8]] == 4,  // THAT
        reserved_map()[seq![83u8, 67u8, 82u8, 69u8, 69u8, 78u8]] == 16384,  // SCREEN
        reserved_map()[seq![75u8, 66u8, 68u8]] == 24576,  // KBD
        reserved_map()[seq![82u8, 48u8]] == 0,  // R0
        reserved_map()[seq![82u8, 49u8]] == 1,  // R1
        reserved_map()[seq![82u8, 50u8]] == 2,  // R2
        reserved_map()[seq![82u8, 51u8]] == 3,  // R3
        reserved_map()[seq![82u8, 52u8]] == 4,  // R4
        reserved_map()[seq![82u8, 53u8]] == 5,  // R5
        reserved_map()[seq![82u8, 54u8]] == 6,  // R6
        reserved_map()[seq![82u8, 55u8]] == 7,  // R7
        reserved_map()[seq![82u8, 56u8]] == 8,  // R8
        reserved_map()[seq![82u8, 57u8]] == 9,  // R9
        reserved_map()[seq![82u8, 49u8, 48u8]] == 10,  // R10
        reserved_map()[seq![82u8, 49u8, 49u8]] == 11,  // R11
        reserved_map()[seq![82u8, 49u8, 50u8]] == 12,  // R12
        reserved_map()[seq![82u8, 49u8, 51u8]] == 13,  // R13
        reserved_map()[seq![82u8, 49u8, 52u8]] == 14,  // R14
        reserved_map()[seq![82u8, 49u8, 53u8]] == 15,  // R15
        forall|name: Seq<u8>| #[trigger]
            reserved_map().contains_key(name) ==> reserved_map()[name] < 32768,
{
    assert(seq![83u8, 80u8].len() == 2 && seq![83u8, 80u8][0] == 83u8 && seq![83u8, 80u8][1] == 80u8);  // SP
    assert(seq![76u8, 67u8, 76u8].len() == 3 && seq![76u8, 67u8, 76u8][0] == 76u8 && seq![76u8, 67u8, 76u8][1] == 67u8 && seq![76u8, 67u8, 76u8][2] == 76u8);  // LCL
    assert(seq![65u8, 82u8, 71u8].len() == 3 && seq![65u8, 82u8, 71u8][0] == 65u8 && seq![65u8, 82u8, 71u8][1] == 82u8 && seq![65u8, 82u8, 71u8][2] == 71u8);  // ARG
    assert(seq![84u8, 72u8, 73u8, 83u8].len() == 4 && seq![84u8, 72u8, 73u8, 83u8][0] == 84u8 && seq![84u8, 72u8, 73u8, 83u8][1] == 72u8 && seq![84u8, 72u8, 73u8, 83u8][2] == 73u8 && seq![84u8, 72u8, 73u8, 83u8][3] == 83u8);  // THIS
    assert(seq![84u8, 72u8, 65u8, 84u8].len() == 4 && seq![84u8, 72u8, 65u8, 84u8][0] == 84u8 && seq![84u8, 72u8, 65u8, 84u8][1] == 72u8 && seq![84u8, 72u8, 65u8, 84u8][2] == 65u8 && seq![84u8, 72u8, 65u8, 84u8][3] == 84u8);  // THAT
    assert(seq![83u8, 67u8, 82u8, 69u8, 69u8, 78u8].len() == 6 && seq![83u8, 67u8, 82u8, 69u8, 69u8, 78u8][0] == 83u8 && seq![83u8, 67u8, 82u8, 69u8, 69u8, 78u8][1] == 67u8 && seq![83u8, 67u8, 82u8, 69u8, 69u8, 78u8][2] == 82u8 && seq![83u8, 67u8, 82u8, 69u8, 69u8, 78u8][3] == 69u8 && seq![83u8, 67u8, 82u8, 69u8, 69u8, 78u8][4] == 69u8 && seq![83u8, 67u8, 82u8, 69u8, 69u8, 78u8][5] == 78u8);  // SCREEN
    assert(seq![75u8, 66u8, 68u8].len() == 3 && seq![75u8, 66u8, 68u8][0] == 75u8 && seq![75u8, 66u8, 68u8][1] == 66u8 && seq![75u8, 66u8, 68u8][2] == 68u8);  // KBD
    assert(seq![82u8, 48u8].len() == 2 && seq![82u8, 48u8][0] == 82u8 && seq![82u8, 48u8][1] == 48u8);  // R0
    assert(seq![82u8, 49u8].len() == 2 && seq![82u8, 49u8][0] == 82u8 && seq![82u8, 49u8][1] == 49u8);  // R1
    assert(seq![82u8, 50u8].len() == 2 && seq![82u8, 50u8][0] == 82u8 && seq![82u8, 50u8][1] == 50u8);  // R2
    assert(seq![82u8, 51u8].len() == 2 && seq![82u8, 51u8][0] == 82u8 && seq![82u8, 51u8][1] == 51u8);  // R3
    assert(seq![82u8, 52u8].len() == 2 && seq![82u8, 52u8][0] == 82u8 && seq![82u8, 52u8][1] == 52u8);  // R4
    assert(seq![82u8, 53u8].len() == 2 && seq![82u8, 53u8][0] == 82u8 && seq![82u8, 53u8][1] == 53u8);  // R5
    assert(seq![82u8, 54u8].len() == 2 && seq![82u8, 54u8][0] == 82u8 && seq![82u8, 54u8][1] == 54u8);  // R6
    assert(seq![82u8, 55u8].len() == 2 && seq![82u8, 55u8][0] == 82u8 && seq![82u8, 55u8][1] == 55u8);  // R7
    assert(seq![82u8, 56u8].len() == 2 && seq![82u8, 56u8][0] == 82u8 && seq![82u8, 56u8][1] == 56u8);  // R8
    assert(seq![82u8, 57u8].len() == 2 && seq![82u8, 57u8][0] == 82u8 && seq![82u8, 57u8][1] == 57u8);  // R9
    assert(seq![82u8, 49u8, 48u8].len() == 3 && seq![82u8, 49u8, 48u8][0] == 82u8 && seq![82u8, 49u8, 48u8][1] == 49u8 && seq![82u8, 49u8, 48u8][2] == 48u8);  // R10
    assert(seq![82u8, 49u8, 49u8].len() == 3 && seq![82u8, 49u8, 49u8][0] == 82u8 && seq![82u8, 49u8, 49u8][1] == 49u8 && seq![82u8, 49u8, 49u8][2] == 49u8);  // R11
    assert(seq![82u8, 49u8, 50u8].len() == 3 && seq![82u8, 49u8, 50u8][0] == 82u8 && seq![82u8, 49u8, 50u8][1] == 49u8 && seq![82u8, 49u8, 50u8][2] == 50u8);  // R12
    assert(seq![82u8, 49u8, 51u8].len() == 3 && seq![82u8, 49u8, 51u8][0] == 82u8 && seq![82u8, 49u8, 51u8][1] == 49u8 && seq![82u8, 49u8, 51u8][2] == 51u8);  // R13
    assert(seq![82u8, 49u8, 52u8].len() == 3 && seq![82u8, 49u8, 52u8][0] == 82u8 && seq![82u8, 49u8, 52u8][1] == 49u8 && seq![82u8, 49u8, 52u8][2] == 52u8);  // R14
    assert(seq![82u8, 49u8, 53u8].len() == 3 && seq![82u8, 49u8, 53u8][0] == 82u8 && seq![82u8, 49u8, 53u8][1] == 49u8 && seq![82u8, 49u8, 53u8][2] == 53u8);  // R15
}

/// Law: assembly is a pure function of the source text: running the whole
/// pipeline again on the same lines yields byte-identical output.
pub proof fn lemma_assemble_deterministic(a: Seq<Seq<u8>>, b: Seq<Seq<u8>>)
    requires
        a == b,
    ensures
        assemble_spec(a) == assemble_spec(b),
{
}

/// Law: variable slots are handed out in order of first occurrence during
/// pass 2: the first unbound symbol gets the cursor's address, the next
/// distinct unbound symbol the address after it, and a repeated symbol
/// reuses the slot it was given.
pub proof fn lemma_variable_allocation(m: Map<Seq<u8>, u16>, s1: Seq<u8>, s2: Seq<u8>, nxt: int)
    requires
        !m.contains_key(s1),
        !m.contains_key(s2),
        s1 != s2,
        0 <= nxt <= 32765,
    ensures
        pass2_rec(
            seq![
                LineForm::Addr(AddrForm::Symbol(s1)),
                LineForm::Addr(AddrForm::Symbol(s2)),
                LineForm::Addr(AddrForm::Symbol(s1)),
            ],
            0,
            m,
            nxt,
            Seq::empty(),
        ) == Ok::<_, AsmError>(
            (
                seq![a_word(nxt as u16), a_word((nxt + 1) as u16), a_word(nxt as u16)],
                m.insert(s1, nxt as u16).insert(s2, (nxt + 1) as u16),
                nxt + 2,
            ),
        ),
{
    let instrs = seq![
        LineForm::Addr(AddrForm::Symbol(s1)),
        LineForm::Addr(AddrForm::Symbol(s2)),
        LineForm::Addr(AddrForm::Symbol(s1)),
    ];
    let m1 = m.insert(s1, nxt as u16);
    let m2 = m1.insert(s2, (nxt + 1) as u16);
    let o0 = Seq::<Seq<u8>>::empty();
    let o1 = o0.push(a_word(nxt as u16));
    let o2 = o1.push(a_word((nxt + 1) as u16));
    let o3 = o2.push(a_word(nxt as u16));
    assert(!m1.contains_key(s2));
    assert(m2.contains_key(s1) && m2[s1] == nxt as u16);
    assert(pass2_rec(instrs, 0, m, nxt, o0) == pass2_rec(instrs, 1, m1, nxt + 1, o1));
    assert(pass2_rec(instrs, 1, m1, nxt + 1, o1) == pass2_rec(instrs, 2, m2, nxt + 2, o2));
    assert(pass2_rec(instrs, 2, m2, nxt + 2, o2) == pass2_rec(instrs, 3, m2, nxt + 2, o3));
    assert(o3 =~= seq![a_word(nxt as u16), a_word((nxt + 1) as u16), a_word(nxt as u16)]);
}

/// Whether a string has the shape of an emitted machine word: exactly 16
/// characters, each `0` or `1`.
pub open spec fn is_machine_word(w: Seq<u8>) -> bool {
    w.len() == 16 && (forall|k: int| 0 <= k < 16 ==> is_bit_digit(w[k]))
}

proof fn lemma_a_word_is_machine_word(v: u16)
    ensures
        is_machine_word(a_word(v)),
{
    assert forall|k: int| 0 <= k < 16 implies is_bit_digit(a_word(v)[k]) by {
        assert(a_word(v)[k] == bin_seq(v, 16)[k]);
    }
}

proof fn lemma_c_word_is_machine_word(d: Destination, o: Operation, j: JumpCondition)
    ensures
        is_machine_word(c_word(d, o, j)),
{
    let w = c_word(d, o, j);
    lemma_c_word_fields(d, o, j);
    assert forall|k: int| 0 <= k < 16 implies is_bit_digit(w[k]) by {
        if k < 3 {
            assert(w[k] == w.subrange(0, 3)[k]);
        } else if k < 10 {
            assert(w[k] == w.subrange(3, 10)[k - 3]);
            assert(w.subrange(3, 10)[k - 3] == bin_seq(op_code(o) as u16, 7)[k - 3]);
        } else if k < 13 {
            assert(w[k] == w.subrange(10, 13)[k - 10]);
            assert(w.subrange(10, 13)[k - 10] == bin_seq(dest_code(d) as u16, 3)[k - 10]);
        } else {
            assert(w[k] == w.subrange(13, 16)[k - 13]);
            assert(w.subrange(13, 16)[k - 13] == bin_seq(jump_code(j) as u16, 3)[k - 13]);
        }
    }
}

proof fn lemma_pass1_rec_real(
    lines: Seq<Seq<u8>>,
    i: int,
    m: Map<Seq<u8>, u16>,
    count: int,
    acc: Seq<LineForm>,
)
    requires
        forall|j: int| 0 <= j < acc.len() ==> is_real(#[trigger] acc[j]),
    ensures
        pass1_rec(lines, i, m, count, acc) matches Ok(t) ==> forall|j: int|
            0 <= j < t.1.len() ==> is_real(#[trigger] t.1[j]),
    decreases lines.len() - i,
{
    if i < 0 || i >= lines.len() {
    } else {
        match classify(lines[i]) {
            Err(_) => {},
            Ok(f) => match f {
                LineForm::Blank => {
                    lemma_pass1_rec_real(lines, i + 1, m, count, acc);
                },
                LineForm::Comment => {
                    lemma_pass1_rec_real(lines, i + 1, m, count, acc);
                },
                LineForm::Label(name) => {
                    if count <= 32767 {
                        lemma_pass1_rec_real(lines, i + 1, m.insert(name, count as u16), count, acc);
                    }
                },
                LineForm::Addr(av) => {
                    lemma_pass1_rec_real(lines, i + 1, m, count + 1, acc.push(LineForm::Addr(av)));
                },
                LineForm::Comp(d, o, jc) => {
                    lemma_pass1_rec_real(
                        lines,
                        i + 1,
                        m,
                        count + 1,
                        acc.push(LineForm::Comp(d, o, jc)),
                    );
                },
            },
        }
    }
}

proof fn lemma_pass2_rec_words(
    instrs: Seq<LineForm>,
    i: int,
    m: Map<Seq<u8>, u16>,
    nxt: int,
    out: Seq<Seq<u8>>,
)
    requires
        forall|j: int| 0 <= j < instrs.len() ==> is_real(#[trigger] instrs[j]),
        forall|j: int| 0 <= j < out.len() ==> is_machine_word(#[trigger] out[j]),
    ensures
        pass2_rec(instrs, i, m, nxt, out) matches Ok(t) ==> forall|j: int|
            0 <= j < t.0.len() ==> is_machine_word(#[trigger] t.0[j]),
    decreases instrs.len() - i,
{
    if i < 0 || i >= instrs.len() {
    } else {
        match instrs[i] {
            LineForm::Addr(AddrForm::Immediate(v)) => {
                lemma_a_word_is_machine_word(v);
                lemma_pass2_rec_words(instrs, i + 1, m, nxt, out.push(a_word(v)));
            },
            LineForm::Addr(AddrForm::Symbol(id)) => {
                if m.contains_key(id) {
                    lemma_a_word_is_machine_word(m[id]);
                    lemma_pass2_rec_words(instrs, i + 1, m, nxt, out.push(a_word(m[id])));
                } else if 0 <= nxt <= 32767 {
                    lemma_a_word_is_machine_word(nxt as u16);
                    lemma_pass2_rec_words(
                        instrs,
                        i + 1,
                        m.insert(id, nxt as u16),
                        nxt + 1,
                        out.push(a_word(nxt as u16)),
                    );
                }
            },
            LineForm::Comp(d, o, jc) => {
                lemma_c_word_is_machine_word(d, o, jc);
                lemma_pass2_rec_words(instrs, i + 1, m, nxt, out.push(c_word(d, o, jc)));
            },
            _ => {
                assert(is_real(instrs[i]));
            },
        }
    }
}

/// Law: every line of a successful assembly is a machine word: exactly 16
/// characters, each `0` or `1`.
pub proof fn lemma_output_lines_are_machine_words(lines: Seq<Seq<u8>>, out: Seq<Seq<u8>>)
    requires
        assemble_spec(lines) == Ok::<_, AsmError>(out),
    ensures
        forall|j: int| 0 <= j < out.len() ==> is_machine_word(#[trigger] out[j]),
{
    lemma_pass1_rec_real(lines, 0, reserved_map(), 0, Seq::empty());
    match pass1_rec(lines, 0, reserved_map(), 0, Seq::empty()) {
        Err(_) => {},
        Ok((m, instrs)) => {
            lemma_pass2_rec_words(instrs, 0, m, 16, Seq::empty());
        },
    }
}

/// Encodes an address-instruction word.
pub fn encode_a_instruction(value: u16) -> (r: Vec<u8>)
    ensures
        r@ == a_word(value),
{
    bits_of(value, 16)
}

/// Encodes a compute-instruction word from its three independent fields.
pub fn encode_c_instruction(d: Destination, o: Operation, j: JumpCondition) -> (r: Vec<u8>)
    ensures
        r@ == c_word(d, o, j),
{
    let mut r: Vec<u8> = Vec::new();
    r.push(49);
    r.push(49);
    r.push(49);
    let mut fo = o.get_machine_code_string();
    r.append(&mut fo);
    let mut fd = d.get_machine_code_string();
    r.append(&mut fd);
    let mut fj = j.get_machine_code_string();
    r.append(&mut fj);
    proof {
        assert(r@ =~= c_word(d, o, j));
    }
    r
}

/// Pass 1: classifies every line, binds labels, and returns the ordered list
/// of real instructions for pass 2.
pub fn pass1(lines: &Vec<Vec<u8>>, table: &mut SymbolTable) -> (r: Result<Vec<ParsedLine>, AsmError>)
    requires
        old(table).wf(),
    ensures
        final(table).wf(),
        match r {
            Ok(instrs) => pass1_rec(byte_lines(lines@), 0, old(table)@, 0, Seq::empty())
                == Ok::<_, AsmError>((final(table)@, forms(instrs@))) && (forall|i: int|
                0 <= i < instrs@.len() ==> is_real(#[trigger] instrs@[i].form())),
            Err(e) => pass1_rec(byte_lines(lines@), 0, old(table)@, 0, Seq::empty()) == Err::<
                (Map<Seq<u8>, u16>, Seq<LineForm>),
                _,
            >(e),
        },
{
    let ghost dv = byte_lines(lines@);
    let ghost m0 = old(table)@;
    let mut instrs: Vec<ParsedLine> = Vec::new();
    let mut count: usize = 0;
    let mut i: usize = 0;
    proof {
        assert(forms(instrs@) =~= Seq::<LineForm>::empty());
    }
    while i < lines.len()
        invariant
            table.wf(),
            i <= lines@.len(),
            m0 == old(table)@,
            dv == byte_lines(lines@),
            dv.len() == lines@.len(),
            count == instrs@.len(),
            forall|j: int| 0 <= j < instrs@.len() ==> is_real(#[trigger] instrs@[j].form()),
            pass1_rec(dv, i as int, table@, count as int, forms(instrs@)) == pass1_rec(
                dv,
                0,
                m0,
                0,
                Seq::empty(),
            ),
        decreases lines@.len() - i,
    {
        proof {
            assert(dv[i as int] == lines@[i as int]@);
        }
        let ghost table_before = table@;
        let ghost forms_before = forms(instrs@);
        match ParsedLine::from_str(&lines[i]) {
            Err(k) => {
                return Err(AsmError::Line { kind: k, index: i });
            },
            Ok(pl) => {
                match pl {
                    ParsedLine::Whitespace => {},
                    ParsedLine::Comment => {},
                    ParsedLine::Label { label_identifier } => {
                        if count > 32767 {
                            return Err(AsmError::AddressSpaceExhausted);
                        }
                        table.insert(label_identifier, count as u16);
                    },
                    ParsedLine::AInstruction { .. } => {
                        proof {
                            assert(forms(instrs@.push(pl)) =~= forms_before.push(pl.form()));
                        }
                        instrs.push(pl);
                        count = instrs.len();
                    },
                    ParsedLine::CInstruction { .. } => {
                        proof {
                            assert(forms(instrs@.push(pl)) =~= forms_before.push(pl.form()));
                        }
                        instrs.push(pl);
                        count = instrs.len();
                    },
                }
            },
        }
        i = i + 1;
    }
    Ok(instrs)
}

/// Pass 2: encodes every instruction of the pass-1 output in order,
/// allocating variable addresses from 16 upward at a symbol's first
/// occurrence.
pub fn pass2(instrs: &Vec<ParsedLine>, table: &mut SymbolTable) -> (r: Result<Vec<Vec<u8>>, AsmError>)
    requires
        old(table).wf(),
        forall|i: int| 0 <= i < instrs@.len() ==> is_real(#[trigger] instrs@[i].form()),
    ensures
        final(table).wf(),
        match r {
            Ok(out) => pass2_rec(forms(instrs@), 0, old(table)@, 16, Seq::empty()) matches Ok(t)
                && t.0 == byte_lines(out@) && t.1 == final(table)@,
            Err(e) => pass2_rec(forms(instrs@), 0, old(table)@, 16, Seq::empty()) == Err::<
                (Seq<Seq<u8>>, Map<Seq<u8>, u16>, int),
                _,
            >(e),
        },
{
    let ghost fs = forms(instrs@);
    let ghost m0 = old(table)@;
    let mut out: Vec<Vec<u8>> = Vec::new();
    let mut nxt: u32 = 16;
    let mut i: usize = 0;
    proof {
        assert(byte_lines(out@) =~= Seq::<Seq<u8>>::empty());
    }
    while i < instrs.len()
        invariant
            table.wf(),
            i <= instrs@.len(),
            m0 == old(table)@,
            fs == forms(instrs@),
            fs.len() == instrs@.len(),
            forall|j: int| 0 <= j < instrs@.len() ==> is_real(#[trigger] instrs@[j].form()),
            16 <= nxt <= 32768,
            pass2_rec(fs, i as int, table@, nxt as int, byte_lines(out@)) == pass2_rec(
                fs,
                0,
                m0,
                16,
                Seq::empty(),
            ),
        decreases instrs@.len() - i,
    {
        proof {
            assert(fs[i as int] == instrs@[i as int].form());
        }
        let ghost out_before = byte_lines(out@);
        match &instrs[i] {
            ParsedLine::AInstruction { address_value: AddressValue::Immediate { value } } => {
                let w = encode_a_instruction(*value);
                out.push(w);
                proof {
                    assert(byte_lines(out@) =~= out_before.push(a_word(*value)));
                }
            },
            ParsedLine::AInstruction { address_value: AddressValue::Symbol { identifier } } => {
                match table.get(identifier) {
                    Some(v) => {
                        let w = encode_a_instruction(v);
                        out.push(w);
                        proof {
                            assert(byte_lines(out@) =~= out_before.push(a_word(v)));
                        }
                    },
                    None => {
                        if nxt > 32767 {
                            return Err(AsmError::AddressSpaceExhausted);
                        }
                        let v = nxt as u16;
                        let key = subvec(identifier, 0, identifier.len());
                        proof {
                            assert(key@ =~= identifier@);
                        }
                        table.insert(key, v);
                        nxt = nxt + 1;
                        let w = encode_a_instruction(v);
                        out.push(w);
                        proof {
                            assert(byte_lines(out@) =~= out_before.push(a_word(v)));
                        }
                    },
                }
            },
            ParsedLine::CInstruction { destination, operation, jump } => {
                let w = encode_c_instruction(*destination, *operation, *jump);
                out.push(w);
                proof {
                    assert(byte_lines(out@) =~= out_before.push(
                        c_word(*destination, *operation, *jump),
                    ));
                }
            },
            ParsedLine::Whitespace => {
                proof {
                    assert(false);
                }
                return Err(AsmError::AddressSpaceExhausted);
            },
            ParsedLine::Comment => {
                proof {
                    assert(false);
                }
                return Err(AsmError::AddressSpaceExhausted);
            },
            ParsedLine::Label { .. } => {
                proof {
                    assert(false);
                }
                return Err(AsmError::AddressSpaceExhausted);
            },
        }
        i = i + 1;
    }
    Ok(out)
}

/// Assembles a whole program, given as raw source lines, into its machine
/// words, or reports the first failure.
pub fn assemble(lines: &Vec<Vec<u8>>) -> (r: Result<Vec<Vec<u8>>, AsmError>)
    ensures
        match r {
            Ok(out) => assemble_spec(byte_lines(lines@)) == Ok::<_, AsmError>(byte_lines(out@)),
            Err(e) => assemble_spec(byte_lines(lines@)) == Err::<Seq<Seq<u8>>, _>(e),
        },
{
    let mut table = SymbolTable::new();
    match pass1(lines, &mut table) {
        Err(e) => Err(e),
        Ok(instrs) => match pass2(&instrs, &mut table) {
            Err(e) => Err(e),
            Ok(out) => Ok(out),
        },
    }
}

} // verus!
