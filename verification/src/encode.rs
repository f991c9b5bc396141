//! The fixed mnemonic tables of the architecture: destination registers, ALU
//! operations and jump conditions, each with its machine-code bit pattern, the
//! inverse lookups, and the rendering of code words as `0`/`1` byte strings.

use vstd::prelude::*;

verus! {

// ASCII codes of the characters the mnemonics are written with.
pub const CH_A: u8 = 65;
pub const CH_D: u8 = 68;
pub const CH_E: u8 = 69;
pub const CH_G: u8 = 71;
pub const CH_J: u8 = 74;
pub const CH_L: u8 = 76;
pub const CH_M: u8 = 77;
pub const CH_N: u8 = 78;
pub const CH_P: u8 = 80;
pub const CH_Q: u8 = 81;
pub const CH_T: u8 = 84;
pub const CH_0: u8 = 48;
pub const CH_1: u8 = 49;
pub const CH_BANG: u8 = 33;
pub const CH_AMP: u8 = 38;
pub const CH_PLUS: u8 = 43;
pub const CH_MINUS: u8 = 45;
pub const CH_PIPE: u8 = 124;

/// The register set a compute-instruction stores its result into.
#[derive(Clone, Copy, Debug, PartialEq, Eq, Structural)]
pub enum Destination {
    NoDest,
    M,
    D,
    MD,
    A,
    AM,
    AD,
    AMD,
}

/// The jump condition of a compute-instruction.
#[derive(Clone, Copy, Debug, PartialEq, Eq, Structural)]
pub enum JumpCondition {
    NoJump,
    JGT,
    JEQ,
    JGE,
    JLT,
    JNE,
    JLE,
    JMP,
}

/// The ALU operation of a compute-instruction.
#[derive(Clone, Copy, Debug, PartialEq, Eq, Structural)]
pub enum Operation {
    Zero,
    One,
    NegativeOne,
    D,
    A,
    NotD,
    NotA,
    NegD,
    NegA,
    DInc,
    AInc,
    DDec,
    ADec,
    DPlusA,
    DSubA,
    ASubD,
    DAndA,
    DOrA,
    M,
    NotM,
    NegM,
    MInc,
    MDec,
    DPlusM,
    DSubM,
    MSubD,
    DAndM,
    DOrM,
}

/// The 3-bit code of a destination.
pub open spec fn dest_code(d: Destination) -> u8 {
    match d {
        Destination::NoDest => 0,
        Destination::M => 1,
        Destination::D => 2,
        Destination::MD => 3,
        Destination::A => 4,
        Destination::AM => 5,
        Destination::AD => 6,
        Destination::AMD => 7,
    }
}

/// The 3-bit code of a jump condition.
pub open spec fn jump_code(j: JumpCondition) -> u8 {
    match j {
        JumpCondition::NoJump => 0,
        JumpCondition::JGT => 1,
        JumpCondition::JEQ => 2,
        JumpCondition::JGE => 3,
        JumpCondition::JLT => 4,
        JumpCondition::JNE => 5,
        JumpCondition::JLE => 6,
        JumpCondition::JMP => 7,
    }
}

/// The 7-bit code of an operation: the high bit selects memory as the second
/// ALU operand, the low six bits select the ALU function.
pub open spec fn op_code(o: Operation) -> u8 {
    match o {
        Operation::Zero => 0b0101010,
        Operation::One => 0b0111111,
        Operation::NegativeOne => 0b0111010,
        Operation::D => 0b0001100,
        Operation::A => 0b0110000,
        Operation::NotD => 0b0001101,
        Operation::NotA => 0b0110001,
        Operation::NegD => 0b0001111,
        Operation::NegA => 0b0110011,
        Operation::DInc => 0b0011111,
        Operation::AInc => 0b0110111,
        Operation::DDec => 0b0001110,
        Operation::ADec => 0b0110010,
        Operation::DPlusA => 0b0000010,
        Operation::DSubA => 0b0010011,
        Operation::ASubD => 0b0000111,
        Operation::DAndA => 0b0000000,
        Operation::DOrA => 0b0010101,
        Operation::M => 0b1110000,
        Operation::NotM => 0b1110001,
        Operation::NegM => 0b1110011,
        Operation::MInc => 0b1110111,
        Operation::MDec => 0b1110010,
        Operation::DPlusM => 0b1000010,
        Operation::DSubM => 0b1010011,
        Operation::MSubD => 0b1000111,
        Operation::DAndM => 0b1000000,
        Operation::DOrM => 0b1010101,
    }
}

/// The big-endian binary rendering of `v` in `w` bit positions, as `0`/`1`
/// bytes.
pub open spec fn bin_seq(v: u16, w: int) -> Seq<u8> {
    Seq::new(
        w as nat,
        |i: int| if (v >> ((w - 1 - i) as u16)) & 1 == 1 { 49u8 } else { 48u8 },
    )
}

/// Renders the low `w` bits of `v` big-endian as `0`/`1` bytes.
pub fn bits_of(v: u16, w: usize) -> (r: Vec<u8>)
    requires
        w <= 16,
    ensures
        r@ == bin_seq(v, w as int),
{
    let mut r: Vec<u8> = Vec::new();
    let mut i: usize = 0;
    while i < w
        invariant
            i <= w,
            w <= 16,
            r@.len() == i,
            forall|j: int|
                0 <= j < i ==> r@[j] == (if (v >> ((w - 1 - j) as u16)) & 1 == 1 {
                    49u8
                } else {
                    48u8
                }),
        decreases w - i,
    {
        let k: u16 = (w - 1 - i) as u16;
        let bit: u16 = (v >> k) & 1;
        r.push(if bit == 1 { 49u8 } else { 48u8 });
        i = i + 1;
    }
    proof {
        assert(r@ =~= bin_seq(v, w as int));
    }
    r
}

/// Whether a byte is the character `0` or `1`.
pub open spec fn is_bit_digit(b: u8) -> bool {
    b == 48 || b == 49
}

/// The numeric value of a `0`/`1` byte.
pub open spec fn bit_digit_val(b: u8) -> int {
    if b == 49 {
        1
    } else {
        0
    }
}

/// The value of a 3-character big-endian bit string.
pub open spec fn bits_val3(s: Seq<u8>) -> int {
    4 * bit_digit_val(s[0]) + 2 * bit_digit_val(s[1]) + bit_digit_val(s[2])
}

/// The value of a 7-character big-endian bit string.
pub open spec fn bits_val7(s: Seq<u8>) -> int {
    64 * bit_digit_val(s[0]) + 32 * bit_digit_val(s[1]) + 16 * bit_digit_val(s[2]) + 8
        * bit_digit_val(s[3]) + 4 * bit_digit_val(s[4]) + 2 * bit_digit_val(s[5]) + bit_digit_val(
        s[6],
    )
}

/// The destination with a given 3-bit code.
pub open spec fn dest_of_code(c: u8) -> Option<Destination> {
    if c == 0 {
        Some(Destination::NoDest)
    } else if c == 1 {
        Some(Destination::M)
    } else if c == 2 {
        Some(Destination::D)
    } else if c == 3 {
        Some(Destination::MD)
    } else if c == 4 {
        Some(Destination::A)
    } else if c == 5 {
        Some(Destination::AM)
    } else if c == 6 {
        Some(Destination::AD)
    } else if c == 7 {
        Some(Destination::AMD)
    } else {
        None
    }
}

/// The jump condition with a given 3-bit code.
pub open spec fn jump_of_code(c: u8) -> Option<JumpCondition> {
    if c == 0 {
        Some(JumpCondition::NoJump)
    } else if c == 1 {
        Some(JumpCondition::JGT)
    } else if c == 2 {
        Some(JumpCondition::JEQ)
    } else if c == 3 {
        Some(JumpCondition::JGE)
    } else if c == 4 {
        Some(JumpCondition::JLT)
    } else if c == 5 {
        Some(JumpCondition::JNE)
    } else if c == 6 {
        Some(JumpCondition::JLE)
    } else if c == 7 {
        Some(JumpCondition::JMP)
    } else {
        None
    }
}

/// The operation with a given 7-bit code.
pub open spec fn op_of_code(c: u8) -> Option<Operation> {
    if c == 0b0101010 {
        Some(Operation::Zero)
    } else if c == 0b0111111 {
        Some(Operation::One)
    } else if c == 0b0111010 {
        Some(Operation::NegativeOne)
    } else if c == 0b0001100 {
        Some(Operation::D)
    } else if c == 0b0110000 {
        Some(Operation::A)
    } else if c == 0b0001101 {
        Some(Operation::NotD)
    } else if c == 0b0110001 {
        Some(Operation::NotA)
    } else if c == 0b0001111 {
        Some(Operation::NegD)
    } else if c == 0b0110011 {
        Some(Operation::NegA)
    } else if c == 0b0011111 {
        Some(Operation::DInc)
    } else if c == 0b0110111 {
        Some(Operation::AInc)
    } else if c == 0b0001110 {
        Some(Operation::DDec)
    } else if c == 0b0110010 {
        Some(Operation::ADec)
    } else if c == 0b0000010 {
        Some(Operation::DPlusA)
    } else if c == 0b0010011 {
        Some(Operation::DSubA)
    } else if c == 0b0000111 {
        Some(Operation::ASubD)
    } else if c == 0b0000000 {
        Some(Operation::DAndA)
    } else if c == 0b0010101 {
        Some(Operation::DOrA)
    } else if c == 0b1110000 {
        Some(Operation::M)
    } else if c == 0b1110001 {
        Some(Operation::NotM)
    } else if c == 0b1110011 {
        Some(Operation::NegM)
    } else if c == 0b1110111 {
        Some(Operation::MInc)
    } else if c == 0b1110010 {
        Some(Operation::MDec)
    } else if c == 0b1000010 {
        Some(Operation::DPlusM)
    } else if c == 0b1010011 {
        Some(Operation::DSubM)
    } else if c == 0b1000111 {
        Some(Operation::MSubD)
    } else if c == 0b1000000 {
        Some(Operation::DAndM)
    } else if c == 0b1010101 {
        Some(Operation::DOrM)
    } else {
        None
    }
}

/// The inverse lookup of the destination table on a 3-character bit string.
pub open spec fn dest_from_bits(s: Seq<u8>) -> Option<Destination> {
    if s.len() == 3 && is_bit_digit(s[0]) && is_bit_digit(s[1]) && is_bit_digit(s[2]) {
        dest_of_code(bits_val3(s) as u8)
    } else {
        None
    }
}

/// The inverse lookup of the jump table on a 3-character bit string.
pub open spec fn jump_from_bits(s: Seq<u8>) -> Option<JumpCondition> {
    if s.len() == 3 && is_bit_digit(s[0]) && is_bit_digit(s[1]) && is_bit_digit(s[2]) {
        jump_of_code(bits_val3(s) as u8)
    } else {
        None
    }
}

/// The inverse lookup of the operation table on a 7-character bit string.
pub open spec fn op_from_bits(s: Seq<u8>) -> Option<Operation> {
    if s.len() == 7 && (forall|i: int| 0 <= i < 7 ==> is_bit_digit(s[i])) {
        op_of_code(bits_val7(s) as u8)
    } else {
        None
    }
}

proof fn lemma_bin3_val(c: u8)
    requires
        c < 8,
    ensures
        bin_seq(c as u16, 3).len() == 3,
        forall|i: int| 0 <= i < 3 ==> is_bit_digit(#[trigger] bin_seq(c as u16, 3)[i]),
        bits_val3(bin_seq(c as u16, 3)) == c,
{
    let v = c as u16;
    let s = bin_seq(v, 3);
    assert(((v >> 2u16) & 1) * 4 + ((v >> 1u16) & 1) * 2 + ((v >> 0u16) & 1) == v)
        by (bit_vector)
        requires
            v < 8,
    ;
    assert(s[0] == (if (v >> 2u16) & 1 == 1 { 49u8 } else { 48u8 }));
    assert(s[1] == (if (v >> 1u16) & 1 == 1 { 49u8 } else { 48u8 }));
    assert(s[2] == (if (v >> 0u16) & 1 == 1 { 49u8 } else { 48u8 }));
    assert((v >> 2u16) & 1 == 0 || (v >> 2u16) & 1 == 1) by (bit_vector);
    assert((v >> 1u16) & 1 == 0 || (v >> 1u16) & 1 == 1) by (bit_vector);
    assert((v >> 0u16) & 1 == 0 || (v >> 0u16) & 1 == 1) by (bit_vector);
}

proof fn lemma_bin7_val(c: u8)
    requires
        c < 128,
    ensures
        bin_seq(c as u16, 7).len() == 7,
        forall|i: int| 0 <= i < 7 ==> is_bit_digit(#[trigger] bin_seq(c as u16, 7)[i]),
        bits_val7(bin_seq(c as u16, 7)) == c,
{
    let v = c as u16;
    let s = bin_seq(v, 7);
    assert(((v >> 6u16) & 1) * 64 + ((v >> 5u16) & 1) * 32 + ((v >> 4u16) & 1) * 16 + ((v >> 3u16)
        & 1) * 8 + ((v >> 2u16) & 1) * 4 + ((v >> 1u16) & 1) * 2 + ((v >> 0u16) & 1) == v)
        by (bit_vector)
        requires
            v < 128,
    ;
    assert forall|k: u16| k < 7 implies (v >> k) & 1 == 0 || (v >> k) & 1 == 1 by {
        assert((v >> k) & 1 == 0 || (v >> k) & 1 == 1) by (bit_vector);
    }
    assert(s[0] == (if (v >> 6u16) & 1 == 1 { 49u8 } else { 48u8 }));
    assert(s[1] == (if (v >> 5u16) & 1 == 1 { 49u8 } else { 48u8 }));
    assert(s[2] == (if (v >> 4u16) & 1 == 1 { 49u8 } else { 48u8 }));
    assert(s[3] == (if (v >> 3u16) & 1 == 1 { 49u8 } else { 48u8 }));
    assert(s[4] == (if (v >> 2u16) & 1 == 1 { 49u8 } else { 48u8 }));
    assert(s[5] == (if (v >> 1u16) & 1 == 1 { 49u8 } else { 48u8 }));
    assert(s[6] == (if (v >> 0u16) & 1 == 1 { 49u8 } else { 48u8 }));
}

/// Law: the inverse lookup of the destination table recovers every
/// destination from its machine-code field.
pub proof fn lemma_destination_round_trip(d: Destination)
    ensures
        dest_from_bits(bin_seq(dest_code(d) as u16, 3)) == Some(d),
{
    lemma_bin3_val(dest_code(d));
}

/// Law: the inverse lookup of the jump table recovers every jump condition
/// from its machine-code field.
pub proof fn lemma_jump_round_trip(j: JumpCondition)
    ensures
        jump_from_bits(bin_seq(jump_code(j) as u16, 3)) == Some(j),
{
    lemma_bin3_val(jump_code(j));
}

/// Law: the inverse lookup of the operation table recovers every operation
/// from its machine-code field.
pub proof fn lemma_operation_round_trip(o: Operation)
    ensures
        op_from_bits(bin_seq(op_code(o) as u16, 7)) == Some(o),
{
    lemma_bin7_val(op_code(o));
}

/// Reads a 3-character bit string back as its numeric value.
fn bits3_code(s: &Vec<u8>) -> (r: Option<u8>)
    ensures
        match r {
            Some(c) => s@.len() == 3 && (forall|i: int| 0 <= i < 3 ==> is_bit_digit(s@[i])) && c
                == bits_val3(s@),
            None => !(s@.len() == 3 && (forall|i: int| 0 <= i < 3 ==> is_bit_digit(s@[i]))),
        },
{
    if s.len() != 3 {
        return None;
    }
    let mut c: u8 = 0;
    let mut i: usize = 0;
    while i < 3
        invariant
            i <= 3,
            s@.len() == 3,
            forall|j: int| 0 <= j < i ==> is_bit_digit(s@[j]),
            c < 8,
            c == (if i == 0 {
                0int
            } else if i == 1 {
                bit_digit_val(s@[0])
            } else if i == 2 {
                2 * bit_digit_val(s@[0]) + bit_digit_val(s@[1])
            } else {
                bits_val3(s@)
            }),
        decreases 3 - i,
    {
        let b = s[i];
        if b != 48 && b != 49 {
            return None;
        }
        c = 2 * c + (if b == 49 {
            1
        } else {
            0
        });
        i = i + 1;
    }
    Some(c)
}

/// Reads a 7-character bit string back as its numeric value.
fn bits7_code(s: &Vec<u8>) -> (r: Option<u8>)
    ensures
        match r {
            Some(c) => s@.len() == 7 && (forall|i: int| 0 <= i < 7 ==> is_bit_digit(s@[i])) && c
                == bits_val7(s@),
            None => !(s@.len() == 7 && (forall|i: int| 0 <= i < 7 ==> is_bit_digit(s@[i]))),
        },
{
    if s.len() != 7 {
        return None;
    }
    let mut c: u8 = 0;
    let mut i: usize = 0;
    while i < 7
        invariant
            i <= 7,
            s@.len() == 7,
            forall|j: int| 0 <= j < i ==> is_bit_digit(s@[j]),
            c < 128,
            c == (if i == 0 {
                0int
            } else if i == 1 {
                bit_digit_val(s@[0])
            } else if i == 2 {
                2 * bit_digit_val(s@[0]) + bit_digit_val(s@[1])
            } else if i == 3 {
                4 * bit_digit_val(s@[0]) + 2 * bit_digit_val(s@[1]) + bit_digit_val(s@[2])
            } else if i == 4 {
                8 * bit_digit_val(s@[0]) + 4 * bit_digit_val(s@[1]) + 2 * bit_digit_val(s@[2])
                    + bit_digit_val(s@[3])
            } else if i == 5 {
                16 * bit_digit_val(s@[0]) + 8 * bit_digit_val(s@[1]) + 4 * bit_digit_val(s@[2]) + 2
                    * bit_digit_val(s@[3]) + bit_digit_val(s@[4])
            } else if i == 6 {
                32 * bit_digit_val(s@[0]) + 16 * bit_digit_val(s@[1]) + 8 * bit_digit_val(s@[2]) + 4
                    * bit_digit_val(s@[3]) + 2 * bit_digit_val(s@[4]) + bit_digit_val(s@[5])
            } else {
                bits_val7(s@)
            }),
        decreases 7 - i,
    {
        let b = s[i];
        if b != 48 && b != 49 {
            return None;
        }
        c = 2 * c + (if b == 49 {
            1
        } else {
            0
        });
        i = i + 1;
    }
    Some(c)
}

/// The destination named by a mnemonic; the empty mnemonic names no
/// destination at all.
pub open spec fn dest_from(s: Seq<u8>) -> Option<Destination> {
    if s.len() == 0 {
        Some(Destination::NoDest)
    } else if s.len() == 1 {
        if s[0] == CH_M {
            Some(Destination::M)
        } else if s[0] == CH_D {
            Some(Destination::D)
        } else if s[0] == CH_A {
            Some(Destination::A)
        } else {
            None
        }
    } else if s.len() == 2 {
        if s[0] == CH_M && s[1] == CH_D {
            Some(Destination::MD)
        } else if s[0] == CH_A && s[1] == CH_M {
            Some(Destination::AM)
        } else if s[0] == CH_A && s[1] == CH_D {
            Some(Destination::AD)
        } else {
            None
        }
    } else if s.len() == 3 {
        if s[0] == CH_A && s[1] == CH_M && s[2] == CH_D {
            Some(Destination::AMD)
        } else {
            None
        }
    } else {
        None
    }
}

/// The jump condition named by a mnemonic; the empty mnemonic names no jump.
pub open spec fn jump_from(s: Seq<u8>) -> Option<JumpCondition> {
    if s.len() == 0 {
        Some(JumpCondition::NoJump)
    } else if s.len() == 3 && s[0] == CH_J {
        if s[1] == CH_G && s[2] == CH_T {
            Some(JumpCondition::JGT)
        } else if s[1] == CH_E && s[2] == CH_Q {
            Some(JumpCondition::JEQ)
        } else if s[1] == CH_G && s[2] == CH_E {
            Some(JumpCondition::JGE)
        } else if s[1] == CH_L && s[2] == CH_T {
            Some(JumpCondition::JLT)
        } else if s[1] == CH_N && s[2] == CH_E {
            Some(JumpCondition::JNE)
        } else if s[1] == CH_L && s[2] == CH_E {
            Some(JumpCondition::JLE)
        } else if s[1] == CH_M && s[2] == CH_P {
            Some(JumpCondition::JMP)
        } else {
            None
        }
    } else {
        None
    }
}

/// The operation named by a mnemonic.
pub open spec fn op_from(s: Seq<u8>) -> Option<Operation> {
    if s.len() == 1 {
        if s[0] == CH_0 {
            Some(Operation::Zero)
        } else if s[0] == CH_1 {
            Some(Operation::One)
        } else if s[0] == CH_D {
            Some(Operation::D)
        } else if s[0] == CH_A {
            Some(Operation::A)
        } else if s[0] == CH_M {
            Some(Operation::M)
        } else {
            None
        }
    } else if s.len() == 2 {
        if s[0] == CH_MINUS && s[1] == CH_1 {
            Some(Operation::NegativeOne)
        } else if s[0] == CH_BANG && s[1] == CH_D {
            Some(Operation::NotD)
        } else if s[0] == CH_BANG && s[1] == CH_A {
            Some(Operation::NotA)
        } else if s[0] == CH_BANG && s[1] == CH_M {
            Some(Operation::NotM)
        } else if s[0] == CH_MINUS && s[1] == CH_D {
            Some(Operation::NegD)
        } else if s[0] == CH_MINUS && s[1] == CH_A {
            Some(Operation::NegA)
        } else if s[0] == CH_MINUS && s[1] == CH_M {
            Some(Operation::NegM)
        } else {
            None
        }
    } else if s.len() == 3 {
        if s[0] == CH_D && s[1] == CH_PLUS && s[2] == CH_1 {
            Some(Operation::DInc)
        } else if s[0] == CH_A && s[1] == CH_PLUS && s[2] == CH_1 {
            Some(Operation::AInc)
        } else if s[0] == CH_M && s[1] == CH_PLUS && s[2] == CH_1 {
            Some(Operation::MInc)
        } else if s[0] == CH_D && s[1] == CH_MINUS && s[2] == CH_1 {
            Some(Operation::DDec)
        } else if s[0] == CH_A && s[1] == CH_MINUS && s[2] == CH_1 {
            Some(Operation::ADec)
        } else if s[0] == CH_M && s[1] == CH_MINUS && s[2] == CH_1 {
            Some(Operation::MDec)
        } else if s[0] == CH_D && s[1] == CH_PLUS && s[2] == CH_A {
            Some(Operation::DPlusA)
        } else if s[0] == CH_D && s[1] == CH_MINUS && s[2] == CH_A {
            Some(Operation::DSubA)
        } else if s[0] == CH_A && s[1] == CH_MINUS && s[2] == CH_D {
            Some(Operation::ASubD)
        } else if s[0] == CH_D && s[1] == CH_AMP && s[2] == CH_A {
            Some(Operation::DAndA)
        } else if s[0] == CH_D && s[1] == CH_PIPE && s[2] == CH_A {
            Some(Operation::DOrA)
        } else if s[0] == CH_D && s[1] == CH_PLUS && s[2] == CH_M {
            Some(Operation::DPlusM)
        } else if s[0] == CH_D && s[1] == CH_MINUS && s[2] == CH_M {
            Some(Operation::DSubM)
        } else if s[0] == CH_M && s[1] == CH_MINUS && s[2] == CH_D {
            Some(Operation::MSubD)
        } else if s[0] == CH_D && s[1] == CH_AMP && s[2] == CH_M {
            Some(Operation::DAndM)
        } else if s[0] == CH_D && s[1] == CH_PIPE && s[2] == CH_M {
            Some(Operation::DOrM)
        } else {
            None
        }
    } else {
        None
    }
}

impl Destination {
    /// Looks a destination up by its mnemonic.
    pub fn from_str(s: &Vec<u8>) -> (r: Option<Destination>)
        ensures
            r == dest_from(s@),
    {
        if s.len() == 0 {
            Some(Destination::NoDest)
        } else if s.len() == 1 {
            if s[0] == CH_M {
                Some(Destination::M)
            } else if s[0] == CH_D {
                Some(Destination::D)
            } else if s[0] == CH_A {
                Some(Destination::A)
            } else {
                None
            }
        } else if s.len() == 2 {
            if s[0] == CH_M && s[1] == CH_D {
                Some(Destination::MD)
            } else if s[0] == CH_A && s[1] == CH_M {
                Some(Destination::AM)
            } else if s[0] == CH_A && s[1] == CH_D {
                Some(Destination::AD)
            } else {
                None
            }
        } else if s.len() == 3 && s[0] == CH_A && s[1] == CH_M && s[2] == CH_D {
            Some(Destination::AMD)
        } else {
            None
        }
    }

    /// Looks a destination up by its numeric code.
    pub fn from_code(c: u8) -> (r: Option<Destination>)
        ensures
            r == dest_of_code(c),
    {
        match c {
            0 => Some(Destination::NoDest),
            1 => Some(Destination::M),
            2 => Some(Destination::D),
            3 => Some(Destination::MD),
            4 => Some(Destination::A),
            5 => Some(Destination::AM),
            6 => Some(Destination::AD),
            7 => Some(Destination::AMD),
            _ => None,
        }
    }

    /// The inverse lookup: the destination whose machine-code field is `s`.
    pub fn from_machine_code(s: &Vec<u8>) -> (r: Option<Destination>)
        ensures
            r == dest_from_bits(s@),
    {
        match bits3_code(s) {
            Some(c) => Destination::from_code(c),
            None => None,
        }
    }

    /// The 3-character machine-code field of this destination.
    pub fn get_machine_code_string(&self) -> (r: Vec<u8>)
        ensures
            r@ == bin_seq(dest_code(*self) as u16, 3),
    {
        let c: u16 = match self {
            Destination::NoDest => 0,
            Destination::M => 1,
            Destination::D => 2,
            Destination::MD => 3,
            Destination::A => 4,
            Destination::AM => 5,
            Destination::AD => 6,
            Destination::AMD => 7,
        };
        bits_of(c, 3)
    }
}

impl JumpCondition {
    /// Looks a jump condition up by its mnemonic.
    pub fn from_str(s: &Vec<u8>) -> (r: Option<JumpCondition>)
        ensures
            r == jump_from(s@),
    {
        if s.len() == 0 {
            Some(JumpCondition::NoJump)
        } else if s.len() == 3 && s[0] == CH_J {
            if s[1] == CH_G && s[2] == CH_T {
                Some(JumpCondition::JGT)
            } else if s[1] == CH_E && s[2] == CH_Q {
                Some(JumpCondition::JEQ)
            } else if s[1] == CH_G && s[2] == CH_E {
                Some(JumpCondition::JGE)
            } else if s[1] == CH_L && s[2] == CH_T {
                Some(JumpCondition::JLT)
            } else if s[1] == CH_N && s[2] == CH_E {
                Some(JumpCondition::JNE)
            } else if s[1] == CH_L && s[2] == CH_E {
                Some(JumpCondition::JLE)
            } else if s[1] == CH_M && s[2] == CH_P {
                Some(JumpCondition::JMP)
            } else {
                None
            }
        } else {
            None
        }
    }

    /// Looks a jump condition up by its numeric code.
    pub fn from_code(c: u8) -> (r: Option<JumpCondition>)
        ensures
            r == jump_of_code(c),
    {
        match c {
            0 => Some(JumpCondition::NoJump),
            1 => Some(JumpCondition::JGT),
            2 => Some(JumpCondition::JEQ),
            3 => Some(JumpCondition::JGE),
            4 => Some(JumpCondition::JLT),
            5 => Some(JumpCondition::JNE),
            6 => Some(JumpCondition::JLE),
            7 => Some(JumpCondition::JMP),
            _ => None,
        }
    }

    /// The inverse lookup: the jump condition whose machine-code field is `s`.
    pub fn from_machine_code(s: &Vec<u8>) -> (r: Option<JumpCondition>)
        ensures
            r == jump_from_bits(s@),
    {
        match bits3_code(s) {
            Some(c) => JumpCondition::from_code(c),
            None => None,
        }
    }

    /// The 3-character machine-code field of this jump condition.
    pub fn get_machine_code_string(&self) -> (r: Vec<u8>)
        ensures
            r@ == bin_seq(jump_code(*self) as u16, 3),
    {
        let c: u16 = match self {
            JumpCondition::NoJump => 0,
            JumpCondition::JGT => 1,
            JumpCondition::JEQ => 2,
            JumpCondition::JGE => 3,
            JumpCondition::JLT => 4,
            JumpCondition::JNE => 5,
            JumpCondition::JLE => 6,
            JumpCondition::JMP => 7,
        };
        bits_of(c, 3)
    }
}

impl Operation {
    /// Looks an operation up by its mnemonic.
    pub fn from_str(s: &Vec<u8>) -> (r: Option<Operation>)
        ensures
            r == op_from(s@),
    {
        if s.len() == 1 {
            if s[0] == CH_0 {
                Some(Operation::Zero)
            } else if s[0] == CH_1 {
                Some(Operation::One)
            } else if s[0] == CH_D {
                Some(Operation::D)
            } else if s[0] == CH_A {
                Some(Operation::A)
            } else if s[0] == CH_M {
                Some(Operation::M)
            } else {
                None
            }
        } else if s.len() == 2 {
            if s[0] == CH_MINUS && s[1] == CH_1 {
                Some(Operation::NegativeOne)
            } else if s[0] == CH_BANG && s[1] == CH_D {
                Some(Operation::NotD)
            } else if s[0] == CH_BANG && s[1] == CH_A {
                Some(Operation::NotA)
            } else if s[0] == CH_BANG && s[1] == CH_M {
                Some(Operation::NotM)
            } else if s[0] == CH_MINUS && s[1] == CH_D {
                Some(Operation::NegD)
            } else if s[0] == CH_MINUS && s[1] == CH_A {
                Some(Operation::NegA)
            } else if s[0] == CH_MINUS && s[1] == CH_M {
                Some(Operation::NegM)
            } else {
                None
            }
        } else if s.len() == 3 {
            if s[0] == CH_D && s[1] == CH_PLUS && s[2] == CH_1 {
                Some(Operation::DInc)
            } else if s[0] == CH_A && s[1] == CH_PLUS && s[2] == CH_1 {
                Some(Operation::AInc)
            } else if s[0] == CH_M && s[1] == CH_PLUS && s[2] == CH_1 {
                Some(Operation::MInc)
            } else if s[0] == CH_D && s[1] == CH_MINUS && s[2] == CH_1 {
                Some(Operation::DDec)
            } else if s[0] == CH_A && s[1] == CH_MINUS && s[2] == CH_1 {
                Some(Operation::ADec)
            } else if s[0] == CH_M && s[1] == CH_MINUS && s[2] == CH_1 {
                Some(Operation::MDec)
            } else if s[0] == CH_D && s[1] == CH_PLUS && s[2] == CH_A {
                Some(Operation::DPlusA)
            } else if s[0] == CH_D && s[1] == CH_MINUS && s[2] == CH_A {
                Some(Operation::DSubA)
            } else if s[0] == CH_A && s[1] == CH_MINUS && s[2] == CH_D {
                Some(Operation::ASubD)
            } else if s[0] == CH_D && s[1] == CH_AMP && s[2] == CH_A {
                Some(Operation::DAndA)
            } else if s[0] == CH_D && s[1] == CH_PIPE && s[2] == CH_A {
                Some(Operation::DOrA)
            } else if s[0] == CH_D && s[1] == CH_PLUS && s[2] == CH_M {
                Some(Operation::DPlusM)
            } else if s[0] == CH_D && s[1] == CH_MINUS && s[2] == CH_M {
                Some(Operation::DSubM)
            } else if s[0] == CH_M && s[1] == CH_MINUS && s[2] == CH_D {
                Some(Operation::MSubD)
            } else if s[0] == CH_D && s[1] == CH_AMP && s[2] == CH_M {
                Some(Operation::DAndM)
            } else if s[0] == CH_D && s[1] == CH_PIPE && s[2] == CH_M {
                Some(Operation::DOrM)
            } else {
                None
            }
        } else {
            None
        }
    }

    /// Looks an operation up by its numeric code.
    pub fn from_code(c: u8) -> (r: Option<Operation>)
        ensures
            r == op_of_code(c),
    {
        if c == 0b0101010 {
            Some(Operation::Zero)
        } else if c == 0b0111111 {
            Some(Operation::One)
        } else if c == 0b0111010 {
            Some(Operation::NegativeOne)
        } else if c == 0b0001100 {
            Some(Operation::D)
        } else if c == 0b0110000 {
            Some(Operation::A)
        } else if c == 0b0001101 {
            Some(Operation::NotD)
        } else if c == 0b0110001 {
            Some(Operation::NotA)
        } else if c == 0b0001111 {
            Some(Operation::NegD)
        } else if c == 0b0110011 {
            Some(Operation::NegA)
        } else if c == 0b0011111 {
            Some(Operation::DInc)
        } else if c == 0b0110111 {
            Some(Operation::AInc)
        } else if c == 0b0001110 {
            Some(Operation::DDec)
        } else if c == 0b0110010 {
            Some(Operation::ADec)
        } else if c == 0b0000010 {
            Some(Operation::DPlusA)
        } else if c == 0b0010011 {
            Some(Operation::DSubA)
        } else if c == 0b0000111 {
            Some(Operation::ASubD)
        } else if c == 0b0000000 {
            Some(Operation::DAndA)
        } else if c == 0b0010101 {
            Some(Operation::DOrA)
        } else if c == 0b1110000 {
            Some(Operation::M)
        } else if c == 0b1110001 {
            Some(Operation::NotM)
        } else if c == 0b1110011 {
            Some(Operation::NegM)
        } else if c == 0b1110111 {
            Some(Operation::MInc)
        } else if c == 0b1110010 {
            Some(Operation::MDec)
        } else if c == 0b1000010 {
            Some(Operation::DPlusM)
        } else if c == 0b1010011 {
            Some(Operation::DSubM)
        } else if c == 0b1000111 {
            Some(Operation::MSubD)
        } else if c == 0b1000000 {
            Some(Operation::DAndM)
        } else if c == 0b1010101 {
            Some(Operation::DOrM)
        } else {
            None
        }
    }

    /// The inverse lookup: the operation whose machine-code field is `s`.
    pub fn from_machine_code(s: &Vec<u8>) -> (r: Option<Operation>)
        ensures
            r == op_from_bits(s@),
    {
        match bits7_code(s) {
            Some(c) => Operation::from_code(c),
            None => None,
        }
    }

    /// The 7-character machine-code field of this operation.
    pub fn get_machine_code_string(&self) -> (r: Vec<u8>)
        ensures
            r@ == bin_seq(op_code(*self) as u16, 7),
    {
        let c: u16 = match self {
            Operation::Zero => 0b0101010,
            Operation::One => 0b0111111,
            Operation::NegativeOne => 0b0111010,
            Operation::D => 0b0001100,
            Operation::A => 0b0110000,
            Operation::NotD => 0b0001101,
            Operation::NotA => 0b0110001,
            Operation::NegD => 0b0001111,
            Operation::NegA => 0b0110011,
            Operation::DInc => 0b0011111,
            Operation::AInc => 0b0110111,
            Operation::DDec => 0b0001110,
            Operation::ADec => 0b0110010,
            Operation::DPlusA => 0b0000010,
            Operation::DSubA => 0b0010011,
            Operation::ASubD => 0b0000111,
            Operation::DAndA => 0b0000000,
            Operation::DOrA => 0b0010101,
            Operation::M => 0b1110000,
            Operation::NotM => 0b1110001,
            Operation::NegM => 0b1110011,
            Operation::MInc => 0b1110111,
            Operation::MDec => 0b1110010,
            Operation::DPlusM => 0b1000010,
            Operation::DSubM => 0b1010011,
            Operation::MSubD => 0b1000111,
            Operation::DAndM => 0b1000000,
            Operation::DOrM => 0b1010101,
        };
        bits_of(c, 7)
    }
}

} // verus!
