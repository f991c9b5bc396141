//! The grammar classifier: one raw source line is sorted into exactly one of
//! five kinds (blank, comment, address-instruction, compute-instruction,
//! label-definition), or rejected with the reason.

use vstd::prelude::*;
use crate::encode::{
    Destination, JumpCondition, Operation, dest_from, jump_from, op_from, CH_A, CH_D, CH_M,
};

verus! {

// ASCII codes of the characters the line grammar is written with.
pub const CH_AT: u8 = 64;
pub const CH_LPAREN: u8 = 40;
pub const CH_RPAREN: u8 = 41;
pub const CH_SEMI: u8 = 59;
pub const CH_EQ: u8 = 61;
pub const CH_SLASH: u8 = 47;

/// Whether a byte is ASCII whitespace.
pub open spec fn is_space(b: u8) -> bool {
    b == 32 || b == 9 || b == 10 || b == 11 || b == 12 || b == 13
}

/// Whether a byte is an ASCII decimal digit.
pub open spec fn is_digit(b: u8) -> bool {
    48 <= b && b <= 57
}

/// Whether a byte is an ASCII letter.
pub open spec fn is_letter(b: u8) -> bool {
    (65 <= b && b <= 90) || (97 <= b && b <= 122)
}

/// Whether a byte may open an identifier: a letter or one of `_ . & : $`.
pub open spec fn is_ident_start(b: u8) -> bool {
    is_letter(b) || b == 95 || b == 46 || b == 38 || b == 58 || b == 36
}

/// Whether a byte may continue an identifier.
pub open spec fn is_ident_char(b: u8) -> bool {
    is_ident_start(b) || is_digit(b)
}

/// The identifier grammar of symbols and labels.
pub open spec fn is_identifier(s: Seq<u8>) -> bool {
    s.len() >= 1 && is_ident_start(s[0]) && (forall|i: int| 1 <= i < s.len() ==> is_ident_char(s[i]))
}

/// Whether a non-empty string is made of digits alone.
pub open spec fn all_digits(s: Seq<u8>) -> bool {
    s.len() >= 1 && (forall|i: int| 0 <= i < s.len() ==> is_digit(s[i]))
}

/// The numeric value of a digit string.
pub open spec fn digits_val(s: Seq<u8>) -> int
    decreases s.len(),
{
    if s.len() == 0 {
        0
    } else {
        10 * digits_val(s.drop_last()) + (s.last() - 48)
    }
}

/// How many whitespace bytes the string starts with.
pub open spec fn leading_spaces(s: Seq<u8>) -> int
    decreases s.len(),
{
    if s.len() == 0 {
        0
    } else if is_space(s[0]) {
        1 + leading_spaces(s.subrange(1, s.len() as int))
    } else {
        0
    }
}

/// How many whitespace bytes the string ends with.
pub open spec fn trailing_spaces(s: Seq<u8>) -> int
    decreases s.len(),
{
    if s.len() == 0 {
        0
    } else if is_space(s.last()) {
        1 + trailing_spaces(s.drop_last())
    } else {
        0
    }
}

/// The string with surrounding whitespace removed.
pub open spec fn trim_spec(s: Seq<u8>) -> Seq<u8> {
    let t = s.subrange(leading_spaces(s), s.len() as int);
    t.subrange(0, t.len() - trailing_spaces(t))
}

/// How many leading bytes of the string are destination-register characters.
pub open spec fn amd_run(s: Seq<u8>) -> int
    decreases s.len(),
{
    if s.len() == 0 {
        0
    } else if s[0] == CH_A || s[0] == CH_M || s[0] == CH_D {
        1 + amd_run(s.subrange(1, s.len() as int))
    } else {
        0
    }
}

/// Whether the string may follow an instruction: whitespace, then nothing or
/// a comment.
pub open spec fn is_trailing(s: Seq<u8>) -> bool {
    let i = leading_spaces(s);
    i == s.len() || (s.len() - i >= 2 && s[i] == CH_SLASH && s[i + 1] == CH_SLASH)
}

/// The length of the longest operation mnemonic the string starts with.
pub open spec fn op_prefix_len(s: Seq<u8>) -> int {
    if s.len() >= 3 && op_from(s.subrange(0, 3)) is Some {
        3
    } else if s.len() >= 2 && op_from(s.subrange(0, 2)) is Some {
        2
    } else if s.len() >= 1 && op_from(s.subrange(0, 1)) is Some {
        1
    } else {
        0
    }
}

/// Parses the operation, jump condition and trailer of a compute-instruction
/// once the destination has been split off.
pub open spec fn c_parse_ops(d: Destination, s: Seq<u8>) -> Option<
    (Destination, Operation, JumpCondition),
> {
    let n = op_prefix_len(s);
    if n == 0 {
        None
    } else {
        match op_from(s.subrange(0, n)) {
            Some(o) => {
                let rest = s.subrange(n, s.len() as int);
                if rest.len() > 0 && rest[0] == CH_SEMI {
                    if rest.len() >= 4 && is_trailing(rest.subrange(4, rest.len() as int)) {
                        match jump_from(rest.subrange(1, 4)) {
                            Some(j) => Some((d, o, j)),
                            None => None,
                        }
                    } else {
                        None
                    }
                } else if is_trailing(rest) {
                    Some((d, o, JumpCondition::NoJump))
                } else {
                    None
                }
            },
            None => None,
        }
    }
}

/// Parses a trimmed line as a compute-instruction: an optional destination
/// before `=`, an operation, an optional jump after `;`, then whitespace
/// and/or a comment.
pub open spec fn c_parse(s: Seq<u8>) -> Option<(Destination, Operation, JumpCondition)> {
    let k = amd_run(s);
    if k > 0 && k < s.len() && s[k] == CH_EQ {
        match dest_from(s.subrange(0, k)) {
            Some(d) => c_parse_ops(d, s.subrange(k + 1, s.len() as int)),
            None => None,
        }
    } else {
        c_parse_ops(Destination::NoDest, s)
    }
}

/// Whether a trimmed line is exactly `(` + identifier + `)`.
pub open spec fn is_label(s: Seq<u8>) -> bool {
    s.len() >= 3 && s[0] == CH_LPAREN && s[s.len() - 1] == CH_RPAREN && is_identifier(
        s.subrange(1, s.len() - 1),
    )
}

/// The reason a line is rejected.
#[derive(Clone, Copy, Debug, PartialEq, Eq, Structural)]
pub enum ErrorKind {
    /// The line matches none of the five grammar rules.
    Grammar,
    /// An immediate address exceeds the 15-bit range.
    Range,
    /// A symbolic address operand breaks the identifier grammar.
    Identifier,
}

/// The operand of an address-instruction, at the specification level.
pub enum AddrForm {
    Immediate(u16),
    Symbol(Seq<u8>),
}

/// What the operand after `@` denotes: digits make an immediate, rejected
/// past the 15-bit range; anything else must match the identifier grammar.
pub open spec fn addr_value(s: Seq<u8>) -> Result<AddrForm, ErrorKind> {
    if all_digits(s) {
        if digits_val(s) <= 32767 {
            Ok(AddrForm::Immediate(digits_val(s) as u16))
        } else {
            Err(ErrorKind::Range)
        }
    } else if is_identifier(s) {
        Ok(AddrForm::Symbol(s))
    } else {
        Err(ErrorKind::Identifier)
    }
}

/// The classification of one source line, at the specification level.
pub enum LineForm {
    Blank,
    Comment,
    Addr(AddrForm),
    Comp(Destination, Operation, JumpCondition),
    Label(Seq<u8>),
}

/// Classifies one raw line: the first matching rule wins, in the fixed order
/// blank, address-form, compute-form, label-form, comment.
pub open spec fn classify(s: Seq<u8>) -> Result<LineForm, ErrorKind> {
    let t = trim_spec(s);
    if t.len() == 0 {
        Ok(LineForm::Blank)
    } else if t[0] == CH_AT {
        if t.len() == 1 {
            Err(ErrorKind::Grammar)
        } else {
            match addr_value(t.subrange(1, t.len() as int)) {
                Ok(av) => Ok(LineForm::Addr(av)),
                Err(k) => Err(k),
            }
        }
    } else {
        match c_parse(t) {
            Some((d, o, j)) => Ok(LineForm::Comp(d, o, j)),
            None => if is_label(t) {
                Ok(LineForm::Label(t.subrange(1, t.len() - 1)))
            } else if t.len() >= 2 && t[0] == CH_SLASH && t[1] == CH_SLASH {
                Ok(LineForm::Comment)
            } else {
                Err(ErrorKind::Grammar)
            },
        }
    }
}

proof fn lemma_leading_spaces_at(s: Seq<u8>, a: int)
    requires
        0 <= a <= s.len(),
        forall|i: int| 0 <= i < a ==> is_space(s[i]),
        a == s.len() || !is_space(s[a]),
    ensures
        leading_spaces(s) == a,
    decreases s.len(),
{
    if a == 0 {
    } else {
        let s2 = s.subrange(1, s.len() as int);
        assert(forall|i: int| 0 <= i < a - 1 ==> s2[i] == s[i + 1]);
        lemma_leading_spaces_at(s2, a - 1);
    }
}

proof fn lemma_trailing_spaces_at(s: Seq<u8>, m: int)
    requires
        0 <= m <= s.len(),
        forall|i: int| m <= i < s.len() ==> is_space(s[i]),
        m == 0 || !is_space(s[m - 1]),
    ensures
        trailing_spaces(s) == s.len() - m,
    decreases s.len(),
{
    if m == s.len() {
    } else {
        lemma_trailing_spaces_at(s.drop_last(), m);
    }
}

proof fn lemma_amd_run_at(s: Seq<u8>, a: int)
    requires
        0 <= a <= s.len(),
        forall|i: int| 0 <= i < a ==> (s[i] == CH_A || s[i] == CH_M || s[i] == CH_D),
        a == s.len() || !(s[a] == CH_A || s[a] == CH_M || s[a] == CH_D),
    ensures
        amd_run(s) == a,
    decreases s.len(),
{
    if a == 0 {
    } else {
        let s2 = s.subrange(1, s.len() as int);
        assert(forall|i: int| 0 <= i < a - 1 ==> s2[i] == s[i + 1]);
        lemma_amd_run_at(s2, a - 1);
    }
}

proof fn lemma_digits_val_nonneg(s: Seq<u8>)
    requires
        forall|i: int| 0 <= i < s.len() ==> is_digit(s[i]),
    ensures
        digits_val(s) >= 0,
    decreases s.len(),
{
    if s.len() > 0 {
        lemma_digits_val_nonneg(s.drop_last());
    }
}

proof fn lemma_digits_prefix_le(s: Seq<u8>, i: int)
    requires
        forall|j: int| 0 <= j < s.len() ==> is_digit(s[j]),
        0 <= i <= s.len(),
    ensures
        digits_val(s.subrange(0, i)) <= digits_val(s),
    decreases s.len(),
{
    if i == s.len() {
        assert(s.subrange(0, i) =~= s);
    } else {
        let s2 = s.drop_last();
        assert(s.subrange(0, i) =~= s2.subrange(0, i));
        lemma_digits_prefix_le(s2, i);
        lemma_digits_val_nonneg(s2);
    }
}

/// Copies the byte range `[a, b)` out of a vector.
pub fn subvec(v: &Vec<u8>, a: usize, b: usize) -> (r: Vec<u8>)
    requires
        a <= b && b <= v@.len(),
    ensures
        r@ == v@.subrange(a as int, b as int),
{
    let mut r: Vec<u8> = Vec::new();
    let mut i: usize = a;
    while i < b
        invariant
            a <= i <= b <= v@.len(),
            r@.len() == i - a,
            forall|j: int| 0 <= j < i - a ==> r@[j] == v@[a + j],
        decreases b - i,
    {
        r.push(v[i]);
        i = i + 1;
    }
    proof {
        assert(r@ =~= v@.subrange(a as int, b as int));
    }
    r
}

fn is_space_x(b: u8) -> (r: bool)
    ensures
        r == is_space(b),
{
    b == 32 || b == 9 || b == 10 || b == 11 || b == 12 || b == 13
}

/// Removes surrounding whitespace from a raw line.
pub fn trim(line: &Vec<u8>) -> (r: Vec<u8>)
    ensures
        r@ == trim_spec(line@),
{
    let mut a: usize = 0;
    while a < line.len() && is_space_x(line[a])
        invariant
            a <= line@.len(),
            forall|i: int| 0 <= i < a ==> is_space(line@[i]),
        decreases line@.len() - a,
    {
        a = a + 1;
    }
    let mut b: usize = line.len();
    while b > a && is_space_x(line[b - 1])
        invariant
            a <= b <= line@.len(),
            forall|i: int| b <= i < line@.len() ==> is_space(line@[i]),
        decreases b,
    {
        b = b - 1;
    }
    let r = subvec(line, a, b);
    proof {
        let s = line@;
        lemma_leading_spaces_at(s, a as int);
        let t1 = s.subrange(a as int, s.len() as int);
        assert(forall|i: int| b - a <= i < t1.len() ==> is_space(t1[i]));
        lemma_trailing_spaces_at(t1, b - a);
        assert(t1.subrange(0, b - a) =~= s.subrange(a as int, b as int));
    }
    r
}

fn check_all_digits(v: &Vec<u8>) -> (r: bool)
    ensures
        r == all_digits(v@),
{
    if v.len() == 0 {
        return false;
    }
    let mut i: usize = 0;
    while i < v.len()
        invariant
            i <= v@.len(),
            forall|j: int| 0 <= j < i ==> is_digit(v@[j]),
        decreases v@.len() - i,
    {
        let b = v[i];
        if !(48 <= b && b <= 57) {
            return false;
        }
        i = i + 1;
    }
    true
}

fn is_ident_start_x(b: u8) -> (r: bool)
    ensures
        r == is_ident_start(b),
{
    (65 <= b && b <= 90) || (97 <= b && b <= 122) || b == 95 || b == 46 || b == 38 || b == 58 || b
        == 36
}

fn check_identifier(v: &Vec<u8>) -> (r: bool)
    ensures
        r == is_identifier(v@),
{
    if v.len() == 0 {
        return false;
    }
    if !is_ident_start_x(v[0]) {
        return false;
    }
    let mut i: usize = 1;
    while i < v.len()
        invariant
            1 <= i <= v@.len(),
            is_ident_start(v@[0]),
            forall|j: int| 1 <= j < i ==> is_ident_char(v@[j]),
        decreases v@.len() - i,
    {
        let b = v[i];
        if !(is_ident_start_x(b) || (48 <= b && b <= 57)) {
            return false;
        }
        i = i + 1;
    }
    true
}

/// Reads a digit string as a 15-bit immediate, rejecting values past the
/// architecture's address range.
fn parse_immediate(v: &Vec<u8>) -> (r: Result<u16, ErrorKind>)
    requires
        all_digits(v@),
    ensures
        match r {
            Ok(x) => x == digits_val(v@) && x <= 32767,
            Err(k) => k == ErrorKind::Range && digits_val(v@) > 32767,
        },
{
    let mut acc: u32 = 0;
    let mut i: usize = 0;
    while i < v.len()
        invariant
            all_digits(v@),
            i <= v@.len(),
            acc == digits_val(v@.subrange(0, i as int)),
            acc <= 32767,
        decreases v@.len() - i,
    {
        let d = v[i] - 48;
        let next = acc * 10 + d as u32;
        proof {
            assert(v@.subrange(0, i + 1).drop_last() =~= v@.subrange(0, i as int));
            assert(digits_val(v@.subrange(0, i + 1)) == 10 * digits_val(v@.subrange(0, i as int)) + (
            v@[i as int] - 48));
        }
        if next > 32767 {
            proof {
                lemma_digits_prefix_le(v@, i + 1);
            }
            return Err(ErrorKind::Range);
        }
        acc = next;
        i = i + 1;
    }
    proof {
        assert(v@.subrange(0, v@.len() as int) =~= v@);
    }
    Ok(acc as u16)
}

fn is_trailing_x(s: &Vec<u8>) -> (r: bool)
    ensures
        r == is_trailing(s@),
{
    let mut i: usize = 0;
    while i < s.len() && is_space_x(s[i])
        invariant
            i <= s@.len(),
            forall|j: int| 0 <= j < i ==> is_space(s@[j]),
        decreases s@.len() - i,
    {
        i = i + 1;
    }
    proof {
        lemma_leading_spaces_at(s@, i as int);
    }
    if i == s.len() {
        true
    } else {
        s.len() - i >= 2 && s[i] == CH_SLASH && s[i + 1] == CH_SLASH
    }
}

fn c_ops_x(d: Destination, s: &Vec<u8>) -> (r: Option<(Destination, Operation, JumpCondition)>)
    ensures
        r == c_parse_ops(d, s@),
{
    let opt3: Option<Operation> = if s.len() >= 3 {
        Operation::from_str(&subvec(s, 0, 3))
    } else {
        None
    };
    let opt2: Option<Operation> = if s.len() >= 2 {
        Operation::from_str(&subvec(s, 0, 2))
    } else {
        None
    };
    let opt1: Option<Operation> = if s.len() >= 1 {
        Operation::from_str(&subvec(s, 0, 1))
    } else {
        None
    };
    let picked: Option<(Operation, usize)> = match opt3 {
        Some(o) => Some((o, 3)),
        None => match opt2 {
            Some(o) => Some((o, 2)),
            None => match opt1 {
                Some(o) => Some((o, 1)),
                None => None,
            },
        },
    };
    match picked {
        None => None,
        Some((o, n)) => {
            let rest = subvec(s, n, s.len());
            if rest.len() > 0 && rest[0] == CH_SEMI {
                if rest.len() >= 4 && is_trailing_x(&subvec(&rest, 4, rest.len())) {
                    match JumpCondition::from_str(&subvec(&rest, 1, 4)) {
                        Some(j) => Some((d, o, j)),
                        None => None,
                    }
                } else {
                    None
                }
            } else if is_trailing_x(&rest) {
                Some((d, o, JumpCondition::NoJump))
            } else {
                None
            }
        },
    }
}

fn c_parse_x(t: &Vec<u8>) -> (r: Option<(Destination, Operation, JumpCondition)>)
    ensures
        r == c_parse(t@),
{
    let mut k: usize = 0;
    while k < t.len() && (t[k] == CH_A || t[k] == CH_M || t[k] == CH_D)
        invariant
            k <= t@.len(),
            forall|i: int| 0 <= i < k ==> (t@[i] == CH_A || t@[i] == CH_M || t@[i] == CH_D),
        decreases t@.len() - k,
    {
        k = k + 1;
    }
    proof {
        lemma_amd_run_at(t@, k as int);
    }
    if k > 0 && k < t.len() && t[k] == CH_EQ {
        match Destination::from_str(&subvec(t, 0, k)) {
            Some(d) => c_ops_x(d, &subvec(t, k + 1, t.len())),
            None => None,
        }
    } else {
        c_ops_x(Destination::NoDest, t)
    }
}

/// The operand of an address-instruction: a 15-bit immediate, or a symbol to
/// be resolved during assembly.
#[derive(Debug, PartialEq, Eq)]
pub enum AddressValue {
    Immediate { value: u16 },
    Symbol { identifier: Vec<u8> },
}

impl AddressValue {
    /// The specification-level form of this operand.
    pub open spec fn form(self) -> AddrForm {
        match self {
            AddressValue::Immediate { value } => AddrForm::Immediate(value),
            AddressValue::Symbol { identifier } => AddrForm::Symbol(identifier@),
        }
    }

    /// Parses the operand of an address-instruction, or reports why it is
    /// malformed.
    pub fn from_str(s: Vec<u8>) -> (r: Result<AddressValue, ErrorKind>)
        ensures
            match r {
                Ok(av) => addr_value(s@) == Ok::<AddrForm, ErrorKind>(av.form()),
                Err(k) => addr_value(s@) == Err::<AddrForm, ErrorKind>(k),
            },
    {
        if check_all_digits(&s) {
            match parse_immediate(&s) {
                Ok(value) => Ok(AddressValue::Immediate { value }),
                Err(k) => Err(k),
            }
        } else if check_identifier(&s) {
            Ok(AddressValue::Symbol { identifier: s })
        } else {
            Err(ErrorKind::Identifier)
        }
    }
}

/// One classified source line.
#[derive(Debug, PartialEq, Eq)]
pub enum ParsedLine {
    Whitespace,
    Comment,
    AInstruction { address_value: AddressValue },
    CInstruction { destination: Destination, operation: Operation, jump: JumpCondition },
    Label { label_identifier: Vec<u8> },
}

impl ParsedLine {
    /// The specification-level form of this line.
    pub open spec fn form(self) -> LineForm {
        match self {
            ParsedLine::Whitespace => LineForm::Blank,
            ParsedLine::Comment => LineForm::Comment,
            ParsedLine::AInstruction { address_value } => LineForm::Addr(address_value.form()),
            ParsedLine::CInstruction { destination, operation, jump } => LineForm::Comp(
                destination,
                operation,
                jump,
            ),
            ParsedLine::Label { label_identifier } => LineForm::Label(label_identifier@),
        }
    }

    /// Classifies one raw source line, or reports why it is malformed.
    pub fn from_str(line: &Vec<u8>) -> (r: Result<ParsedLine, ErrorKind>)
        ensures
            match r {
                Ok(pl) => classify(line@) == Ok::<LineForm, ErrorKind>(pl.form()),
                Err(k) => classify(line@) == Err::<LineForm, ErrorKind>(k),
            },
    {
        let t = trim(line);
        if t.len() == 0 {
            return Ok(ParsedLine::Whitespace);
        }
        if t[0] == CH_AT {
            if t.len() == 1 {
                return Err(ErrorKind::Grammar);
            }
            let tgt = subvec(&t, 1, t.len());
            match AddressValue::from_str(tgt) {
                Ok(address_value) => {
                    return Ok(ParsedLine::AInstruction { address_value });
                },
                Err(k) => {
                    return Err(k);
                },
            }
        }
        match c_parse_x(&t) {
            Some((d, o, j)) => Ok(
                ParsedLine::CInstruction { destination: d, operation: o, jump: j },
            ),
            None => {
                if t.len() >= 3 && t[0] == CH_LPAREN && t[t.len() - 1] == CH_RPAREN {
                    let inner = subvec(&t, 1, t.len() - 1);
                    if check_identifier(&inner) {
                        return Ok(ParsedLine::Label { label_identifier: inner });
                    }
                }
                if t.len() >= 2 && t[0] == CH_SLASH && t[1] == CH_SLASH {
                    return Ok(ParsedLine::Comment);
                }
                Err(ErrorKind::Grammar)
            },
        }
    }
}

} // verus!
