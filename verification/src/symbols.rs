//! The symbol table: a mapping from identifier to a 15-bit address, seeded
//! with the architecture's reserved names and extended with label and then
//! variable bindings while a program is assembled.

use vstd::prelude::*;

verus! {

/// One binding of an identifier to an address.
#[derive(Debug)]
pub struct Entry {
    pub key: Vec<u8>,
    pub value: u16,
}

/// The mapping a sequence of bindings denotes; a later binding shadows an
/// earlier one of the same name.
pub open spec fn map_of(entries: Seq<Entry>) -> Map<Seq<u8>, u16>
    decreases entries.len(),
{
    if entries.len() == 0 {
        Map::empty()
    } else {
        map_of(entries.drop_last()).insert(entries.last().key@, entries.last().value)
    }
}

/// The bindings present before any source line is read.
pub open spec fn reserved_map() -> Map<Seq<u8>, u16> {
    Map::empty().insert(seq![83u8, 80u8], 0)  // SP
    .insert(seq![76u8, 67u8, 76u8], 1)  // LCL
    .insert(seq![65u8, 82u8, 71u8], 2)  // ARG
    .insert(seq![84u8, 72u8, 73u8, 83u8], 3)  // THIS
    .insert(seq![84u8, 72u8, 65u8, 84u8], 4)  // THAT
    .insert(seq![83u8, 67u8, 82u8, 69u8, 69u8, 78u8], 16384)  // SCREEN
    .insert(seq![75u8, 66u8, 68u8], 24576)  // KBD
    .insert(seq![82u8, 48u8], 0)  // R0
    .insert(seq![82u8, 49u8], 1)  // R1
    .insert(seq![82u8, 50u8], 2)  // R2
    .insert(seq![82u8, 51u8], 3)  // R3
    .insert(seq![82u8, 52u8], 4)  // R4
    .insert(seq![82u8, 53u8], 5)  // R5
    .insert(seq![82u8, 54u8], 6)  // R6
    .insert(seq![82u8, 55u8], 7)  // R7
    .insert(seq![82u8, 56u8], 8)  // R8
    .insert(seq![82u8, 57u8], 9)  // R9
    .insert(seq![82u8, 49u8, 48u8], 10)  // R10
    .insert(seq![82u8, 49u8, 49u8], 11)  // R11
    .insert(seq![82u8, 49u8, 50u8], 12)  // R12
    .insert(seq![82u8, 49u8, 51u8], 13)  // R13
    .insert(seq![82u8, 49u8, 52u8], 14)  // R14
    .insert(seq![82u8, 49u8, 53u8], 15)  // R15
}

proof fn lemma_map_of_found(entries: Seq<Entry>, k: Seq<u8>, j: int)
    requires
        0 <= j < entries.len(),
        entries[j].key@ == k,
        forall|i: int| j < i < entries.len() ==> entries[i].key@ != k,
    ensures
        map_of(entries).contains_key(k),
        map_of(entries)[k] == entries[j].value,
    decreases entries.len(),
{
    if j == entries.len() - 1 {
    } else {
        lemma_map_of_found(entries.drop_last(), k, j);
    }
}

proof fn lemma_map_of_absent(entries: Seq<Entry>, k: Seq<u8>)
    requires
        forall|i: int| 0 <= i < entries.len() ==> entries[i].key@ != k,
    ensures
        !map_of(entries).contains_key(k),
    decreases entries.len(),
{
    if entries.len() > 0 {
        lemma_map_of_absent(entries.drop_last(), k);
    }
}

fn bytes_eq(a: &Vec<u8>, b: &Vec<u8>) -> (r: bool)
    ensures
        r == (a@ == b@),
{
    if a.len() != b.len() {
        return false;
    }
    let mut i: usize = 0;
    while i < a.len()
        invariant
            i <= a@.len(),
            a@.len() == b@.len(),
            forall|j: int| 0 <= j < i ==> a@[j] == b@[j],
        decreases a@.len() - i,
    {
        if a[i] != b[i] {
            return false;
        }
        i = i + 1;
    }
    proof {
        assert(a@ =~= b@);
    }
    true
}

/// A mutable mapping from identifier to address. Once seeded, bindings are
/// only ever added; a label definition may shadow an earlier binding of the
/// same name.
#[derive(Debug)]
pub struct SymbolTable {
    entries: Vec<Entry>,
}

impl SymbolTable {
    /// The mapping this table denotes.
    pub closed spec fn view(&self) -> Map<Seq<u8>, u16> {
        map_of(self.entries@)
    }

    /// Every bound address lies in the architecture's 15-bit range.
    pub closed spec fn wf(&self) -> bool {
        forall|i: int| 0 <= i < self.entries@.len() ==> (#[trigger] self.entries@[i]).value < 32768
    }

    /// An empty table, before even the reserved names are bound.
    pub fn empty() -> (r: SymbolTable)
        ensures
            r.wf(),
            r@ == Map::<Seq<u8>, u16>::empty(),
    {
        SymbolTable { entries: Vec::new() }
    }

    /// Binds `key` to `value`, shadowing any earlier binding.
    pub fn insert(&mut self, key: Vec<u8>, value: u16)
        requires
            old(self).wf(),
            value < 32768,
        ensures
            final(self).wf(),
            final(self)@ == old(self)@.insert(key@, value),
    {
        let ghost before = self.entries@;
        self.entries.push(Entry { key, value });
        proof {
            assert(self.entries@.drop_last() =~= before);
        }
    }

    /// Looks an identifier up; the latest binding wins.
    pub fn get(&self, key: &Vec<u8>) -> (r: Option<u16>)
        requires
            self.wf(),
        ensures
            match r {
                Some(v) => self@.contains_key(key@) && self@[key@] == v && v < 32768,
                None => !self@.contains_key(key@),
            },
    {
        let mut i: usize = self.entries.len();
        while i > 0
            invariant
                self.wf(),
                i <= self.entries@.len(),
                forall|m: int| i <= m < self.entries@.len() ==> self.entries@[m].key@ != key@,
            decreases i,
        {
            i = i - 1;
            if bytes_eq(&self.entries[i].key, key) {
                proof {
                    lemma_map_of_found(self.entries@, key@, i as int);
                }
                return Some(self.entries[i].value);
            }
        }
        proof {
            lemma_map_of_absent(self.entries@, key@);
        }
        None
    }

    /// The table holding exactly the architecture's reserved names.
    pub fn new() -> (r: SymbolTable)
        ensures
            r.wf(),
            r@ == reserved_map(),
    {
        let mut t = SymbolTable::empty();
        t.insert(key2(83, 80), 0);  // SP
        t.insert(key3(76, 67, 76), 1);  // LCL
        t.insert(key3(65, 82, 71), 2);  // ARG
        t.insert(key4(84, 72, 73, 83), 3);  // THIS
        t.insert(key4(84, 72, 65, 84), 4);  // THAT
        t.insert(key6(83, 67, 82, 69, 69, 78), 16384);  // SCREEN
        t.insert(key3(75, 66, 68), 24576);  // KBD
        t.insert(key2(82, 48), 0);  // R0
        t.insert(key2(82, 49), 1);  // R1
        t.insert(key2(82, 50), 2);  // R2
        t.insert(key2(82, 51), 3);  // R3
        t.insert(key2(82, 52), 4);  // R4
        t.insert(key2(82, 53), 5);  // R5
        t.insert(key2(82, 54), 6);  // R6
        t.insert(key2(82, 55), 7);  // R7
        t.insert(key2(82, 56), 8);  // R8
        t.insert(key2(82, 57), 9);  // R9
        t.insert(key3(82, 49, 48), 10);  // R10
        t.insert(key3(82, 49, 49), 11);  // R11
        t.insert(key3(82, 49, 50), 12);  // R12
        t.insert(key3(82, 49, 51), 13);  // R13
        t.insert(key3(82, 49, 52), 14);  // R14
        t.insert(key3(82, 49, 53), 15);  // R15
        t
    }
}

fn key2(a: u8, b: u8) -> (r: Vec<u8>)
    ensures
        r@ == seq![a, b],
{
    let mut r: Vec<u8> = Vec::new();
    r.push(a);
    r.push(b);
    proof {
        assert(r@ =~= seq![a, b]);
    }
    r
}

fn key3(a: u8, b: u8, c: u8) -> (r: Vec<u8>)
    ensures
        r@ == seq![a, b, c],
{
    let mut r: Vec<u8> = Vec::new();
    r.push(a);
    r.push(b);
    r.push(c);
    proof {
        assert(r@ =~= seq![a, b, c]);
    }
    r
}

fn key4(a: u8, b: u8, c: u8, d: u8) -> (r: Vec<u8>)
    ensures
        r@ == seq![a, b, c, d],
{
    let mut r: Vec<u8> = Vec::new();
    r.push(a);
    r.push(b);
    r.push(c);
    r.push(d);
    proof {
        assert(r@ =~= seq![a, b, c, d]);
    }
    r
}

fn key6(a: u8, b: u8, c: u8, d: u8, e: u8, f: u8) -> (r: Vec<u8>)
    ensures
        r@ == seq![a, b, c, d, e, f],
{
    let mut r: Vec<u8> = Vec::new();
    r.push(a);
    r.push(b);
    r.push(c);
    r.push(d);
    r.push(e);
    r.push(f);
    proof {
        assert(r@ =~= seq![a, b, c, d, e, f]);
    }
    r
}

} // verus!
