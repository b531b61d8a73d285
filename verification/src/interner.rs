//! Identifier interning: maps identifier text (as UTF-8 bytes) to small
//! stable handles.
//! Identical text maps to the identical handle within one interning session;
//! handles are indices into the table and are comparable only within it.

use vstd::prelude::*;
use crate::ast::Sym;

verus! {

/// First index of `text` in `tbl`, if any.
pub open spec fn spec_lookup(tbl: Seq<Seq<u8>>, text: Seq<u8>) -> Option<int>
    decreases tbl.len(),
{
    if tbl.len() == 0 {
        None
    } else if tbl[0] == text {
        Some(0)
    } else {
        match spec_lookup(tbl.drop_first(), text) {
            Some(i) => Some(i + 1),
            None => None,
        }
    }
}

/// The table after interning `text`: unchanged if present, extended otherwise.
pub open spec fn spec_intern_table(tbl: Seq<Seq<u8>>, text: Seq<u8>) -> Seq<Seq<u8>> {
    match spec_lookup(tbl, text) {
        Some(_) => tbl,
        None => tbl.push(text),
    }
}

/// The handle that interning `text` yields: its first index, or the old length.
pub open spec fn spec_intern_sym(tbl: Seq<Seq<u8>>, text: Seq<u8>) -> int {
    match spec_lookup(tbl, text) {
        Some(i) => i,
        None => tbl.len() as int,
    }
}

/// An interning table. Handles returned by [`Interner::get_or_intern`] are
/// stable for the table's lifetime.
pub struct Interner {
    names: Vec<Vec<u8>>,
}

impl View for Interner {
    type V = Seq<Seq<u8>>;

    closed spec fn view(&self) -> Seq<Seq<u8>> {
        self.names@.map(|i: int, v: Vec<u8>| v@)
    }
}

impl Interner {
    /// Creates an empty interning table.
    pub fn new() -> (r: Interner)
        ensures
            r@ == Seq::<Seq<u8>>::empty(),
    {
        let r = Interner { names: Vec::new() };
        proof {
            assert(r@ =~= Seq::<Seq<u8>>::empty());
        }
        r
    }

    /// Returns the handle for `text`, interning it if it is new.
    pub fn get_or_intern(&mut self, text: &Vec<u8>) -> (sym: Sym)
        ensures
            final(self)@ == spec_intern_table(old(self)@, text@),
            sym == spec_intern_sym(old(self)@, text@),
            sym < final(self)@.len(),
            final(self)@[sym as int] == text@,
    {
        let ghost tbl = self@;
        let n = self.names.len();
        for i in 0..n
            invariant
                n == self.names.len(),
                tbl == self@,
                forall|j: int| 0 <= j < i ==> self@[j] != text@,
        {
            if &self.names[i] == text {
                proof {
                    assert(self.names[i as int]@ =~= text@);
                    lemma_lookup_first(tbl, text@, i as int);
                }
                return i;
            }
        }
        proof {
            lemma_lookup_none(tbl, text@);
        }
        self.names.push(text.clone());
        proof {
            assert(self@ =~= tbl.push(text@));
        }
        n
    }

    /// Returns the text interned under `sym`, if the handle is in range.
    pub fn resolve(&self, sym: Sym) -> (r: Option<&Vec<u8>>)
        ensures
            sym < self@.len() ==> r is Some && r->0@ == self@[sym as int],
            sym >= self@.len() ==> r is None,
    {
        if sym < self.names.len() {
            Some(&self.names[sym])
        } else {
            None
        }
    }
}

/// If `text` first occurs in `tbl` at `i`, `spec_lookup` finds exactly `i`.
proof fn lemma_lookup_first(tbl: Seq<Seq<u8>>, text: Seq<u8>, i: int)
    requires
        0 <= i < tbl.len(),
        tbl[i] == text,
        forall|j: int| 0 <= j < i ==> tbl[j] != text,
    ensures
        spec_lookup(tbl, text) == Some(i),
    decreases tbl.len(),
{
    if i > 0 {
        lemma_lookup_first(tbl.drop_first(), text, i - 1);
    }
}

/// If `text` occurs nowhere in `tbl`, `spec_lookup` finds nothing.
proof fn lemma_lookup_none(tbl: Seq<Seq<u8>>, text: Seq<u8>)
    requires
        forall|j: int| 0 <= j < tbl.len() ==> tbl[j] != text,
    ensures
        spec_lookup(tbl, text) == None::<int>,
    decreases tbl.len(),
{
    if tbl.len() > 0 {
        lemma_lookup_none(tbl.drop_first(), text);
    }
}

} // verus!
