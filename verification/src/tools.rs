//! The paint tool selector: a cyclic index over an ordered list of
//! paintable cell kinds, advanced and retreated by external wheel or
//! key events and read off whenever a cell is painted.

use vstd::prelude::*;

use crate::cell::Cell;

verus! {

/// The paint adapter's selection state: an ordered list of paintable
/// kinds and the index of the currently selected one. The list is
/// fixed at construction and exhaustive over the paintable kinds.
pub struct Tools {
    kinds: Vec<Cell>,
    index: usize,
}

impl Tools {
    /// The ordered list of paintable kinds.
    pub closed spec fn kinds_spec(&self) -> Seq<Cell> {
        self.kinds@
    }

    /// The index of the selected kind.
    pub closed spec fn index_spec(&self) -> int {
        self.index as int
    }

    /// Well-formed: a non-empty list and an in-range selection.
    pub open spec fn wf(&self) -> bool {
        &&& 1 <= self.kinds_spec().len()
        &&& self.index_spec() < self.kinds_spec().len()
    }

    /// Every paintable kind, sand first, with the first tool selected.
    pub fn new() -> (t: Tools)
        ensures
            t.wf(),
            t.kinds_spec() == seq![Cell::Granular, Cell::Liquid, Cell::Solid, Cell::Empty],
            t.index_spec() == 0,
    {
        let mut kinds: Vec<Cell> = Vec::new();
        kinds.push(Cell::Granular);
        kinds.push(Cell::Liquid);
        kinds.push(Cell::Solid);
        kinds.push(Cell::Empty);
        proof {
            assert(kinds@ =~= seq![Cell::Granular, Cell::Liquid, Cell::Solid, Cell::Empty]);
        }
        Tools { kinds, index: 0 }
    }

    /// How many kinds the list holds.
    pub fn len(&self) -> (n: usize)
        ensures
            n == self.kinds_spec().len(),
    {
        self.kinds.len()
    }

    /// The index of the selected kind.
    pub fn index(&self) -> (i: usize)
        ensures
            i == self.index_spec(),
    {
        self.index
    }

    /// The currently selected kind.
    pub fn current(&self) -> (k: Cell)
        requires
            self.wf(),
        ensures
            k == self.kinds_spec()[self.index_spec()],
    {
        self.kinds[self.index]
    }

    /// One "advance" event: the selection steps forward cyclically
    /// through the list — in particular, from the last index it wraps
    /// back to 0.
    pub fn advance(&mut self)
        requires
            old(self).wf(),
        ensures
            final(self).wf(),
            final(self).kinds_spec() == old(self).kinds_spec(),
            final(self).index_spec() == (old(self).index_spec() + 1) % (
            old(self).kinds_spec().len() as int),
            old(self).index_spec() == old(self).kinds_spec().len() - 1
                ==> final(self).index_spec() == 0,
    {
        let n = self.kinds.len();
        proof {
            if self.index_spec() + 1 < n {
                vstd::arithmetic::div_mod::lemma_small_mod((self.index + 1) as nat, n as nat);
            } else {
                vstd::arithmetic::div_mod::lemma_mod_multiples_vanish(1, 0, n as int);
                vstd::arithmetic::div_mod::lemma_small_mod(0, n as nat);
            }
        }
        self.index = (self.index + 1) % n;
    }

    /// One "retreat" event: the selection steps backward cyclically
    /// through the list — in particular, from index 0 it wraps to the
    /// last index.
    pub fn retreat(&mut self)
        requires
            old(self).wf(),
        ensures
            final(self).wf(),
            final(self).kinds_spec() == old(self).kinds_spec(),
            final(self).index_spec() == (old(self).index_spec() + old(self).kinds_spec().len()
                - 1) % (old(self).kinds_spec().len() as int),
            old(self).index_spec() == 0
                ==> final(self).index_spec() == old(self).kinds_spec().len() - 1,
    {
        let n = self.kinds.len();
        proof {
            let i = self.index_spec();
            let m = n as int;
            if i == 0 {
                vstd::arithmetic::div_mod::lemma_small_mod((n - 1) as nat, n as nat);
            } else {
                vstd::arithmetic::div_mod::lemma_mod_multiples_vanish(1, i - 1, m);
                vstd::arithmetic::div_mod::lemma_small_mod((i - 1) as nat, n as nat);
            }
        }
        if self.index == 0 {
            self.index = n - 1;
        } else {
            self.index = self.index - 1;
        }
    }

    /// Selects the tool holding the given kind: the index moves to the
    /// kind's first position in the list. A kind absent from the list
    /// is a caller error, ruled out up front — the default list is
    /// exhaustive, so every cell kind can be selected.
    pub fn select(&mut self, kind: Cell)
        requires
            old(self).wf(),
            old(self).kinds_spec().contains(kind),
        ensures
            final(self).wf(),
            final(self).kinds_spec() == old(self).kinds_spec(),
            final(self).kinds_spec()[final(self).index_spec()] == kind,
            forall|j: int|
                0 <= j < final(self).index_spec() ==> final(self).kinds_spec()[j] != kind,
    {
        let n = self.kinds.len();
        let mut i: usize = 0;
        while i < n
            invariant
                self.kinds@ == old(self).kinds@,
                self.index == old(self).index,
                n == self.kinds@.len(),
                i <= n,
                old(self).wf(),
                forall|j: int| 0 <= j < i ==> self.kinds@[j] != kind,
            decreases n - i,
        {
            let c = self.kinds[i];
            if c == kind {
                self.index = i;
                return;
            }
            i += 1;
        }
        proof {
            let j = choose|j: int|
                0 <= j < old(self).kinds_spec().len() && old(self).kinds_spec()[j] == kind;
            assert(false);
        }
    }
}

} // verus!
