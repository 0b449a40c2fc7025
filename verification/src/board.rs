//! The store of stones: a sparse map from occupied cells to colours.

use crate::color::Color;
use crate::point::{lemma_key_bijection, Pt};
use std::collections::HashMap;
use vstd::prelude::*;

verus! {

broadcast use vstd::std_specs::hash::group_hash_axioms;

/// The stones that have been placed, each on its cell. A cell without an
/// entry is empty.
pub struct Board {
    pub(crate) cells: HashMap<u64, Color>,
}

impl View for Board {
    type V = Map<Pt, Color>;

    /// The board as a map from occupied cells to the colour of their stone.
    closed spec fn view(&self) -> Map<Pt, Color> {
        Map::new(
            |p: Pt| self.cells@.contains_key(p.spec_key()),
            |p: Pt| self.cells@[p.spec_key()],
        )
    }
}

impl Board {
    /// A cell is occupied exactly when its key is among the hashed cells, and
    /// the key's entry is then the colour of its stone.
    pub(crate) proof fn lemma_cell(&self, p: Pt)
        ensures
            self@.contains_key(p) <==> self.cells@.contains_key(p.spec_key()),
            self@.contains_key(p) ==> self@[p] == self.cells@[p.spec_key()],
    {
    }

    /// A key is among the hashed cells exactly when its cell is occupied.
    pub(crate) proof fn lemma_key(&self, k: u64)
        ensures
            self.cells@.contains_key(k) <==> self@.contains_key(Pt::spec_from_key(k)),
    {
        lemma_key_bijection(Pt::spec_from_key(k), k);
    }

    /// The board is without stones exactly when no cell is hashed.
    pub(crate) proof fn lemma_blank(&self)
        ensures
            self@.is_empty() <==> self.cells@.is_empty(),
    {
        if self@.is_empty() {
            assert forall|k: u64| !self.cells@.dom().contains(k) by {
                lemma_key_bijection(Pt::spec_from_key(k), k);
                assert(!self@.dom().contains(Pt::spec_from_key(k)));
            }
            assert(self.cells@.dom() =~= Set::empty());
        }
        if self.cells@.is_empty() {
            assert(self@.dom() =~= Set::empty());
        }
    }

    /// A board without stones.
    pub fn new() -> (b: Board)
        ensures
            b@ == Map::<Pt, Color>::empty(),
    {
        let b = Board { cells: HashMap::new() };
        assert(b@ =~= Map::<Pt, Color>::empty());
        b
    }

    /// The colour of the stone on `p`, if there is one.
    pub fn color_at(&self, p: Pt) -> (c: Option<Color>)
        ensures
            c == (if self@.contains_key(p) { Some(self@[p]) } else { None }),
    {
        match self.cells.get(&p.key()) {
            Some(c) => Some(*c),
            None => None,
        }
    }

    /// Whether `p` carries no stone.
    pub fn is_empty(&self, p: Pt) -> (b: bool)
        ensures
            b == !self@.contains_key(p),
    {
        !self.cells.contains_key(&p.key())
    }

    /// Whether the board carries no stone at all.
    pub fn is_blank(&self) -> (b: bool)
        ensures
            b == self@.is_empty(),
    {
        proof {
            self.lemma_blank();
        }
        self.cells.is_empty()
    }

    /// Puts a stone of colour `color` on the empty cell `p`.
    pub fn place(&mut self, p: Pt, color: Color)
        requires
            !old(self)@.contains_key(p),
        ensures
            final(self)@ == old(self)@.insert(p, color),
    {
        self.cells.insert(p.key(), color);
        proof {
            assert forall|q: Pt| q != p implies q.spec_key() != p.spec_key() by {
                lemma_key_bijection(q, 0);
                lemma_key_bijection(p, 0);
            }
            assert(self@ =~= old(self)@.insert(p, color));
        }
    }

    /// Removes every stone.
    pub fn clear(&mut self)
        ensures
            final(self)@ == Map::<Pt, Color>::empty(),
    {
        self.cells.clear();
        assert(self@ =~= Map::<Pt, Color>::empty());
    }

    /// Every stone with its cell, each once, in no particular order.
    pub fn stones(&self) -> (v: Vec<(Pt, Color)>)
        ensures
            v@.to_set() == self@.kv_pairs(),
            v@.no_duplicates(),
    {
        let mut v: Vec<(Pt, Color)> = Vec::new();
        for kc in it: self.cells.iter()
            invariant
                v@.len() == it.index(),
                it.seq().unref().to_set() == self.cells@.kv_pairs(),
                it.seq().no_duplicates(),
                forall|j: int|
                    0 <= j < it.index() ==> (#[trigger] v@[j]) == (
                        Pt::spec_from_key(*it.seq()[j].0),
                        *it.seq()[j].1,
                    ),
                it.index() == it.seq().len() ==> keyed(v@).to_set() == self.cells@.kv_pairs()
                    && keyed(v@).no_duplicates(),
        {
            let (k, c) = kc;
            v.push((Pt::from_key(*k), *c));
            assert(it.index() + 1 == it.seq().len() ==> keyed(v@) =~= it.seq().unref()) by {
                assert forall|j: int| 0 <= j < v@.len() implies (#[trigger] v@[j].0.spec_key())
                    == *it.seq()[j].0 by {
                    lemma_key_bijection(v@[j].0, *it.seq()[j].0);
                }
            }
        }
        proof {
            self.lemma_stones(v@);
        }
        v
    }

    proof fn lemma_stones(&self, v: Seq<(Pt, Color)>)
        requires
            keyed(v).to_set() == self.cells@.kv_pairs(),
            keyed(v).no_duplicates(),
        ensures
            v.to_set() == self@.kv_pairs(),
            v.no_duplicates(),
    {
        let kv = keyed(v);
        assert forall|i: int, j: int| 0 <= i < v.len() && 0 <= j < v.len() && i != j implies v[i]
            != v[j] by {
            assert(kv[i] != kv[j]);
        }
        assert forall|e: (Pt, Color)| v.to_set().contains(e) <==> self@.kv_pairs().contains(e) by {
            if v.to_set().contains(e) {
                let j = choose|j: int| 0 <= j < v.len() && v[j] == e;
                assert(kv.to_set().contains(kv[j]));
            }
            if self@.kv_pairs().contains(e) {
                let ke = (e.0.spec_key(), e.1);
                assert(self.cells@.kv_pairs().contains(ke));
                assert(kv.to_set().contains(ke));
                let j = choose|j: int| 0 <= j < kv.len() && kv[j] == ke;
                lemma_key_bijection(e.0, 0);
                lemma_key_bijection(v[j].0, 0);
                assert(v[j] == e);
            }
        }
        assert(v.to_set() =~= self@.kv_pairs());
    }
}

/// The stones of `v` with each cell replaced by its key.
spec fn keyed(v: Seq<(Pt, Color)>) -> Seq<(u64, Color)> {
    v.map_values(|e: (Pt, Color)| (e.0.spec_key(), e.1))
}

} // verus!
