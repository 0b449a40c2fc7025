//! The frontier: the cells near the stones, from which moves are chosen.

use crate::board::Board;
use crate::color::Color;
use crate::point::{lemma_key_bijection, Pt};
use std::collections::HashSet;
use vstd::prelude::*;

verus! {

broadcast use vstd::std_specs::hash::group_hash_axioms;

/// Whether `q` lies within two columns and two rows of `p`.
pub open spec fn near(p: Pt, q: Pt) -> bool {
    -2 <= q.x - p.x <= 2 && -2 <= q.y - p.y <= 2
}

/// The five by five block of cells round the origin.
pub open spec fn origin_block() -> Set<Pt> {
    Set::new(|q: Pt| -2 <= q.x <= 2 && -2 <= q.y <= 2)
}

/// The empty cells near `p`.
pub open spec fn empty_near(stones: Map<Pt, Color>, p: Pt) -> Set<Pt> {
    Set::new(|q: Pt| near(p, q) && !stones.contains_key(q))
}

/// The cells worth considering for the next move: on a board without
/// stones the block round the origin, otherwise every empty cell near a
/// stone.
pub open spec fn candidates(stones: Map<Pt, Color>) -> Set<Pt> {
    if stones.is_empty() {
        origin_block()
    } else {
        Set::new(
            |q: Pt|
                !stones.contains_key(q) && exists|p: Pt| #[trigger]
                    stones.contains_key(p) && near(p, q),
        )
    }
}

/// The set of cells that the move selector looks at.
pub struct Frontier {
    pub(crate) cells: HashSet<u64>,
}

impl View for Frontier {
    type V = Set<Pt>;

    closed spec fn view(&self) -> Set<Pt> {
        Set::new(|p: Pt| self.cells@.contains(p.spec_key()))
    }
}

impl Frontier {
    /// A cell is a candidate exactly when its key is among the hashed cells.
    pub(crate) proof fn lemma_cell(&self, p: Pt)
        ensures
            self@.contains(p) <==> self.cells@.contains(p.spec_key()),
    {
    }

    /// A key is among the hashed cells exactly when its cell is a candidate.
    pub(crate) proof fn lemma_key(&self, k: u64)
        ensures
            self.cells@.contains(k) <==> self@.contains(Pt::spec_from_key(k)),
    {
        lemma_key_bijection(Pt::spec_from_key(k), k);
    }

    /// A frontier without cells.
    pub fn new() -> (f: Frontier)
        ensures
            f@ == Set::<Pt>::empty(),
    {
        let f = Frontier { cells: HashSet::new() };
        assert(f@ =~= Set::<Pt>::empty());
        f
    }

    /// Whether `p` is a candidate.
    pub fn contains(&self, p: Pt) -> (b: bool)
        ensures
            b == self@.contains(p),
    {
        self.cells.contains(&p.key())
    }

    /// Adds the cell `p`.
    fn insert(&mut self, p: Pt)
        ensures
            final(self)@ == old(self)@.insert(p),
    {
        self.cells.insert(p.key());
        proof {
            assert forall|q: Pt| q != p implies q.spec_key() != p.spec_key() by {
                lemma_key_bijection(q, 0);
                lemma_key_bijection(p, 0);
            }
            assert(self@ =~= old(self)@.insert(p));
        }
    }

    /// Adds every empty cell near `p`.
    fn add_block(&mut self, board: &Board, p: Pt)
        ensures
            final(self)@ == old(self)@.union(empty_near(board@, p)),
    {
        let mut dx: i32 = -2;
        while dx <= 2
            invariant
                -2 <= dx <= 3,
                self@ == old(self)@.union(
                    Set::new(|q: Pt| empty_near(board@, p).contains(q) && q.x - p.x < dx),
                ),
            decreases 3 - dx,
        {
            let mut dy: i32 = -2;
            while dy <= 2
                invariant
                    -2 <= dx <= 2,
                    -2 <= dy <= 3,
                    self@ == old(self)@.union(
                        Set::new(
                            |q: Pt|
                                empty_near(board@, p).contains(q) && (q.x - p.x < dx || (q.x - p.x
                                    == dx && q.y - p.y < dy)),
                        ),
                    ),
                decreases 3 - dy,
            {
                match p.add(dx, dy) {
                    Some(q) => {
                        if board.is_empty(q) {
                            self.insert(q);
                        }
                    },
                    None => {},
                }
                dy = dy + 1;
            }
            dx = dx + 1;
        }
    }

    /// Replaces the candidates by those of `board`.
    pub fn rebuild(&mut self, board: &Board)
        ensures
            final(self)@ == candidates(board@),
    {
        self.cells.clear();
        assert(self@ =~= Set::<Pt>::empty());
        if board.is_blank() {
            self.add_block(board, Pt::new(0, 0));
            assert(self@ =~= origin_block());
            return ;
        }
        proof {
            board.lemma_blank();
        }
        for k in it: board.cells.keys()
            invariant
                !board@.is_empty(),
                !board.cells@.is_empty(),
                it.seq().unref().to_set() == board.cells@.dom(),
                forall|q: Pt|
                    self@.contains(q) <==> !board@.contains_key(q) && exists|j: int|
                        0 <= j < it.index() && near(Pt::spec_from_key(*#[trigger] it.seq()[j]), q),
                it.index() == it.seq().len() ==> self@ == candidates(board@),
        {
            let p: Pt = Pt::from_key(*k);
            self.add_block(board, p);
            assert(it.index() + 1 == it.seq().len() ==> self@ =~= candidates(board@)) by {
                if it.index() + 1 == it.seq().len() {
                    assert forall|q: Pt| candidates(board@).contains(q) implies self@.contains(
                        q,
                    ) by {
                        let s = choose|s: Pt| #[trigger] board@.contains_key(s) && near(s, q);
                        board.lemma_cell(s);
                        assert(it.seq().unref().to_set().contains(s.spec_key()));
                        let j = choose|j: int|
                            0 <= j < it.seq().len() && it.seq().unref()[j] == s.spec_key();
                        lemma_key_bijection(s, 0);
                        assert(near(Pt::spec_from_key(*it.seq()[j]), q));
                    }
                    assert forall|q: Pt| self@.contains(q) implies candidates(board@).contains(
                        q,
                    ) by {
                        let j = choose|j: int|
                            0 <= j < it.index() + 1 && near(
                                Pt::spec_from_key(*#[trigger] it.seq()[j]),
                                q,
                            );
                        assert(it.seq().unref().to_set().contains(it.seq().unref()[j]));
                        board.lemma_key(*it.seq()[j]);
                        assert(board@.contains_key(Pt::spec_from_key(*it.seq()[j])));
                    }
                }
            }
        }
    }

    /// The candidates of `board`.
    pub fn of(board: &Board) -> (f: Frontier)
        ensures
            f@ == candidates(board@),
    {
        let mut f = Frontier::new();
        f.rebuild(board);
        f
    }

    /// Every candidate, each once, in no particular order.
    pub fn cells(&self) -> (v: Vec<Pt>)
        ensures
            v@.to_set() == self@,
            v@.no_duplicates(),
    {
        let mut v: Vec<Pt> = Vec::new();
        for k in it: self.cells.iter()
            invariant
                v@.len() == it.index(),
                it.seq().unref().to_set() == self.cells@,
                it.seq().no_duplicates(),
                forall|j: int|
                    0 <= j < it.index() ==> (#[trigger] v@[j]) == Pt::spec_from_key(*it.seq()[j]),
                it.index() == it.seq().len() ==> v@.to_set() == self@ && v@.no_duplicates(),
        {
            v.push(Pt::from_key(*k));
            assert(it.index() + 1 == it.seq().len() ==> v@.to_set() =~= self@
                && v@.no_duplicates()) by {
                if it.index() + 1 == it.seq().len() {
                    assert forall|i: int, j: int|
                        0 <= i < v@.len() && 0 <= j < v@.len() && i != j implies v@[i] != v@[j] by {
                        lemma_key_bijection(v@[i], *it.seq()[i]);
                        lemma_key_bijection(v@[j], *it.seq()[j]);
                    }
                    assert forall|q: Pt| self@.contains(q) implies v@.to_set().contains(q) by {
                        assert(it.seq().unref().to_set().contains(q.spec_key()));
                        let j = choose|j: int|
                            0 <= j < it.seq().len() && it.seq().unref()[j] == q.spec_key();
                        lemma_key_bijection(q, 0);
                        assert(v@[j] == q);
                    }
                    assert forall|q: Pt| v@.to_set().contains(q) implies self@.contains(q) by {
                        let j = choose|j: int| 0 <= j < v@.len() && v@[j] == q;
                        assert(it.seq().unref().to_set().contains(it.seq().unref()[j]));
                        lemma_key_bijection(q, *it.seq()[j]);
                    }
                }
            }
        }
        v
    }
}

} // verus!
