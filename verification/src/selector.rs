//! The move selector: a candidate of the highest score.

use crate::board::Board;
use crate::color::Color;
use crate::evaluator::{axis_score, lemma_score_range, score};
use crate::lines::{axis, five_through, line_len, reversed, run};
use crate::frontier::Frontier;
use crate::point::{lemma_key_bijection, Pt};
use vstd::prelude::*;

verus! {

broadcast use vstd::std_specs::hash::group_hash_axioms;

/// Whether `best` is a right answer of the move selector: nothing where
/// there is no candidate, otherwise a candidate with its score, which no
/// other candidate exceeds. Among candidates of equal score any may be
/// chosen.
pub open spec fn is_best(
    stones: Map<Pt, Color>,
    frontier: Set<Pt>,
    who: Color,
    best: Option<(Pt, i32)>,
) -> bool {
    match best {
        None => frontier.is_empty(),
        Some((p, s)) => {
            &&& frontier.contains(p)
            &&& s == score(stones, p, who)
            &&& forall|q: Pt| frontier.contains(q) ==> #[trigger] score(stones, q, who) <= s
        },
    }
}

impl Frontier {
    /// A candidate with the highest score for `who` on `board`, together
    /// with that score; `None` only where there is no candidate.
    pub fn best_move(&self, board: &Board, who: Color) -> (best: Option<(Pt, i32)>)
        ensures
            is_best(board@, self@, who, best),
    {
        let mut best: Option<(Pt, i32)> = None;
        assert forall|q: Pt| #[trigger] self@.contains(q) implies self.cells@.contains(
            q.spec_key(),
        ) by {
            self.lemma_cell(q);
        }
        for k in it: self.cells.iter()
            invariant
                it.seq().unref().to_set() == self.cells@,
                forall|q: Pt| #[trigger] self@.contains(q) ==> self.cells@.contains(q.spec_key()),
                match best {
                    None => it.index() == 0,
                    Some((p, s)) => {
                        &&& self@.contains(p)
                        &&& s == score(board@, p, who)
                        &&& forall|j: int|
                            0 <= j < it.index() ==> score(
                                board@,
                                Pt::spec_from_key(*#[trigger] it.seq()[j]),
                                who,
                            ) <= s
                    },
                },
                it.index() == it.seq().len() ==> is_best(board@, self@, who, best),
        {
            let p: Pt = Pt::from_key(*k);
            let sc: i32 = board.score_point(p, who);
            assert(self@.contains(p)) by {
                assert(it.seq().unref().to_set().contains(it.seq().unref()[it.index()]));
                self.lemma_key(*k);
            }
            best =
            match best {
                None => Some((p, sc)),
                Some((bp, bs)) => if sc > bs {
                    Some((p, sc))
                } else {
                    Some((bp, bs))
                },
            };
            assert(it.index() + 1 == it.seq().len() ==> is_best(board@, self@, who, best)) by {
                if it.index() + 1 == it.seq().len() {
                    assert forall|q: Pt| self@.contains(q) implies #[trigger] score(
                        board@,
                        q,
                        who,
                    ) <= best.unwrap().1 by {
                        assert(it.seq().unref().to_set().contains(q.spec_key()));
                        let j = choose|j: int|
                            0 <= j < it.seq().len() && it.seq().unref()[j] == q.spec_key();
                        lemma_key_bijection(q, 0);
                        assert(Pt::spec_from_key(*it.seq()[j]) == q);
                    }
                }
            }
        }
        best
    }
}

/// A cell that carries a stone is never chosen while an empty candidate is
/// left: every empty cell scores higher.
pub proof fn lemma_occupied_never_chosen(
    stones: Map<Pt, Color>,
    frontier: Set<Pt>,
    who: Color,
    p: Pt,
    s: i32,
    q: Pt,
)
    requires
        is_best(stones, frontier, who, Some((p, s))),
        frontier.contains(q),
        !stones.contains_key(q),
    ensures
        !stones.contains_key(p),
{
    lemma_score_range(stones, p, who);
    lemma_score_range(stones, q, who);
}

/// While the opponent has no stone on the board, the selector takes a
/// winning cell whenever there is one: where some empty candidate `w` would
/// complete a five for `who`, so does the cell that is chosen.
pub proof fn lemma_win_is_chosen(
    stones: Map<Pt, Color>,
    frontier: Set<Pt>,
    who: Color,
    p: Pt,
    s: i32,
    w: Pt,
)
    requires
        forall|q: Pt| stones.contains_key(q) ==> stones[q] == who,
        is_best(stones, frontier, who, Some((p, s))),
        frontier.contains(w),
        !stones.contains_key(w),
        five_through(stones, w, who),
    ensures
        !stones.contains_key(p),
        five_through(stones, p, who),
{
    reveal(score);
    lemma_occupied_never_chosen(stones, frontier, who, p, s, w);
    let opp = who.opponent();
    assert forall|i: int| 0 <= i < 4 implies line_len(stones, p, #[trigger] axis(i), opp) == 1 by {
        assert(run(stones, p, axis(i), opp) == 0);
        assert(run(stones, p, reversed(axis(i)), opp) == 0);
    }
    let i = choose|i: int| 0 <= i < 4 && #[trigger] line_len(stones, w, axis(i), who) >= 5;
    assert(axis_score(stones, w, axis(i), who) >= 1_000_000);
    assert(axis_score(stones, w, axis(0), who) >= 10);
    assert(axis_score(stones, w, axis(1), who) >= 10);
    assert(axis_score(stones, w, axis(2), who) >= 10);
    assert(axis_score(stones, w, axis(3), who) >= 10);
    assert(score(stones, w, who) >= 1_000_030);
    if !five_through(stones, p, who) {
        assert forall|j: int| 0 <= j < 4 implies axis_score(stones, p, #[trigger] axis(j), who)
            <= 50_000 by {
            assert(line_len(stones, p, axis(j), who) < 5);
            assert(line_len(stones, p, axis(j), opp) == 1);
        }
        assert(axis_score(stones, p, axis(0), who) <= 50_000);
        assert(axis_score(stones, p, axis(1), who) <= 50_000);
        assert(axis_score(stones, p, axis(2), who) <= 50_000);
        assert(axis_score(stones, p, axis(3), who) <= 50_000);
        assert(score(stones, p, who) <= 200_000);
    }
}

} // verus!
