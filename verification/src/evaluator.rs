//! The heuristic that scores a cell as a move of one side.

use crate::board::Board;
use crate::color::Color;
use crate::lines::{axis, direction, line_len, open_ends};
use crate::point::Pt;
use vstd::prelude::*;

verus! {

/// The score of a cell that already carries a stone: below every score that
/// an empty cell can have.
pub const OCCUPIED_SCORE: i32 = -536_870_912;

/// What a line of one's own is worth, by its length and its open ends.
pub open spec fn offense_value(len: nat, open: nat) -> int {
    if len >= 5 {
        1_000_000
    } else if len == 4 && open == 2 {
        50_000
    } else if len == 4 && open == 1 {
        20_000
    } else if len == 3 && open == 2 {
        10_000
    } else if len == 3 && open == 1 {
        1_000
    } else if len == 2 && open == 2 {
        500
    } else if len == 2 && open == 1 {
        100
    } else if len == 1 && open == 2 {
        50
    } else {
        10
    }
}

/// What it is worth to take the cell from the opponent, by the length and
/// the open ends of the line that the opponent would get there.
pub open spec fn defense_value(len: nat, open: nat) -> int {
    if len >= 5 {
        900_000
    } else if len == 4 && open == 2 {
        40_000
    } else if len == 4 && open == 1 {
        15_000
    } else if len == 3 && open == 2 {
        8_000
    } else if len == 3 && open == 1 {
        800
    } else {
        0
    }
}

/// What the axis `d` adds to the score of `p` for `who`: the worth of the
/// line that `who` gets, and of the line that the opponent loses.
pub open spec fn axis_score(stones: Map<Pt, Color>, p: Pt, d: Pt, who: Color) -> int {
    offense_value(line_len(stones, p, d, who), open_ends(stones, p, d, who)) + defense_value(
        line_len(stones, p, d, who.opponent()),
        open_ends(stones, p, d, who.opponent()),
    )
}

/// The score of the cell `p` as a move of `who`.
#[verifier::opaque]
pub open spec fn score(stones: Map<Pt, Color>, p: Pt, who: Color) -> int {
    if stones.contains_key(p) {
        OCCUPIED_SCORE as int
    } else {
        axis_score(stones, p, axis(0), who) + axis_score(stones, p, axis(1), who) + axis_score(
            stones,
            p,
            axis(2),
            who,
        ) + axis_score(stones, p, axis(3), who)
    }
}

/// The part of the score that the first `n` axes add.
spec fn score_upto(stones: Map<Pt, Color>, p: Pt, who: Color, n: int) -> int {
    (if n > 0 { axis_score(stones, p, axis(0), who) } else { 0 })
    + (if n > 1 { axis_score(stones, p, axis(1), who) } else { 0 })
    + (if n > 2 { axis_score(stones, p, axis(2), who) } else { 0 })
    + (if n > 3 { axis_score(stones, p, axis(3), who) } else { 0 })
}

/// For every pattern, making the line is worth more than preventing it.
pub proof fn lemma_offense_outranks_defense(len: nat, open: nat)
    ensures
        offense_value(len, open) > defense_value(len, open),
        10 <= offense_value(len, open) <= 1_000_000,
        0 <= defense_value(len, open) <= 900_000,
{
}

/// On one axis, completing a five of one's own is worth more than anything
/// that can be taken from the opponent there.
pub proof fn lemma_five_outranks_every_block(len: nat, open: nat, their_len: nat, their_open: nat)
    requires
        len >= 5,
    ensures
        offense_value(len, open) > defense_value(their_len, their_open),
{
}

/// An empty cell scores at least 40 and at most 7,600,000; an occupied cell
/// scores below every empty one.
pub proof fn lemma_score_range(stones: Map<Pt, Color>, p: Pt, who: Color)
    ensures
        !stones.contains_key(p) ==> 40 <= score(stones, p, who) <= 7_600_000,
        stones.contains_key(p) ==> score(stones, p, who) == OCCUPIED_SCORE,
        OCCUPIED_SCORE < 40,
{
    reveal(score);
}

/// The worth of a line of one's own.
pub fn offense(len: u64, open: u32) -> (v: i32)
    ensures
        v == offense_value(len as nat, open as nat),
{
    if len >= 5 {
        1_000_000
    } else if len == 4 && open == 2 {
        50_000
    } else if len == 4 && open == 1 {
        20_000
    } else if len == 3 && open == 2 {
        10_000
    } else if len == 3 && open == 1 {
        1_000
    } else if len == 2 && open == 2 {
        500
    } else if len == 2 && open == 1 {
        100
    } else if len == 1 && open == 2 {
        50
    } else {
        10
    }
}

/// The worth of a line taken from the opponent.
pub fn defense(len: u64, open: u32) -> (v: i32)
    ensures
        v == defense_value(len as nat, open as nat),
{
    if len >= 5 {
        900_000
    } else if len == 4 && open == 2 {
        40_000
    } else if len == 4 && open == 1 {
        15_000
    } else if len == 3 && open == 2 {
        8_000
    } else if len == 3 && open == 1 {
        800
    } else {
        0
    }
}

impl Board {
    /// Scores the cell `p` as a move of `who`: over the four axes, the worth
    /// of the line that a stone of `who` on `p` would make, plus the worth of
    /// the line that a stone of the opponent would make there.
    pub fn score_point(&self, p: Pt, who: Color) -> (s: i32)
        ensures
            s == score(self@, p, who),
    {
        proof {
            reveal(score);
        }
        if !self.is_empty(p) {
            return OCCUPIED_SCORE;
        }
        let opp: Color = who.other();
        let mut s: i32 = 0;
        let mut i: usize = 0;
        while i < 4
            invariant
                i <= 4,
                opp == who.opponent(),
                s == score_upto(self@, p, who, i as int),
                0 <= s <= 1_900_000 * i,
            decreases 4 - i,
        {
            let d: Pt = direction(i);
            let (a, b): (u64, u64) = self.line_len_open(p, d, who);
            let open: u32 = self.open_ends(p, d, who);
            let mine: i32 = offense(a + 1 + b, open);
            let (oa, ob): (u64, u64) = self.line_len_open(p, d, opp);
            let oopen: u32 = self.open_ends(p, d, opp);
            let theirs: i32 = defense(oa + 1 + ob, oopen);
            s = s + mine + theirs;
            i = i + 1;
        }
        s
    }
}

} // verus!
