//! Lines of stones: runs along a direction, their open ends, and the
//! detection of five in a row.

use crate::board::Board;
use crate::color::Color;
use crate::point::Pt;
use vstd::prelude::*;

verus! {

/// Whether `d` is one step to a neighbouring cell, in one of the eight
/// directions of the grid.
pub open spec fn is_step(d: Pt) -> bool {
    -1 <= d.x <= 1 && -1 <= d.y <= 1 && (d.x != 0 || d.y != 0)
}

/// The step in the opposite direction.
pub open spec fn reversed(d: Pt) -> Pt {
    Pt::at(-d.x, -d.y)
}

/// The four axes along which a line counts, each named by its forward
/// step: horizontal, vertical and the two diagonals.
pub open spec fn axis(i: int) -> Pt {
    if i == 0 {
        Pt { x: 1, y: 0 }
    } else if i == 1 {
        Pt { x: 0, y: 1 }
    } else if i == 2 {
        Pt { x: 1, y: 1 }
    } else {
        Pt { x: 1, y: -1i32 }
    }
}

/// How many steps along `d` the grid has left beyond `p`.
pub open spec fn room(p: Pt, d: Pt) -> nat {
    if d.x > 0 {
        (i32::MAX - p.x) as nat
    } else if d.x < 0 {
        (p.x - i32::MIN) as nat
    } else if d.y > 0 {
        (i32::MAX - p.y) as nat
    } else {
        (p.y - i32::MIN) as nat
    }
}

/// Whether the cell one step from `p` along `d` carries a stone of `who`.
pub open spec fn next_held(stones: Map<Pt, Color>, p: Pt, d: Pt, who: Color) -> bool {
    &&& p.shifted(d.x as int, d.y as int) matches Some(q)
    &&& stones.contains_key(q)
    &&& stones[q] == who
}

/// The number of stones of `who` that follow `p` without a gap when stepping
/// along `d`. The cell `p` itself is not counted.
pub open spec fn run(stones: Map<Pt, Color>, p: Pt, d: Pt, who: Color) -> nat
    decreases room(p, d),
{
    if is_step(d) && next_held(stones, p, d, who) {
        1 + run(stones, p.shifted(d.x as int, d.y as int).unwrap(), d, who)
    } else {
        0
    }
}

/// The first cell past the run of `who` that leaves `p` along `d`, or `None`
/// where the run reaches the edge of the grid.
pub open spec fn run_end(stones: Map<Pt, Color>, p: Pt, d: Pt, who: Color) -> Option<Pt> {
    let n = run(stones, p, d, who) + 1;
    p.shifted(n * d.x, n * d.y)
}

/// The length of the line of `who` through `p` along the axis `d`, with a
/// stone of `who` counted on `p` itself.
pub open spec fn line_len(stones: Map<Pt, Color>, p: Pt, d: Pt, who: Color) -> nat {
    1 + run(stones, p, d, who) + run(stones, p, reversed(d), who)
}

/// Whether the line of `who` through `p` along `d` ends on an empty cell in
/// the direction `d`.
pub open spec fn open_end(stones: Map<Pt, Color>, p: Pt, d: Pt, who: Color) -> bool {
    run_end(stones, p, d, who) matches Some(q) && !stones.contains_key(q)
}

/// How many of the two ends of the line of `who` through `p` along the axis
/// `d` are empty cells: 0, 1 or 2.
pub open spec fn open_ends(stones: Map<Pt, Color>, p: Pt, d: Pt, who: Color) -> nat {
    let ahead: nat = if open_end(stones, p, d, who) { 1 } else { 0 };
    let behind: nat = if open_end(stones, p, reversed(d), who) { 1 } else { 0 };
    ahead + behind
}

/// Whether a stone of `who` on `p` belongs to a line of five or more along
/// one of the four axes.
pub open spec fn five_through(stones: Map<Pt, Color>, p: Pt, who: Color) -> bool {
    exists|i: int| 0 <= i < 4 && #[trigger] line_len(stones, p, axis(i), who) >= 5
}

/// Whether the cell `j` steps from `p` along `d` carries a stone of `who`;
/// a negative `j` counts steps against `d`.
pub open spec fn held_at(stones: Map<Pt, Color>, p: Pt, d: Pt, j: int, who: Color) -> bool {
    &&& p.shifted(j * d.x, j * d.y) matches Some(q)
    &&& stones.contains_key(q)
    &&& stones[q] == who
}

/// Whether the five cells in a row along `d`, of which the first lies `k`
/// steps from `p`, all carry a stone of `who`.
pub open spec fn five_from(stones: Map<Pt, Color>, p: Pt, d: Pt, k: int, who: Color) -> bool {
    forall|j: int| k <= j <= k + 4 ==> #[trigger] held_at(stones, p, d, j, who)
}

/// A run fits in the room that the grid leaves.
pub proof fn lemma_run_bounded(stones: Map<Pt, Color>, p: Pt, d: Pt, who: Color)
    ensures
        run(stones, p, d, who) <= room(p, d),
        room(p, d) <= u32::MAX,
    decreases room(p, d),
{
    if is_step(d) && next_held(stones, p, d, who) {
        lemma_run_bounded(stones, p.shifted(d.x as int, d.y as int).unwrap(), d, who);
    }
}

/// Where the next cell along `d` is held by `who`, the run from `p` is one
/// longer than the run from that cell and ends where it ends.
pub proof fn lemma_run_step(stones: Map<Pt, Color>, p: Pt, d: Pt, who: Color)
    requires
        is_step(d),
        next_held(stones, p, d, who),
    ensures
        ({
            let q = p.shifted(d.x as int, d.y as int).unwrap();
            &&& run(stones, p, d, who) == 1 + run(stones, q, d, who)
            &&& run_end(stones, p, d, who) == run_end(stones, q, d, who)
        }),
{
    let q = p.shifted(d.x as int, d.y as int).unwrap();
    let m = run(stones, q, d, who) + 1;
    assert((m + 1) * d.x == m * d.x + d.x) by (nonlinear_arith);
    assert((m + 1) * d.y == m * d.y + d.y) by (nonlinear_arith);
}

/// Where the next cell along `d` is not held by `who`, the run from `p` is
/// empty and ends on that cell.
pub proof fn lemma_run_stop(stones: Map<Pt, Color>, p: Pt, d: Pt, who: Color)
    requires
        !next_held(stones, p, d, who),
    ensures
        run(stones, p, d, who) == 0,
        run_end(stones, p, d, who) == p.shifted(d.x as int, d.y as int),
{
    let n = run(stones, p, d, who) + 1;
    assert(n * d.x == d.x && n * d.y == d.y) by (nonlinear_arith)
        requires
            n == 1,
    ;
}

/// The forward step of the axis `i`.
pub fn direction(i: usize) -> (d: Pt)
    requires
        i < 4,
    ensures
        d == axis(i as int),
        is_step(d),
{
    if i == 0 {
        Pt { x: 1, y: 0 }
    } else if i == 1 {
        Pt { x: 0, y: 1 }
    } else if i == 2 {
        Pt { x: 1, y: 1 }
    } else {
        Pt { x: 1, y: -1 }
    }
}

/// Turns a step round.
pub fn reverse(d: Pt) -> (r: Pt)
    requires
        is_step(d),
    ensures
        r == reversed(d),
        is_step(r),
{
    Pt { x: -d.x, y: -d.y }
}

impl Board {
    /// Whether `p` carries a stone of `who`.
    pub fn holds(&self, p: Pt, who: Color) -> (b: bool)
        ensures
            b == (self@.contains_key(p) && self@[p] == who),
    {
        match self.color_at(p) {
            Some(c) => c == who,
            None => false,
        }
    }

    /// Walks from `p` along `d` over the stones of `who`, and returns how
    /// many there are together with the first cell past them.
    pub fn ray_end(&self, p: Pt, d: Pt, who: Color) -> (r: (u64, Option<Pt>))
        requires
            is_step(d),
        ensures
            r.0 == run(self@, p, d, who),
            r.1 == run_end(self@, p, d, who),
    {
        let mut n: u64 = 0;
        let mut q: Pt = p;
        let mut next: Option<Pt> = q.add(d.x, d.y);
        proof {
            lemma_run_bounded(self@, p, d, who);
        }
        loop
            invariant
                is_step(d),
                next == q.shifted(d.x as int, d.y as int),
                n + run(self@, q, d, who) == run(self@, p, d, who),
                run_end(self@, q, d, who) == run_end(self@, p, d, who),
                run(self@, p, d, who) <= u32::MAX,
            ensures
                n == run(self@, p, d, who),
                next == run_end(self@, p, d, who),
            decreases room(q, d),
        {
            let held: bool = match next {
                Some(r) => self.holds(r, who),
                None => false,
            };
            if !held {
                proof {
                    lemma_run_stop(self@, q, d, who);
                }
                break ;
            }
            proof {
                lemma_run_step(self@, q, d, who);
            }
            n = n + 1;
            q = next.unwrap();
            next = q.add(d.x, d.y);
        }
        (n, next)
    }

    /// The number of stones of `who` that follow `p` without a gap along `d`.
    pub fn ray(&self, p: Pt, d: Pt, who: Color) -> (n: u64)
        requires
            is_step(d),
        ensures
            n == run(self@, p, d, who),
    {
        self.ray_end(p, d, who).0
    }

    /// The two runs of `who` that leave `p` along the axis `d`: ahead and
    /// behind.
    pub fn line_len_open(&self, p: Pt, d: Pt, who: Color) -> (r: (u64, u64))
        requires
            is_step(d),
        ensures
            r.0 == run(self@, p, d, who),
            r.1 == run(self@, p, reversed(d), who),
            1 + r.0 + r.1 == line_len(self@, p, d, who),
            line_len(self@, p, d, who) <= 0x1_0000_0000,
    {
        proof {
            lemma_line_bounded(self@, p, d, who);
        }
        let a: u64 = self.ray(p, d, who);
        let b: u64 = self.ray(p, reverse(d), who);
        (a, b)
    }

    /// How many ends of the line of `who` through `p` along the axis `d` are
    /// empty cells.
    pub fn open_ends(&self, p: Pt, d: Pt, who: Color) -> (n: u32)
        requires
            is_step(d),
        ensures
            n == open_ends(self@, p, d, who),
            n <= 2,
    {
        let mut open: u32 = 0;
        let ahead: Option<Pt> = self.ray_end(p, d, who).1;
        if let Some(q) = ahead {
            if self.is_empty(q) {
                open = open + 1;
            }
        }
        let behind: Option<Pt> = self.ray_end(p, reverse(d), who).1;
        if let Some(r) = behind {
            if self.is_empty(r) {
                open = open + 1;
            }
        }
        open
    }

    /// Whether a stone of `who` on `p` completes a line of five or more.
    /// The stone itself is counted whether or not it is on the board yet.
    pub fn check_win(&self, p: Pt, who: Color) -> (won: bool)
        ensures
            won == five_through(self@, p, who),
    {
        let mut i: usize = 0;
        while i < 4
            invariant
                i <= 4,
                forall|j: int| 0 <= j < i ==> #[trigger] line_len(self@, p, axis(j), who) < 5,
            decreases 4 - i,
        {
            let d: Pt = direction(i);
            let (a, b): (u64, u64) = self.line_len_open(p, d, who);
            if a + 1 + b >= 5 {
                return true;
            }
            i = i + 1;
        }
        false
    }
}

/// A line through `p` has at most as many cells as the grid is wide.
pub proof fn lemma_line_bounded(stones: Map<Pt, Color>, p: Pt, d: Pt, who: Color)
    requires
        is_step(d),
    ensures
        line_len(stones, p, d, who) <= 0x1_0000_0000,
{
    lemma_run_bounded(stones, p, d, who);
    lemma_run_bounded(stones, p, reversed(d), who);
}

/// Every cell within a run carries a stone of the run's colour.
pub proof fn lemma_run_cells(stones: Map<Pt, Color>, p: Pt, d: Pt, who: Color, j: int)
    requires
        is_step(d),
        1 <= j <= run(stones, p, d, who),
    ensures
        held_at(stones, p, d, j, who),
    decreases j,
{
    let q = p.shifted(d.x as int, d.y as int).unwrap();
    if j == 1 {
        assert(j * d.x == d.x && j * d.y == d.y) by (nonlinear_arith)
            requires
                j == 1,
        ;
    } else {
        lemma_run_cells(stones, q, d, who, j - 1);
        assert((j - 1) * d.x + d.x == j * d.x) by (nonlinear_arith);
        assert((j - 1) * d.y + d.y == j * d.y) by (nonlinear_arith);
    }
}

/// Where the first `n` cells from `p` along `d` all carry a stone of `who`,
/// the run has at least that length.
pub proof fn lemma_run_reaches(stones: Map<Pt, Color>, p: Pt, d: Pt, who: Color, n: nat)
    requires
        is_step(d),
        forall|j: int| 1 <= j <= n ==> #[trigger] held_at(stones, p, d, j, who),
    ensures
        run(stones, p, d, who) >= n,
    decreases n,
{
    if n > 0 {
        assert(held_at(stones, p, d, 1, who));
        assert(1 * d.x == d.x && 1 * d.y == d.y) by (nonlinear_arith);
        let q = p.shifted(d.x as int, d.y as int).unwrap();
        assert forall|j: int| 1 <= j <= n - 1 implies #[trigger] held_at(stones, q, d, j, who) by {
            assert(held_at(stones, p, d, j + 1, who));
            assert(j * d.x + d.x == (j + 1) * d.x) by (nonlinear_arith);
            assert(j * d.y + d.y == (j + 1) * d.y) by (nonlinear_arith);
        }
        lemma_run_reaches(stones, q, d, who, (n - 1) as nat);
    }
}

/// The cell just past a run does not carry a stone of the run's colour: a
/// run is as long as it can be.
pub proof fn lemma_run_is_maximal(stones: Map<Pt, Color>, p: Pt, d: Pt, who: Color)
    requires
        is_step(d),
    ensures
        !held_at(stones, p, d, run(stones, p, d, who) as int + 1, who),
    decreases room(p, d),
{
    let n: int = run(stones, p, d, who) as int + 1;
    if next_held(stones, p, d, who) {
        let q = p.shifted(d.x as int, d.y as int).unwrap();
        lemma_run_is_maximal(stones, q, d, who);
        assert((n - 1) * d.x + d.x == n * d.x) by (nonlinear_arith);
        assert((n - 1) * d.y + d.y == n * d.y) by (nonlinear_arith);
    } else {
        assert(n * d.x == d.x && n * d.y == d.y) by (nonlinear_arith)
            requires
                n == 1,
        ;
    }
}

/// Counting steps along the reversed direction is counting them backwards.
pub proof fn lemma_held_reversed(stones: Map<Pt, Color>, p: Pt, d: Pt, j: int, who: Color)
    requires
        is_step(d),
    ensures
        held_at(stones, p, reversed(d), j, who) == held_at(stones, p, d, -j, who),
{
    let r = reversed(d);
    assert(j * r.x == (-j) * d.x) by (nonlinear_arith)
        requires
            r.x == -d.x,
    ;
    assert(j * r.y == (-j) * d.y) by (nonlinear_arith)
        requires
            r.y == -d.y,
    ;
}

/// A stone on `p` lies in a line of five or more along the axis `d`
/// exactly when some five cells in a row along `d`, `p` among them, all
/// carry stones of its colour.
pub proof fn lemma_line_of_five(stones: Map<Pt, Color>, p: Pt, d: Pt, who: Color)
    requires
        is_step(d),
        stones.contains_key(p),
        stones[p] == who,
    ensures
        line_len(stones, p, d, who) >= 5 <==> exists|k: int|
            -4 <= k <= 0 && #[trigger] five_from(stones, p, d, k, who),
{
    let a = run(stones, p, d, who);
    let b = run(stones, p, reversed(d), who);
    if line_len(stones, p, d, who) >= 5 {
        let k: int = if b >= 4 { -4 } else { -b };
        assert forall|j: int| k <= j <= k + 4 implies #[trigger] held_at(stones, p, d, j, who) by {
            if j < 0 {
                lemma_run_cells(stones, p, reversed(d), who, -j);
                lemma_held_reversed(stones, p, d, -j, who);
            } else if j == 0 {
                assert(j * d.x == 0 && j * d.y == 0) by (nonlinear_arith)
                    requires
                        j == 0,
                ;
            } else {
                lemma_run_cells(stones, p, d, who, j);
            }
        }
        assert(five_from(stones, p, d, k, who));
    }
    if exists|k: int| -4 <= k <= 0 && #[trigger] five_from(stones, p, d, k, who) {
        let k = choose|k: int| -4 <= k <= 0 && #[trigger] five_from(stones, p, d, k, who);
        assert forall|j: int| 1 <= j <= k + 4 implies #[trigger] held_at(stones, p, d, j, who) by {
        }
        lemma_run_reaches(stones, p, d, who, (k + 4) as nat);
        assert forall|j: int| 1 <= j <= -k implies #[trigger] held_at(
            stones,
            p,
            reversed(d),
            j,
            who,
        ) by {
            lemma_held_reversed(stones, p, d, j, who);
            assert(held_at(stones, p, d, -j, who));
        }
        lemma_run_reaches(stones, p, reversed(d), who, (-k) as nat);
    }
}

/// Four in a row shut in at both ends make a line of four, and so no five:
/// where the four cells from `k` steps along `d` on, `p` among them, carry
/// stones of `who`, and the cells before and after them stones of the
/// opponent, the line of `who` through `p` along `d` has length four.
pub proof fn lemma_shut_four(stones: Map<Pt, Color>, p: Pt, d: Pt, k: int, who: Color)
    requires
        is_step(d),
        -3 <= k <= 0,
        forall|j: int| k <= j <= k + 3 ==> #[trigger] held_at(stones, p, d, j, who),
        held_at(stones, p, d, k - 1, who.opponent()),
        held_at(stones, p, d, k + 4, who.opponent()),
    ensures
        line_len(stones, p, d, who) == 4,
{
    let a = run(stones, p, d, who);
    let b = run(stones, p, reversed(d), who);
    assert forall|j: int| 1 <= j <= k + 3 implies #[trigger] held_at(stones, p, d, j, who) by {
    }
    lemma_run_reaches(stones, p, d, who, (k + 3) as nat);
    if a >= k + 4 {
        lemma_run_cells(stones, p, d, who, k + 4);
    }
    assert forall|j: int| 1 <= j <= -k implies #[trigger] held_at(
        stones,
        p,
        reversed(d),
        j,
        who,
    ) by {
        lemma_held_reversed(stones, p, d, j, who);
        assert(held_at(stones, p, d, -j, who));
    }
    lemma_run_reaches(stones, p, reversed(d), who, (-k) as nat);
    if b >= 1 - k {
        lemma_run_cells(stones, p, reversed(d), who, 1 - k);
        lemma_held_reversed(stones, p, d, 1 - k, who);
    }
}

/// Win detection is exact: a stone on `p` makes five exactly when, along
/// one of the four axes, five cells in a row with `p` among them all carry
/// stones of its colour.
pub proof fn lemma_five_through(stones: Map<Pt, Color>, p: Pt, who: Color)
    requires
        stones.contains_key(p),
        stones[p] == who,
    ensures
        five_through(stones, p, who) <==> exists|i: int, k: int|
            0 <= i < 4 && -4 <= k <= 0 && #[trigger] five_from(stones, p, axis(i), k, who),
{
    if five_through(stones, p, who) {
        let i = choose|i: int| 0 <= i < 4 && #[trigger] line_len(stones, p, axis(i), who) >= 5;
        lemma_line_of_five(stones, p, axis(i), who);
        let k = choose|k: int| -4 <= k <= 0 && #[trigger] five_from(stones, p, axis(i), k, who);
        assert(0 <= i < 4 && -4 <= k <= 0 && five_from(stones, p, axis(i), k, who));
    }
    if exists|i: int, k: int|
        0 <= i < 4 && -4 <= k <= 0 && #[trigger] five_from(stones, p, axis(i), k, who) {
        let (i, k) = choose|i: int, k: int|
            0 <= i < 4 && -4 <= k <= 0 && #[trigger] five_from(stones, p, axis(i), k, who);
        lemma_line_of_five(stones, p, axis(i), who);
        assert(line_len(stones, p, axis(i), who) >= 5);
    }
}

} // verus!
