//! Cells of the grid and the keys that stand for them in hashed collections.

use vstd::prelude::*;

verus! {

/// Whether the integer pair `(x, y)` addresses a cell of the grid. The grid
/// spans the whole range of `i32` in both directions.
pub open spec fn on_grid(x: int, y: int) -> bool {
    i32::MIN <= x <= i32::MAX && i32::MIN <= y <= i32::MAX
}

/// A cell of the grid, or a step from one cell to another.
#[derive(Copy, Clone, PartialEq, Eq, Hash, Debug, Structural)]
pub struct Pt {
    pub x: i32,
    pub y: i32,
}

impl Pt {
    /// The cell at the integer pair `(x, y)`; meaningful where `on_grid(x, y)`.
    pub open spec fn at(x: int, y: int) -> Pt {
        Pt { x: x as i32, y: y as i32 }
    }

    /// The cell `dx` columns and `dy` rows away, if the grid has one.
    pub open spec fn shifted(self, dx: int, dy: int) -> Option<Pt> {
        if on_grid(self.x + dx, self.y + dy) {
            Some(Pt::at(self.x + dx, self.y + dy))
        } else {
            None
        }
    }

    /// The 64-bit key that stands for this cell in hashed collections: the
    /// column in the upper half and the row in the lower half, each counted
    /// from `i32::MIN`.
    pub open spec fn spec_key(self) -> u64 {
        ((self.x + 0x8000_0000) * 0x1_0000_0000 + (self.y + 0x8000_0000)) as u64
    }

    /// The cell that a key stands for.
    pub open spec fn spec_from_key(k: u64) -> Pt {
        Pt {
            x: (k / 0x1_0000_0000 - 0x8000_0000) as i32,
            y: (k % 0x1_0000_0000 - 0x8000_0000) as i32,
        }
    }

    /// The cell in column `x` and row `y`.
    pub fn new(x: i32, y: i32) -> (p: Pt)
        ensures
            p == (Pt { x, y }),
    {
        Pt { x, y }
    }

    /// Moves by `(dx, dy)`; `None` where that would leave the grid.
    pub fn add(self, dx: i32, dy: i32) -> (r: Option<Pt>)
        ensures
            r == self.shifted(dx as int, dy as int),
    {
        let nx: i64 = self.x as i64 + dx as i64;
        let ny: i64 = self.y as i64 + dy as i64;
        if nx < i32::MIN as i64 || nx > i32::MAX as i64 || ny < i32::MIN as i64 || ny
            > i32::MAX as i64 {
            None
        } else {
            Some(Pt { x: nx as i32, y: ny as i32 })
        }
    }

    /// The key of this cell.
    #[verifier::when_used_as_spec(spec_key)]
    pub fn key(self) -> (k: u64)
        ensures
            k == self.spec_key(),
    {
        let hi: u64 = (self.x as i64 + 0x8000_0000) as u64;
        let lo: u64 = (self.y as i64 + 0x8000_0000) as u64;
        hi * 0x1_0000_0000 + lo
    }

    /// The cell of the key `k`.
    #[verifier::when_used_as_spec(spec_from_key)]
    pub fn from_key(k: u64) -> (p: Pt)
        ensures
            p == Pt::spec_from_key(k),
    {
        let hi: u64 = k / 0x1_0000_0000;
        let lo: u64 = k % 0x1_0000_0000;
        Pt { x: (hi as i64 - 0x8000_0000) as i32, y: (lo as i64 - 0x8000_0000) as i32 }
    }
}

/// Keys and cells correspond one to one: every cell is the cell of its key,
/// and every key is the key of its cell.
pub proof fn lemma_key_bijection(p: Pt, k: u64)
    ensures
        Pt::spec_from_key(p.spec_key()) == p,
        Pt::spec_from_key(k).spec_key() == k,
{
}

} // verus!
