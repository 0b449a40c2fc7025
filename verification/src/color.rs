//! The two sides.

use vstd::prelude::*;

verus! {

/// One of the two sides: the owner of a stone, or the side to move.
#[derive(Copy, Clone, PartialEq, Eq, Hash, Debug, Structural)]
pub enum Color {
    Black,
    White,
}

impl Color {
    /// The opposing side.
    pub open spec fn opponent(self) -> Color {
        match self {
            Color::Black => Color::White,
            Color::White => Color::Black,
        }
    }

    /// Gives the opposing side.
    pub fn other(self) -> (c: Color)
        ensures
            c == self.opponent(),
    {
        match self {
            Color::Black => Color::White,
            Color::White => Color::Black,
        }
    }
}

/// The opponent's opponent is the side itself, and no side is its own
/// opponent.
pub proof fn lemma_opponent_involution(c: Color)
    ensures
        c.opponent().opponent() == c,
        c.opponent() != c,
{
}

} // verus!
