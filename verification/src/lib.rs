//! Connect-five on an unbounded grid, with a one-ply heuristic opponent.
//!
//! The grid spans the whole range of `i32` in both directions; the board is
//! sparse and holds the occupied cells only. Past the edge of the grid
//! there is no cell: a line ends there, and that end is not open.
//!
//! - [`point`], [`color`]: cells and sides.
//! - [`board`]: the store of stones.
//! - [`lines`]: runs, open ends and the detection of five in a row.
//! - [`frontier`]: the empty cells near the stones.
//! - [`evaluator`]: the score of a cell as a move.
//! - [`selector`]: the choice of a cell of the highest score.
//! - [`game`]: turns, legality, winning, starting over.
//! - [`session`]: who plays each side, and when the computer moves.
//!
//! Every function is proved against its contract. The contracts speak of
//! the board as a map from cells to colours and of the frontier as a set of
//! cells.

pub mod board;
pub mod color;
pub mod evaluator;
pub mod frontier;
pub mod game;
pub mod lines;
pub mod point;
pub mod selector;
pub mod session;
