//! The per-cell state of the grid, the collision outcomes that drive the
//! move state machine, and signed anchor coordinates.

use vstd::prelude::*;

verus! {

/// The state of one grid cell.
///
/// A cell is `MovingOccupied` for at most one active block at a time; once
/// `FixedOccupied` it never reverts within this core's responsibility.
#[derive(Clone, Copy, Debug, PartialEq, Eq, Structural)]
pub enum CellState {
    Empty,
    MovingOccupied,
    FixedOccupied,
}

/// The outcome of evaluating a candidate anchor position against the board
/// bounds and the fixed stack. These are ordinary, expected values that drive
/// the state machine, never errors.
#[derive(Clone, Copy, Debug, PartialEq, Eq, Structural)]
pub enum CollisionResult {
    EdgeCollision,
    NoEdgeCollision,
    HitBottom,
    HorizontalHitBlock,
    VerticalHitBlock,
}

/// An anchor coordinate. Signed, because candidate positions are computed
/// before bounds-checking and can transiently go negative.
#[derive(Clone, Copy, Debug, PartialEq, Eq, Structural)]
pub struct Point {
    pub x: i32,
    pub y: i32,
}

} // verus!
