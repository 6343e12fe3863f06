//! Simulation core of a falling-block puzzle game: a fixed-size grid on which
//! a randomly drawn polyomino descends, is translated by move requests,
//! collides with board edges and with previously locked cells, and is fused
//! into the grid once it can no longer descend.

pub mod board;
pub mod cell;
pub mod entropy;
pub mod shape;
