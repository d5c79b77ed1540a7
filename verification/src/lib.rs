//! Rules engine of a falling-block puzzle game.
//!
//! The crate tracks a grid of locked cells, a currently falling piece and a
//! queue of difficulty levels, and decides on every discrete input or clock
//! tick whether a proposed motion is legal, when a piece locks, when rows
//! clear, and when the game ends.

pub mod config;
pub mod game;
pub mod laws;
pub mod level;
pub mod matrix;
pub mod piece;
pub mod rotate;
mod random;
pub mod scoring;
