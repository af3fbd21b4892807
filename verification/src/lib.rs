//! A falling-block puzzle engine: a fixed playfield, the seven tetrominoes
//! with their rotation states, and the rules by which a piece moves, turns,
//! lands and clears rows.

pub mod geometry;
pub mod color;
mod dice;
pub mod shape;
pub mod grid;
pub mod piece;
pub mod session;
