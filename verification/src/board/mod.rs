//! Chess positions, on top of the `cozy_chess` board.

pub mod position;
