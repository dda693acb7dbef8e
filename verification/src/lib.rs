//! A small UCI chess engine library: protocol parsing, search limits, position
//! handling on top of `cozy_chess`, move selection, and the per-command decisions
//! of the UCI conversation.

use vstd::prelude::*;

pub mod board;
pub mod engine;
pub mod search;
pub mod text;
pub mod uci;

verus! {

/// Engine name reported in the `id name` line of the UCI handshake.
pub const ENGINE_NAME: &'static str = "UCI Engine Template Rust";

/// Engine author reported in the `id author` line of the UCI handshake.
pub const ENGINE_AUTHOR: &'static str = "Rohin Gosling";

} // verus!
