//! Engine state and move selection.

pub mod random;
pub mod selector;
pub mod session;
