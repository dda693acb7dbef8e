//! The move-selection interface used by engine sessions.

use vstd::prelude::*;

use cozy_chess::Move;

use crate::board::position::{board_of, legal_moves_of, move_legal, Position, PositionView};
use crate::search::limits::{LimitsView, SearchLimits};

verus! {

/// Chooses a move for a position under search limits. A selector only ever
/// chooses a legal move of the position (one that `cozy_chess` will play), and
/// chooses none exactly when the position has no legal move (checkmate or
/// stalemate). Each selector says, by `may_choose`, which choices it may make.
pub trait MoveSelector {
    /// Whether this selector, in its current state, may answer `choice` for
    /// `position` under `limits`.
    spec fn may_choose(&self, position: PositionView, limits: LimitsView, choice: Option<Move>) -> bool;

    /// Chooses a move for `position` under `limits`.
    fn select_move(&mut self, position: &Position, limits: &SearchLimits) -> (r: Option<Move>)
        ensures
            old(self).may_choose(position@, limits@, r),
            r is None <==> legal_moves_of(position@).len() == 0,
            r matches Some(m) ==> legal_moves_of(position@).contains(m) && move_legal(
                board_of(position@),
                m,
            ),
    ;
}

} // verus!
