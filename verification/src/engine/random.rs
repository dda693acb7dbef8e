//! A selector that plays a random legal move.

use vstd::prelude::*;

use cozy_chess::Move;
use rand::rngs::ThreadRng;
use rand::seq::SliceRandom;

use crate::board::position::{legal_moves_of, Position, PositionView};
use crate::engine::selector::MoveSelector;
use crate::search::limits::{LimitsView, SearchLimits};

verus! {

#[verifier::external_type_specification]
#[verifier::external_body]
pub struct ExThreadRng(ThreadRng);

/// Chooses uniformly at random among the legal moves of a position.
pub struct RandomMoveSelector {
    random_number_generator: ThreadRng,
}

/// Calls `rand::thread_rng`, a handle to the thread-local generator.
#[verifier::external_body]
fn thread_random_generator() -> ThreadRng {
    rand::thread_rng()
}

/// Calls `SliceRandom::choose` and copies the chosen element. Whatever the
/// generator gives, the result is absent exactly when the slice is empty, and
/// is otherwise one of its elements (`&self[gen_index(rng, len)]`). Which
/// element comes out is left open: it is chance.
#[verifier::external_body]
fn choose_move(moves: &[Move], random_number_generator: &mut ThreadRng) -> (r: Option<Move>)
    ensures
        r is None <==> moves@.len() == 0,
        r matches Some(m) ==> moves@.contains(m),
{
    moves.choose(random_number_generator).copied()
}

impl RandomMoveSelector {
    /// A selector drawing on the thread-local random number generator.
    pub fn new() -> Self {
        RandomMoveSelector { random_number_generator: thread_random_generator() }
    }
}

impl Default for RandomMoveSelector {
    fn default() -> Self {
        Self::new()
    }
}

impl MoveSelector for RandomMoveSelector {
    /// No move exactly when there is no legal move; otherwise any legal move,
    /// whatever the limits.
    open spec fn may_choose(
        &self,
        position: PositionView,
        limits: LimitsView,
        choice: Option<Move>,
    ) -> bool {
        match choice {
            None => legal_moves_of(position).len() == 0,
            Some(m) => legal_moves_of(position).contains(m),
        }
    }

    /// A random legal move, or `None` when there is none. The limits are not
    /// consulted.
    fn select_move(&mut self, position: &Position, limits: &SearchLimits) -> (r: Option<Move>) {
        let legal_moves = position.legal_moves();
        choose_move(legal_moves.as_slice(), &mut self.random_number_generator)
    }
}

} // verus!
