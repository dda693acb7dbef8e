//! Mutable state of one UCI engine process.

use vstd::prelude::*;

use cozy_chess::Move;

use crate::board::position::{
    board_of, error_description, legal_move_form, move_legal, fen_rejection, legal_moves_of, move_accepted, move_error, start_view,
    uci_move_form, uci_move_text, Position, PositionBase, PositionError, PositionErrorView,
    PositionView,
};
use crate::engine::selector::MoveSelector;
use crate::search::limits::SearchLimits;
use crate::uci::command::{PositionCommand, PositionCommandView};

verus! {

/// An error surfaced by the session layer.
#[derive(Debug)]
pub enum EngineError {
    Position(PositionError),
}

impl EngineError {
    /// The position error this engine error carries.
    pub open spec fn position_error(self) -> PositionErrorView {
        match self {
            EngineError::Position(e) => e@,
        }
    }

    /// A readable description of the error.
    pub fn describe(&self) -> (r: String)
        ensures
            r@ == error_description(self.position_error()),
    {
        match self {
            EngineError::Position(e) => e.describe(),
        }
    }
}

impl From<PositionError> for EngineError {
    fn from(error: PositionError) -> (r: Self) {
        EngineError::Position(error)
    }
}

impl vstd::std_specs::convert::FromSpecImpl<PositionError> for EngineError {
    open spec fn obeys_from_spec() -> bool {
        true
    }

    open spec fn from_spec(v: PositionError) -> Self {
        EngineError::Position(v)
    }
}

/// The base position that a `position` command names.
pub open spec fn command_base(command: PositionCommandView) -> PositionBase {
    match command {
        PositionCommandView::Startpos { .. } => PositionBase::StartPos,
        PositionCommandView::Fen { fen, .. } => PositionBase::Fen(fen),
    }
}

/// Index of the first of `moves`, from index `k` on, that cannot be played
/// after the moves before it have been played from `base`.
pub open spec fn first_rejected_move(base: PositionBase, moves: Seq<Seq<char>>, k: int) -> Option<
    int,
>
    decreases moves.len() - k,
{
    if k < 0 || k >= moves.len() {
        None
    } else if !move_accepted(PositionView { base, moves: moves.take(k) }, moves[k]) {
        Some(k)
    } else {
        first_rejected_move(base, moves, k + 1)
    }
}

/// What a `position` command sets up: its base with every move played in
/// order, or the first error met on the way (a rejected FEN, or the first move
/// that cannot be played).
pub open spec fn position_outcome(command: PositionCommandView) -> Result<
    PositionView,
    PositionErrorView,
> {
    let base = command_base(command);
    let moves = command.moves();
    match (command, first_rejected_move(base, moves, 0)) {
        (PositionCommandView::Fen { fen, .. }, _) if fen_rejection(fen) is Some => Err(
            PositionErrorView::InvalidFen { text: fen, message: fen_rejection(fen)->0 },
        ),
        (_, Some(k)) => Err(move_error(PositionView { base, moves: moves.take(k) }, moves[k])),
        (_, None) => Ok(PositionView { base, moves }),
    }
}

proof fn lemma_no_rejected_move(base: PositionBase, moves: Seq<Seq<char>>, i: int)
    requires
        0 <= i,
        forall|k: int|
            0 <= k < moves.len() ==> move_accepted(
                PositionView { base, moves: moves.take(k) },
                #[trigger] moves[k],
            ),
    ensures
        first_rejected_move(base, moves, i) is None,
    decreases moves.len() - i,
{
    if i < moves.len() {
        assert(move_accepted(PositionView { base, moves: moves.take(i) }, moves[i]));
        lemma_no_rejected_move(base, moves, i + 1);
    }
}

/// A `position` command sets up its own base with exactly its own moves
/// played, in order, whichever its base: an accepted command gives nothing
/// else, and a command is accepted when its FEN (if any) is accepted and each
/// move can be played after the ones before it.
pub proof fn law_position_command_plays_its_moves(c: PositionCommandView)
    ensures
        match c {
            PositionCommandView::Startpos { moves } => {
                &&& position_outcome(c) matches Ok(v) ==> v == (PositionView {
                    base: PositionBase::StartPos,
                    moves,
                })
                &&& (forall|k: int|
                    0 <= k < moves.len() ==> move_accepted(
                        PositionView { base: PositionBase::StartPos, moves: moves.take(k) },
                        #[trigger] moves[k],
                    )) ==> position_outcome(c) == Ok::<PositionView, PositionErrorView>(
                    PositionView { base: PositionBase::StartPos, moves },
                )
            },
            PositionCommandView::Fen { fen, moves } => {
                &&& position_outcome(c) matches Ok(v) ==> v == (PositionView {
                    base: PositionBase::Fen(fen),
                    moves,
                })
                &&& (fen_rejection(fen) is None && forall|k: int|
                    0 <= k < moves.len() ==> move_accepted(
                        PositionView { base: PositionBase::Fen(fen), moves: moves.take(k) },
                        #[trigger] moves[k],
                    )) ==> position_outcome(c) == Ok::<PositionView, PositionErrorView>(
                    PositionView { base: PositionBase::Fen(fen), moves },
                )
            },
        },
{
    match c {
        PositionCommandView::Startpos { moves } => {
            if forall|k: int|
                0 <= k < moves.len() ==> move_accepted(
                    PositionView { base: PositionBase::StartPos, moves: moves.take(k) },
                    #[trigger] moves[k],
                ) {
                lemma_no_rejected_move(PositionBase::StartPos, moves, 0);
            }
        },
        PositionCommandView::Fen { fen, moves } => {
            if forall|k: int|
                0 <= k < moves.len() ==> move_accepted(
                    PositionView { base: PositionBase::Fen(fen), moves: moves.take(k) },
                    #[trigger] moves[k],
                ) {
                lemma_no_rejected_move(PositionBase::Fen(fen), moves, 0);
            }
        },
    }
}

/// The UCI null move, answered when there is no move to play.
pub open spec fn null_move_text() -> Seq<char> {
    "0000"@
}

/// The UCI text for a chosen move in `position`, or the null move.
pub open spec fn choice_text(position: PositionView, choice: Option<Move>) -> Seq<char> {
    match choice {
        Some(m) => uci_move_text(position, m),
        None => null_move_text(),
    }
}

/// What a session answers `go` with in `position`: the null move exactly when
/// the position has no legal move, and otherwise the text of one of its legal
/// moves (two squares, then an optional knight, bishop, rook or queen letter).
pub open spec fn valid_best_move_text(position: PositionView, t: Seq<char>) -> bool {
    if legal_moves_of(position).len() == 0 {
        t == null_move_text()
    } else {
        legal_move_form(t) && exists|m: Move|
            legal_moves_of(position).contains(m) && t == #[trigger] uci_move_text(position, m)
    }
}

/// The state of one engine process: the current position, the move selector
/// and the debug flag.
pub struct EngineSession<S> where S: MoveSelector {
    position: Position,
    selector: S,
    debug_enabled: bool,
}

/// The observable state of a session.
pub struct SessionView {
    pub position: PositionView,
    pub debug_enabled: bool,
}

impl<S> View for EngineSession<S> where S: MoveSelector {
    type V = SessionView;

    closed spec fn view(&self) -> SessionView {
        SessionView { position: self.position@, debug_enabled: self.debug_enabled }
    }
}

impl<S> EngineSession<S> where S: MoveSelector {
    /// The move selector the session asks for moves.
    pub closed spec fn selector_value(&self) -> S {
        self.selector
    }

    /// A session at the standard starting position, with debug output off.
    pub fn new(selector: S) -> (r: Self)
        ensures
            r@ == (SessionView { position: start_view(), debug_enabled: false }),
            r.selector_value() == selector,
    {
        EngineSession { position: Position::startpos(), selector, debug_enabled: false }
    }

    /// Starts a new game: back to the standard starting position.
    pub fn new_game(&mut self)
        ensures
            final(self)@ == (SessionView { position: start_view(), ..old(self)@ }),
            final(self).selector_value() == old(self).selector_value(),
    {
        self.position = Position::startpos();
    }

    /// Switches diagnostic output on or off.
    pub fn set_debug_enabled(&mut self, debug_enabled: bool)
        ensures
            final(self)@ == (SessionView { debug_enabled, ..old(self)@ }),
            final(self).selector_value() == old(self).selector_value(),
    {
        self.debug_enabled = debug_enabled;
    }

    /// Whether diagnostic output is on.
    pub fn is_debug_enabled(&self) -> (r: bool)
        ensures
            r == self@.debug_enabled,
    {
        self.debug_enabled
    }

    /// Applies a `position` command as a whole: either every step succeeds
    /// and the session takes the new position, or the first error is returned
    /// and the session is left as it was.
    pub fn set_position(&mut self, command: PositionCommand) -> (r: Result<(), EngineError>)
        ensures
            match position_outcome(command@) {
                Ok(p) => r is Ok && final(self)@ == (SessionView { position: p, ..old(self)@ })
                    && final(self).selector_value() == old(self).selector_value(),
                Err(e) => (r matches Err(err) && err.position_error() == e) && *final(self)
                    == *old(self),
            },
    {
        let ghost cmd = command@;
        let ghost base = command_base(cmd);
        let mut next_position = match &command {
            PositionCommand::Startpos { .. } => Position::startpos(),
            PositionCommand::Fen { fen, .. } => match Position::from_fen(fen.as_str()) {
                Ok(p) => p,
                Err(e) => {
                    return Err(EngineError::Position(e));
                },
            },
        };
        let moves = command.moves();
        let ghost ms = cmd.moves();
        assert(ms.take(0) =~= Seq::<Seq<char>>::empty());
        let n = moves.len();
        let mut i: usize = 0;
        while i < n
            invariant
                n == moves@.len(),
                crate::search::limits::strings_view(moves@) == ms,
                i <= n,
                next_position@ == (PositionView { base, moves: ms.take(i as int) }),
                first_rejected_move(base, ms, 0) == first_rejected_move(base, ms, i as int),
                cmd == command@,
                base == command_base(cmd),
                ms == cmd.moves(),
                cmd matches PositionCommandView::Fen { fen, .. } ==> fen_rejection(fen) is None,
            decreases n - i,
        {
            let ghost before = next_position@;
            assert(moves[i as int]@ == ms[i as int]);
            match next_position.apply_uci_move(moves[i].as_str()) {
                Ok(()) => {},
                Err(e) => {
                    return Err(EngineError::Position(e));
                },
            }
            assert(ms.take(i + 1) =~= ms.take(i as int).push(ms[i as int]));
            i = i + 1;
        }
        assert(ms.take(n as int) =~= ms);
        self.position = next_position;
        Ok(())
    }

    /// Asks the selector for a move in the current position.
    pub fn best_move(&mut self, limits: &SearchLimits) -> (r: Option<Move>)
        ensures
            final(self)@ == old(self)@,
            old(self).selector_value().may_choose(old(self)@.position, limits@, r),
            r is None <==> legal_moves_of(old(self)@.position).len() == 0,
            r matches Some(m) ==> legal_moves_of(old(self)@.position).contains(m) && move_legal(
                board_of(old(self)@.position),
                m,
            ),
    {
        self.selector.select_move(&self.position, limits)
    }

    /// Asks the selector for a move under `limits` and answers with the UCI
    /// text of its choice, or with the null move `0000` when it chooses none
    /// (checkmate or stalemate).
    pub fn best_move_text(&mut self, limits: &SearchLimits) -> (r: String)
        ensures
            final(self)@ == old(self)@,
            valid_best_move_text(old(self)@.position, r@),
            exists|c: Option<Move>|
                old(self).selector_value().may_choose(old(self)@.position, limits@, c) && r@
                    == #[trigger] choice_text(old(self)@.position, c),
    {
        let choice = self.best_move(limits);
        let r = move_text_or_null(&self.position, choice);
        proof {
            if let Some(m) = choice {
                assert(legal_moves_of(self@.position).contains(m));
            }
        }
        r
    }
}

/// The UCI text of `choice` in `position`, or the null move `0000`.
pub fn move_text_or_null(position: &Position, choice: Option<Move>) -> (r: String)
    ensures
        r@ == choice_text(position@, choice),
        choice is Some ==> uci_move_form(r@),
        choice matches Some(m) && move_legal(board_of(position@), m) ==> legal_move_form(r@),
{
    match choice {
        Some(chess_move) => position.display_uci_move(chess_move),
        None => "0000".to_owned(),
    }
}

} // verus!
