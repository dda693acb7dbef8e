//! Parsed UCI command values.

use vstd::prelude::*;

use crate::search::limits::{strings_view, LimitsView, SearchLimits};

verus! {

/// The UCI protocol commands understood by this engine.
#[derive(Clone, Debug, PartialEq, Eq)]
pub enum UciCommand {
    /// Begin the handshake: identity lines, then `uciok`.
    Uci,
    /// Synchronisation request, answered by `readyok`.
    IsReady,
    /// The next commands belong to a fresh game.
    UciNewGame,
    /// Replace the board with a base position, then play the listed moves.
    Position(PositionCommand),
    /// Choose a move under the given limits.
    Go(SearchLimits),
    /// Stop a search in progress (searches here are immediate).
    Stop,
    /// Switch diagnostic output on or off.
    Debug(bool),
    /// Configure an engine option.
    SetOption { name: String, value: Option<String> },
    /// End the session.
    Quit,
    /// Text that is not a command understood here.
    Unknown(String),
}

/// The supported forms of the UCI `position` command.
#[derive(Clone, Debug, PartialEq, Eq)]
pub enum PositionCommand {
    /// The standard starting position, then the listed moves.
    Startpos { moves: Vec<String> },
    /// The position that the FEN text describes, then the listed moves.
    Fen { fen: String, moves: Vec<String> },
}

/// The mathematical value of a `PositionCommand`.
pub enum PositionCommandView {
    Startpos { moves: Seq<Seq<char>> },
    Fen { fen: Seq<char>, moves: Seq<Seq<char>> },
}

impl PositionCommandView {
    /// The moves that the command plays after its base position.
    pub open spec fn moves(self) -> Seq<Seq<char>> {
        match self {
            PositionCommandView::Startpos { moves } => moves,
            PositionCommandView::Fen { moves, .. } => moves,
        }
    }
}

/// The mathematical value of a `UciCommand`.
pub enum UciCommandView {
    Uci,
    IsReady,
    UciNewGame,
    Position(PositionCommandView),
    Go(LimitsView),
    Stop,
    Debug(bool),
    SetOption { name: Seq<char>, value: Option<Seq<char>> },
    Quit,
    Unknown(Seq<char>),
}

impl View for PositionCommand {
    type V = PositionCommandView;

    open spec fn view(&self) -> PositionCommandView {
        match self {
            PositionCommand::Startpos { moves } => PositionCommandView::Startpos {
                moves: strings_view(moves@),
            },
            PositionCommand::Fen { fen, moves } => PositionCommandView::Fen {
                fen: fen@,
                moves: strings_view(moves@),
            },
        }
    }
}

impl View for UciCommand {
    type V = UciCommandView;

    open spec fn view(&self) -> UciCommandView {
        match self {
            UciCommand::Uci => UciCommandView::Uci,
            UciCommand::IsReady => UciCommandView::IsReady,
            UciCommand::UciNewGame => UciCommandView::UciNewGame,
            UciCommand::Position(p) => UciCommandView::Position(p@),
            UciCommand::Go(l) => UciCommandView::Go(l@),
            UciCommand::Stop => UciCommandView::Stop,
            UciCommand::Debug(b) => UciCommandView::Debug(*b),
            UciCommand::SetOption { name, value } => UciCommandView::SetOption {
                name: name@,
                value: match value {
                    Some(v) => Some(v@),
                    None => None,
                },
            },
            UciCommand::Quit => UciCommandView::Quit,
            UciCommand::Unknown(t) => UciCommandView::Unknown(t@),
        }
    }
}

impl PositionCommand {
    /// The UCI moves attached to the command, whichever its base position.
    pub fn moves(&self) -> (r: &[String])
        ensures
            strings_view(r@) == self@.moves(),
    {
        match self {
            PositionCommand::Startpos { moves } => moves.as_slice(),
            PositionCommand::Fen { moves, .. } => moves.as_slice(),
        }
    }
}

} // verus!
