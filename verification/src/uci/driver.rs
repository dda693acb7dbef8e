//! The decisions of the UCI conversation: what each command does to the
//! session, which lines it answers with, and whether the conversation goes on.
//! Reading lines and writing the answers is left to the caller.

use vstd::prelude::*;

use cozy_chess::Move;

use crate::board::position::{start_view, PositionBase, PositionErrorView, PositionView};
use crate::engine::selector::MoveSelector;
use crate::engine::session::{
    choice_text, first_rejected_move, position_outcome, valid_best_move_text, EngineError, EngineSession, SessionView,
};
use crate::search::limits::strings_view;
use crate::uci::command::{PositionCommandView, UciCommand, UciCommandView};
use crate::uci::parser::uci_command;
use crate::uci::response::{
    bestmove, bestmove_line, engine_author, engine_name, id_author_line, id_name_line, readyok,
    uciok,
};

verus! {

/// A diagnostic for standard error.
#[derive(Debug)]
pub enum Diagnostic {
    /// A `position` command was rejected; the session kept its position.
    PositionRejected(EngineError),
    /// An option was ignored (reported in debug mode).
    IgnoredOption { name: String, value: Option<String> },
    /// A line that is not a known command was ignored (reported in debug mode).
    IgnoredCommand(String),
}

/// The mathematical value of a `Diagnostic`.
pub enum DiagnosticView {
    PositionRejected(PositionErrorView),
    IgnoredOption { name: Seq<char>, value: Option<Seq<char>> },
    IgnoredCommand(Seq<char>),
}

impl View for Diagnostic {
    type V = DiagnosticView;

    open spec fn view(&self) -> DiagnosticView {
        match self {
            Diagnostic::PositionRejected(e) => DiagnosticView::PositionRejected(e.position_error()),
            Diagnostic::IgnoredOption { name, value } => DiagnosticView::IgnoredOption {
                name: name@,
                value: match value {
                    Some(v) => Some(v@),
                    None => None,
                },
            },
            Diagnostic::IgnoredCommand(t) => DiagnosticView::IgnoredCommand(t@),
        }
    }
}

/// What one command asks of the caller: lines for standard output (written
/// in order, then flushed), at most one diagnostic for standard error, and
/// whether to read further commands.
pub struct DispatchOutcome {
    pub responses: Vec<String>,
    pub diagnostic: Option<Diagnostic>,
    pub keep_running: bool,
}

/// The session after `command`.
pub open spec fn session_after(command: UciCommandView, s: SessionView) -> SessionView {
    match command {
        UciCommandView::UciNewGame => SessionView { position: start_view(), ..s },
        UciCommandView::Position(p) => match position_outcome(p) {
            Ok(v) => SessionView { position: v, ..s },
            Err(_) => s,
        },
        UciCommandView::Debug(b) => SessionView { debug_enabled: b, ..s },
        _ => s,
    }
}

/// Whether `command` leaves the whole session as it was, selector included:
/// everything but `ucinewgame`, `debug`, `go` and an accepted `position`.
pub open spec fn leaves_session(command: UciCommandView) -> bool {
    match command {
        UciCommandView::UciNewGame | UciCommandView::Debug(_) | UciCommandView::Go(_) => false,
        UciCommandView::Position(p) => position_outcome(p) is Err,
        _ => true,
    }
}

/// The diagnostic that `command` gives in session state `s`.
pub open spec fn diagnostic_for(command: UciCommandView, s: SessionView) -> Option<DiagnosticView> {
    match command {
        UciCommandView::Position(p) => match position_outcome(p) {
            Ok(_) => None,
            Err(e) => Some(DiagnosticView::PositionRejected(e)),
        },
        UciCommandView::SetOption { name, value } => if s.debug_enabled {
            Some(DiagnosticView::IgnoredOption { name, value })
        } else {
            None
        },
        UciCommandView::Unknown(t) => if s.debug_enabled {
            Some(DiagnosticView::IgnoredCommand(t))
        } else {
            None
        },
        _ => None,
    }
}

/// Whether `out` is a correct answer to `command` in session state `s`: the
/// handshake lines for `uci`, `readyok` for `isready`, one `bestmove` line for
/// `go` with the text of a choice that `selector` may make under the command's
/// limits (a legal move, or the null move exactly when there is none), and
/// nothing for any other command.
pub open spec fn responses_valid<S: MoveSelector>(
    command: UciCommandView,
    s: SessionView,
    selector: S,
    out: Seq<Seq<char>>,
) -> bool {
    match command {
        UciCommandView::Uci => out == seq![id_name_line(), id_author_line(), "uciok"@],
        UciCommandView::IsReady => out == seq!["readyok"@],
        UciCommandView::Go(limits) => out.len() == 1 && exists|c: Option<Move>|
            selector.may_choose(s.position, limits, c) && valid_best_move_text(
                s.position,
                choice_text(s.position, c),
            ) && out[0] == #[trigger] bestmove_line(choice_text(s.position, c)),
        _ => out.len() == 0,
    }
}

/// The optional view of an optional diagnostic.
pub open spec fn diagnostic_view(d: Option<Diagnostic>) -> Option<DiagnosticView> {
    match d {
        Some(x) => Some(x@),
        None => None,
    }
}

/// `ucinewgame` puts the session in the same state as `position startpos`.
pub proof fn law_new_game_is_startpos(s: SessionView)
    ensures
        session_after(UciCommandView::UciNewGame, s) == session_after(
            UciCommandView::Position(PositionCommandView::Startpos { moves: seq![] }),
            s,
        ),
{
    let p = PositionCommandView::Startpos { moves: seq![] };
    assert(first_rejected_move(PositionBase::StartPos, p.moves(), 0) is None);
    assert(position_outcome(p) == Ok::<PositionView, PositionErrorView>(start_view()));
}

/// A `position` command describes the whole position, not a change to it:
/// giving the same command twice has the effect of giving it once.
pub proof fn law_position_command_idempotent(p: PositionCommandView, s: SessionView)
    ensures
        session_after(UciCommandView::Position(p), session_after(UciCommandView::Position(p), s))
            == session_after(UciCommandView::Position(p), s),
{
}

/// Only `quit` ends the conversation, and commands other than `ucinewgame`,
/// `position` and `debug` leave the session as it was.
pub proof fn law_only_state_commands_change_session(c: UciCommandView, s: SessionView)
    ensures
        !(c is UciNewGame || c is Position || c is Debug) ==> session_after(c, s) == s,
{
}

/// Each command changes only its own part of the session: only `ucinewgame`
/// and `position` move the position (`ucinewgame` back to the start), and only
/// `debug` changes the debug flag, to the state it names.
pub proof fn law_commands_change_only_their_part(c: UciCommandView, s: SessionView)
    ensures
        !(c is UciNewGame || c is Position) ==> session_after(c, s).position == s.position,
        c is UciNewGame ==> session_after(c, s).position == start_view(),
        !(c is Debug) ==> session_after(c, s).debug_enabled == s.debug_enabled,
        c matches UciCommandView::Debug(b) ==> session_after(c, s).debug_enabled == b,
{
}

/// The number of lines a conversation reads: up to and including the first
/// line that parses to `quit`, or all of them.
pub open spec fn lines_read(lines: Seq<Seq<char>>) -> nat
    decreases lines.len(),
{
    if lines.len() == 0 {
        0
    } else if uci_command(lines[0]) is Quit {
        1
    } else {
        1 + lines_read(lines.drop_first())
    }
}

/// The session after a conversation: each line read is parsed and carried
/// out in turn, until `quit`.
pub open spec fn session_after_lines(lines: Seq<Seq<char>>, s: SessionView) -> SessionView
    decreases lines.len(),
{
    if lines.len() == 0 {
        s
    } else if uci_command(lines[0]) is Quit {
        s
    } else {
        session_after_lines(lines.drop_first(), session_after(uci_command(lines[0]), s))
    }
}

/// `quit` ends the conversation: nothing after it is read, and what comes
/// after it changes nothing.
pub proof fn law_quit_ends_conversation(
    before: Seq<Seq<char>>,
    quit: Seq<char>,
    after: Seq<Seq<char>>,
    s: SessionView,
)
    requires
        forall|i: int| 0 <= i < before.len() ==> !(uci_command(#[trigger] before[i]) is Quit),
        uci_command(quit) is Quit,
    ensures
        lines_read(before + (seq![quit] + after)) == before.len() + 1,
        session_after_lines(before + (seq![quit] + after), s) == session_after_lines(before, s),
    decreases before.len(),
{
    let all = before + (seq![quit] + after);
    if before.len() == 0 {
        assert(all =~= seq![quit] + after);
        assert(all[0] == quit);
    } else {
        assert(all[0] == before[0]);
        assert(all.drop_first() =~= before.drop_first() + (seq![quit] + after));
        assert forall|i: int| 0 <= i < before.drop_first().len() implies !(uci_command(
            #[trigger] before.drop_first()[i],
        ) is Quit) by {
            assert(before.drop_first()[i] == before[i + 1]);
        }
        law_quit_ends_conversation(
            before.drop_first(),
            quit,
            after,
            session_after(uci_command(before[0]), s),
        );
    }
}

/// Executes one parsed command on the session and says what to write and
/// whether to go on; only `quit` ends the conversation.
pub fn dispatch_uci_command<S>(command: UciCommand, session: &mut EngineSession<S>) -> (r:
    DispatchOutcome) where S: MoveSelector
    ensures
        r.keep_running == !(command@ is Quit),
        final(session)@ == session_after(command@, old(session)@),
        leaves_session(command@) ==> *final(session) == *old(session),
        !(command@ is Go) ==> final(session).selector_value() == old(session).selector_value(),
        diagnostic_view(r.diagnostic) == diagnostic_for(command@, old(session)@),
        responses_valid(
            command@,
            old(session)@,
            old(session).selector_value(),
            strings_view(r.responses@),
        ),
{
    let mut responses: Vec<String> = Vec::new();
    let mut diagnostic: Option<Diagnostic> = None;
    let mut keep_running = true;
    match command {
        UciCommand::Uci => {
            // Identity lines first, then `uciok`.
            responses.push(engine_name());
            responses.push(engine_author());
            responses.push(uciok());
            assert(strings_view(responses@) =~= seq![id_name_line(), id_author_line(), "uciok"@]);
        },
        UciCommand::IsReady => {
            responses.push(readyok());
            assert(strings_view(responses@) =~= seq!["readyok"@]);
        },
        UciCommand::UciNewGame => {
            session.new_game();
        },
        UciCommand::Position(position_command) => {
            // A bad position is reported, never fatal.
            match session.set_position(position_command) {
                Ok(()) => {},
                Err(error) => {
                    diagnostic = Some(Diagnostic::PositionRejected(error));
                },
            }
        },
        UciCommand::Go(limits) => {
            let move_text = session.best_move_text(&limits);
            responses.push(bestmove(move_text.as_str()));
            assert(strings_view(responses@)[0] == bestmove_line(move_text@));
        },
        UciCommand::Stop => {},
        UciCommand::Debug(debug_enabled) => {
            session.set_debug_enabled(debug_enabled);
        },
        UciCommand::SetOption { name, value } => {
            if session.is_debug_enabled() {
                diagnostic = Some(Diagnostic::IgnoredOption { name, value });
            }
        },
        UciCommand::Quit => {
            keep_running = false;
        },
        UciCommand::Unknown(text) => {
            if session.is_debug_enabled() {
                diagnostic = Some(Diagnostic::IgnoredCommand(text));
            }
        },
    }
    DispatchOutcome { responses, diagnostic, keep_running }
}

} // verus!
