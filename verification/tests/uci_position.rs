use uci_engine_template::engine::random::RandomMoveSelector;
use uci_engine_template::engine::session::EngineSession;
use uci_engine_template::uci::driver::{dispatch_uci_command, Diagnostic};
use uci_engine_template::uci::parser::parse_uci_command;

// Runs a scripted UCI conversation through the parser and the command
// dispatcher, collecting what the engine writes on standard output.
fn run_engine_script(script: &str) -> String {
    let mut session = EngineSession::new(RandomMoveSelector::new());
    let mut output = String::new();
    for line in script.lines() {
        let command = parse_uci_command(line);
        let outcome = dispatch_uci_command(command, &mut session);
        for response in outcome.responses {
            output.push_str(&response);
            output.push('\n');
        }
        if !outcome.keep_running {
            break;
        }
    }
    output
}

fn has_bestmove_line(output: &str) -> bool {
    output.lines().any(|line| line.starts_with("bestmove "))
}

#[test]
fn startpos_moves_then_go_returns_bestmove() {
    let output = run_engine_script("position startpos moves e2e4 e7e5\ngo movetime 1\nquit\n");

    assert!(has_bestmove_line(&output));
}

#[test]
fn fen_then_go_returns_bestmove() {
    let output = run_engine_script(
        "position fen rnbqkbnr/pppppppp/8/8/8/8/PPPPPPPP/RNBQKBNR w KQkq - 0 1\ngo depth 1\nquit\n",
    );

    assert!(has_bestmove_line(&output));
}

#[test]
fn diagnostics_follow_debug_mode() {
    let mut session = EngineSession::new(RandomMoveSelector::new());
    let quiet = dispatch_uci_command(parse_uci_command("setoption name Hash value 1"), &mut session);
    assert!(quiet.diagnostic.is_none());
    assert!(quiet.responses.is_empty());
    let on = dispatch_uci_command(parse_uci_command("debug on"), &mut session);
    assert!(on.diagnostic.is_none() && on.keep_running);
    match dispatch_uci_command(parse_uci_command("setoption name Hash value 1"), &mut session).diagnostic {
        Some(Diagnostic::IgnoredOption { name, value }) => {
            assert_eq!(name, "Hash");
            assert_eq!(value, Some("1".to_string()));
        }
        other => panic!("expected an ignored option, got {:?}", other),
    }
    match dispatch_uci_command(parse_uci_command("  foo  bar "), &mut session).diagnostic {
        Some(Diagnostic::IgnoredCommand(text)) => assert_eq!(text, "foo  bar"),
        other => panic!("expected an ignored command, got {:?}", other),
    }
    dispatch_uci_command(parse_uci_command("debug off"), &mut session);
    assert!(dispatch_uci_command(parse_uci_command("foo"), &mut session).diagnostic.is_none());
}

#[test]
fn rejected_position_is_reported_whatever_the_debug_mode() {
    let mut session = EngineSession::new(RandomMoveSelector::new());
    let outcome = dispatch_uci_command(parse_uci_command("position startpos moves e2e5"), &mut session);
    match outcome.diagnostic {
        Some(Diagnostic::PositionRejected(error)) => {
            assert_eq!(error.describe(), "illegal UCI move 'e2e5': The move played was illegal.")
        }
        other => panic!("expected a rejected position, got {:?}", other),
    }
}

#[test]
fn new_game_and_startpos_agree() {
    let output = run_engine_script(
        "position fen 7k/5K2/6Q1/8/8/8/8/8 b - - 0 1\nucinewgame\ngo\nposition startpos\nposition startpos\ngo\n",
    );
    let lines: Vec<&str> = output.lines().collect();
    assert_eq!(lines.len(), 2);
    assert!(lines.iter().all(|l| l.starts_with("bestmove ") && *l != "bestmove 0000"));
}
