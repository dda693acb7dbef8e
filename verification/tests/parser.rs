use uci_engine_template::search::limits::SearchLimits;
use uci_engine_template::uci::command::{PositionCommand, UciCommand};
use uci_engine_template::uci::parser::parse_uci_command;

#[test]
fn parse_uci_handshake() {
    assert_eq!(parse_uci_command("uci"), UciCommand::Uci);
}

#[test]
fn parse_startpos_with_moves() {
    assert_eq!(
        parse_uci_command("position startpos moves e2e4 e7e5"),
        UciCommand::Position(PositionCommand::Startpos {
            moves: vec!["e2e4".to_string(), "e7e5".to_string()],
        })
    );
}

#[test]
fn parse_fen_with_moves() {
    assert_eq!(
        parse_uci_command(
            "position fen rnbqkbnr/pppppppp/8/8/8/8/PPPPPPPP/RNBQKBNR w KQkq - 0 1 moves e2e4"
        ),
        UciCommand::Position(PositionCommand::Fen {
            fen: "rnbqkbnr/pppppppp/8/8/8/8/PPPPPPPP/RNBQKBNR w KQkq - 0 1".to_string(),
            moves: vec!["e2e4".to_string()],
        })
    );
}

#[test]
fn parse_go_movetime() {
    let command = parse_uci_command("go movetime 1000");

    match command {
        UciCommand::Go(limits) => assert_eq!(limits.move_time, Some(1000)),
        other => panic!("expected go command, got {other:?}"),
    }
}

#[test]
fn simple_commands_parse() {
    assert_eq!(parse_uci_command("isready"), UciCommand::IsReady);
    assert_eq!(parse_uci_command("ucinewgame"), UciCommand::UciNewGame);
    assert_eq!(parse_uci_command("stop"), UciCommand::Stop);
    assert_eq!(parse_uci_command("quit"), UciCommand::Quit);
    assert_eq!(parse_uci_command("go"), UciCommand::Go(SearchLimits::default()));
}

#[test]
fn surrounding_and_inner_white_space_is_ignored() {
    assert_eq!(parse_uci_command("  \t uci \r\n"), UciCommand::Uci);
    assert_eq!(
        parse_uci_command("position\tstartpos \u{3000} moves  e2e4"),
        UciCommand::Position(PositionCommand::Startpos { moves: vec!["e2e4".to_string()] })
    );
}

#[test]
fn blank_lines_are_unknown_and_empty() {
    assert_eq!(parse_uci_command(""), UciCommand::Unknown(String::new()));
    assert_eq!(parse_uci_command(" \t\u{a0} "), UciCommand::Unknown(String::new()));
}

#[test]
fn unknown_text_is_kept_trimmed() {
    assert_eq!(
        parse_uci_command("  hello   world "),
        UciCommand::Unknown("hello   world".to_string())
    );
    assert_eq!(parse_uci_command("UCI"), UciCommand::Unknown("UCI".to_string()));
}

#[test]
fn debug_on_off_and_malformed() {
    assert_eq!(parse_uci_command("debug on"), UciCommand::Debug(true));
    assert_eq!(parse_uci_command("debug off"), UciCommand::Debug(false));
    assert_eq!(parse_uci_command("debug"), UciCommand::Unknown("debug".to_string()));
    assert_eq!(parse_uci_command("debug maybe"), UciCommand::Unknown("debug maybe".to_string()));
}

#[test]
fn startpos_forms() {
    assert_eq!(
        parse_uci_command("position startpos"),
        UciCommand::Position(PositionCommand::Startpos { moves: vec![] })
    );
    assert_eq!(
        parse_uci_command("position startpos moves"),
        UciCommand::Position(PositionCommand::Startpos { moves: vec![] })
    );
    assert_eq!(
        parse_uci_command("position startpos e2e4"),
        UciCommand::Unknown("position startpos e2e4".to_string())
    );
}

#[test]
fn fen_forms() {
    assert_eq!(
        parse_uci_command("position fen 8/8/8/8/8/8/8/K6k w - - 0 1"),
        UciCommand::Position(PositionCommand::Fen {
            fen: "8/8/8/8/8/8/8/K6k w - - 0 1".to_string(),
            moves: vec![],
        })
    );
    assert_eq!(parse_uci_command("position fen"), UciCommand::Unknown("position fen".to_string()));
    assert_eq!(
        parse_uci_command("position fen moves e2e4"),
        UciCommand::Unknown("position fen moves e2e4".to_string())
    );
    assert_eq!(
        parse_uci_command("position   fen a   b moves"),
        UciCommand::Position(PositionCommand::Fen { fen: "a b".to_string(), moves: vec![] })
    );
}

#[test]
fn position_without_base_is_unknown() {
    assert_eq!(parse_uci_command("position"), UciCommand::Unknown("position".to_string()));
    assert_eq!(
        parse_uci_command("position moves e2e4"),
        UciCommand::Unknown("position moves e2e4".to_string())
    );
}

#[test]
fn setoption_forms() {
    assert_eq!(
        parse_uci_command("setoption name Hash value 128"),
        UciCommand::SetOption { name: "Hash".to_string(), value: Some("128".to_string()) }
    );
    assert_eq!(
        parse_uci_command("setoption name Clear Hash"),
        UciCommand::SetOption { name: "Clear Hash".to_string(), value: None }
    );
    assert_eq!(
        parse_uci_command("setoption name Book File value my book.bin"),
        UciCommand::SetOption {
            name: "Book File".to_string(),
            value: Some("my book.bin".to_string())
        }
    );
    assert_eq!(
        parse_uci_command("setoption"),
        UciCommand::SetOption { name: String::new(), value: None }
    );
    assert_eq!(
        parse_uci_command("setoption value 5"),
        UciCommand::SetOption { name: String::new(), value: Some("5".to_string()) }
    );
    assert_eq!(
        parse_uci_command("setoption name value"),
        UciCommand::SetOption { name: String::new(), value: Some(String::new()) }
    );
}

#[test]
fn setoption_markers_in_either_order() {
    assert_eq!(
        parse_uci_command(" setoption value 1 name Hash "),
        UciCommand::SetOption { name: "Hash".to_string(), value: Some("1".to_string()) }
    );
    assert_eq!(
        parse_uci_command("setoption value a b name c d"),
        UciCommand::SetOption { name: "c d".to_string(), value: Some("a b".to_string()) }
    );
    assert_eq!(
        parse_uci_command("setoption name Hash value 1"),
        UciCommand::SetOption { name: "Hash".to_string(), value: Some("1".to_string()) }
    );
}

#[test]
fn same_words_same_command() {
    assert_eq!(
        parse_uci_command("go  depth\t3"),
        parse_uci_command(" go depth 3 ")
    );
    assert_eq!(
        parse_uci_command("position startpos moves e2e4"),
        parse_uci_command("position \u{2003}startpos moves\te2e4\n")
    );
}

#[test]
fn go_with_limits_parses() {
    match parse_uci_command("go wtime 100 searchmoves e2e4 g1f3 infinite") {
        UciCommand::Go(limits) => {
            assert_eq!(limits.white_time, Some(100));
            assert_eq!(limits.search_moves, vec!["e2e4", "g1f3"]);
            assert!(limits.infinite);
        }
        other => panic!("expected go command, got {other:?}"),
    }
}

#[test]
fn position_command_moves_accessor() {
    let startpos = PositionCommand::Startpos { moves: vec!["e2e4".to_string()] };
    assert_eq!(startpos.moves(), &["e2e4".to_string()]);
    let fen = PositionCommand::Fen { fen: "x".to_string(), moves: vec![] };
    assert!(fen.moves().is_empty());
}
