use cozy_chess::Color;
use uci_engine_template::engine::random::RandomMoveSelector;
use uci_engine_template::engine::selector::MoveSelector;
use uci_engine_template::engine::session::{move_text_or_null, EngineError, EngineSession};
use uci_engine_template::board::position::{Position, PositionError};
use uci_engine_template::search::limits::SearchLimits;
use uci_engine_template::uci::command::PositionCommand;

fn startpos_with(moves: &[&str]) -> PositionCommand {
    PositionCommand::Startpos { moves: moves.iter().map(|m| m.to_string()).collect() }
}

#[test]
fn random_selector_picks_a_legal_move() {
    let position = Position::startpos();
    let legal = position.legal_moves();
    let mut selector = RandomMoveSelector::new();
    for _ in 0..20 {
        let chosen = selector.select_move(&position, &SearchLimits::default()).unwrap();
        assert!(legal.contains(&chosen));
    }
}

#[test]
fn random_selector_has_nothing_in_checkmate() {
    let position = Position::from_fen("7k/5K2/6Q1/8/8/8/8/8 b - - 0 1").unwrap();
    let mut selector = RandomMoveSelector::default();
    assert_eq!(selector.select_move(&position, &SearchLimits::default()), None);
}

#[test]
fn null_move_text_when_nothing_chosen() {
    let position = Position::startpos();
    assert_eq!(move_text_or_null(&position, None), "0000");
    let chosen = position.legal_moves()[0];
    assert_eq!(move_text_or_null(&position, Some(chosen)), position.display_uci_move(chosen));
}

#[test]
fn set_position_plays_moves_in_order() {
    let mut session = EngineSession::new(RandomMoveSelector::new());
    session.set_position(startpos_with(&["e2e4", "e7e5", "g1f3"])).unwrap();
    let mut expected = Position::startpos();
    for m in ["e2e4", "e7e5", "g1f3"] {
        expected.apply_uci_move(m).unwrap();
    }
    let text = session.best_move_text(&SearchLimits::default());
    let legal: Vec<String> =
        expected.legal_moves().into_iter().map(|m| expected.display_uci_move(m)).collect();
    assert!(legal.contains(&text));
    assert_eq!(expected.board().side_to_move(), Color::Black);
}

#[test]
fn rejected_position_leaves_session_unchanged() {
    let mut session = EngineSession::new(RandomMoveSelector::new());
    session
        .set_position(PositionCommand::Fen { fen: "7k/5K2/6Q1/8/8/8/8/8 b - - 0 1".to_string(), moves: vec![] })
        .unwrap();
    // A bad move in the middle rejects the whole command.
    match session.set_position(startpos_with(&["e2e4", "e2e4"])) {
        Err(EngineError::Position(PositionError::IllegalMove { text, .. })) => assert_eq!(text, "e2e4"),
        other => panic!("expected an illegal move, got {:?}", other),
    }
    match session.set_position(startpos_with(&["e2e4", "xx"])) {
        Err(EngineError::Position(PositionError::InvalidMoveText { text, .. })) => {
            assert_eq!(text, "xx")
        }
        other => panic!("expected invalid move text, got {:?}", other),
    }
    match session.set_position(PositionCommand::Fen { fen: "bad".to_string(), moves: vec![] }) {
        Err(EngineError::Position(PositionError::InvalidFen { text, .. })) => assert_eq!(text, "bad"),
        other => panic!("expected an invalid FEN, got {:?}", other),
    }
    // Still the mated position from before.
    assert_eq!(session.best_move_text(&SearchLimits::default()), "0000");
}

#[test]
fn new_game_returns_to_startpos() {
    let mut session = EngineSession::new(RandomMoveSelector::new());
    session
        .set_position(PositionCommand::Fen { fen: "7k/5K2/6Q1/8/8/8/8/8 b - - 0 1".to_string(), moves: vec![] })
        .unwrap();
    assert_eq!(session.best_move_text(&SearchLimits::default()), "0000");
    session.new_game();
    assert_ne!(session.best_move_text(&SearchLimits::default()), "0000");
}

#[test]
fn debug_flag_is_kept() {
    let mut session = EngineSession::new(RandomMoveSelector::new());
    assert!(!session.is_debug_enabled());
    session.set_debug_enabled(true);
    assert!(session.is_debug_enabled());
    session.set_debug_enabled(false);
    assert!(!session.is_debug_enabled());
}

#[test]
fn engine_error_description_and_from() {
    let inner = PositionError::InvalidFen { text: "x".to_string(), message: "m".to_string() };
    let error: EngineError = inner.clone().into();
    assert_eq!(error.describe(), inner.describe());
}

#[test]
fn best_move_is_legal() {
    let mut session = EngineSession::new(RandomMoveSelector::new());
    let chosen = session.best_move(&SearchLimits::default()).unwrap();
    assert!(Position::startpos().legal_moves().contains(&chosen));
}
