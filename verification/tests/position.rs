use uci_engine_template::board::position::{Position, PositionError};

#[test]
fn startpos_has_legal_moves() {
    let position = Position::startpos();

    assert_eq!(position.legal_moves().len(), 20);
}

#[test]
fn legal_uci_move_can_be_applied() {
    let mut position = Position::startpos();

    position.apply_uci_move("e2e4").unwrap();

    assert_eq!(position.board().side_to_move(), cozy_chess::Color::Black);
}

#[test]
fn illegal_uci_move_returns_error() {
    let mut position = Position::startpos();

    assert!(position.apply_uci_move("e1e8").is_err());
}

#[test]
fn illegal_move_error_carries_text_and_message() {
    let mut position = Position::startpos();
    let before = position.board().clone();
    assert_eq!(
        position.apply_uci_move("e1e8"),
        Err(PositionError::IllegalMove {
            text: "e1e8".to_string(),
            message: "The move played was illegal.".to_string(),
        })
    );
    assert_eq!(position.board(), &before);
}

#[test]
fn unreadable_move_text_is_invalid_move_text() {
    let mut position = Position::startpos();
    for text in ["e2", "e2e9", "i2i4", "e2e4x", "", "E2E4"] {
        assert_eq!(
            position.apply_uci_move(text),
            Err(PositionError::InvalidMoveText {
                text: text.to_string(),
                message: "The value was not a valid Move.".to_string(),
            })
        );
    }
    assert_eq!(position.board(), Position::startpos().board());
}

#[test]
fn promotion_letter_is_read() {
    let mut position = Position::from_fen("8/P6k/8/8/8/8/8/K7 w - - 0 1").unwrap();
    position.apply_uci_move("a7a8q").unwrap();
    assert_eq!(
        position.board().piece_on(cozy_chess::Square::A8),
        Some(cozy_chess::Piece::Queen)
    );
}

#[test]
fn fen_is_parsed() {
    let position =
        Position::from_fen("rnbqkbnr/pppppppp/8/8/4P3/8/PPPP1PPP/RNBQKBNR b KQkq - 0 1").unwrap();
    assert_eq!(position.board().side_to_move(), cozy_chess::Color::Black);
    assert_eq!(position.legal_moves().len(), 20);
}

#[test]
fn invalid_fen_is_rejected_with_message() {
    match Position::from_fen("not a fen") {
        Err(PositionError::InvalidFen { text, message }) => {
            assert_eq!(text, "not a fen");
            assert_eq!(message, "The board is invalid.");
        }
        other => panic!("expected an invalid FEN error, got {:?}", other.map(|_| ())),
    }
    match Position::from_fen("8/8/8/8/8/8/8/K6k w - -") {
        Err(PositionError::InvalidFen { message, .. }) => {
            assert_eq!(message, "The FEN is missing a field.")
        }
        other => panic!("expected an invalid FEN error, got {:?}", other.map(|_| ())),
    }
}

#[test]
fn castling_is_written_as_king_step() {
    let mut position =
        Position::from_fen("r3k2r/pppppppp/8/8/8/8/PPPPPPPP/R3K2R w KQkq - 0 1").unwrap();
    let texts: Vec<String> =
        position.legal_moves().into_iter().map(|m| position.display_uci_move(m)).collect();
    assert!(texts.contains(&"e1g1".to_string()));
    assert!(texts.contains(&"e1c1".to_string()));
    position.apply_uci_move("e1g1").unwrap();
    assert_eq!(
        position.board().piece_on(cozy_chess::Square::G1),
        Some(cozy_chess::Piece::King)
    );
}

#[test]
fn checkmated_side_has_no_moves() {
    let position = Position::from_fen("7k/5K2/6Q1/8/8/8/8/8 b - - 0 1").unwrap();
    assert!(position.legal_moves().is_empty());
}

#[test]
fn default_is_startpos() {
    assert_eq!(Position::default().board(), Position::startpos().board());
}

#[test]
fn error_descriptions() {
    let e = PositionError::InvalidFen { text: "x".to_string(), message: "m".to_string() };
    assert_eq!(e.describe(), "invalid FEN 'x': m");
    let e = PositionError::InvalidMoveText { text: "zz".to_string(), message: "m".to_string() };
    assert_eq!(e.describe(), "invalid UCI move 'zz': m");
    let e = PositionError::IllegalMove { text: "e1e8".to_string(), message: "m".to_string() };
    assert_eq!(e.describe(), "illegal UCI move 'e1e8': m");
}

#[test]
fn start_fen_gives_the_start_board() {
    let from_fen =
        Position::from_fen("rnbqkbnr/pppppppp/8/8/8/8/PPPPPPPP/RNBQKBNR w KQkq - 0 1").unwrap();
    assert_eq!(from_fen.board(), Position::startpos().board());
}

#[test]
fn applied_move_changes_the_held_board() {
    let mut position = Position::startpos();
    position.apply_uci_move("g1f3").unwrap();
    let mut expected = cozy_chess::Board::startpos();
    expected.play("g1f3".parse().unwrap());
    assert_eq!(position.board(), &expected);
    let copy = position.clone();
    assert_eq!(copy.board(), position.board());
}

#[test]
fn promotions_are_written_with_piece_letters() {
    let position = Position::from_fen("8/P6k/8/8/8/8/8/K7 w - - 0 1").unwrap();
    let mut promotions: Vec<String> = position
        .legal_moves()
        .into_iter()
        .map(|m| position.display_uci_move(m))
        .filter(|t| t.len() == 5)
        .collect();
    promotions.sort();
    assert_eq!(promotions, vec!["a7a8b", "a7a8n", "a7a8q", "a7a8r"]);
}

#[test]
fn every_legal_move_is_listed() {
    let position = Position::startpos();
    let listed = position.legal_moves();
    for text in ["a2a3", "a2a4", "g1f3", "b1c3", "h2h4"] {
        let mv: cozy_chess::Move = text.parse().unwrap();
        assert!(listed.contains(&mv));
    }
    assert!(!listed.contains(&"e2e5".parse().unwrap()));
}
