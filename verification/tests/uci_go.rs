use uci_engine_template::engine::random::RandomMoveSelector;
use uci_engine_template::engine::session::EngineSession;
use uci_engine_template::uci::driver::dispatch_uci_command;
use uci_engine_template::uci::parser::parse_uci_command;

// Runs a scripted UCI conversation through the parser and the command
// dispatcher, collecting what the engine writes on standard output.
fn run_engine_script(script: &str) -> String {
    let mut session = EngineSession::new(RandomMoveSelector::new());
    let mut output = String::new();
    for line in script.lines() {
        let command = parse_uci_command(line);
        let outcome = dispatch_uci_command(command, &mut session);
        for response in outcome.responses {
            output.push_str(&response);
            output.push('\n');
        }
        if !outcome.keep_running {
            break;
        }
    }
    output
}

fn assert_valid_bestmove_line(output: &str) {
    let bestmove_line = output
        .lines()
        .find(|line| line.starts_with("bestmove "))
        .expect("missing bestmove line");
    let move_text = bestmove_line.trim_start_matches("bestmove ");

    assert!(is_valid_uci_move_text(move_text), "invalid bestmove line: {bestmove_line}");
}

fn is_valid_uci_move_text(move_text: &str) -> bool {
    if move_text == "0000" {
        return true;
    }

    let bytes = move_text.as_bytes();

    if bytes.len() != 4 && bytes.len() != 5 {
        return false;
    }

    let valid_from_square = (b'a'..=b'h').contains(&bytes[0]) && (b'1'..=b'8').contains(&bytes[1]);
    let valid_to_square = (b'a'..=b'h').contains(&bytes[2]) && (b'1'..=b'8').contains(&bytes[3]);
    let valid_promotion = bytes.len() == 4 || matches!(bytes[4], b'q' | b'r' | b'b' | b'n');

    valid_from_square && valid_to_square && valid_promotion
}

#[test]
fn startpos_go_returns_bestmove() {
    let output = run_engine_script("position startpos\ngo movetime 1\nquit\n");

    assert_valid_bestmove_line(&output);
}

#[test]
fn no_legal_move_returns_null_move() {
    let output =
        run_engine_script("position fen 7k/5K2/6Q1/8/8/8/8/8 b - - 0 1\ngo movetime 1\nquit\n");

    assert!(output.lines().any(|line| line == "bestmove 0000"));
}

#[test]
fn unknown_command_does_not_crash() {
    let output = run_engine_script("this-is-not-a-uci-command\nisready\nquit\n");

    assert!(output.lines().any(|line| line == "readyok"));
}

#[test]
fn uci_handshake_lines() {
    let output = run_engine_script("uci\nquit\n");
    assert_eq!(output, "id name UCI Engine Template Rust\nid author Rohin Gosling\nuciok\n");
}

#[test]
fn quit_stops_reading() {
    let output = run_engine_script("quit\nisready\n");
    assert_eq!(output, "");
}

#[test]
fn one_bestmove_per_go() {
    let output = run_engine_script("go\ngo depth 1\nisready\n");
    assert_eq!(output.lines().filter(|l| l.starts_with("bestmove ")).count(), 2);
    assert_valid_bestmove_line(&output);
}

#[test]
fn bad_position_keeps_previous_position() {
    let output = run_engine_script(
        "position fen 7k/5K2/6Q1/8/8/8/8/8 b - - 0 1\nposition fen nonsense\ngo\nposition startpos moves e2e5\ngo\n",
    );
    assert_eq!(output, "bestmove 0000\nbestmove 0000\n");
}

#[test]
fn only_legal_move_is_played() {
    // The rook on a7 holds the seventh rank: the black king can only go to g8.
    let output = run_engine_script("position fen 7k/R7/8/8/8/8/8/K7 b - - 0 1\ngo\n");
    assert_eq!(output, "bestmove h8g8\n");
}
