use uci_engine_template::search::limits::{is_go_limit_keyword, parse_next_number, SearchLimits};

#[test]
fn parse_common_go_limits() {
    let limits = SearchLimits::parse_from_tokens(&[
        "wtime", "60000", "btime", "30000", "winc", "1000", "binc", "500", "movetime", "250",
        "depth", "2", "infinite",
    ]);

    assert_eq!(limits.white_time, Some(60000));
    assert_eq!(limits.black_time, Some(30000));
    assert_eq!(limits.white_increment, Some(1000));
    assert_eq!(limits.black_increment, Some(500));
    assert_eq!(limits.move_time, Some(250));
    assert_eq!(limits.depth, Some(2));
    assert!(limits.infinite);
}

#[test]
fn parse_search_moves_until_next_limit() {
    let limits = SearchLimits::parse_from_tokens(&["searchmoves", "e2e4", "d2d4", "depth", "1"]);

    assert_eq!(limits.search_moves, vec!["e2e4", "d2d4"]);
    assert_eq!(limits.depth, Some(1));
}

#[test]
fn empty_go_has_no_limits() {
    let limits = SearchLimits::parse_from_tokens(&[]);
    assert_eq!(limits, SearchLimits::default());
    assert!(limits.search_moves.is_empty());
    assert!(!limits.infinite);
}

#[test]
fn remaining_numeric_limits_are_parsed() {
    let limits =
        SearchLimits::parse_from_tokens(&["movestogo", "40", "nodes", "123456", "mate", "3"]);
    assert_eq!(limits.moves_to_go, Some(40));
    assert_eq!(limits.nodes, Some(123456));
    assert_eq!(limits.mate, Some(3));
    assert_eq!(limits.depth, None);
}

#[test]
fn bad_number_leaves_limit_absent_and_others_parsed() {
    let limits = SearchLimits::parse_from_tokens(&["wtime", "abc", "btime", "7"]);
    assert_eq!(limits.white_time, None);
    assert_eq!(limits.black_time, Some(7));
}

#[test]
fn keyword_after_numeric_keyword_is_consumed_as_its_value() {
    // "depth" is read as the (bad) value of wtime, so "5" is an unknown token.
    let limits = SearchLimits::parse_from_tokens(&["wtime", "depth", "5"]);
    assert_eq!(limits.white_time, None);
    assert_eq!(limits.depth, None);
}

#[test]
fn missing_value_at_end_is_absent() {
    let limits = SearchLimits::parse_from_tokens(&["depth"]);
    assert_eq!(limits.depth, None);
}

#[test]
fn unknown_tokens_are_skipped() {
    let with_unknown = SearchLimits::parse_from_tokens(&["ponder", "foo", "depth", "4"]);
    let without = SearchLimits::parse_from_tokens(&["depth", "4"]);
    assert_eq!(with_unknown, without);
}

#[test]
fn search_moves_stop_at_ponder_and_run_to_end() {
    let limits = SearchLimits::parse_from_tokens(&["searchmoves", "a2a3", "ponder"]);
    assert_eq!(limits.search_moves, vec!["a2a3"]);
    let limits = SearchLimits::parse_from_tokens(&["searchmoves", "a2a3", "b2b3"]);
    assert_eq!(limits.search_moves, vec!["a2a3", "b2b3"]);
    let limits = SearchLimits::parse_from_tokens(&["searchmoves", "a2a3", "searchmoves", "b2b3"]);
    assert_eq!(limits.search_moves, vec!["a2a3", "searchmoves", "b2b3"]);
}

#[test]
fn numbers_follow_u64_parsing() {
    assert_eq!(SearchLimits::parse_from_tokens(&["depth", "+5"]).depth, Some(5));
    assert_eq!(SearchLimits::parse_from_tokens(&["depth", "-5"]).depth, None);
    assert_eq!(SearchLimits::parse_from_tokens(&["depth", "+"]).depth, None);
    assert_eq!(SearchLimits::parse_from_tokens(&["depth", "007"]).depth, Some(7));
    assert_eq!(
        SearchLimits::parse_from_tokens(&["nodes", "18446744073709551615"]).nodes,
        Some(u64::MAX)
    );
    assert_eq!(SearchLimits::parse_from_tokens(&["nodes", "18446744073709551616"]).nodes, None);
    assert_eq!(SearchLimits::parse_from_tokens(&["nodes", "12a"]).nodes, None);
}

#[test]
fn limit_keywords_are_recognized() {
    for keyword in [
        "wtime", "btime", "winc", "binc", "movestogo", "depth", "nodes", "mate", "movetime",
        "infinite", "ponder",
    ] {
        assert!(is_go_limit_keyword(keyword));
    }
    assert!(!is_go_limit_keyword("searchmoves"));
    assert!(!is_go_limit_keyword("e2e4"));
    assert!(!is_go_limit_keyword("Depth"));
}

#[test]
fn next_number_reads_following_token() {
    assert_eq!(parse_next_number(&["depth", "12"], 0), Some(12));
    assert_eq!(parse_next_number(&["depth"], 0), None);
    assert_eq!(parse_next_number(&["depth", "x"], 0), None);
}

#[test]
fn appended_infinite_only_sets_the_flag() {
    let base = SearchLimits::parse_from_tokens(&["wtime", "10", "searchmoves", "e2e4"]);
    let with = SearchLimits::parse_from_tokens(&["wtime", "10", "searchmoves", "e2e4", "infinite"]);
    assert!(!base.infinite);
    assert_eq!(with, SearchLimits { infinite: true, ..base });
    // A numeric keyword at the end takes `infinite` as its (bad) value.
    let waiting = SearchLimits::parse_from_tokens(&["depth", "infinite"]);
    assert!(!waiting.infinite);
    assert_eq!(waiting.depth, None);
}
