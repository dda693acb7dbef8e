//! Representation and parsing of the limits carried by a UCI `go` command.

use vstd::prelude::*;

use crate::text::{decimal_u64, parse_u64, str_eq, str_views};

verus! {

/// The views of a sequence of owned strings.
pub open spec fn strings_view(v: Seq<String>) -> Seq<Seq<char>> {
    v.map_values(|s: String| s@)
}

/// Search and time-control limits parsed from a UCI `go` command.
/// Clock values from the GUI are in milliseconds.
#[derive(Clone, Debug, PartialEq, Eq)]
pub struct SearchLimits {
    /// Restrict search to these UCI move strings (`searchmoves`).
    pub search_moves: Vec<String>,
    pub white_time: Option<u64>,
    pub black_time: Option<u64>,
    pub white_increment: Option<u64>,
    pub black_increment: Option<u64>,
    pub moves_to_go: Option<u64>,
    pub depth: Option<u64>,
    pub nodes: Option<u64>,
    pub mate: Option<u64>,
    pub move_time: Option<u64>,
    /// `go infinite`: search until a later `stop`.
    pub infinite: bool,
}

/// The mathematical value of a `SearchLimits`.
pub struct LimitsView {
    pub search_moves: Seq<Seq<char>>,
    pub white_time: Option<u64>,
    pub black_time: Option<u64>,
    pub white_increment: Option<u64>,
    pub black_increment: Option<u64>,
    pub moves_to_go: Option<u64>,
    pub depth: Option<u64>,
    pub nodes: Option<u64>,
    pub mate: Option<u64>,
    pub move_time: Option<u64>,
    pub infinite: bool,
}

impl View for SearchLimits {
    type V = LimitsView;

    open spec fn view(&self) -> LimitsView {
        LimitsView {
            search_moves: strings_view(self.search_moves@),
            white_time: self.white_time,
            black_time: self.black_time,
            white_increment: self.white_increment,
            black_increment: self.black_increment,
            moves_to_go: self.moves_to_go,
            depth: self.depth,
            nodes: self.nodes,
            mate: self.mate,
            move_time: self.move_time,
            infinite: self.infinite,
        }
    }
}

/// No limits at all: no search moves, every value absent, not infinite.
pub open spec fn no_limits() -> LimitsView {
    LimitsView {
        search_moves: seq![],
        white_time: None,
        black_time: None,
        white_increment: None,
        black_increment: None,
        moves_to_go: None,
        depth: None,
        nodes: None,
        mate: None,
        move_time: None,
        infinite: false,
    }
}

impl Default for SearchLimits {
    fn default() -> (r: Self)
        ensures
            r@ == no_limits(),
    {
        let r = SearchLimits {
            search_moves: Vec::new(),
            white_time: None,
            black_time: None,
            white_increment: None,
            black_increment: None,
            moves_to_go: None,
            depth: None,
            nodes: None,
            mate: None,
            move_time: None,
            infinite: false,
        };
        assert(r@.search_moves =~= Seq::<Seq<char>>::empty());
        r
    }
}

/// The keywords that the `go` parser acts on.
#[derive(Clone, Copy, Debug, PartialEq, Eq, Structural)]
pub enum GoKeyword {
    SearchMoves,
    WhiteTime,
    BlackTime,
    WhiteIncrement,
    BlackIncrement,
    MovesToGo,
    Depth,
    Nodes,
    Mate,
    MoveTime,
    Infinite,
}

/// The `go` keyword that `t` spells, if any.
pub open spec fn go_keyword(t: Seq<char>) -> Option<GoKeyword> {
    if t == "searchmoves"@ {
        Some(GoKeyword::SearchMoves)
    } else if t == "wtime"@ {
        Some(GoKeyword::WhiteTime)
    } else if t == "btime"@ {
        Some(GoKeyword::BlackTime)
    } else if t == "winc"@ {
        Some(GoKeyword::WhiteIncrement)
    } else if t == "binc"@ {
        Some(GoKeyword::BlackIncrement)
    } else if t == "movestogo"@ {
        Some(GoKeyword::MovesToGo)
    } else if t == "depth"@ {
        Some(GoKeyword::Depth)
    } else if t == "nodes"@ {
        Some(GoKeyword::Nodes)
    } else if t == "mate"@ {
        Some(GoKeyword::Mate)
    } else if t == "movetime"@ {
        Some(GoKeyword::MoveTime)
    } else if t == "infinite"@ {
        Some(GoKeyword::Infinite)
    } else {
        None
    }
}

/// Whether `t` starts a recognized `go` limit; these tokens end a
/// `searchmoves` list.
pub open spec fn is_limit_keyword(t: Seq<char>) -> bool {
    ||| t == "wtime"@
    ||| t == "btime"@
    ||| t == "winc"@
    ||| t == "binc"@
    ||| t == "movestogo"@
    ||| t == "depth"@
    ||| t == "nodes"@
    ||| t == "mate"@
    ||| t == "movetime"@
    ||| t == "infinite"@
    ||| t == "ponder"@
}

/// The number in the token after position `i`, if there is such a token and
/// it is an unsigned decimal number.
pub open spec fn next_number(toks: Seq<Seq<char>>, i: int) -> Option<u64> {
    if i + 1 < toks.len() {
        decimal_u64(toks[i + 1])
    } else {
        None
    }
}

/// Index of the first token at or after `j` that is a limit keyword, or the
/// number of tokens if there is none: where a `searchmoves` list ends.
pub open spec fn search_moves_end(toks: Seq<Seq<char>>, j: int) -> int
    decreases toks.len() - j,
{
    if j >= toks.len() || is_limit_keyword(toks[j]) {
        j
    } else {
        search_moves_end(toks, j + 1)
    }
}

/// `search_moves_end` never goes back.
pub proof fn lemma_search_moves_end(toks: Seq<Seq<char>>, j: int)
    ensures
        j <= search_moves_end(toks, j),
        j <= toks.len() ==> search_moves_end(toks, j) <= toks.len(),
    decreases toks.len() - j,
{
    if j < toks.len() && !is_limit_keyword(toks[j]) {
        lemma_search_moves_end(toks, j + 1);
    }
}

/// `acc` with the value of the numeric limit `kw` replaced by `v`.
pub open spec fn with_number(acc: LimitsView, kw: GoKeyword, v: Option<u64>) -> LimitsView {
    match kw {
        GoKeyword::WhiteTime => LimitsView { white_time: v, ..acc },
        GoKeyword::BlackTime => LimitsView { black_time: v, ..acc },
        GoKeyword::WhiteIncrement => LimitsView { white_increment: v, ..acc },
        GoKeyword::BlackIncrement => LimitsView { black_increment: v, ..acc },
        GoKeyword::MovesToGo => LimitsView { moves_to_go: v, ..acc },
        GoKeyword::Depth => LimitsView { depth: v, ..acc },
        GoKeyword::Nodes => LimitsView { nodes: v, ..acc },
        GoKeyword::Mate => LimitsView { mate: v, ..acc },
        GoKeyword::MoveTime => LimitsView { move_time: v, ..acc },
        _ => acc,
    }
}

/// Reads the `go` tokens from position `i` on, left to right, into `acc`:
/// `searchmoves` takes every following token up to the next limit keyword;
/// a numeric keyword takes the number in the token after it (absent when that
/// token is missing or not a number) and skips that token too; `infinite` sets
/// the flag; any other token is skipped.
pub open spec fn scan_go(toks: Seq<Seq<char>>, i: int, acc: LimitsView) -> LimitsView
    decreases toks.len() + 1 - i,
{
    if i < 0 || i >= toks.len() {
        acc
    } else {
        match go_keyword(toks[i]) {
            Some(GoKeyword::SearchMoves) => {
                let e = search_moves_end(toks, i + 1);
                proof {
                    lemma_search_moves_end(toks, i + 1);
                }
                scan_go(
                    toks,
                    e,
                    LimitsView { search_moves: acc.search_moves + toks.subrange(i + 1, e), ..acc },
                )
            },
            Some(GoKeyword::Infinite) => scan_go(toks, i + 1, LimitsView { infinite: true, ..acc }),
            Some(kw) => scan_go(toks, i + 2, with_number(acc, kw, next_number(toks, i))),
            None => scan_go(toks, i + 1, acc),
        }
    }
}

/// The limits that the `go` tokens `toks` ask for.
pub open spec fn go_limits(toks: Seq<Seq<char>>) -> LimitsView {
    scan_go(toks, 0, no_limits())
}

proof fn lemma_search_moves_end_suffix(a: Seq<Seq<char>>, b: Seq<Seq<char>>, j: int)
    requires
        0 <= j,
    ensures
        search_moves_end(a + b, a.len() + j) == a.len() + search_moves_end(b, j),
    decreases b.len() - j,
{
    if j < b.len() && !is_limit_keyword(b[j]) {
        assert((a + b)[a.len() + j] == b[j]);
        lemma_search_moves_end_suffix(a, b, j + 1);
    } else if j < b.len() {
        assert((a + b)[a.len() + j] == b[j]);
    }
}

/// Reading `go` tokens never looks back: reading `a + b` from position
/// `a.len() + i` is reading `b` from position `i`.
pub proof fn lemma_scan_go_suffix(a: Seq<Seq<char>>, b: Seq<Seq<char>>, i: int, acc: LimitsView)
    requires
        0 <= i,
    ensures
        scan_go(a + b, a.len() + i, acc) == scan_go(b, i, acc),
    decreases b.len() + 1 - i,
{
    let t = a + b;
    let k = a.len() + i;
    if i < b.len() {
        assert(t[k] == b[i]);
        assert(next_number(t, k) == next_number(b, i)) by {
            if i + 1 < b.len() {
                assert(t[k + 1] == b[i + 1]);
            }
        }
        match go_keyword(b[i]) {
            Some(GoKeyword::SearchMoves) => {
                lemma_search_moves_end_suffix(a, b, i + 1);
                lemma_search_moves_end(b, i + 1);
                let e = search_moves_end(b, i + 1);
                assert(t.subrange(k + 1, a.len() + e) =~= b.subrange(i + 1, e));
                lemma_scan_go_suffix(
                    a,
                    b,
                    e,
                    LimitsView { search_moves: acc.search_moves + b.subrange(i + 1, e), ..acc },
                );
            },
            Some(GoKeyword::Infinite) => {
                lemma_scan_go_suffix(a, b, i + 1, LimitsView { infinite: true, ..acc });
            },
            Some(kw) => {
                lemma_scan_go_suffix(a, b, i + 2, with_number(acc, kw, next_number(b, i)));
            },
            None => {
                lemma_scan_go_suffix(a, b, i + 1, acc);
            },
        }
    }
}

/// Unknown tokens are skipped: a token that is no `go` keyword, in front of
/// the others, changes nothing.
pub proof fn law_go_unknown_token_skipped(u: Seq<char>, rest: Seq<Seq<char>>)
    requires
        go_keyword(u) is None,
    ensures
        go_limits(seq![u] + rest) == go_limits(rest),
{
    lemma_scan_go_suffix(seq![u], rest, 0, no_limits());
    assert((seq![u] + rest)[0] == u);
}

/// A numeric limit takes the number in the next token and reading goes on
/// after it; a missing or malformed number leaves that limit absent and
/// spoils nothing else.
pub proof fn law_go_numeric_limit(
    keyword: Seq<char>,
    value: Seq<char>,
    rest: Seq<Seq<char>>,
    kw: GoKeyword,
)
    requires
        go_keyword(keyword) == Some(kw),
        kw != GoKeyword::SearchMoves,
        kw != GoKeyword::Infinite,
    ensures
        go_limits(seq![keyword, value] + rest) == scan_go(
            rest,
            0,
            with_number(no_limits(), kw, decimal_u64(value)),
        ),
{
    let t = seq![keyword, value] + rest;
    assert(t[0] == keyword && t[1] == value);
    lemma_scan_go_suffix(seq![keyword, value], rest, 0, with_number(no_limits(), kw, decimal_u64(value)));
}

/// `searchmoves` takes every following token up to the next limit keyword,
/// and reading goes on at that keyword.
pub proof fn law_go_search_moves_until_keyword(
    moves: Seq<Seq<char>>,
    keyword: Seq<char>,
    rest: Seq<Seq<char>>,
)
    requires
        forall|k: int| 0 <= k < moves.len() ==> !is_limit_keyword(#[trigger] moves[k]),
        is_limit_keyword(keyword),
    ensures
        go_limits(seq!["searchmoves"@] + moves + (seq![keyword] + rest)) == scan_go(
            seq![keyword] + rest,
            0,
            LimitsView { search_moves: moves, ..no_limits() },
        ),
{
    let head = seq!["searchmoves"@] + moves;
    let tail = seq![keyword] + rest;
    let t = head + tail;
    assert(t[0] == "searchmoves"@);
    assert forall|k: int| 0 <= k < moves.len() implies t[k + 1] == moves[k] by {}
    let e = moves.len() as int + 1;
    assert(t[e] == keyword);
    lemma_search_moves_end_from(t, 1, e);
    assert(t.subrange(1, e) =~= moves);
    assert(Seq::<Seq<char>>::empty() + moves =~= moves);
    lemma_scan_go_suffix(head, tail, 0, LimitsView { search_moves: moves, ..no_limits() });
}

/// Where reading `go` tokens resumes after the token at position `i`.
pub open spec fn next_scan_index(toks: Seq<Seq<char>>, i: int) -> int {
    match go_keyword(toks[i]) {
        Some(GoKeyword::SearchMoves) => search_moves_end(toks, i + 1),
        Some(GoKeyword::Infinite) => i + 1,
        Some(_) => i + 2,
        None => i + 1,
    }
}

/// Whether reading `go` tokens from position `i` ends exactly at the end of
/// `toks`, rather than with a numeric keyword still waiting for its value.
pub open spec fn scan_lands(toks: Seq<Seq<char>>, i: int) -> bool
    decreases toks.len() + 1 - i,
{
    if i < 0 || i >= toks.len() {
        i == toks.len()
    } else {
        proof {
            lemma_search_moves_end(toks, i + 1);
        }
        scan_lands(toks, next_scan_index(toks, i))
    }
}

proof fn lemma_search_moves_end_push_keyword(toks: Seq<Seq<char>>, k: Seq<char>, j: int)
    requires
        0 <= j <= toks.len(),
        is_limit_keyword(k),
    ensures
        search_moves_end(toks.push(k), j) == search_moves_end(toks, j),
    decreases toks.len() - j,
{
    if j < toks.len() {
        assert(toks.push(k)[j] == toks[j]);
        if !is_limit_keyword(toks[j]) {
            lemma_search_moves_end_push_keyword(toks, k, j + 1);
        }
    } else {
        assert(toks.push(k)[j] == k);
    }
}

proof fn lemma_scan_go_push_infinite(toks: Seq<Seq<char>>, i: int, acc: LimitsView)
    requires
        0 <= i,
        scan_lands(toks, i),
        go_keyword("infinite"@) == Some(GoKeyword::Infinite),
    ensures
        scan_go(toks.push("infinite"@), i, acc) == (LimitsView {
            infinite: true,
            ..scan_go(toks, i, acc)
        }),
    decreases toks.len() + 1 - i,
{
    let t = toks.push("infinite"@);
    if i >= toks.len() {
        assert(t[i] == "infinite"@);
    } else {
        assert(t[i] == toks[i]);
        lemma_search_moves_end(toks, i + 1);
        match go_keyword(toks[i]) {
            Some(GoKeyword::SearchMoves) => {
                let e = search_moves_end(toks, i + 1);
                lemma_search_moves_end_push_keyword(toks, "infinite"@, i + 1);
                assert(t.subrange(i + 1, e) =~= toks.subrange(i + 1, e));
                lemma_scan_go_push_infinite(
                    toks,
                    e,
                    LimitsView { search_moves: acc.search_moves + toks.subrange(i + 1, e), ..acc },
                );
            },
            Some(GoKeyword::Infinite) => {
                lemma_scan_go_push_infinite(toks, i + 1, LimitsView { infinite: true, ..acc });
            },
            Some(kw) => {
                assert(next_scan_index(toks, i) == i + 2);
                assert(scan_lands(toks, i + 2));
                assert(i + 1 < toks.len());
                assert(t[i + 1] == toks[i + 1]);
                assert(next_number(t, i) == next_number(toks, i));
                lemma_scan_go_push_infinite(toks, i + 2, with_number(acc, kw, next_number(toks, i)));
            },
            None => {
                lemma_scan_go_push_infinite(toks, i + 1, acc);
            },
        }
    }
}

/// Appending `infinite` to a `go` command only sets the flag, provided no
/// numeric keyword at the end is still waiting for its value (it would take
/// the word `infinite` as that value).
pub proof fn law_go_appended_infinite(toks: Seq<Seq<char>>)
    requires
        scan_lands(toks, 0),
    ensures
        go_limits(toks.push("infinite"@)) == (LimitsView { infinite: true, ..go_limits(toks) }),
{
    reveal_strlit("infinite");
    reveal_strlit("searchmoves");
    reveal_strlit("wtime");
    reveal_strlit("btime");
    reveal_strlit("winc");
    reveal_strlit("binc");
    reveal_strlit("movestogo");
    reveal_strlit("depth");
    reveal_strlit("nodes");
    reveal_strlit("mate");
    reveal_strlit("movetime");
    assert("infinite"@[0] != "movetime"@[0]);
    assert(go_keyword("infinite"@) == Some(GoKeyword::Infinite));
    lemma_scan_go_push_infinite(toks, 0, no_limits());
}

/// The value of the numeric limit `kw` in `l` (`None` for the keywords that
/// carry no number).
pub open spec fn limit_value(l: LimitsView, kw: GoKeyword) -> Option<u64> {
    match kw {
        GoKeyword::WhiteTime => l.white_time,
        GoKeyword::BlackTime => l.black_time,
        GoKeyword::WhiteIncrement => l.white_increment,
        GoKeyword::BlackIncrement => l.black_increment,
        GoKeyword::MovesToGo => l.moves_to_go,
        GoKeyword::Depth => l.depth,
        GoKeyword::Nodes => l.nodes,
        GoKeyword::Mate => l.mate,
        GoKeyword::MoveTime => l.move_time,
        _ => None,
    }
}

/// Whether `kw` is a keyword that carries a number.
pub open spec fn is_numeric_keyword(kw: GoKeyword) -> bool {
    kw != GoKeyword::SearchMoves && kw != GoKeyword::Infinite
}

/// Whether `a` and `b` agree on the part of the limits that `kw` sets.
pub open spec fn same_part(a: LimitsView, b: LimitsView, kw: GoKeyword) -> bool {
    match kw {
        GoKeyword::SearchMoves => a.search_moves == b.search_moves,
        GoKeyword::Infinite => a.infinite == b.infinite,
        _ => limit_value(a, kw) == limit_value(b, kw),
    }
}

/// A numeric keyword sets its own limit to the number read, whatever was read
/// before, and leaves every other limit, the search moves and the infinite
/// flag as they were.
pub proof fn law_numeric_limit_sets_only_its_field(acc: LimitsView, kw: GoKeyword, x: Option<u64>)
    requires
        is_numeric_keyword(kw),
    ensures
        limit_value(with_number(acc, kw, x), kw) == x,
        forall|other: GoKeyword|
            other != kw ==> same_part(#[trigger] with_number(acc, kw, x), acc, other),
{
}

/// Whatever limits were read before, a numeric keyword and the word after it
/// set that limit to the number in the word, and reading goes on after it.
pub proof fn law_go_numeric_limit_any_state(
    keyword: Seq<char>,
    value: Seq<char>,
    rest: Seq<Seq<char>>,
    kw: GoKeyword,
    acc: LimitsView,
)
    requires
        go_keyword(keyword) == Some(kw),
        is_numeric_keyword(kw),
    ensures
        scan_go(seq![keyword, value] + rest, 0, acc) == scan_go(
            rest,
            0,
            with_number(acc, kw, decimal_u64(value)),
        ),
        limit_value(with_number(acc, kw, decimal_u64(value)), kw) == decimal_u64(value),
{
    let t = seq![keyword, value] + rest;
    assert(t[0] == keyword && t[1] == value);
    lemma_scan_go_suffix(seq![keyword, value], rest, 0, with_number(acc, kw, decimal_u64(value)));
}

proof fn lemma_scan_keeps_absent_part(
    toks: Seq<Seq<char>>,
    i: int,
    acc: LimitsView,
    kw: GoKeyword,
)
    requires
        0 <= i,
        forall|j: int| i <= j < toks.len() ==> go_keyword(#[trigger] toks[j]) != Some(kw),
    ensures
        same_part(scan_go(toks, i, acc), acc, kw),
    decreases toks.len() + 1 - i,
{
    if i < toks.len() {
        assert(go_keyword(toks[i]) != Some(kw));
        lemma_search_moves_end(toks, i + 1);
        match go_keyword(toks[i]) {
            Some(GoKeyword::SearchMoves) => {
                let e = search_moves_end(toks, i + 1);
                let next = LimitsView {
                    search_moves: acc.search_moves + toks.subrange(i + 1, e),
                    ..acc
                };
                lemma_scan_keeps_absent_part(toks, e, next, kw);
            },
            Some(GoKeyword::Infinite) => {
                lemma_scan_keeps_absent_part(toks, i + 1, LimitsView { infinite: true, ..acc }, kw);
            },
            Some(k) => {
                lemma_scan_keeps_absent_part(toks, i + 2, with_number(acc, k, next_number(toks, i)), kw);
            },
            None => {
                lemma_scan_keeps_absent_part(toks, i + 1, acc, kw);
            },
        }
    }
}

/// A limit is present only if its keyword is among the `go` words: without
/// the keyword of a numeric limit, that limit is absent; without
/// `searchmoves` there are no search moves; without `infinite` the search is
/// not infinite.
pub proof fn law_absent_keyword_absent_limit(toks: Seq<Seq<char>>, kw: GoKeyword)
    requires
        forall|j: int| 0 <= j < toks.len() ==> go_keyword(#[trigger] toks[j]) != Some(kw),
    ensures
        is_numeric_keyword(kw) ==> limit_value(go_limits(toks), kw) is None,
        kw == GoKeyword::SearchMoves ==> go_limits(toks).search_moves.len() == 0,
        kw == GoKeyword::Infinite ==> !go_limits(toks).infinite,
{
    lemma_scan_keeps_absent_part(toks, 0, no_limits(), kw);
}

/// `go` with no words asks for nothing: no search moves, every limit absent,
/// not infinite.
pub proof fn law_empty_go_has_no_limits()
    ensures
        go_limits(seq![]).search_moves.len() == 0,
        go_limits(seq![]).white_time is None,
        go_limits(seq![]).black_time is None,
        go_limits(seq![]).white_increment is None,
        go_limits(seq![]).black_increment is None,
        go_limits(seq![]).moves_to_go is None,
        go_limits(seq![]).depth is None,
        go_limits(seq![]).nodes is None,
        go_limits(seq![]).mate is None,
        go_limits(seq![]).move_time is None,
        !go_limits(seq![]).infinite,
{
}

proof fn lemma_search_moves_end_from(t: Seq<Seq<char>>, j: int, e: int)
    requires
        0 <= j <= e <= t.len(),
        forall|k: int| j <= k < e ==> !is_limit_keyword(#[trigger] t[k]),
        e == t.len() || is_limit_keyword(t[e]),
    ensures
        search_moves_end(t, j) == e,
    decreases e - j,
{
    if j < e {
        lemma_search_moves_end_from(t, j + 1, e);
    }
}

/// The `go` keyword that `token` spells, if any.
pub fn go_keyword_of(token: &str) -> (r: Option<GoKeyword>)
    ensures
        r == go_keyword(token@),
{
    if str_eq(token, "searchmoves") {
        Some(GoKeyword::SearchMoves)
    } else if str_eq(token, "wtime") {
        Some(GoKeyword::WhiteTime)
    } else if str_eq(token, "btime") {
        Some(GoKeyword::BlackTime)
    } else if str_eq(token, "winc") {
        Some(GoKeyword::WhiteIncrement)
    } else if str_eq(token, "binc") {
        Some(GoKeyword::BlackIncrement)
    } else if str_eq(token, "movestogo") {
        Some(GoKeyword::MovesToGo)
    } else if str_eq(token, "depth") {
        Some(GoKeyword::Depth)
    } else if str_eq(token, "nodes") {
        Some(GoKeyword::Nodes)
    } else if str_eq(token, "mate") {
        Some(GoKeyword::Mate)
    } else if str_eq(token, "movetime") {
        Some(GoKeyword::MoveTime)
    } else if str_eq(token, "infinite") {
        Some(GoKeyword::Infinite)
    } else {
        None
    }
}

/// Whether `token` starts a recognized UCI `go` limit.
pub fn is_go_limit_keyword(token: &str) -> (r: bool)
    ensures
        r == is_limit_keyword(token@),
{
    str_eq(token, "wtime") || str_eq(token, "btime") || str_eq(token, "winc") || str_eq(
        token,
        "binc",
    ) || str_eq(token, "movestogo") || str_eq(token, "depth") || str_eq(token, "nodes")
        || str_eq(token, "mate") || str_eq(token, "movetime") || str_eq(token, "infinite")
        || str_eq(token, "ponder")
}

/// The number in the token right after `tokens[token_index]`; absent when there
/// is no such token or it is not an unsigned decimal number.
pub fn parse_next_number(tokens: &[&str], token_index: usize) -> (r: Option<u64>)
    requires
        token_index < usize::MAX,
    ensures
        r == next_number(str_views(tokens@), token_index as int),
{
    if token_index + 1 < tokens.len() {
        parse_u64(tokens[token_index + 1])
    } else {
        None
    }
}

impl SearchLimits {
    /// Parses the tokens that follow `go` into search limits.
    pub fn parse_from_tokens(tokens: &[&str]) -> (r: Self)
        ensures
            r@ == go_limits(str_views(tokens@)),
    {
        let ghost toks = str_views(tokens@);
        let mut limits = Self::default();
        let n = tokens.len();
        let mut token_index: usize = 0;
        while token_index < n
            invariant
                n == tokens@.len(),
                toks == str_views(tokens@),
                token_index <= n,
                scan_go(toks, token_index as int, limits@) == go_limits(toks),
            decreases n - token_index,
        {
            let token = tokens[token_index];
            let ghost before = limits@;
            assert(toks[token_index as int] == token@);
            match go_keyword_of(token) {
                Some(GoKeyword::SearchMoves) => {
                    let mut j: usize = token_index + 1;
                    proof {
                        lemma_search_moves_end(toks, j as int);
                    }
                    assert(toks.subrange(token_index + 1, j as int) =~= Seq::<Seq<char>>::empty());
                    assert(limits@.search_moves =~= before.search_moves + toks.subrange(
                        token_index + 1,
                        j as int,
                    ));
                    while j < n && !is_go_limit_keyword(tokens[j])
                        invariant
                            n == tokens@.len(),
                            toks == str_views(tokens@),
                            token_index < j <= n,
                            search_moves_end(toks, token_index + 1) == search_moves_end(
                                toks,
                                j as int,
                            ),
                            limits@ == (LimitsView {
                                search_moves: before.search_moves + toks.subrange(
                                    token_index + 1,
                                    j as int,
                                ),
                                ..before
                            }),
                        decreases n - j,
                    {
                        let ghost prev = limits.search_moves@;
                        limits.search_moves.push(tokens[j].to_owned());
                        assert(strings_view(limits.search_moves@) =~= strings_view(prev).push(
                            tokens@[j as int]@,
                        ));
                        assert(toks.subrange(token_index + 1, j + 1) =~= toks.subrange(
                            token_index + 1,
                            j as int,
                        ).push(toks[j as int]));
                        j = j + 1;
                    }
                    token_index = j;
                },
                Some(GoKeyword::Infinite) => {
                    limits.infinite = true;
                    token_index = token_index + 1;
                },
                Some(kw) => {
                    let ghost i0 = token_index as int;
                    let v = parse_next_number(tokens, token_index);
                    match kw {
                        GoKeyword::WhiteTime => limits.white_time = v,
                        GoKeyword::BlackTime => limits.black_time = v,
                        GoKeyword::WhiteIncrement => limits.white_increment = v,
                        GoKeyword::BlackIncrement => limits.black_increment = v,
                        GoKeyword::MovesToGo => limits.moves_to_go = v,
                        GoKeyword::Depth => limits.depth = v,
                        GoKeyword::Nodes => limits.nodes = v,
                        GoKeyword::Mate => limits.mate = v,
                        _ => limits.move_time = v,
                    }
                    assert(limits@ == with_number(before, kw, next_number(toks, i0)));
                    assert(scan_go(toks, i0, before) == scan_go(toks, i0 + 2, limits@));
                    // The keyword and its value are both consumed.
                    token_index = if token_index + 1 < n {
                        token_index + 2
                    } else {
                        n
                    };
                    assert(scan_go(toks, i0 + 2, limits@) == scan_go(
                        toks,
                        token_index as int,
                        limits@,
                    ));
                },
                None => {
                    // Unknown tokens are skipped.
                    token_index = token_index + 1;
                },
            }
        }
        limits
    }
}

} // verus!
