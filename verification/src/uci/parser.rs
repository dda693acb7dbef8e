//! Permissive parser for the subset of UCI used by this engine.

use vstd::prelude::*;

use crate::search::limits::{go_limits, strings_view, SearchLimits};
use crate::text::{lemma_no_words_trims_to_empty, lemma_words_trim, join_with_spaces, join_words, split_words, str_eq, str_views, trim, trim_text, words};
use crate::uci::command::{PositionCommand, PositionCommandView, UciCommand, UciCommandView};

verus! {

/// Index of the first token at or after `i` that equals `w`.
pub open spec fn find_word_from(toks: Seq<Seq<char>>, w: Seq<char>, i: int) -> Option<int>
    decreases toks.len() - i,
{
    if i < 0 || i >= toks.len() {
        None
    } else if toks[i] == w {
        Some(i)
    } else {
        find_word_from(toks, w, i + 1)
    }
}

/// What `find_word_from` finds is a matching token at or after `i`, and the
/// first one.
pub proof fn lemma_find_word_from(toks: Seq<Seq<char>>, w: Seq<char>, i: int)
    requires
        0 <= i,
    ensures
        match find_word_from(toks, w, i) {
            Some(k) => i <= k < toks.len() && toks[k] == w && forall|j: int|
                i <= j < k ==> toks[j] != w,
            None => forall|j: int| i <= j < toks.len() ==> toks[j] != w,
        },
    decreases toks.len() - i,
{
    if i < toks.len() && toks[i] != w {
        lemma_find_word_from(toks, w, i + 1);
    }
}

/// Index of the first token that equals `w`.
pub open spec fn find_word(toks: Seq<Seq<char>>, w: Seq<char>) -> Option<int> {
    find_word_from(toks, w, 0)
}

/// The state that a `debug` command sets; `toks` starts with the word `debug`.
pub open spec fn debug_state(toks: Seq<Seq<char>>) -> Option<bool> {
    if toks.len() > 1 && toks[1] == "on"@ {
        Some(true)
    } else if toks.len() > 1 && toks[1] == "off"@ {
        Some(false)
    } else {
        None
    }
}

/// The command that the words after `position startpos` describe.
pub open spec fn startpos_command(toks: Seq<Seq<char>>) -> Option<PositionCommandView> {
    if toks.len() == 0 {
        Some(PositionCommandView::Startpos { moves: seq![] })
    } else if toks[0] != "moves"@ {
        None
    } else {
        Some(PositionCommandView::Startpos { moves: toks.skip(1) })
    }
}

/// The command that the words after `position fen` describe: the FEN is every
/// word before the first `moves`, joined by single spaces, and must not be
/// empty; the moves are every word after that `moves`.
pub open spec fn fen_command(toks: Seq<Seq<char>>) -> Option<PositionCommandView> {
    let marker = find_word(toks, "moves"@);
    let fen_len = match marker {
        Some(i) => i,
        None => toks.len() as int,
    };
    if toks.len() == 0 || fen_len == 0 {
        None
    } else {
        Some(
            PositionCommandView::Fen {
                fen: join_words(toks.take(fen_len)),
                moves: match marker {
                    Some(i) => toks.skip(i + 1),
                    None => seq![],
                },
            },
        )
    }
}

/// The command that the words after `position` describe.
pub open spec fn position_command(toks: Seq<Seq<char>>) -> Option<PositionCommandView> {
    if toks.len() > 0 && toks[0] == "startpos"@ {
        startpos_command(toks.skip(1))
    } else if toks.len() > 0 && toks[0] == "fen"@ {
        fen_command(toks.skip(1))
    } else {
        None
    }
}

/// Where the words after the marker at `m` end: at the other marker when it
/// comes later, otherwise at the end of the words.
pub open spec fn section_end(toks: Seq<Seq<char>>, m: int, other: Option<int>) -> int {
    match other {
        Some(o) => if o > m {
            o
        } else {
            toks.len() as int
        },
        None => toks.len() as int,
    }
}

/// The option that the words after `setoption` set: the name is every word
/// after `name`, the value every word after `value`, each running up to the
/// other marker when that comes later, or else to the end. A missing `name`
/// gives an empty name, a missing `value` no value.
pub open spec fn setoption_command(toks: Seq<Seq<char>>) -> UciCommandView {
    let name_marker = find_word(toks, "name"@);
    let value_marker = find_word(toks, "value"@);
    UciCommandView::SetOption {
        name: match name_marker {
            Some(n) => join_words(toks.subrange(n + 1, section_end(toks, n, value_marker))),
            None => seq![],
        },
        value: match value_marker {
            Some(v) => Some(join_words(toks.subrange(v + 1, section_end(toks, v, name_marker)))),
            None => None,
        },
    }
}

/// The command that one line of UCI text describes. Blank lines and anything
/// unrecognized (including malformed `position` and `debug` commands) give
/// `Unknown` with the line's trimmed text.
pub open spec fn uci_command(text: Seq<char>) -> UciCommandView {
    let t = trim(text);
    let toks = words(t);
    if toks.len() == 0 {
        UciCommandView::Unknown(seq![])
    } else {
        let head = toks[0];
        let rest = toks.skip(1);
        if head == "uci"@ {
            UciCommandView::Uci
        } else if head == "isready"@ {
            UciCommandView::IsReady
        } else if head == "ucinewgame"@ {
            UciCommandView::UciNewGame
        } else if head == "position"@ {
            match position_command(rest) {
                Some(p) => UciCommandView::Position(p),
                None => UciCommandView::Unknown(t),
            }
        } else if head == "go"@ {
            UciCommandView::Go(go_limits(rest))
        } else if head == "stop"@ {
            UciCommandView::Stop
        } else if head == "debug"@ {
            match debug_state(toks) {
                Some(b) => UciCommandView::Debug(b),
                None => UciCommandView::Unknown(t),
            }
        } else if head == "setoption"@ {
            setoption_command(rest)
        } else if head == "quit"@ {
            UciCommandView::Quit
        } else {
            UciCommandView::Unknown(t)
        }
    }
}

/// `position startpos moves m1 m2 ...` keeps every move, in order.
pub proof fn law_startpos_keeps_moves(moves: Seq<Seq<char>>)
    ensures
        position_command(seq!["startpos"@, "moves"@] + moves) == Some(
            PositionCommandView::Startpos { moves },
        ),
{
    let t = seq!["startpos"@, "moves"@] + moves;
    assert(t[0] == "startpos"@);
    assert(t.skip(1)[0] == "moves"@);
    assert(t.skip(1).skip(1) =~= moves);
}

/// `position fen F moves m1 m2 ...` keeps the FEN words together, joined by
/// single spaces, and every move after the `moves` marker, in order.
pub proof fn law_fen_keeps_fields_and_moves(fen_words: Seq<Seq<char>>, moves: Seq<Seq<char>>)
    requires
        fen_words.len() > 0,
        forall|k: int| 0 <= k < fen_words.len() ==> #[trigger] fen_words[k] != "moves"@,
    ensures
        position_command(seq!["fen"@] + fen_words + (seq!["moves"@] + moves)) == Some(
            PositionCommandView::Fen { fen: join_words(fen_words), moves },
        ),
{
    reveal_strlit("fen");
    reveal_strlit("startpos");
    let t = seq!["fen"@] + fen_words + (seq!["moves"@] + moves);
    let body = t.skip(1);
    let m = fen_words.len() as int;
    assert(t[0] == "fen"@);
    assert(body =~= fen_words + (seq!["moves"@] + moves));
    assert forall|k: int| 0 <= k < m implies body[k] != "moves"@ by {
        assert(body[k] == fen_words[k]);
    }
    assert(body[m] == "moves"@);
    lemma_find_word_from(body, "moves"@, 0);
    assert(find_word(body, "moves"@) == Some(m));
    assert(body.take(m) =~= fen_words);
    assert(body.skip(m + 1) =~= moves);
}

/// `position fen F` without a move list keeps the FEN words together and has
/// no moves.
pub proof fn law_fen_without_moves(fen_words: Seq<Seq<char>>)
    requires
        fen_words.len() > 0,
        forall|k: int| 0 <= k < fen_words.len() ==> #[trigger] fen_words[k] != "moves"@,
    ensures
        position_command(seq!["fen"@] + fen_words) == Some(
            PositionCommandView::Fen { fen: join_words(fen_words), moves: seq![] },
        ),
{
    reveal_strlit("fen");
    reveal_strlit("startpos");
    let t = seq!["fen"@] + fen_words;
    let body = t.skip(1);
    assert(t[0] == "fen"@);
    assert(body =~= fen_words);
    lemma_find_word_from(body, "moves"@, 0);
    assert(body.take(fen_words.len() as int) =~= fen_words);
}

/// Parsing depends only on the white-space separated words of a line: two
/// lines with the same words give the same command, except that unrecognized
/// lines keep their own trimmed text.
pub proof fn law_parse_depends_only_on_words(a: Seq<char>, b: Seq<char>)
    requires
        words(a) == words(b),
    ensures
        uci_command(a) is Unknown <==> uci_command(b) is Unknown,
        !(uci_command(a) is Unknown) ==> uci_command(a) == uci_command(b),
{
    lemma_words_trim(a);
    lemma_words_trim(b);
}

/// Whether the first white-space separated word of `text` is `k`.
pub open spec fn first_word_is(text: Seq<char>, k: Seq<char>) -> bool {
    words(text).len() > 0 && words(text)[0] == k
}

/// The first word of a line names its command: each command comes from its
/// own word (`quit` only from `quit`), and a line whose first word is none of
/// the nine command words is ignored as `Unknown` with its trimmed text.
pub proof fn law_command_named_by_first_word(text: Seq<char>)
    ensures
        uci_command(text) is Uci <==> first_word_is(text, "uci"@),
        uci_command(text) is IsReady <==> first_word_is(text, "isready"@),
        uci_command(text) is UciNewGame <==> first_word_is(text, "ucinewgame"@),
        uci_command(text) is Go <==> first_word_is(text, "go"@),
        uci_command(text) is Stop <==> first_word_is(text, "stop"@),
        uci_command(text) is SetOption <==> first_word_is(text, "setoption"@),
        uci_command(text) is Quit <==> first_word_is(text, "quit"@),
        uci_command(text) is Position ==> first_word_is(text, "position"@),
        uci_command(text) is Debug ==> first_word_is(text, "debug"@),
        !first_word_is(text, "uci"@) && !first_word_is(text, "isready"@) && !first_word_is(
            text,
            "ucinewgame"@,
        ) && !first_word_is(text, "position"@) && !first_word_is(text, "go"@)
            && !first_word_is(text, "stop"@) && !first_word_is(text, "debug"@)
            && !first_word_is(text, "setoption"@) && !first_word_is(text, "quit"@)
            ==> uci_command(text) == UciCommandView::Unknown(trim(text)),
{
    lemma_words_trim(text);
    if words(text).len() == 0 {
        lemma_no_words_trims_to_empty(text);
        assert(trim(text) =~= Seq::<char>::empty());
    }
    reveal_strlit("uci");
    reveal_strlit("isready");
    reveal_strlit("ucinewgame");
    reveal_strlit("position");
    reveal_strlit("go");
    reveal_strlit("stop");
    reveal_strlit("debug");
    reveal_strlit("setoption");
    reveal_strlit("quit");
    assert("uci"@.len() == 3);
    assert("isready"@.len() == 7);
    assert("ucinewgame"@.len() == 10);
    assert("position"@.len() == 8);
    assert("go"@.len() == 2);
    assert("stop"@.len() == 4);
    assert("debug"@.len() == 5);
    assert("setoption"@.len() == 9);
    assert("quit"@.len() == 4);
    assert("stop"@[0] != "quit"@[0]);
}

/// Index of the first token that equals `w`.
fn find_token(tokens: &[&str], w: &str) -> (r: Option<usize>)
    ensures
        r matches Some(i) ==> i < tokens@.len(),
        match r {
            Some(i) => find_word(str_views(tokens@), w@) == Some(i as int),
            None => find_word(str_views(tokens@), w@) is None,
        },
{
    let ghost toks = str_views(tokens@);
    proof {
        lemma_find_word_from(toks, w@, 0);
    }
    let n = tokens.len();
    let mut i: usize = 0;
    while i < n
        invariant
            n == tokens@.len(),
            toks == str_views(tokens@),
            i <= n,
            find_word_from(toks, w@, 0) == find_word_from(toks, w@, i as int),
        decreases n - i,
    {
        if str_eq(tokens[i], w) {
            return Some(i);
        }
        i = i + 1;
    }
    None
}

/// Owned copies of the tokens.
fn owned_tokens(tokens: &[&str]) -> (r: Vec<String>)
    ensures
        strings_view(r@) == str_views(tokens@),
{
    let mut out: Vec<String> = Vec::new();
    let n = tokens.len();
    let mut i: usize = 0;
    while i < n
        invariant
            n == tokens@.len(),
            i <= n,
            strings_view(out@) == str_views(tokens@).take(i as int),
        decreases n - i,
    {
        let ghost prev = out@;
        out.push(tokens[i].to_owned());
        assert(strings_view(out@) =~= strings_view(prev).push(tokens@[i as int]@));
        assert(str_views(tokens@).take(i + 1) =~= str_views(tokens@).take(i as int).push(
            tokens@[i as int]@,
        ));
        i = i + 1;
    }
    assert(str_views(tokens@).take(n as int) =~= str_views(tokens@));
    out
}

/// The tokens from index `from` on.
fn tokens_from<'a, 'b>(tokens: &'a [&'b str], from: usize) -> (r: &'a [&'b str])
    requires
        from <= tokens@.len(),
    ensures
        str_views(r@) == str_views(tokens@).skip(from as int),
{
    let r = &tokens[from..tokens.len()];
    assert(str_views(r@) =~= str_views(tokens@).skip(from as int));
    r
}

/// The tokens from index `from` up to, not including, index `to`.
fn tokens_between<'a, 'b>(tokens: &'a [&'b str], from: usize, to: usize) -> (r: &'a [&'b str])
    requires
        from <= to <= tokens@.len(),
    ensures
        str_views(r@) == str_views(tokens@).subrange(from as int, to as int),
{
    let r = &tokens[from..to];
    assert(str_views(r@) =~= str_views(tokens@).subrange(from as int, to as int));
    r
}

/// Parses the state of a `debug` command; `tokens` starts with `debug`.
pub fn parse_debug_command(tokens: &[&str]) -> (r: Option<bool>)
    ensures
        r == debug_state(str_views(tokens@)),
{
    if tokens.len() > 1 && str_eq(tokens[1], "on") {
        Some(true)
    } else if tokens.len() > 1 && str_eq(tokens[1], "off") {
        Some(false)
    } else {
        None
    }
}

/// Parses the words after `position`.
pub fn parse_position_command(tokens: &[&str]) -> (r: Option<PositionCommand>)
    ensures
        match r {
            Some(p) => position_command(str_views(tokens@)) == Some(p@),
            None => position_command(str_views(tokens@)) is None,
        },
{
    if tokens.len() > 0 && str_eq(tokens[0], "startpos") {
        parse_startpos_command(tokens_from(tokens, 1))
    } else if tokens.len() > 0 && str_eq(tokens[0], "fen") {
        parse_fen_command(tokens_from(tokens, 1))
    } else {
        None
    }
}

/// Parses the words after `position startpos`.
pub fn parse_startpos_command(tokens: &[&str]) -> (r: Option<PositionCommand>)
    ensures
        match r {
            Some(p) => startpos_command(str_views(tokens@)) == Some(p@),
            None => startpos_command(str_views(tokens@)) is None,
        },
{
    if tokens.len() == 0 {
        let moves: Vec<String> = Vec::new();
        assert(strings_view(moves@) =~= Seq::<Seq<char>>::empty());
        return Some(PositionCommand::Startpos { moves });
    }
    if !str_eq(tokens[0], "moves") {
        return None;
    }
    Some(PositionCommand::Startpos { moves: owned_tokens(tokens_from(tokens, 1)) })
}

/// Parses the words after `position fen`.
pub fn parse_fen_command(tokens: &[&str]) -> (r: Option<PositionCommand>)
    ensures
        match r {
            Some(p) => fen_command(str_views(tokens@)) == Some(p@),
            None => fen_command(str_views(tokens@)) is None,
        },
{
    if tokens.len() == 0 {
        return None;
    }
    // A FEN holds spaces, so it spans every word up to the `moves` marker.
    let marker = find_token(tokens, "moves");
    let fen_token_count = match marker {
        Some(i) => i,
        None => tokens.len(),
    };
    if fen_token_count == 0 {
        return None;
    }
    let fen = join_with_spaces(tokens_between(tokens, 0, fen_token_count));
    assert(str_views(tokens@).subrange(0, fen_token_count as int) =~= str_views(tokens@).take(
        fen_token_count as int,
    ));
    let moves = match marker {
        Some(i) => owned_tokens(tokens_from(tokens, i + 1)),
        None => {
            let v: Vec<String> = Vec::new();
            assert(strings_view(v@) =~= Seq::<Seq<char>>::empty());
            v
        },
    };
    Some(PositionCommand::Fen { fen, moves })
}

/// Parses the words after `setoption` into an option name and optional value,
/// whichever order the `name` and `value` markers come in.
pub fn parse_setoption_command(tokens: &[&str]) -> (r: UciCommand)
    ensures
        r@ == setoption_command(str_views(tokens@)),
{
    let n_tokens = tokens.len();
    let name_marker = find_token(tokens, "name");
    let value_marker = find_token(tokens, "value");
    let name = match name_marker {
        Some(n) => {
            let end = match value_marker {
                Some(v) => if v > n {
                    v
                } else {
                    n_tokens
                },
                None => n_tokens,
            };
            join_with_spaces(tokens_between(tokens, n + 1, end))
        },
        None => String::new(),
    };
    let value = match value_marker {
        Some(v) => {
            let end = match name_marker {
                Some(n) => if n > v {
                    n
                } else {
                    n_tokens
                },
                None => n_tokens,
            };
            Some(join_with_spaces(tokens_between(tokens, v + 1, end)))
        },
        None => None,
    };
    UciCommand::SetOption { name, value }
}

/// Parses one line of UCI text into a command.
pub fn parse_uci_command(text: &str) -> (r: UciCommand)
    ensures
        r@ == uci_command(text@),
{
    let trimmed_text = trim_text(text);
    let tokens = split_words(trimmed_text);
    if tokens.len() == 0 {
        return UciCommand::Unknown(String::new());
    }
    let head = tokens[0];
    let rest = tokens_from(tokens.as_slice(), 1);
    if str_eq(head, "uci") {
        UciCommand::Uci
    } else if str_eq(head, "isready") {
        UciCommand::IsReady
    } else if str_eq(head, "ucinewgame") {
        UciCommand::UciNewGame
    } else if str_eq(head, "position") {
        match parse_position_command(rest) {
            Some(p) => UciCommand::Position(p),
            None => UciCommand::Unknown(trimmed_text.to_owned()),
        }
    } else if str_eq(head, "go") {
        UciCommand::Go(SearchLimits::parse_from_tokens(rest))
    } else if str_eq(head, "stop") {
        UciCommand::Stop
    } else if str_eq(head, "debug") {
        match parse_debug_command(tokens.as_slice()) {
            Some(b) => UciCommand::Debug(b),
            None => UciCommand::Unknown(trimmed_text.to_owned()),
        }
    } else if str_eq(head, "setoption") {
        parse_setoption_command(rest)
    } else if str_eq(head, "quit") {
        UciCommand::Quit
    } else {
        UciCommand::Unknown(trimmed_text.to_owned())
    }
}

} // verus!
