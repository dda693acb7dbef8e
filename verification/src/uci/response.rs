//! The lines the engine writes on standard output.

use vstd::prelude::*;
use vstd::string::*;

use crate::{ENGINE_AUTHOR, ENGINE_NAME};

verus! {

/// The `id name` line of the handshake.
pub open spec fn id_name_line() -> Seq<char> {
    "id name "@ + ENGINE_NAME@
}

/// The `id author` line of the handshake.
pub open spec fn id_author_line() -> Seq<char> {
    "id author "@ + ENGINE_AUTHOR@
}

/// The `bestmove` line for a move text.
pub open spec fn bestmove_line(move_text: Seq<char>) -> Seq<char> {
    "bestmove "@ + move_text
}

/// `lead` followed by `rest`.
fn concat(lead: &str, rest: &str) -> (r: String)
    ensures
        r@ == lead@ + rest@,
{
    let mut r = String::new();
    r.append(lead);
    r.append(rest);
    assert(Seq::<char>::empty() + lead@ =~= lead@);
    r
}

/// The identity line naming the engine.
pub fn engine_name() -> (r: String)
    ensures
        r@ == id_name_line(),
{
    concat("id name ", ENGINE_NAME)
}

/// The identity line naming the author.
pub fn engine_author() -> (r: String)
    ensures
        r@ == id_author_line(),
{
    concat("id author ", ENGINE_AUTHOR)
}

/// The end of the handshake.
pub fn uciok() -> (r: String)
    ensures
        r@ == "uciok"@,
{
    "uciok".to_owned()
}

/// The answer to `isready`.
pub fn readyok() -> (r: String)
    ensures
        r@ == "readyok"@,
{
    "readyok".to_owned()
}

/// The answer to `go`.
pub fn bestmove(move_text: &str) -> (r: String)
    ensures
        r@ == bestmove_line(move_text@),
{
    concat("bestmove ", move_text)
}

} // verus!
