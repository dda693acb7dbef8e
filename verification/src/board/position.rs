//! A chess position adapter around the `cozy_chess` board, with move text in
//! UCI coordinate notation.

use vstd::prelude::*;
use vstd::string::*;

use cozy_chess::util::{display_uci_move as display_cozy_uci_move, parse_uci_move};
use cozy_chess::{Board, Move, PieceMoves};

verus! {

#[verifier::external_type_specification]
#[verifier::external_body]
pub struct ExBoard(Board);

#[verifier::external_type_specification]
#[verifier::external_body]
pub struct ExMove(Move);

#[verifier::external_type_specification]
#[verifier::external_body]
pub struct ExPieceMoves(PieceMoves);

/// `Board` derives `Clone`: a clone is a copy of every field, so an equal board.
pub assume_specification[ <Board as Clone>::clone ](board: &Board) -> (r: Board)
    ensures
        r == *board,
;

/// Where a position starts from: the standard starting position or a FEN text.
pub enum PositionBase {
    StartPos,
    Fen(Seq<char>),
}

/// How a position was reached: its base and the UCI move texts played from it,
/// in order. The board of a position is a function of this value.
pub struct PositionView {
    pub base: PositionBase,
    pub moves: Seq<Seq<char>>,
}

impl PositionView {
    /// This position after one more move.
    pub open spec fn played(self, text: Seq<char>) -> PositionView {
        PositionView { base: self.base, moves: self.moves.push(text) }
    }
}

/// The standard starting position, with no move played.
pub open spec fn start_view() -> PositionView {
    PositionView { base: PositionBase::StartPos, moves: seq![] }
}

/// The standard starting position written as FEN.
pub open spec fn start_fen() -> Seq<char> {
    "rnbqkbnr/pppppppp/8/8/8/8/PPPPPPPP/RNBQKBNR w KQkq - 0 1"@
}

/// What `str::parse::<Board>` gives for `fen`: the board, or the message of
/// the rejection.
pub uninterp spec fn fen_parse(fen: Seq<char>) -> Result<Board, Seq<char>>;

/// The message of a rejected FEN text, or `None` when it is accepted.
pub open spec fn fen_rejection(fen: Seq<char>) -> Option<Seq<char>> {
    match fen_parse(fen) {
        Ok(_) => None,
        Err(m) => Some(m),
    }
}

/// The board that an accepted FEN text describes.
pub open spec fn fen_board(fen: Seq<char>) -> Board {
    match fen_parse(fen) {
        Ok(b) => b,
        Err(_) => arbitrary(),
    }
}

/// The move that `cozy_chess::util::parse_uci_move` reads from `text` on
/// `board` (castling written king-to-g/c-file becomes king takes rook).
pub uninterp spec fn parsed_move(board: Board, text: Seq<char>) -> Move;

/// What `Board::try_play` makes of `board` with `mv`: the board after the move
/// when it is legal, `None` when it is not.
pub uninterp spec fn play_result(board: Board, mv: Move) -> Option<Board>;

/// Whether `mv` is legal on `board`.
pub open spec fn move_legal(board: Board, mv: Move) -> bool {
    play_result(board, mv) is Some
}

/// The groups of moves (one piece, one from square each) that
/// `Board::generate_moves` hands out for `board`, in order.
pub uninterp spec fn move_groups_of(board: Board) -> Seq<PieceMoves>;

/// The moves that a `PieceMoves` group yields when iterated, in order.
pub uninterp spec fn group_moves(group: PieceMoves) -> Seq<Move>;

/// The UCI text that `cozy_chess::util::display_uci_move` writes for `mv` on
/// `board`.
pub uninterp spec fn display_text(board: Board, mv: Move) -> Seq<char>;

/// The moves of the groups, one group after the other.
pub open spec fn flatten_groups(groups: Seq<PieceMoves>) -> Seq<Move>
    decreases groups.len(),
{
    if groups.len() == 0 {
        seq![]
    } else {
        flatten_groups(groups.drop_last()) + group_moves(groups.last())
    }
}

/// The board that a position's history describes: the base board, then each
/// move read and played in turn.
pub open spec fn board_of(position: PositionView) -> Board
    decreases position.moves.len(),
{
    if position.moves.len() == 0 {
        match position.base {
            PositionBase::StartPos => fen_board(start_fen()),
            PositionBase::Fen(f) => fen_board(f),
        }
    } else {
        let before = board_of(PositionView { base: position.base, moves: position.moves.drop_last() });
        match play_result(before, parsed_move(before, position.moves.last())) {
            Some(after) => after,
            None => before,
        }
    }
}

/// The legal moves of `position`, in the order `cozy_chess` generates them.
pub open spec fn legal_moves_of(position: PositionView) -> Seq<Move> {
    flatten_groups(move_groups_of(board_of(position)))
}

/// The UCI text of `mv` in `position`.
pub open spec fn uci_move_text(position: PositionView, mv: Move) -> Seq<char> {
    display_text(board_of(position), mv)
}

/// A file letter `a` to `h`.
pub open spec fn is_file_char(c: char) -> bool {
    97 <= c as u32 <= 104
}

/// A rank digit `1` to `8`.
pub open spec fn is_rank_char(c: char) -> bool {
    49 <= c as u32 <= 56
}

/// A piece letter: `p`, `n`, `b`, `r`, `q` or `k`.
pub open spec fn is_piece_char(c: char) -> bool {
    c == 'p' || c == 'n' || c == 'b' || c == 'r' || c == 'q' || c == 'k'
}

/// What `cozy_chess` accepts as UCI move text: a from square and a to square,
/// then optionally a piece letter; a fifth character that is not ASCII is not
/// read, nor is anything after the fifth character.
pub open spec fn uci_move_syntax(t: Seq<char>) -> bool {
    &&& t.len() >= 4
    &&& is_file_char(t[0]) && is_rank_char(t[1])
    &&& is_file_char(t[2]) && is_rank_char(t[3])
    &&& t.len() == 4 || t[4] as u32 >= 128 || is_piece_char(t[4])
}

/// The shape of UCI move text as `cozy_chess` writes it: two squares, then an
/// optional piece letter.
pub open spec fn uci_move_form(t: Seq<char>) -> bool {
    &&& t.len() == 4 || t.len() == 5
    &&& is_file_char(t[0]) && is_rank_char(t[1])
    &&& is_file_char(t[2]) && is_rank_char(t[3])
    &&& t.len() == 5 ==> is_piece_char(t[4])
}

/// The shape of the UCI text of a legal move: two squares, then optionally a
/// promotion to a knight, bishop, rook or queen.
pub open spec fn legal_move_form(t: Seq<char>) -> bool {
    &&& uci_move_form(t)
    &&& t.len() == 5 ==> (t[4] == 'n' || t[4] == 'b' || t[4] == 'r' || t[4] == 'q')
}

/// Whether `text` is a move that can be played in `position`.
pub open spec fn move_accepted(position: PositionView, text: Seq<char>) -> bool {
    uci_move_syntax(text) && move_legal(board_of(position), parsed_move(board_of(position), text))
}

/// The message `cozy_chess` gives for move text it cannot read.
pub open spec fn move_text_message() -> Seq<char> {
    "The value was not a valid Move."@
}

/// The message `cozy_chess` gives for a move it will not play.
pub open spec fn illegal_move_message() -> Seq<char> {
    "The move played was illegal."@
}

/// A chess position. Its view records how it was reached; the `cozy_chess`
/// board it holds is always the one that view describes (`board_of`).
pub struct Position {
    board: Board,
    history: Ghost<PositionView>,
}

impl View for Position {
    type V = PositionView;

    closed spec fn view(&self) -> PositionView {
        self.history@
    }
}

impl Clone for Position {
    fn clone(&self) -> (r: Self)
        ensures
            r == *self,
    {
        proof {
            use_type_invariant(self);
        }
        Position { board: self.board.clone(), history: self.history }
    }
}

impl Position {
    /// The board held is the board the history describes.
    #[verifier::type_invariant]
    spec fn board_matches_history(self) -> bool {
        self.board == board_of(self.history@)
    }
}

/// A failure to set up a position or apply a move.
#[derive(Clone, Debug, PartialEq, Eq)]
pub enum PositionError {
    /// The FEN text was rejected.
    InvalidFen { text: String, message: String },
    /// The move text is not UCI coordinate notation.
    InvalidMoveText { text: String, message: String },
    /// The move text was read but the move is not legal in the position.
    IllegalMove { text: String, message: String },
}

/// The mathematical value of a `PositionError`.
pub enum PositionErrorView {
    InvalidFen { text: Seq<char>, message: Seq<char> },
    InvalidMoveText { text: Seq<char>, message: Seq<char> },
    IllegalMove { text: Seq<char>, message: Seq<char> },
}

impl View for PositionError {
    type V = PositionErrorView;

    open spec fn view(&self) -> PositionErrorView {
        match self {
            PositionError::InvalidFen { text, message } => PositionErrorView::InvalidFen {
                text: text@,
                message: message@,
            },
            PositionError::InvalidMoveText { text, message } => PositionErrorView::InvalidMoveText {
                text: text@,
                message: message@,
            },
            PositionError::IllegalMove { text, message } => PositionErrorView::IllegalMove {
                text: text@,
                message: message@,
            },
        }
    }
}

/// The error that applying `text` in `position` gives, when it is not accepted.
pub open spec fn move_error(position: PositionView, text: Seq<char>) -> PositionErrorView {
    if !uci_move_syntax(text) {
        PositionErrorView::InvalidMoveText { text, message: move_text_message() }
    } else {
        PositionErrorView::IllegalMove { text, message: illegal_move_message() }
    }
}

/// The readable description of an error.
pub open spec fn error_description(e: PositionErrorView) -> Seq<char> {
    match e {
        PositionErrorView::InvalidFen { text, message } => "invalid FEN '"@ + text + "': "@
            + message,
        PositionErrorView::InvalidMoveText { text, message } => "invalid UCI move '"@ + text
            + "': "@ + message,
        PositionErrorView::IllegalMove { text, message } => "illegal UCI move '"@ + text
            + "': "@ + message,
    }
}

impl PositionError {
    /// A readable description of the error.
    pub fn describe(&self) -> (r: String)
        ensures
            r@ == error_description(self@),
    {
        let (lead, text, message) = match self {
            PositionError::InvalidFen { text, message } => ("invalid FEN '", text, message),
            PositionError::InvalidMoveText { text, message } => (
                "invalid UCI move '",
                text,
                message,
            ),
            PositionError::IllegalMove { text, message } => ("illegal UCI move '", text, message),
        };
        let mut r = String::new();
        r.append(lead);
        r.append(text.as_str());
        r.append("': ");
        r.append(message.as_str());
        proof {
            assert(Seq::<char>::empty() + lead@ =~= lead@);
        }
        r
    }
}

/// Calls `Board::startpos`. Its documentation shows it equal to the board
/// that the standard starting FEN parses to.
#[verifier::external_body]
fn board_startpos() -> (r: Board)
    ensures
        r == fen_board(start_fen()),
{
    Board::startpos()
}

/// Calls `str::parse::<Board>` (which tries plain FEN, then Shredder FEN when
/// the castling field is rejected), turning a rejection into the `Display`
/// text of its `FenParseError`.
#[verifier::external_body]
fn board_from_fen(fen: &str) -> (r: Result<Board, String>)
    ensures
        match r {
            Ok(b) => fen_parse(fen@) == Ok::<Board, Seq<char>>(b),
            Err(m) => fen_parse(fen@) == Err::<Board, Seq<char>>(m@),
        },
{
    match fen.parse::<Board>() {
        Ok(board) => Ok(board),
        Err(error) => Err(error.to_string()),
    }
}

/// Calls `cozy_chess::util::parse_uci_move`. It fails exactly when
/// `Move::from_str` cannot read the text, which depends on the text alone,
/// with the constant message of `MoveParseError`; otherwise it returns the
/// named move.
#[verifier::external_body]
fn parse_move_on(board: &Board, text: &str) -> (r: Result<Move, String>)
    ensures
        r is Ok <==> uci_move_syntax(text@),
        r matches Ok(mv) ==> mv == parsed_move(*board, text@),
        r matches Err(m) ==> m@ == move_text_message(),
{
    match parse_uci_move(board, text) {
        Ok(mv) => Ok(mv),
        Err(error) => Err(error.to_string()),
    }
}

/// Calls `Board::try_play`. A legal move leaves the named board; an illegal
/// one leaves the board untouched (legality is checked before any change) and
/// gives the constant message of `IllegalMoveError`.
#[verifier::external_body]
fn play_on(board: &mut Board, mv: Move) -> (r: Result<(), String>)
    ensures
        r is Ok <==> play_result(*old(board), mv) is Some,
        r is Ok ==> play_result(*old(board), mv) == Some(*final(board)),
        r matches Err(m) ==> m@ == illegal_move_message() && *final(board) == *old(board),
{
    match board.try_play(mv) {
        Ok(()) => Ok(()),
        Err(error) => Err(error.to_string()),
    }
}

/// Keeps one group of generated moves and asks for more.
fn keep_group(groups: &mut Vec<PieceMoves>, group: PieceMoves) -> (stop: bool)
    ensures
        final(groups)@ == old(groups)@.push(group),
        !stop,
{
    groups.push(group);
    false
}

/// Calls `Board::generate_moves`, keeping every group it hands out (the
/// listener never asks it to stop). The documentation promises all legal moves
/// and only those: every move of every group is one that `Board::try_play`
/// accepts, and every move it accepts is in some group.
#[verifier::external_body]
fn move_groups_on(board: &Board) -> (r: Vec<PieceMoves>)
    ensures
        r@ == move_groups_of(*board),
        forall|i: int, mv: Move|
            0 <= i < r@.len() && #[trigger] group_moves(r@[i]).contains(mv) ==> move_legal(
                *board,
                mv,
            ),
        forall|mv: Move| #[trigger]
            move_legal(*board, mv) ==> exists|i: int|
                0 <= i < r@.len() && #[trigger] group_moves(r@[i]).contains(mv),
{
    let mut groups = Vec::new();
    board.generate_moves(|group| keep_group(&mut groups, group));
    groups
}

/// Calls `IntoIterator::into_iter` on a `PieceMoves` group and collects the
/// moves it yields.
#[verifier::external_body]
fn moves_of_group(group: PieceMoves) -> (r: Vec<Move>)
    ensures
        r@ == group_moves(group),
{
    group.into_iter().collect()
}

/// Calls `cozy_chess::util::display_uci_move` and writes the result: the from
/// and to squares, then the promotion piece letter if there is one. A legal
/// move promotes, if at all, to a knight, bishop, rook or queen
/// (`Board::is_legal` refuses any other promotion).
#[verifier::external_body]
fn display_on(board: &Board, mv: Move) -> (r: String)
    ensures
        r@ == display_text(*board, mv),
        uci_move_form(r@),
        move_legal(*board, mv) ==> legal_move_form(r@),
{
    format!("{}", display_cozy_uci_move(board, mv))
}

/// Every move of every group is among the flattened groups.
proof fn lemma_flatten_groups_has(groups: Seq<PieceMoves>, i: int, mv: Move)
    requires
        0 <= i < groups.len(),
        group_moves(groups[i]).contains(mv),
    ensures
        flatten_groups(groups).contains(mv),
    decreases groups.len(),
{
    let rest = groups.drop_last();
    let f = flatten_groups(groups);
    if i < groups.len() - 1 {
        assert(groups[i] == rest[i]);
        lemma_flatten_groups_has(rest, i, mv);
        let k = choose|k: int| 0 <= k < flatten_groups(rest).len() && flatten_groups(rest)[k]
            == mv;
        assert(f[k] == mv);
    } else {
        let g = group_moves(groups[i]);
        let k = choose|k: int| 0 <= k < g.len() && g[k] == mv;
        assert(f[flatten_groups(rest).len() + k] == mv);
    }
}

/// Every move of the flattened groups comes from one of the groups.
proof fn lemma_flatten_groups_member(groups: Seq<PieceMoves>, mv: Move)
    requires
        flatten_groups(groups).contains(mv),
    ensures
        exists|i: int| 0 <= i < groups.len() && #[trigger] group_moves(groups[i]).contains(mv),
    decreases groups.len(),
{
    let rest = groups.drop_last();
    let last = group_moves(groups.last());
    let k = choose|k: int| 0 <= k < flatten_groups(groups).len() && flatten_groups(groups)[k]
        == mv;
    if k < flatten_groups(rest).len() {
        assert(flatten_groups(rest)[k] == mv);
        lemma_flatten_groups_member(rest, mv);
        let i = choose|i: int| 0 <= i < rest.len() && #[trigger] group_moves(rest[i]).contains(
            mv,
        );
        assert(groups[i] == rest[i]);
    } else {
        assert(last[k - flatten_groups(rest).len()] == mv);
        assert(group_moves(groups[groups.len() - 1]).contains(mv));
    }
}

impl Position {
    /// The standard chess starting position.
    pub fn startpos() -> (r: Self)
        ensures
            r@ == start_view(),
    {
        Position { board: board_startpos(), history: Ghost(start_view()) }
    }

    /// The position that a FEN text describes.
    pub fn from_fen(fen: &str) -> (r: Result<Self, PositionError>)
        ensures
            match r {
                Ok(p) => fen_rejection(fen@) is None && p@ == (PositionView {
                    base: PositionBase::Fen(fen@),
                    moves: seq![],
                }) && board_of(p@) == fen_board(fen@),
                Err(e) => fen_rejection(fen@) matches Some(m) && e@ == (
                PositionErrorView::InvalidFen { text: fen@, message: m }),
            },
    {
        match board_from_fen(fen) {
            Ok(board) => Ok(
                Position {
                    board,
                    history: Ghost(PositionView { base: PositionBase::Fen(fen@), moves: seq![] }),
                },
            ),
            Err(message) => Err(PositionError::InvalidFen { text: fen.to_owned(), message }),
        }
    }

    /// Reads one UCI move and plays it. A move that cannot be read or played
    /// leaves the position unchanged.
    pub fn apply_uci_move(&mut self, text: &str) -> (r: Result<(), PositionError>)
        ensures
            move_accepted(old(self)@, text@) ==> r is Ok && final(self)@ == old(self)@.played(
                text@,
            ) && board_of(final(self)@) == play_result(
                board_of(old(self)@),
                parsed_move(board_of(old(self)@), text@),
            )->0,
            !move_accepted(old(self)@, text@) ==> (r matches Err(e) && e@ == move_error(
                old(self)@,
                text@,
            )) && *final(self) == *old(self),
    {
        proof {
            use_type_invariant(&*self);
        }
        let mv = match parse_move_on(&self.board, text) {
            Ok(mv) => mv,
            Err(message) => {
                return Err(PositionError::InvalidMoveText { text: text.to_owned(), message });
            },
        };
        let mut next_board = self.board.clone();
        match play_on(&mut next_board, mv) {
            Ok(()) => {
                let ghost next_history = self.history@.played(text@);
                proof {
                    assert(next_history.moves.drop_last() =~= self.history@.moves);
                }
                *self = Position { board: next_board, history: Ghost(next_history) };
                Ok(())
            },
            Err(message) => Err(PositionError::IllegalMove { text: text.to_owned(), message }),
        }
    }

    /// Every legal move in the position.
    pub fn legal_moves(&self) -> (r: Vec<Move>)
        ensures
            r@ == legal_moves_of(self@),
            forall|mv: Move| #[trigger] r@.contains(mv) <==> move_legal(board_of(self@), mv),
    {
        proof {
            use_type_invariant(self);
        }
        let groups = move_groups_on(&self.board);
        let mut legal_moves: Vec<Move> = Vec::new();
        let n = groups.len();
        let mut i: usize = 0;
        while i < n
            invariant
                n == groups@.len(),
                groups@ == move_groups_of(board_of(self@)),
                i <= n,
                legal_moves@ == flatten_groups(groups@.take(i as int)),
            decreases n - i,
        {
            let mut group_list = moves_of_group(groups[i]);
            assert(groups@.take(i + 1).drop_last() =~= groups@.take(i as int));
            legal_moves.append(&mut group_list);
            i = i + 1;
        }
        assert(groups@.take(n as int) =~= groups@);
        assert forall|mv: Move| #[trigger] legal_moves@.contains(mv) <==> move_legal(
            board_of(self@),
            mv,
        ) by {
            if legal_moves@.contains(mv) {
                lemma_flatten_groups_member(groups@, mv);
            }
            if move_legal(board_of(self@), mv) {
                let i = choose|i: int|
                    0 <= i < groups@.len() && #[trigger] group_moves(groups@[i]).contains(mv);
                lemma_flatten_groups_has(groups@, i, mv);
            }
        }
        legal_moves
    }

    /// `chess_move` written in UCI coordinate notation for this position
    /// (castling as the king's two-square step).
    pub fn display_uci_move(&self, chess_move: Move) -> (r: String)
        ensures
            r@ == uci_move_text(self@, chess_move),
            uci_move_form(r@),
            move_legal(board_of(self@), chess_move) ==> legal_move_form(r@),
    {
        proof {
            use_type_invariant(self);
        }
        display_on(&self.board, chess_move)
    }

    /// The underlying `cozy_chess` board: the one the position's history
    /// describes.
    pub fn board(&self) -> (r: &Board)
        ensures
            *r == board_of(self@),
    {
        proof {
            use_type_invariant(self);
        }
        &self.board
    }
}

impl Default for Position {
    fn default() -> (r: Self)
        ensures
            r@ == start_view(),
    {
        Self::startpos()
    }
}

} // verus!
