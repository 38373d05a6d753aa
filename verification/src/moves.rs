//! Moves: the tokens that denote them, and what they do to a board.
//!
//! A token is `[N|B|R|Q|K]? <file><rank> (-|x) [N|B|R|Q|K]? <file><rank>`: the piece that
//! moves (a pawn when no designator is given), the square it leaves, `-` for a plain move
//! or `x` for a capture, the piece expected on the destination, and the destination.

use crate::board::Board;
use crate::error::ParseError;
use crate::piece::{
    blank, designated_kind, is_designator, kind_of, may_move, spec_blank, Kind, Piece, Player,
};
use crate::squares::{
    file_char, file_index, from_chars, is_file_char, is_rank_char, rank_char, rank_index, Square,
};
use crate::text::{chars_of, is_space, is_word};
use vstd::prelude::*;

verus! {

/// A piece goes from one square to an empty one, as in `Bb1-e5` or `b1-e5`.
#[derive(Copy, Clone, Debug, PartialEq, Eq, Structural)]
pub struct SimpleMove {
    /// The piece that moves.
    pub piece: Piece,
    /// The square it leaves.
    pub from: Square,
    /// The square it arrives on.
    pub to: Square,
}

/// A piece goes from one square to another and takes the piece that stands there, as in
/// `Bb1xe5` or `Bb1xQe5`.
#[derive(Copy, Clone, Debug, PartialEq, Eq, Structural)]
pub struct SimpleTake {
    /// The piece that takes.
    pub piece: Piece,
    /// The square it leaves.
    pub from: Square,
    /// The square it arrives on.
    pub to: Square,
    /// The piece that is taken.
    pub taken: Piece,
}

/// A move of a game: one of the two shapes that a token can denote.
#[derive(Copy, Clone, Debug, PartialEq, Eq, Structural)]
pub enum Move {
    Plain(SimpleMove),
    Take(SimpleTake),
}

/// The cells after `piece` has left `from` and arrived on `to`: `from` is empty, `to`
/// holds the piece, and every other cell is as before.
pub open spec fn relocated(cells: Seq<Piece>, piece: Piece, from: Square, to: Square) -> Seq<
    Piece,
> {
    cells.update(from.offset(), spec_blank()).update(to.offset(), piece)
}

/// How a kind is named in a token: by its designator, a pawn by nothing.
pub open spec fn designator_text(kind: Kind) -> Seq<char> {
    if kind == Kind::Pawn {
        Seq::empty()
    } else {
        seq![kind.white_symbol()]
    }
}

/// The player whose turn the move with index `i` of a sequence is: White moves first.
pub open spec fn turn(i: int) -> Player {
    if i % 2 == 0 {
        Player::White
    } else {
        Player::Black
    }
}

/// The text holds a designator at position `at`.
pub open spec fn designator_at(t: Seq<char>, at: int) -> bool {
    0 <= at < t.len() && is_designator(t[at])
}

/// The kind that the text names at position `at`: the designated one, or a pawn where no
/// designator stands.
pub open spec fn kind_at(t: Seq<char>, at: int) -> Kind {
    if designator_at(t, at) {
        designated_kind(t[at])
    } else {
        Kind::Pawn
    }
}

/// Where the square of origin starts in a token: behind the designator, if there is one.
pub open spec fn origin_start(t: Seq<char>) -> int {
    if designator_at(t, 0) {
        1
    } else {
        0
    }
}

/// Where the separator stands in a token: behind the square of origin.
pub open spec fn separator_index(t: Seq<char>) -> int {
    origin_start(t) + 2
}

/// Where the destination starts in a token: behind the separator and the designator of
/// the piece expected there, if there is one.
pub open spec fn target_start(t: Seq<char>) -> int {
    let after = separator_index(t) + 1;
    if designator_at(t, after) {
        after + 1
    } else {
        after
    }
}

/// The text is a well-formed token: it follows the grammar from its first character to
/// its last.
pub open spec fn is_move_text(t: Seq<char>) -> bool {
    let a = origin_start(t);
    let m = separator_index(t);
    let b = target_start(t);
    &&& t.len() == b + 2
    &&& is_file_char(t[a])
    &&& is_rank_char(t[a + 1])
    &&& (t[m] == '-' || t[m] == 'x')
    &&& is_file_char(t[b])
    &&& is_rank_char(t[b + 1])
}

/// What parsing the token `t` as a move of player `p` yields. The piece that moves is
/// `p`'s. With the separator `x` the move is a capture of a piece of the opponent, of the
/// kind named before the destination. With `-` it is a plain move, and a designator
/// before the destination says nothing. Any text that is not a token is rejected with
/// `ParseError::MoveFormat`.
pub open spec fn parse(t: Seq<char>, p: Player) -> Result<Move, ParseError> {
    if is_move_text(t) {
        let a = origin_start(t);
        let m = separator_index(t);
        let b = target_start(t);
        let piece = Piece { player: p, kind: kind_at(t, 0) };
        let from = Square::at(file_index(t[a]), rank_index(t[a + 1]));
        let to = Square::at(file_index(t[b]), rank_index(t[b + 1]));
        if t[m] == 'x' {
            let taken = Piece { player: p.opponent(), kind: kind_at(t, m + 1) };
            Ok(Move::Take(SimpleTake { piece, from, to, taken }))
        } else {
            Ok(Move::Plain(SimpleMove { piece, from, to }))
        }
    } else {
        Err(ParseError::MoveFormat)
    }
}

/// The board reached from `cells` by playing the tokens from index `i` on, each for the
/// player whose turn it is; `None` when one of them is not a token or not a legal move.
pub open spec fn play_tokens(tokens: Seq<&str>, i: int, cells: Seq<Piece>) -> Option<Seq<Piece>>
    decreases tokens.len() - i,
{
    if i < 0 || i >= tokens.len() {
        Some(cells)
    } else {
        match parse(tokens[i]@, turn(i)) {
            Err(_) => None,
            Ok(m) => match m.outcome(cells) {
                None => None,
                Some(next) => play_tokens(tokens, i + 1, next),
            },
        }
    }
}

impl SimpleMove {
    /// The move is legal on a board with these cells: the piece stands on `from`, `to` is
    /// empty, and the piece's rule allows the move.
    pub open spec fn legal(self, cells: Seq<Piece>) -> bool {
        &&& cells[self.from.offset()] == self.piece
        &&& cells[self.to.offset()].is_blank()
        &&& may_move(self.piece, cells, self.from, self.to)
    }

    /// The cells after the move, where it is legal.
    pub open spec fn outcome(self, cells: Seq<Piece>) -> Option<Seq<Piece>> {
        if self.legal(cells) {
            Some(relocated(cells, self.piece, self.from, self.to))
        } else {
            None
        }
    }

    /// The token that denotes this move: the designator of the piece unless it is a pawn,
    /// the square of origin, `-`, and the destination.
    pub open spec fn text(self) -> Seq<char> {
        designator_text(self.piece.kind) + self.from.text() + seq!['-'] + self.to.text()
    }

    /// Writes the move as the token that denotes it, such as `Nb1-c3` or `e2-e4`.
    pub fn to_string(&self) -> (t: String)
        ensures
            t@ == self.text(),
    {
        let mut out = String::from_str(designator_str(self.piece.kind));
        out.append(self.from.to_string().as_str());
        out.append("-");
        out.append(self.to.to_string().as_str());
        proof {
            reveal_strlit("-");
            assert(out@ =~= self.text());
        }
        out
    }

    /// Plays the move on `board`: the board that follows where the move is legal, nothing
    /// where it is not.
    pub fn apply(&self, board: Board) -> (r: Option<Board>)
        ensures
            match r {
                Some(next) => self.outcome(board@) == Some(next@),
                None => self.outcome(board@) is None,
            },
    {
        let p = board.get(self.from);
        let t = board.get(self.to);
        if p == self.piece && matches!(t.kind, Kind::Blank) && p.can_move(
            board,
            self.from,
            self.to,
        ) {
            Some(board.set(self.from, blank()).set(self.to, p))
        } else {
            None
        }
    }
}

impl SimpleTake {
    /// The capture is legal on a board with these cells: the piece stands on `from`, the
    /// piece named as taken stands on `to`, player and kind alike, and the piece's rule
    /// allows the move.
    pub open spec fn legal(self, cells: Seq<Piece>) -> bool {
        &&& cells[self.from.offset()] == self.piece
        &&& cells[self.to.offset()] == self.taken
        &&& may_move(self.piece, cells, self.from, self.to)
    }

    /// The cells after the capture, where it is legal: the piece taken is overwritten.
    pub open spec fn outcome(self, cells: Seq<Piece>) -> Option<Seq<Piece>> {
        if self.legal(cells) {
            Some(relocated(cells, self.piece, self.from, self.to))
        } else {
            None
        }
    }

    /// The token that denotes this capture: the designator of the piece unless it is a
    /// pawn, the square of origin, `x`, the designator of the piece taken unless it is a
    /// pawn, and the destination.
    pub open spec fn text(self) -> Seq<char> {
        designator_text(self.piece.kind) + self.from.text() + seq!['x'] + designator_text(
            self.taken.kind,
        ) + self.to.text()
    }

    /// Writes the capture as the token that denotes it, such as `Bc5xNg1` or `d5xe4`.
    pub fn to_string(&self) -> (t: String)
        ensures
            t@ == self.text(),
    {
        let mut out = String::from_str(designator_str(self.piece.kind));
        out.append(self.from.to_string().as_str());
        out.append("x");
        out.append(designator_str(self.taken.kind));
        out.append(self.to.to_string().as_str());
        proof {
            reveal_strlit("x");
            assert(out@ =~= self.text());
        }
        out
    }

    /// Plays the capture on `board`: the board that follows where the capture is legal,
    /// nothing where it is not.
    pub fn apply(&self, board: Board) -> (r: Option<Board>)
        ensures
            match r {
                Some(next) => self.outcome(board@) == Some(next@),
                None => self.outcome(board@) is None,
            },
    {
        let p = board.get(self.from);
        let t = board.get(self.to);
        if p == self.piece && t == self.taken && p.can_move(board, self.from, self.to) {
            Some(board.set(self.from, blank()).set(self.to, p))
        } else {
            None
        }
    }
}

impl Move {
    /// A token can denote this move as one of player `p`: the piece that moves is `p`'s
    /// and not blank, and a piece taken is the opponent's and not blank.
    pub open spec fn denotable(self, p: Player) -> bool {
        match self {
            Move::Plain(m) => {
                &&& m.piece.player == p
                &&& m.piece.kind != Kind::Blank
                &&& m.from.on_board()
                &&& m.to.on_board()
            },
            Move::Take(m) => {
                &&& m.piece.player == p
                &&& m.piece.kind != Kind::Blank
                &&& m.taken.player == p.opponent()
                &&& m.taken.kind != Kind::Blank
                &&& m.from.on_board()
                &&& m.to.on_board()
            },
        }
    }

    /// The token that denotes this move.
    pub open spec fn text(self) -> Seq<char> {
        match self {
            Move::Plain(m) => m.text(),
            Move::Take(m) => m.text(),
        }
    }

    /// Writes the move as the token that denotes it.
    pub fn to_string(&self) -> (t: String)
        ensures
            t@ == self.text(),
    {
        match self {
            Move::Plain(m) => m.to_string(),
            Move::Take(m) => m.to_string(),
        }
    }

    /// The cells after the move, where it is legal.
    pub open spec fn outcome(self, cells: Seq<Piece>) -> Option<Seq<Piece>> {
        match self {
            Move::Plain(m) => m.outcome(cells),
            Move::Take(m) => m.outcome(cells),
        }
    }

    /// Plays the move on `board`: the board that follows where the move is legal, nothing
    /// where it is not.
    pub fn apply(&self, board: Board) -> (r: Option<Board>)
        ensures
            match r {
                Some(next) => self.outcome(board@) == Some(next@),
                None => self.outcome(board@) is None,
            },
    {
        match self {
            Move::Plain(m) => m.apply(board),
            Move::Take(m) => m.apply(board),
        }
    }
}

/// A capture that names another piece than the one on its destination is illegal, however
/// the piece may move.
pub proof fn lemma_capture_names_occupant(m: SimpleTake, cells: Seq<Piece>)
    requires
        cells[m.to.offset()] != m.taken,
    ensures
        m.outcome(cells) is None,
        Move::Take(m).outcome(cells) is None,
{
}

/// Writing a move and parsing the token gives the move back, for every move that a token
/// can denote.
pub proof fn lemma_text_round_trip(m: Move, p: Player)
    requires
        m.denotable(p),
    ensures
        parse(m.text(), p) == Ok::<Move, ParseError>(m),
{
    let t = m.text();
    match m {
        Move::Plain(plain) => {
            lemma_square_text(plain.from);
            lemma_square_text(plain.to);
            if plain.piece.kind == Kind::Pawn {
                assert(t =~= plain.from.text() + seq!['-'] + plain.to.text());
            } else {
                assert(t =~= seq![plain.piece.kind.white_symbol()] + plain.from.text() + seq!['-']
                    + plain.to.text());
            }
            let a = origin_start(t);
            let b = target_start(t);
            assert(Square::at(file_index(t[a]), rank_index(t[a + 1])) == plain.from);
            assert(Square::at(file_index(t[b]), rank_index(t[b + 1])) == plain.to);
        },
        Move::Take(take) => {
            lemma_square_text(take.from);
            lemma_square_text(take.to);
            let a = origin_start(t);
            let b = target_start(t);
            assert(t.len() == b + 2);
            assert(Square::at(file_index(t[a]), rank_index(t[a + 1])) == take.from);
            assert(Square::at(file_index(t[b]), rank_index(t[b + 1])) == take.to);
        },
    }
}

/// The token of a move is one word: it is not empty and holds no white space.
pub proof fn lemma_text_is_word(m: Move, p: Player)
    requires
        m.denotable(p),
    ensures
        is_word(m.text()),
{
    let t = m.text();
    match m {
        Move::Plain(plain) => {
            lemma_square_text(plain.from);
            lemma_square_text(plain.to);
            let head = designator_text(plain.piece.kind);
            assert(t =~= head + plain.from.text() + seq!['-'] + plain.to.text());
            assert forall|k: int| 0 <= k < t.len() implies !is_space(#[trigger] t[k]) by {
                if k < head.len() {
                    assert(t[k] == head[k]);
                } else if k < head.len() + 2 {
                    assert(t[k] == plain.from.text()[k - head.len()]);
                } else if k == head.len() + 2 {
                    assert(t[k] == '-');
                } else {
                    assert(t[k] == plain.to.text()[k - head.len() - 3]);
                }
            }
        },
        Move::Take(take) => {
            lemma_square_text(take.from);
            lemma_square_text(take.to);
            let head = designator_text(take.piece.kind);
            let mid = designator_text(take.taken.kind);
            assert(t =~= head + take.from.text() + seq!['x'] + mid + take.to.text());
            assert forall|k: int| 0 <= k < t.len() implies !is_space(#[trigger] t[k]) by {
                if k < head.len() {
                    assert(t[k] == head[k]);
                } else if k < head.len() + 2 {
                    assert(t[k] == take.from.text()[k - head.len()]);
                } else if k == head.len() + 2 {
                    assert(t[k] == 'x');
                } else if k < head.len() + 3 + mid.len() {
                    assert(t[k] == mid[k - head.len() - 3]);
                } else {
                    assert(t[k] == take.to.text()[k - head.len() - 3 - mid.len()]);
                }
            }
        },
    }
}

/// The two characters of a square's name are a file letter and a rank digit, and name the
/// square.
proof fn lemma_square_text(s: Square)
    requires
        s.on_board(),
    ensures
        s.text().len() == 2,
        is_file_char(s.text()[0]),
        is_rank_char(s.text()[1]),
        !is_designator(s.text()[0]),
        !is_space(s.text()[0]),
        !is_space(s.text()[1]),
        Square::at(file_index(s.text()[0]), rank_index(s.text()[1])) == s,
{
    let f = s.file();
    let r = s.rank();
    assert(is_file_char(file_char(f)) && file_index(file_char(f)) == f);
    assert(is_rank_char(rank_char(r)) && rank_index(rank_char(r)) == r);
    Square::lemma_at(f, r);
    s.lemma_same_indices(Square::at(f, r));
}

/// Playing no token at all leaves the board as it is.
pub proof fn lemma_no_tokens(cells: Seq<Piece>)
    ensures
        play_tokens(Seq::<&str>::empty(), 0, cells) == Some(cells),
{
}

/// The text that names a kind in a token.
pub fn designator_str(kind: Kind) -> (t: &'static str)
    ensures
        t@ == designator_text(kind),
{
    if matches!(kind, Kind::Pawn) {
        proof {
            reveal_strlit("");
        }
        let t = "";
        assert(t@ =~= Seq::<char>::empty());
        t
    } else {
        kind.to_white_string()
    }
}

/// Reads the designator at position `at`, if one stands there, and tells the piece it
/// names for player `p` and the position behind it.
fn parse_piece(t: &[char], at: usize, p: Player) -> (r: (Piece, usize))
    requires
        at <= t@.len(),
    ensures
        r.0 == (Piece { player: p, kind: kind_at(t@, at as int) }),
        r.1 == if designator_at(t@, at as int) { at + 1 } else { at as int },
        r.1 <= t@.len(),
{
    if at < t.len() {
        match kind_of(t[at]) {
            Some(kind) => (Piece { player: p, kind }, at + 1),
            None => (Piece { player: p, kind: Kind::Pawn }, at),
        }
    } else {
        (Piece { player: p, kind: Kind::Pawn }, at)
    }
}

/// Reads the square at position `at` and tells it and the position behind it.
fn parse_square(t: &[char], at: usize) -> (r: Result<(Square, usize), ParseError>)
    requires
        at <= t@.len(),
    ensures
        match r {
            Ok((square, next)) => {
                &&& at + 2 <= t@.len()
                &&& is_file_char(t@[at as int])
                &&& is_rank_char(t@[at + 1])
                &&& square == Square::at(file_index(t@[at as int]), rank_index(t@[at + 1]))
                &&& next == at + 2
            },
            Err(e) => {
                &&& e == ParseError::MoveFormat
                &&& !(at + 2 <= t@.len() && is_file_char(t@[at as int]) && is_rank_char(
                    t@[at + 1],
                ))
            },
        },
{
    if t.len() - at < 2 {
        return Err(ParseError::MoveFormat);
    }
    match from_chars(t[at], t[at + 1]) {
        Ok(square) => Ok((square, at + 2)),
        Err(_) => Err(ParseError::MoveFormat),
    }
}

/// Reads the separator at position `at` and tells whether it marks a capture, and the
/// position behind it.
fn parse_kind(t: &[char], at: usize) -> (r: Option<(bool, usize)>)
    requires
        at <= t@.len(),
    ensures
        match r {
            Some((take, next)) => {
                &&& at < t@.len()
                &&& (t@[at as int] == '-' || t@[at as int] == 'x')
                &&& take == (t@[at as int] == 'x')
                &&& next == at + 1
            },
            None => !(at < t@.len() && (t@[at as int] == '-' || t@[at as int] == 'x')),
        },
{
    if at < t.len() {
        let c = t[at];
        if c == 'x' {
            Some((true, at + 1))
        } else if c == '-' {
            Some((false, at + 1))
        } else {
            None
        }
    } else {
        None
    }
}

/// Parses the characters of a token into a move of player `p`.
pub fn parse_chars(t: &[char], p: Player) -> (r: Result<Move, ParseError>)
    ensures
        r == parse(t@, p),
{
    let (piece, a) = parse_piece(t, 0, p);
    let (from, m) = match parse_square(t, a) {
        Ok(found) => found,
        Err(e) => {
            return Err(e);
        },
    };
    let (take, s) = match parse_kind(t, m) {
        Some(found) => found,
        None => {
            return Err(ParseError::MoveFormat);
        },
    };
    let (taken, b) = parse_piece(t, s, p.flip());
    let (to, end) = match parse_square(t, b) {
        Ok(found) => found,
        Err(e) => {
            return Err(e);
        },
    };
    if end != t.len() {
        return Err(ParseError::MoveFormat);
    }
    if take {
        Ok(Move::Take(SimpleTake { piece, from, to, taken }))
    } else {
        Ok(Move::Plain(SimpleMove { piece, from, to }))
    }
}

/// Parses a token into a move of player `p`. The player comes from the token's place in
/// the game, not from the token: the designators are the same for both sides.
pub fn from_str(s: &str, p: Player) -> (r: Result<Move, ParseError>)
    ensures
        r == parse(s@, p),
{
    let chars = chars_of(s);
    parse_chars(chars.as_slice(), p)
}

/// Plays a sequence of tokens on a board, White's move first and then in turns. Returns
/// the board reached, or nothing as soon as a token is malformed or a move illegal.
pub fn apply(moves: Vec<&str>, board: Board) -> (r: Option<Board>)
    ensures
        match r {
            Some(last) => play_tokens(moves@, 0, board@) == Some(last@),
            None => play_tokens(moves@, 0, board@) is None,
        },
{
    let mut current = board;
    let mut player = Player::White;
    let mut i: usize = 0;
    while i < moves.len()
        invariant
            i <= moves.len(),
            player == turn(i as int),
            play_tokens(moves@, 0, board@) == play_tokens(moves@, i as int, current@),
        decreases moves.len() - i,
    {
        let m = match from_str(moves[i], player) {
            Ok(m) => m,
            Err(_) => {
                return None;
            },
        };
        current = match m.apply(current) {
            Some(next) => next,
            None => {
                return None;
            },
        };
        player = player.flip();
        i = i + 1;
    }
    Some(current)
}

} // verus!
