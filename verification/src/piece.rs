//! Pieces: what stands on a square, whose it is, and where it may go.

use crate::board::Board;
use crate::error::ParseError;
use crate::squares::Square;
use vstd::prelude::*;

verus! {

/// The kind of a piece. `Blank` is the absence of one: the kind of an empty cell.
#[derive(Copy, Clone, Debug, PartialEq, Eq, Structural)]
pub enum Kind {
    Blank,
    Pawn,
    Knight,
    Bishop,
    Rook,
    Queen,
    King,
}

/// One of the two sides.
#[derive(Copy, Clone, Debug, PartialEq, Eq, Structural)]
pub enum Player {
    White,
    Black,
}

/// A piece of some kind that belongs to a player. The player of a blank piece carries no
/// meaning.
#[derive(Copy, Clone, Debug, PartialEq, Eq, Structural)]
pub struct Piece {
    pub player: Player,
    pub kind: Kind,
}

impl Kind {
    /// The character that stands for a white piece of this kind.
    pub open spec fn white_symbol(self) -> char {
        match self {
            Kind::Blank => '_',
            Kind::Pawn => 'P',
            Kind::Knight => 'N',
            Kind::Bishop => 'B',
            Kind::Rook => 'R',
            Kind::Queen => 'Q',
            Kind::King => 'K',
        }
    }

    /// The character that stands for a black piece of this kind.
    pub open spec fn black_symbol(self) -> char {
        match self {
            Kind::Blank => '_',
            Kind::Pawn => 'p',
            Kind::Knight => 'n',
            Kind::Bishop => 'b',
            Kind::Rook => 'r',
            Kind::Queen => 'q',
            Kind::King => 'k',
        }
    }

    /// The character that stands for a piece of this kind owned by `p`: upper case for
    /// White, lower case for Black.
    pub open spec fn symbol(self, p: Player) -> char {
        match p {
            Player::White => self.white_symbol(),
            Player::Black => self.black_symbol(),
        }
    }

    /// The one-character text of a piece of this kind owned by `p`.
    pub fn to_string(self, p: Player) -> (t: &'static str)
        ensures
            t@ == seq![self.symbol(p)],
    {
        match p {
            Player::White => self.to_white_string(),
            Player::Black => self.to_black_string(),
        }
    }

    /// The one-character text of a white piece of this kind.
    pub fn to_white_string(self) -> (t: &'static str)
        ensures
            t@ == seq![self.white_symbol()],
    {
        proof {
            reveal_strlit("_");
            reveal_strlit("P");
            reveal_strlit("N");
            reveal_strlit("B");
            reveal_strlit("R");
            reveal_strlit("Q");
            reveal_strlit("K");
        }
        let t = match self {
            Kind::Blank => "_",
            Kind::Pawn => "P",
            Kind::Knight => "N",
            Kind::Bishop => "B",
            Kind::Rook => "R",
            Kind::Queen => "Q",
            Kind::King => "K",
        };
        assert(t@ =~= seq![self.white_symbol()]);
        t
    }

    /// The one-character text of a black piece of this kind.
    pub fn to_black_string(self) -> (t: &'static str)
        ensures
            t@ == seq![self.black_symbol()],
    {
        proof {
            reveal_strlit("_");
            reveal_strlit("p");
            reveal_strlit("n");
            reveal_strlit("b");
            reveal_strlit("r");
            reveal_strlit("q");
            reveal_strlit("k");
        }
        let t = match self {
            Kind::Blank => "_",
            Kind::Pawn => "p",
            Kind::Knight => "n",
            Kind::Bishop => "b",
            Kind::Rook => "r",
            Kind::Queen => "q",
            Kind::King => "k",
        };
        assert(t@ =~= seq![self.black_symbol()]);
        t
    }
}

impl Player {
    /// The opponent of this player.
    pub open spec fn opponent(self) -> Player {
        match self {
            Player::White => Player::Black,
            Player::Black => Player::White,
        }
    }

    /// Flips to the other player: White becomes Black and Black becomes White.
    pub fn flip(&self) -> (p: Player)
        ensures
            p == self.opponent(),
    {
        match self {
            Player::White => Player::Black,
            Player::Black => Player::White,
        }
    }
}

impl Piece {
    /// This piece is the absence of a piece.
    pub open spec fn is_blank(self) -> bool {
        self.kind == Kind::Blank
    }

    /// The character that stands for this piece.
    pub open spec fn symbol(self) -> char {
        self.kind.symbol(self.player)
    }

    /// Checks whether this piece can go from one square of the board to another: the move
    /// has the shape that the piece's kind allows, and, for the kinds that slide, nothing
    /// stands between the two squares. Only a pawn's rule looks at what stands on `to`.
    pub fn can_move(&self, board: Board, from: Square, to: Square) -> (b: bool)
        ensures
            b == may_move(*self, board@, from, to),
    {
        match self.kind {
            Kind::Blank => false,
            Kind::Pawn => can_pawn_move(board, self.player, from, to),
            Kind::Knight => can_knight_move(board, from, to),
            Kind::Bishop => can_bishop_move(board, from, to),
            Kind::Rook => can_rook_move(board, from, to),
            Kind::Queen => can_queen_move(board, from, to),
            Kind::King => can_king_move(board, from, to),
        }
    }

    /// The piece of the same kind that belongs to the other player.
    pub fn flip(&self) -> (p: Piece)
        ensures
            p == (Piece { player: self.player.opponent(), kind: self.kind }),
    {
        Piece { player: self.player.flip(), kind: self.kind }
    }

    /// The one-character text of this piece.
    pub fn to_string(&self) -> (t: String)
        ensures
            t@ == seq![self.symbol()],
    {
        String::from_str(self.kind.to_string(self.player))
    }
}

/// `c` is one of the designators `N`, `B`, `R`, `Q`, `K`.
pub open spec fn is_designator(c: char) -> bool {
    c == 'N' || c == 'B' || c == 'R' || c == 'Q' || c == 'K'
}

/// The kind that a designator names.
pub open spec fn designated_kind(c: char) -> Kind {
    if c == 'N' {
        Kind::Knight
    } else if c == 'B' {
        Kind::Bishop
    } else if c == 'R' {
        Kind::Rook
    } else if c == 'Q' {
        Kind::Queen
    } else {
        Kind::King
    }
}

/// What parsing the text `t` as a piece of player `p` yields: a pawn for the empty text,
/// the designated kind for a single designator, `ParseError::Piece` for anything else.
pub open spec fn parse(t: Seq<char>, p: Player) -> Result<Piece, ParseError> {
    if t.len() == 0 {
        Ok(Piece { player: p, kind: Kind::Pawn })
    } else if t.len() == 1 && is_designator(t[0]) {
        Ok(Piece { player: p, kind: designated_kind(t[0]) })
    } else {
        Err(ParseError::Piece)
    }
}

/// The kind that the character `c` designates, if it is a designator.
pub fn kind_of(c: char) -> (r: Option<Kind>)
    ensures
        r == if is_designator(c) { Some(designated_kind(c)) } else { None::<Kind> },
{
    if c == 'N' {
        Some(Kind::Knight)
    } else if c == 'B' {
        Some(Kind::Bishop)
    } else if c == 'R' {
        Some(Kind::Rook)
    } else if c == 'Q' {
        Some(Kind::Queen)
    } else if c == 'K' {
        Some(Kind::King)
    } else {
        None
    }
}

/// Parses the designator of a piece for player `p`. The empty text stands for a pawn, and
/// `N`, `B`, `R`, `Q`, `K` for the other kinds; every other text is rejected.
pub fn from_str(s: &str, p: Player) -> (r: Result<Piece, ParseError>)
    ensures
        r == parse(s@, p),
{
    let n: usize = s.unicode_len();
    if n == 0 {
        Ok(Piece { player: p, kind: Kind::Pawn })
    } else if n == 1 {
        match kind_of(s.get_char(0)) {
            Some(kind) => Ok(Piece { player: p, kind }),
            None => Err(ParseError::Piece),
        }
    } else {
        Err(ParseError::Piece)
    }
}

/// Whether the text is exactly one designator of a piece: `N`, `B`, `R`, `Q` or `K`.
pub fn is_char(s: &str) -> (b: bool)
    ensures
        b == (s@.len() == 1 && is_designator(s@[0])),
{
    s.unicode_len() == 1 && kind_of(s.get_char(0)).is_some()
}

/// How many files `to` lies to the right of `from`; negative when it lies to the left.
pub open spec fn file_delta(from: Square, to: Square) -> int {
    to.file() - from.file()
}

/// How many ranks `to` lies above `from`; negative when it lies below.
pub open spec fn rank_delta(from: Square, to: Square) -> int {
    to.rank() - from.rank()
}

/// The absolute value of `d`.
pub open spec fn magnitude(d: int) -> int {
    if d < 0 {
        -d
    } else {
        d
    }
}

/// The sign of `d`: `1`, `-1` or `0`.
pub open spec fn direction(d: int) -> int {
    if d > 0 {
        1
    } else if d < 0 {
        -1
    } else {
        0
    }
}

/// `k` steps in the direction `unit`, where `unit` is `1`, `-1` or `0`.
pub open spec fn steps(k: int, unit: int) -> int {
    if unit > 0 {
        k
    } else if unit < 0 {
        -k
    } else {
        0
    }
}

/// The number of king steps between two squares: the larger of the two distances.
pub open spec fn span(from: Square, to: Square) -> int {
    let df = magnitude(file_delta(from, to));
    let dr = magnitude(rank_delta(from, to));
    if df > dr {
        df
    } else {
        dr
    }
}

/// The two squares lie on one file, one rank or one diagonal.
pub open spec fn aligned(from: Square, to: Square) -> bool {
    let df = file_delta(from, to);
    let dr = rank_delta(from, to);
    df == 0 || dr == 0 || magnitude(df) == magnitude(dr)
}

/// The offset of the cell that lies `k` steps from `from` on the line towards `to`.
pub open spec fn path_offset(from: Square, to: Square, k: int) -> int {
    (from.rank() + steps(k, direction(rank_delta(from, to)))) * 8 + from.file() + steps(
        k,
        direction(file_delta(from, to)),
    )
}

/// Every cell strictly between two aligned squares is empty. What stands on the two
/// squares themselves plays no part.
pub open spec fn path_clear(cells: Seq<Piece>, from: Square, to: Square) -> bool {
    forall|k: int|
        0 < k < span(from, to) ==> cells[#[trigger] path_offset(from, to, k)].is_blank()
}

/// The direction in which a player's pawns advance: up the ranks for White, down for Black.
pub open spec fn forward(player: Player) -> int {
    match player {
        Player::White => 1,
        Player::Black => -1,
    }
}

/// The rank on which a player's pawns start.
pub open spec fn pawn_rank(player: Player) -> int {
    match player {
        Player::White => 1,
        Player::Black => 6,
    }
}

/// The pawn rule. One step forward needs an empty destination. Two steps forward need the
/// pawn on its starting rank, and both the cell it passes and the destination empty. One
/// step forward and one to the side needs a piece on the destination. Nothing else is a
/// pawn move.
pub open spec fn pawn_rule(cells: Seq<Piece>, player: Player, from: Square, to: Square) -> bool {
    let dir = forward(player);
    let df = file_delta(from, to);
    let dr = rank_delta(from, to);
    if dr == dir && df == 0 {
        cells[to.offset()].is_blank()
    } else if dr == dir && magnitude(df) == 1 {
        !cells[to.offset()].is_blank()
    } else if dr == 2 * dir && df == 0 {
        &&& from.rank() == pawn_rank(player)
        &&& cells[(from.rank() + dir) * 8 + from.file()].is_blank()
        &&& cells[to.offset()].is_blank()
    } else {
        false
    }
}

/// The knight rule: one step along one axis and two along the other. A knight jumps, so no
/// cell in between matters.
pub open spec fn knight_rule(from: Square, to: Square) -> bool {
    let df = magnitude(file_delta(from, to));
    let dr = magnitude(rank_delta(from, to));
    (df == 1 && dr == 2) || (df == 2 && dr == 1)
}

/// The bishop rule: along a diagonal, at least one step, with every cell in between empty.
pub open spec fn bishop_rule(cells: Seq<Piece>, from: Square, to: Square) -> bool {
    let df = magnitude(file_delta(from, to));
    let dr = magnitude(rank_delta(from, to));
    df == dr && df > 0 && path_clear(cells, from, to)
}

/// The rook rule: along a file or along a rank, at least one step, with every cell in
/// between empty.
pub open spec fn rook_rule(cells: Seq<Piece>, from: Square, to: Square) -> bool {
    let df = file_delta(from, to);
    let dr = rank_delta(from, to);
    (df == 0) != (dr == 0) && path_clear(cells, from, to)
}

/// The queen rule: whatever a bishop or a rook may do.
pub open spec fn queen_rule(cells: Seq<Piece>, from: Square, to: Square) -> bool {
    bishop_rule(cells, from, to) || rook_rule(cells, from, to)
}

/// The king rule: exactly one step in any direction.
pub open spec fn king_rule(from: Square, to: Square) -> bool {
    span(from, to) == 1
}

/// Whether `piece` may go from `from` to `to` on a board with the given cells, by the rule
/// of its kind. A blank piece never moves. The rule looks at the shape of the move and at
/// what stands in its way; whether `piece` is what stands on `from` is not its concern.
pub open spec fn may_move(piece: Piece, cells: Seq<Piece>, from: Square, to: Square) -> bool {
    match piece.kind {
        Kind::Blank => false,
        Kind::Pawn => pawn_rule(cells, piece.player, from, to),
        Kind::Knight => knight_rule(from, to),
        Kind::Bishop => bishop_rule(cells, from, to),
        Kind::Rook => rook_rule(cells, from, to),
        Kind::Queen => queen_rule(cells, from, to),
        Kind::King => king_rule(from, to),
    }
}

/// A bishop, a rook or a queen cannot pass a piece: where a cell strictly between the two
/// squares is occupied, the move is illegal, whatever its shape.
pub proof fn lemma_blocked_path(piece: Piece, cells: Seq<Piece>, from: Square, to: Square, k: int)
    requires
        piece.kind == Kind::Bishop || piece.kind == Kind::Rook || piece.kind == Kind::Queen,
        0 < k < span(from, to),
        !cells[path_offset(from, to, k)].is_blank(),
    ensures
        !may_move(piece, cells, from, to),
{
}

/// A pawn's advance of two ranks is legal exactly from its player's starting rank, with
/// the cell it passes and the cell it reaches both empty.
pub proof fn lemma_double_step(cells: Seq<Piece>, player: Player, from: Square, to: Square)
    requires
        file_delta(from, to) == 0,
        rank_delta(from, to) == 2 * forward(player),
    ensures
        pawn_rule(cells, player, from, to) <==> {
            &&& from.rank() == pawn_rank(player)
            &&& cells[(from.rank() + forward(player)) * 8 + from.file()].is_blank()
            &&& cells[to.offset()].is_blank()
        },
{
}

/// A pawn that has advanced two ranks cannot do so again: from the square it reached, a
/// second advance of two ranks is illegal on every board.
pub proof fn lemma_single_double_step(
    cells: Seq<Piece>,
    later: Seq<Piece>,
    player: Player,
    from: Square,
    reached: Square,
    to: Square,
)
    requires
        rank_delta(from, reached) == 2 * forward(player),
        pawn_rule(cells, player, from, reached),
        file_delta(reached, to) == 0,
        rank_delta(reached, to) == 2 * forward(player),
    ensures
        !pawn_rule(later, player, reached, to),
{
}

/// The distance between two indices of a file or rank.
fn distance(a: i8, b: i8) -> (d: i8)
    requires
        0 <= a < 8,
        0 <= b < 8,
    ensures
        d == magnitude(b - a),
{
    if a < b {
        b - a
    } else {
        a - b
    }
}

/// The sign of the step that leads from index `a` towards index `b`.
fn step_towards(a: i8, b: i8) -> (s: i8)
    ensures
        s == direction(b - a),
{
    if a < b {
        1
    } else if a > b {
        -1
    } else {
        0
    }
}

/// Walks from the cell after `from` to the cell before `to` and tells whether the two
/// squares are aligned and every cell on the way is empty.
pub fn is_path_clear(board: &Board, from: Square, to: Square) -> (clear: bool)
    ensures
        clear == (aligned(from, to) && path_clear(board@, from, to)),
{
    let fc: i8 = from.column() as i8;
    let fr: i8 = from.row() as i8;
    let tc: i8 = to.column() as i8;
    let tr: i8 = to.row() as i8;
    let dc: i8 = distance(fc, tc);
    let dr: i8 = distance(fr, tr);
    if !(dc == 0 || dr == 0 || dc == dr) {
        return false;
    }
    let sc: i8 = step_towards(fc, tc);
    let sr: i8 = step_towards(fr, tr);
    let n: i8 = if dc > dr { dc } else { dr };
    let mut k: i8 = 1;
    let mut c: i8 = fc + sc;
    let mut r: i8 = fr + sr;
    while k < n
        invariant
            1 <= k,
            n == span(from, to),
            n < 8,
            aligned(from, to),
            fc == from.file(),
            fr == from.rank(),
            tc == to.file(),
            tr == to.rank(),
            0 <= fc < 8 && 0 <= fr < 8 && 0 <= tc < 8 && 0 <= tr < 8,
            sc == direction(file_delta(from, to)),
            sr == direction(rank_delta(from, to)),
            c == fc + steps(k as int, sc as int),
            r == fr + steps(k as int, sr as int),
            forall|j: int| 0 < j < k ==> board@[#[trigger] path_offset(from, to, j)].is_blank(),
        decreases n - k,
    {
        let here = Square::new(c as u8, r as u8);
        assert(here.offset() == path_offset(from, to, k as int));
        if !matches!(board.get(here).kind, Kind::Blank) {
            return false;
        }
        k = k + 1;
        c = c + sc;
        r = r + sr;
    }
    true
}

/// Determines whether a pawn of `player` may go from `from` to `to`.
pub fn can_pawn_move(board: Board, player: Player, from: Square, to: Square) -> (b: bool)
    ensures
        b == pawn_rule(board@, player, from, to),
{
    let dir: i8 = match player {
        Player::White => 1,
        Player::Black => -1,
    };
    let old_row: i8 = from.row() as i8;
    let old_col: i8 = from.column() as i8;
    let new_row: i8 = to.row() as i8;
    let new_col: i8 = to.column() as i8;
    let target = board.get(to);
    let empty = matches!(target.kind, Kind::Blank);
    if old_row + dir == new_row {
        if old_col == new_col {
            // A plain step.
            empty
        } else if old_col - 1 == new_col || old_col + 1 == new_col {
            // A step to the side takes what stands there.
            !empty
        } else {
            false
        }
    } else if old_row + dir + dir == new_row && old_col == new_col {
        // Two steps are open to a pawn that has not moved yet.
        if (dir == 1 && old_row == 1) || (dir == -1 && old_row == 6) {
            let gap = Square::new(from.column(), (old_row + dir) as u8);
            matches!(board.get(gap).kind, Kind::Blank) && empty
        } else {
            false
        }
    } else {
        false
    }
}

/// Determines whether a knight may go from `from` to `to`.
pub fn can_knight_move(board: Board, from: Square, to: Square) -> (b: bool)
    ensures
        b == knight_rule(from, to),
{
    let dc: i8 = distance(from.column() as i8, to.column() as i8);
    let dr: i8 = distance(from.row() as i8, to.row() as i8);
    (dc == 1 && dr == 2) || (dc == 2 && dr == 1)
}

/// Determines whether a bishop may go from `from` to `to`.
pub fn can_bishop_move(board: Board, from: Square, to: Square) -> (b: bool)
    ensures
        b == bishop_rule(board@, from, to),
{
    let dc: i8 = distance(from.column() as i8, to.column() as i8);
    let dr: i8 = distance(from.row() as i8, to.row() as i8);
    dc == dr && dc > 0 && is_path_clear(&board, from, to)
}

/// Determines whether a rook may go from `from` to `to`.
pub fn can_rook_move(board: Board, from: Square, to: Square) -> (b: bool)
    ensures
        b == rook_rule(board@, from, to),
{
    let dc: i8 = distance(from.column() as i8, to.column() as i8);
    let dr: i8 = distance(from.row() as i8, to.row() as i8);
    (dc == 0) != (dr == 0) && is_path_clear(&board, from, to)
}

/// Determines whether a queen may go from `from` to `to`.
pub fn can_queen_move(board: Board, from: Square, to: Square) -> (b: bool)
    ensures
        b == queen_rule(board@, from, to),
{
    can_bishop_move(board, from, to) || can_rook_move(board, from, to)
}

/// Determines whether a king may go from `from` to `to`.
pub fn can_king_move(board: Board, from: Square, to: Square) -> (b: bool)
    ensures
        b == king_rule(from, to),
{
    let dc: i8 = distance(from.column() as i8, to.column() as i8);
    let dr: i8 = distance(from.row() as i8, to.row() as i8);
    let n: i8 = if dc > dr { dc } else { dr };
    n == 1
}

/// The piece of an empty cell.
pub open spec fn spec_blank() -> Piece {
    Piece { player: Player::White, kind: Kind::Blank }
}

/// The piece of an empty cell.
#[verifier::when_used_as_spec(spec_blank)]
pub fn blank() -> (p: Piece)
    ensures
        p == spec_blank(),
{
    Piece { player: Player::White, kind: Kind::Blank }
}

/// A white pawn.
pub fn white_pawn() -> (p: Piece)
    ensures
        p == (Piece { player: Player::White, kind: Kind::Pawn }),
{
    Piece { player: Player::White, kind: Kind::Pawn }
}

/// A white knight.
pub fn white_knight() -> (p: Piece)
    ensures
        p == (Piece { player: Player::White, kind: Kind::Knight }),
{
    Piece { player: Player::White, kind: Kind::Knight }
}

/// A white bishop.
pub fn white_bishop() -> (p: Piece)
    ensures
        p == (Piece { player: Player::White, kind: Kind::Bishop }),
{
    Piece { player: Player::White, kind: Kind::Bishop }
}

/// A white rook.
pub fn white_rook() -> (p: Piece)
    ensures
        p == (Piece { player: Player::White, kind: Kind::Rook }),
{
    Piece { player: Player::White, kind: Kind::Rook }
}

/// A white queen.
pub fn white_queen() -> (p: Piece)
    ensures
        p == (Piece { player: Player::White, kind: Kind::Queen }),
{
    Piece { player: Player::White, kind: Kind::Queen }
}

/// A white king.
pub fn white_king() -> (p: Piece)
    ensures
        p == (Piece { player: Player::White, kind: Kind::King }),
{
    Piece { player: Player::White, kind: Kind::King }
}

/// A black pawn.
pub fn black_pawn() -> (p: Piece)
    ensures
        p == (Piece { player: Player::Black, kind: Kind::Pawn }),
{
    Piece { player: Player::Black, kind: Kind::Pawn }
}

/// A black knight.
pub fn black_knight() -> (p: Piece)
    ensures
        p == (Piece { player: Player::Black, kind: Kind::Knight }),
{
    Piece { player: Player::Black, kind: Kind::Knight }
}

/// A black bishop.
pub fn black_bishop() -> (p: Piece)
    ensures
        p == (Piece { player: Player::Black, kind: Kind::Bishop }),
{
    Piece { player: Player::Black, kind: Kind::Bishop }
}

/// A black rook.
pub fn black_rook() -> (p: Piece)
    ensures
        p == (Piece { player: Player::Black, kind: Kind::Rook }),
{
    Piece { player: Player::Black, kind: Kind::Rook }
}

/// A black queen.
pub fn black_queen() -> (p: Piece)
    ensures
        p == (Piece { player: Player::Black, kind: Kind::Queen }),
{
    Piece { player: Player::Black, kind: Kind::Queen }
}

/// A black king.
pub fn black_king() -> (p: Piece)
    ensures
        p == (Piece { player: Player::Black, kind: Kind::King }),
{
    Piece { player: Player::Black, kind: Kind::King }
}

} // verus!
