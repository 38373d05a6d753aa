//! The board: 64 cells, read and written as whole values.

use crate::piece::{
    black_bishop, black_king, black_knight, black_pawn, black_queen, black_rook, blank,
    spec_blank, white_bishop, white_king, white_knight, white_pawn, white_queen, white_rook,
    Kind, Piece, Player,
};
use crate::squares::{rank_char, rank_str, Square};
use vstd::prelude::*;

verus! {

/// The arrangement of pieces on the 64 squares. A board is a value: no operation changes
/// one, `set` returns another.
#[derive(Copy, Clone, Debug)]
pub struct Board {
    squares: [Piece; 64],
}

/// The two details in which renderers of a board differ.
#[derive(Copy, Clone, Debug, PartialEq, Eq, Structural)]
pub struct Style {
    /// Draw an empty cell as a space instead of `_`.
    pub space_for_blank: bool,
    /// Start the line of file letters with two spaces instead of `-|`.
    pub plain_trailer: bool,
}

/// The kind of the piece that starts on the given file of a player's first rank.
pub open spec fn back_rank_kind(file: int) -> Kind {
    if file == 0 || file == 7 {
        Kind::Rook
    } else if file == 1 || file == 6 {
        Kind::Knight
    } else if file == 2 || file == 5 {
        Kind::Bishop
    } else if file == 3 {
        Kind::Queen
    } else {
        Kind::King
    }
}

/// The piece that starts a game on the given file and rank.
pub open spec fn initial_piece(file: int, rank: int) -> Piece {
    if rank == 0 {
        Piece { player: Player::White, kind: back_rank_kind(file) }
    } else if rank == 1 {
        Piece { player: Player::White, kind: Kind::Pawn }
    } else if rank == 6 {
        Piece { player: Player::Black, kind: Kind::Pawn }
    } else if rank == 7 {
        Piece { player: Player::Black, kind: back_rank_kind(file) }
    } else {
        spec_blank()
    }
}

/// The cells of the board on which every game starts.
pub open spec fn initial_cells() -> Seq<Piece> {
    Seq::new(64, |i: int| initial_piece(i % 8, i / 8))
}

/// The character drawn for a cell that holds `p`.
pub open spec fn cell_symbol(p: Piece, style: Style) -> char {
    if p.is_blank() && style.space_for_blank {
        ' '
    } else {
        p.symbol()
    }
}

/// The first `upto` cells of a rank as text: each cell is a `|` and its symbol.
pub open spec fn cells_text(cells: Seq<Piece>, rank: int, upto: int, style: Style) -> Seq<char>
    decreases upto,
{
    if upto <= 0 {
        Seq::empty()
    } else {
        cells_text(cells, rank, upto - 1, style) + seq![
            '|',
            cell_symbol(cells[rank * 8 + upto - 1], style),
        ]
    }
}

/// One rank as a line of text: its digit, its eight cells, a closing `|` and a line feed.
pub open spec fn rank_text(cells: Seq<Piece>, rank: int, style: Style) -> Seq<char> {
    seq![rank_char(rank)] + cells_text(cells, rank, 8, style) + seq!['|', '\n']
}

/// The lines of the ranks from the eighth down to the one with index `low`.
pub open spec fn ranks_text(cells: Seq<Piece>, low: int, style: Style) -> Seq<char>
    decreases 8 - low,
{
    if low >= 8 {
        Seq::empty()
    } else {
        ranks_text(cells, low + 1, style) + rank_text(cells, low, style)
    }
}

/// The last line of a rendered board, which names the files.
pub open spec fn trailer_text(style: Style) -> Seq<char> {
    if style.plain_trailer {
        "  a b c d e f g h"@
    } else {
        "-|a b c d e f g h"@
    }
}

/// A board as text: eight lines, rank 8 first, then the line that names the files.
pub open spec fn board_text(cells: Seq<Piece>, style: Style) -> Seq<char> {
    ranks_text(cells, 0, style) + trailer_text(style)
}

impl Style {
    /// The usual style: `_` for an empty cell and a trailer that starts with `-|`.
    pub open spec fn standard() -> Style {
        Style { space_for_blank: false, plain_trailer: false }
    }
}

impl View for Board {
    type V = Seq<Piece>;

    /// The 64 cells, the one of file `f` and rank `r` at index `r * 8 + f`.
    closed spec fn view(&self) -> Seq<Piece> {
        self.squares@
    }
}

impl Board {
    /// The piece on square `s`.
    pub open spec fn piece_at(self, s: Square) -> Piece {
        self@[s.offset()]
    }

    /// The cells of the board that holds `p` on square `s` and is like this one everywhere
    /// else.
    pub open spec fn with_piece(self, s: Square, p: Piece) -> Seq<Piece> {
        self@.update(s.offset(), p)
    }

    /// A board has exactly 64 cells.
    pub proof fn lemma_cells(self)
        ensures
            self@.len() == 64,
    {
    }

    /// Reading a square after writing it gives the piece written, and every other square
    /// reads as it did before. The board written from is a value of its own: `set` borrows
    /// it unchanged.
    pub proof fn lemma_set_get(self, s: Square, p: Piece, other: Square)
        requires
            s.on_board(),
            other.on_board(),
        ensures
            self.with_piece(s, p).len() == 64,
            self.with_piece(s, p)[s.offset()] == p,
            other != s ==> self.with_piece(s, p)[other.offset()] == self.piece_at(other),
    {
        self.lemma_cells();
        if other != s && other.offset() == s.offset() {
            other.lemma_offset_injective(s);
        }
    }

    /// The piece on square `s`.
    pub fn get(&self, s: Square) -> (p: Piece)
        ensures
            p == self.piece_at(s),
    {
        let offset = s.to_offset();
        self.squares[offset]
    }

    /// The board that holds `p` on square `s` and is like this one everywhere else. This
    /// board is left as it was.
    pub fn set(&self, s: Square, p: Piece) -> (next: Board)
        ensures
            next@ == self.with_piece(s, p),
    {
        let offset = s.to_offset();
        let mut next = *self;
        next.squares[offset] = p;
        next
    }

    /// Draws the board in the standard style.
    pub fn to_string(&self) -> (t: String)
        ensures
            t@ == board_text(self@, Style::standard()),
    {
        self.render(Style { space_for_blank: false, plain_trailer: false })
    }

    /// Draws the board as text: one line for each rank, from rank 8 down to rank 1, made of
    /// the rank's digit and its cells between `|`, then a last line that names the files.
    pub fn render(&self, style: Style) -> (t: String)
        ensures
            t@ == board_text(self@, style),
    {
        let mut out = String::new();
        let mut y: usize = 8;
        while y > 0
            invariant
                y <= 8,
                out@ == ranks_text(self@, y as int, style),
            decreases y,
        {
            y = y - 1;
            let ghost before = out@;
            out.append(rank_str(y as u8));
            let mut x: usize = 0;
            while x < 8
                invariant
                    x <= 8,
                    y < 8,
                    out@ == before + seq![rank_char(y as int)] + cells_text(
                        self@,
                        y as int,
                        x as int,
                        style,
                    ),
                decreases 8 - x,
            {
                let p = self.squares[y * 8 + x];
                out.append("|");
                out.append(cell_str(p, style));
                proof {
                    reveal_strlit("|");
                    assert(out@ =~= before + seq![rank_char(y as int)] + cells_text(
                        self@,
                        y as int,
                        x + 1,
                        style,
                    ));
                }
                x = x + 1;
            }
            out.append("|\n");
            proof {
                reveal_strlit("|\n");
                assert(out@ =~= ranks_text(self@, y as int, style));
            }
        }
        if style.plain_trailer {
            out.append("  a b c d e f g h");
        } else {
            out.append("-|a b c d e f g h");
        }
        out
    }
}

/// The text drawn for a cell that holds `p`.
pub fn cell_str(p: Piece, style: Style) -> (t: &'static str)
    ensures
        t@ == seq![cell_symbol(p, style)],
{
    if matches!(p.kind, Kind::Blank) && style.space_for_blank {
        proof {
            reveal_strlit(" ");
        }
        let t = " ";
        assert(t@ =~= seq![' ']);
        t
    } else {
        p.kind.to_string(p.player)
    }
}

/// The board on which every game starts.
pub fn initial() -> (b: Board)
    ensures
        b@ == initial_cells(),
{
    let e = blank();
    let wp = white_pawn();
    let wn = white_knight();
    let wb = white_bishop();
    let wr = white_rook();
    let wq = white_queen();
    let wk = white_king();
    let bp = black_pawn();
    let bn = black_knight();
    let bb = black_bishop();
    let br = black_rook();
    let bq = black_queen();
    let bk = black_king();
    let b = Board {
        squares: [
            wr, wn, wb, wq, wk, wb, wn, wr,
            wp, wp, wp, wp, wp, wp, wp, wp,
            e, e, e, e, e, e, e, e,
            e, e, e, e, e, e, e, e,
            e, e, e, e, e, e, e, e,
            e, e, e, e, e, e, e, e,
            bp, bp, bp, bp, bp, bp, bp, bp,
            br, bn, bb, bq, bk, bb, bn, br,
        ],
    };
    assert(b@ =~= initial_cells());
    b
}

} // verus!
