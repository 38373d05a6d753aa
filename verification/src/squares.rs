//! Board coordinates and their two-character text form.

use crate::error::ParseError;
use vstd::prelude::*;

verus! {

/// A coordinate of the board: a file (column, `a`..`h`) and a rank (row, `1`..`8`), both
/// kept as indices in `0..8`. Every value of this type lies on the board.
#[derive(Copy, Clone, Debug, PartialEq, Eq, Structural)]
pub struct Square {
    col: u8,
    row: u8,
}

/// `c` is one of the file letters `a`..`h`.
pub open spec fn is_file_char(c: char) -> bool {
    'a' <= c <= 'h'
}

/// `c` is one of the rank digits `1`..`8`.
pub open spec fn is_rank_char(c: char) -> bool {
    '1' <= c <= '8'
}

/// The index of the file that the letter `c` names.
pub open spec fn file_index(c: char) -> int {
    c as int - 'a' as int
}

/// The index of the rank that the digit `c` names.
pub open spec fn rank_index(c: char) -> int {
    c as int - '1' as int
}

/// The letter of the file with index `file`.
pub open spec fn file_char(file: int) -> char {
    seq!['a', 'b', 'c', 'd', 'e', 'f', 'g', 'h'][file]
}

/// The digit of the rank with index `rank`.
pub open spec fn rank_char(rank: int) -> char {
    seq!['1', '2', '3', '4', '5', '6', '7', '8'][rank]
}

/// A text names a square when it is exactly a file letter followed by a rank digit.
pub open spec fn is_square_text(t: Seq<char>) -> bool {
    t.len() == 2 && is_file_char(t[0]) && is_rank_char(t[1])
}

/// What parsing the two characters `file`, `rank` yields.
pub open spec fn parse_pair(file: char, rank: char) -> Result<Square, ParseError> {
    if is_file_char(file) && is_rank_char(rank) {
        Ok(Square::at(file_index(file), rank_index(rank)))
    } else {
        Err(ParseError::Square)
    }
}

/// What parsing the text `t` yields: the square it names, or `ParseError::Square`.
pub open spec fn parse(t: Seq<char>) -> Result<Square, ParseError> {
    if t.len() == 2 {
        parse_pair(t[0], t[1])
    } else {
        Err(ParseError::Square)
    }
}

impl Square {
    #[verifier::type_invariant]
    spec fn within_board(self) -> bool {
        self.col < 8 && self.row < 8
    }

    /// The index of this square's file, `0` for `a`.
    pub closed spec fn file(self) -> int {
        self.col as int
    }

    /// The index of this square's rank, `0` for rank `1`.
    pub closed spec fn rank(self) -> int {
        self.row as int
    }

    /// The square with the given file and rank indices.
    pub closed spec fn at(file: int, rank: int) -> Square {
        Square { col: file as u8, row: rank as u8 }
    }

    /// Both indices lie in `0..8`. This holds of every square that executable code holds.
    pub open spec fn on_board(self) -> bool {
        0 <= self.file() < 8 && 0 <= self.rank() < 8
    }

    /// The position of this square's cell in a board's 64 cells.
    pub open spec fn offset(self) -> int {
        self.rank() * 8 + self.file()
    }

    /// The two characters that name this square.
    pub open spec fn text(self) -> Seq<char> {
        seq![file_char(self.file()), rank_char(self.rank())]
    }

    /// `Square::at` builds the square with the indices it is given.
    pub proof fn lemma_at(file: int, rank: int)
        requires
            0 <= file < 8,
            0 <= rank < 8,
        ensures
            Square::at(file, rank).file() == file,
            Square::at(file, rank).rank() == rank,
            Square::at(file, rank).on_board(),
    {
    }

    /// A square is determined by its file and rank.
    pub proof fn lemma_same_indices(self, other: Square)
        requires
            self.on_board(),
            other.on_board(),
            self.file() == other.file(),
            self.rank() == other.rank(),
        ensures
            self == other,
    {
    }

    /// Squares on the board with the same offset are the same square.
    pub proof fn lemma_offset_injective(self, other: Square)
        requires
            self.on_board(),
            other.on_board(),
            self.offset() == other.offset(),
        ensures
            self == other,
    {
    }

    /// The square in column `col` (file) and row `row` (rank).
    pub fn new(col: u8, row: u8) -> (s: Square)
        requires
            col < 8,
            row < 8,
        ensures
            s == Square::at(col as int, row as int),
            s.file() == col,
            s.rank() == row,
    {
        Square { col, row }
    }

    /// The index of this square's file.
    pub fn column(&self) -> (c: u8)
        ensures
            c == self.file(),
            c < 8,
    {
        proof {
            use_type_invariant(self);
        }
        self.col
    }

    /// The index of this square's rank.
    pub fn row(&self) -> (r: u8)
        ensures
            r == self.rank(),
            r < 8,
    {
        proof {
            use_type_invariant(self);
        }
        self.row
    }

    /// The position of this square's cell in a board: `rank * 8 + file`.
    pub fn to_offset(&self) -> (o: usize)
        ensures
            o == self.offset(),
            o < 64,
            self.on_board(),
    {
        proof {
            use_type_invariant(self);
        }
        let row: usize = self.row as usize;
        let col: usize = self.col as usize;
        row * 8 + col
    }

    /// The two-character name of this square, such as `e4`.
    pub fn to_string(&self) -> (t: String)
        ensures
            t@ == self.text(),
    {
        let t = String::from_str(file_str(self.column())).concat(rank_str(self.row()));
        assert(t@ =~= self.text());
        t
    }
}

/// The file that the letter `c` names, if it names one.
pub fn parse_col(c: char) -> (r: Option<u8>)
    ensures
        r == if is_file_char(c) { Some(file_index(c) as u8) } else { None::<u8> },
        r matches Some(col) ==> col < 8,
{
    if 'a' <= c && c <= 'h' {
        Some((c as u32 - 'a' as u32) as u8)
    } else {
        None
    }
}

/// The rank that the digit `c` names, if it names one.
pub fn parse_row(c: char) -> (r: Option<u8>)
    ensures
        r == if is_rank_char(c) { Some(rank_index(c) as u8) } else { None::<u8> },
        r matches Some(row) ==> row < 8,
{
    if '1' <= c && c <= '8' {
        Some((c as u32 - '1' as u32) as u8)
    } else {
        None
    }
}

/// Parses a file letter and a rank digit into the square they name.
pub fn from_chars(file: char, rank: char) -> (r: Result<Square, ParseError>)
    ensures
        r == parse_pair(file, rank),
{
    match parse_col(file) {
        None => Err(ParseError::Square),
        Some(col) => match parse_row(rank) {
            None => Err(ParseError::Square),
            Some(row) => Ok(Square::new(col, row)),
        },
    }
}

/// Parses the name of a square: exactly two characters, a file letter `a`..`h` and a rank
/// digit `1`..`8`. Any other text is rejected with `ParseError::Square`.
pub fn from_str(s: &str) -> (r: Result<Square, ParseError>)
    ensures
        r == parse(s@),
{
    if s.unicode_len() != 2 {
        return Err(ParseError::Square);
    }
    from_chars(s.get_char(0), s.get_char(1))
}

/// The letter of a file, as text.
pub fn file_str(col: u8) -> (t: &'static str)
    requires
        col < 8,
    ensures
        t@ == seq![file_char(col as int)],
{
    proof {
        reveal_strlit("a");
        reveal_strlit("b");
        reveal_strlit("c");
        reveal_strlit("d");
        reveal_strlit("e");
        reveal_strlit("f");
        reveal_strlit("g");
        reveal_strlit("h");
    }
    let t = match col {
        0 => "a",
        1 => "b",
        2 => "c",
        3 => "d",
        4 => "e",
        5 => "f",
        6 => "g",
        _ => "h",
    };
    assert(t@ =~= seq![file_char(col as int)]);
    t
}

/// The digit of a rank, as text.
pub fn rank_str(row: u8) -> (t: &'static str)
    requires
        row < 8,
    ensures
        t@ == seq![rank_char(row as int)],
{
    proof {
        reveal_strlit("1");
        reveal_strlit("2");
        reveal_strlit("3");
        reveal_strlit("4");
        reveal_strlit("5");
        reveal_strlit("6");
        reveal_strlit("7");
        reveal_strlit("8");
    }
    let t = match row {
        0 => "1",
        1 => "2",
        2 => "3",
        3 => "4",
        4 => "5",
        5 => "6",
        6 => "7",
        _ => "8",
    };
    assert(t@ =~= seq![rank_char(row as int)]);
    t
}

/// Rendering a square and parsing the text gives the square back.
pub proof fn lemma_text_round_trip(s: Square)
    requires
        s.on_board(),
    ensures
        parse(s.text()) == Ok::<Square, ParseError>(s),
{
    let f = s.file();
    let r = s.rank();
    assert(is_file_char(file_char(f)) && file_index(file_char(f)) == f);
    assert(is_rank_char(rank_char(r)) && rank_index(rank_char(r)) == r);
    Square::lemma_at(f, r);
    s.lemma_same_indices(Square::at(f, r));
}

} // verus!
