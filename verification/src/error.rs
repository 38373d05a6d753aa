//! The ways in which a text can fail to be a square, a piece, a move or a game.

use vstd::prelude::*;

verus! {

/// Why a text was rejected by one of the parsers.
#[derive(Copy, Clone, Debug, PartialEq, Eq, Structural)]
pub enum ParseError {
    /// The text is not a file letter `a`..`h` followed by a rank digit `1`..`8`.
    Square,
    /// The text is neither empty nor one of the designators `N`, `B`, `R`, `Q`, `K`.
    Piece,
    /// The token is not a move: too short, too long, a bad square, or no separator.
    MoveFormat,
    /// A line of a game holds no token at all, or more than two.
    GameFormat,
}

} // verus!
