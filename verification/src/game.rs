//! Games: the moves of a text, in the order in which they are played.
//!
//! A game text holds one round per line. A round is White's move, or White's move and
//! Black's, separated by white space. A line with no token, or with more than two, makes
//! the whole text unreadable.

use crate::board::Board;
use crate::error::ParseError;
use crate::moves::{lemma_text_is_word, parse_chars, turn, Move};
use crate::piece::{Piece, Player};
use crate::text::{
    chars_of, lemma_line_len_shift, lemma_line_over, lemma_line_within,
    lemma_tokens_of_one_word, lemma_tokens_of_two_words, line_end, line_len, next_token,
    tokens,
};
use vstd::prelude::*;
use vstd::slice::slice_subrange;

verus! {

/// The moves of a game in the order in which they are played, White's first.
pub struct Game {
    moves: Vec<Move>,
}

/// The moves `first`, then what `rest` holds; the failure of `rest` where it is one.
pub open spec fn followed_by(first: Seq<Move>, rest: Result<Seq<Move>, ParseError>) -> Result<
    Seq<Move>,
    ParseError,
> {
    match rest {
        Ok(more) => Ok(first + more),
        Err(e) => Err(e),
    }
}

/// What parsing one line yields: White's move where the line holds one token, White's and
/// Black's where it holds two, `ParseError::GameFormat` for any other number of tokens,
/// and `ParseError::MoveFormat` where a token is not a move.
pub open spec fn parse_round(line: Seq<char>) -> Result<Seq<Move>, ParseError> {
    let found = tokens(line);
    if found.len() == 1 {
        match crate::moves::parse(found[0], Player::White) {
            Ok(white) => Ok(seq![white]),
            Err(e) => Err(e),
        }
    } else if found.len() == 2 {
        match crate::moves::parse(found[0], Player::White) {
            Ok(white) => match crate::moves::parse(found[1], Player::Black) {
                Ok(black) => Ok(seq![white, black]),
                Err(e) => Err(e),
            },
            Err(e) => Err(e),
        }
    } else {
        Err(ParseError::GameFormat)
    }
}

/// What parsing the lines that start at or behind position `at` yields: the moves of all
/// of them in order, or the failure of the first line that has one.
pub open spec fn parse_from(t: Seq<char>, at: int) -> Result<Seq<Move>, ParseError>
    decreases t.len() - at,
{
    if at < 0 || at >= t.len() {
        Ok(Seq::empty())
    } else {
        let end = at + line_len(t, at);
        match parse_round(t.subrange(at, end)) {
            Err(e) => Err(e),
            Ok(round) => followed_by(
                round,
                if end < t.len() {
                    parse_from(t, end + 1)
                } else {
                    Ok(Seq::empty())
                },
            ),
        }
    }
}

/// What parsing a game text yields: its moves, or why it is no game.
pub open spec fn parse(t: Seq<char>) -> Result<Seq<Move>, ParseError> {
    parse_from(t, 0)
}

/// Where playing the moves from index `i` on leads from a board with the given cells: the
/// cells reached, and whether every move was legal. Play stops at the first illegal move,
/// with the cells as they were just before it.
pub open spec fn play_from(moves: Seq<Move>, i: int, cells: Seq<Piece>) -> (Seq<Piece>, bool)
    decreases moves.len() - i,
{
    if i < 0 || i >= moves.len() {
        (cells, true)
    } else {
        match moves[i].outcome(cells) {
            None => (cells, false),
            Some(next) => play_from(moves, i + 1, next),
        }
    }
}

/// Where playing all the moves leads from a board with the given cells.
pub open spec fn play(moves: Seq<Move>, cells: Seq<Piece>) -> (Seq<Piece>, bool) {
    play_from(moves, 0, cells)
}

/// What is written behind the move with index `i`: a space, and behind every second move
/// a line feed as well, so that a round fills a line.
pub open spec fn separator(i: int) -> Seq<char> {
    if i % 2 == 0 {
        seq![' ']
    } else {
        seq![' ', '\n']
    }
}

/// The moves from index `i` on as text, each followed by its separator.
pub open spec fn text_from(moves: Seq<Move>, i: int) -> Seq<char>
    decreases moves.len() - i,
{
    if i < 0 || i >= moves.len() {
        Seq::empty()
    } else {
        moves[i].text() + separator(i) + text_from(moves, i + 1)
    }
}

/// A game as text: every move followed by its separator.
pub open spec fn game_text(moves: Seq<Move>) -> Seq<char> {
    text_from(moves, 0)
}

/// A game without moves leaves every board as it is, and succeeds.
pub proof fn lemma_empty_game(cells: Seq<Piece>)
    ensures
        play(Seq::<Move>::empty(), cells) == (cells, true),
{
}

/// What the lines behind a position parse to does not depend on the text before it.
pub proof fn lemma_parse_shift(before: Seq<char>, t: Seq<char>, at: int)
    requires
        0 <= at <= t.len(),
    ensures
        parse_from(before + t, before.len() + at) == parse_from(t, at),
    decreases t.len() - at,
{
    if at < t.len() {
        let whole = before + t;
        let len = line_len(t, at) as int;
        lemma_line_len_shift(before, t, at);
        lemma_line_within(t, at);
        assert(whole.subrange(before.len() + at, before.len() + at + len) =~= t.subrange(
            at,
            at + len,
        ));
        if at + len < t.len() {
            lemma_parse_shift(before, t, at + len + 1);
        }
    }
}

/// Writing a game and parsing the text gives the moves back, for every sequence of moves
/// that tokens can denote, White's and Black's in turns.
pub proof fn lemma_text_round_trip(moves: Seq<Move>)
    requires
        forall|i: int| 0 <= i < moves.len() ==> (#[trigger] moves[i]).denotable(turn(i)),
    ensures
        parse(game_text(moves)) == Ok::<Seq<Move>, ParseError>(moves),
{
    lemma_rest_round_trip(moves, 0);
    assert(moves.skip(0) =~= moves);
}

/// Parsing the text of the moves from an even index on gives those moves.
proof fn lemma_rest_round_trip(moves: Seq<Move>, i: int)
    requires
        forall|k: int| 0 <= k < moves.len() ==> (#[trigger] moves[k]).denotable(turn(k)),
        0 <= i <= moves.len(),
        i % 2 == 0,
    ensures
        parse(text_from(moves, i)) == Ok::<Seq<Move>, ParseError>(moves.skip(i)),
    decreases moves.len() - i,
{
    let t = text_from(moves, i);
    if i >= moves.len() {
        assert(moves.skip(i) =~= Seq::<Move>::empty());
    } else {
        let white = moves[i];
        let w = white.text();
        assert(white.denotable(Player::White));
        lemma_text_is_word(white, Player::White);
        crate::moves::lemma_text_round_trip(white, Player::White);
        if i + 1 == moves.len() {
            assert(text_from(moves, i + 1) =~= Seq::<char>::empty());
            assert(t =~= w + seq![' ']);
            assert forall|k: int| 0 <= k < t.len() implies #[trigger] t[k] != '\n' by {
                if k < w.len() {
                    assert(t[k] == w[k]);
                }
            }
            lemma_line_over(t, 0, t.len() as int);
            assert(t.subrange(0, t.len() as int) =~= t);
            lemma_tokens_of_one_word(w);
            assert(seq![white] + Seq::<Move>::empty() =~= moves.skip(i));
        } else {
            let black = moves[i + 1];
            let b = black.text();
            assert(black.denotable(Player::Black));
            lemma_text_is_word(black, Player::Black);
            crate::moves::lemma_text_round_trip(black, Player::Black);
            let line = w + seq![' '] + b + seq![' '];
            let rest = text_from(moves, i + 2);
            assert(text_from(moves, i + 1) =~= b + seq![' ', '\n'] + rest);
            assert(t =~= (line + seq!['\n']) + rest);
            assert forall|k: int| 0 <= k < line.len() implies #[trigger] t[k] != '\n' by {
                if k < w.len() {
                    assert(t[k] == w[k]);
                } else if w.len() < k < w.len() + 1 + b.len() {
                    assert(t[k] == b[k - w.len() - 1]);
                }
            }
            assert(t[line.len() as int] == '\n');
            lemma_line_over(t, 0, line.len() as int);
            assert(t.subrange(0, line.len() as int) =~= line);
            lemma_tokens_of_two_words(w, b);
            lemma_parse_shift(line + seq!['\n'], rest, 0);
            lemma_rest_round_trip(moves, i + 2);
            assert(seq![white, black] + moves.skip(i + 2) =~= moves.skip(i));
        }
    }
}

impl View for Game {
    type V = Seq<Move>;

    /// The moves in the order in which they are played.
    closed spec fn view(&self) -> Seq<Move> {
        self.moves@
    }
}

impl Game {
    /// Applies this game to a board. `Ok` holds the board after the last move when every
    /// move was legal. `Err` holds the board as it was just before the first illegal
    /// move, and no later move is looked at.
    pub fn apply(&self, board: Board) -> (r: Result<Board, Board>)
        ensures
            match r {
                Ok(last) => play(self@, board@) == (last@, true),
                Err(reached) => play(self@, board@) == (reached@, false),
            },
    {
        let mut current = board;
        let mut i: usize = 0;
        while i < self.moves.len()
            invariant
                i <= self.moves.len(),
                play(self@, board@) == play_from(self@, i as int, current@),
            decreases self.moves.len() - i,
        {
            match self.moves[i].apply(current) {
                Some(next) => {
                    current = next;
                },
                None => {
                    return Err(current);
                },
            }
            i = i + 1;
        }
        Ok(current)
    }

    /// The moves of this game in the order in which they are played.
    pub fn moves(&self) -> (m: &Vec<Move>)
        ensures
            m@ == self@,
    {
        &self.moves
    }

    /// Writes the game as text, one round to a line.
    pub fn to_string(&self) -> (t: String)
        ensures
            t@ == game_text(self@),
    {
        let mut out = String::new();
        let mut i: usize = 0;
        while i < self.moves.len()
            invariant
                i <= self.moves.len(),
                game_text(self@) == out@ + text_from(self@, i as int),
            decreases self.moves.len() - i,
        {
            let ghost before = out@;
            out.append(self.moves[i].to_string().as_str());
            if i % 2 == 0 {
                out.append(" ");
            } else {
                out.append(" \n");
            }
            proof {
                reveal_strlit(" ");
                reveal_strlit(" \n");
                assert(out@ =~= before + self@[i as int].text() + separator(i as int));
                assert(before + text_from(self@, i as int) =~= out@ + text_from(self@, i + 1));
            }
            i = i + 1;
        }
        assert(out@ + text_from(self@, i as int) =~= out@);
        out
    }
}

/// Parses the tokens of one line into White's move and, where there is one, Black's.
pub fn parse_line(line: &[char]) -> (r: Result<(Move, Option<Move>), ParseError>)
    ensures
        match r {
            Ok((white, Some(black))) => parse_round(line@) == Ok::<Seq<Move>, ParseError>(
                seq![white, black],
            ),
            Ok((white, None)) => parse_round(line@) == Ok::<Seq<Move>, ParseError>(seq![white]),
            Err(e) => parse_round(line@) == Err::<Seq<Move>, ParseError>(e),
        },
{
    let (s0, e0) = match next_token(line, 0) {
        Some(found) => found,
        None => {
            return Err(ParseError::GameFormat);
        },
    };
    match next_token(line, e0) {
        None => {
            assert(tokens(line@) =~= seq![line@.subrange(s0 as int, e0 as int)]);
            match parse_chars(slice_subrange(line, s0, e0), Player::White) {
                Ok(white) => Ok((white, None)),
                Err(e) => Err(e),
            }
        },
        Some((s1, e1)) => {
            match next_token(line, e1) {
                Some(_) => {
                    assert(tokens(line@).len() >= 3);
                    Err(ParseError::GameFormat)
                },
                None => {
                    assert(tokens(line@) =~= seq![
                        line@.subrange(s0 as int, e0 as int),
                        line@.subrange(s1 as int, e1 as int),
                    ]);
                    match parse_chars(slice_subrange(line, s0, e0), Player::White) {
                        Err(e) => Err(e),
                        Ok(white) => match parse_chars(
                            slice_subrange(line, s1, e1),
                            Player::Black,
                        ) {
                            Err(e) => Err(e),
                            Ok(black) => Ok((white, Some(black))),
                        },
                    }
                },
            }
        },
    }
}

/// Parses a game text: one round per line, each round White's move and, optionally,
/// Black's. The first line that holds no token or more than two, or a token that is not a
/// move, makes the whole text fail, and no part of a game is returned.
pub fn from_str(s: &str) -> (r: Result<Game, ParseError>)
    ensures
        match r {
            Ok(game) => parse(s@) == Ok::<Seq<Move>, ParseError>(game@),
            Err(e) => parse(s@) == Err::<Seq<Move>, ParseError>(e),
        },
{
    let chars = chars_of(s);
    let t = chars.as_slice();
    let mut moves: Vec<Move> = Vec::new();
    let mut at: usize = 0;
    while at < t.len()
        invariant
            at <= t@.len(),
            t@ == s@,
            parse(s@) == followed_by(moves@, parse_from(t@, at as int)),
        decreases t@.len() - at,
    {
        let end = line_end(t, at);
        let ghost before = moves@;
        match parse_line(slice_subrange(t, at, end)) {
            Err(e) => {
                return Err(e);
            },
            Ok((white, None)) => {
                moves.push(white);
            },
            Ok((white, Some(black))) => {
                moves.push(white);
                moves.push(black);
            },
        }
        let next: usize = if end < t.len() { end + 1 } else { end };
        proof {
            let round = parse_round(t@.subrange(at as int, end as int))->Ok_0;
            assert(moves@ =~= before + round);
            let rest = parse_from(t@, next as int);
            assert(parse_from(t@, at as int) == followed_by(round, rest));
            match rest {
                Ok(more) => {
                    assert(before + (round + more) =~= (before + round) + more);
                },
                Err(_) => {},
            }
        }
        at = next;
    }
    assert(moves@ + Seq::<Move>::empty() =~= moves@);
    Ok(Game { moves })
}

} // verus!
