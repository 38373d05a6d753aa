//! Decides whether chess games, written as short algebraic move tokens, are played by the
//! rules of movement.
//!
//! A game is text: one round per line, each round holding White's move and, optionally,
//! Black's. Every token is parsed into a move, checked against the board it is played on,
//! and, when legal, turned into the board that follows. Check, checkmate, turn ownership,
//! castling, en passant and promotion are outside what this crate decides.
//!
//! Every function carries a contract over a mathematical model of its arguments: a text is
//! its sequence of characters, a board the sequence of its 64 cells.

pub mod board;
pub mod error;
pub mod game;
pub mod moves;
pub mod piece;
pub mod squares;
pub mod text;
