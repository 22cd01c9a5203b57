//! A small chess engine on a bordered 10x10 board: position bookkeeping,
//! pseudo-legal move generation, check detection, static evaluation and a
//! depth-limited alpha-beta search. Every function carries a contract over a
//! mathematical model of the board.

pub mod board;
pub mod check;
pub mod error;
pub mod eval;
pub mod helpers;
pub mod legal;
pub mod ordering;
pub mod search;
pub mod square;
pub mod text;
pub mod valid_moves;
