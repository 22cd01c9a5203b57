//! The value types of the board: colours, piece kinds, pieces, squares,
//! moves and the side to move.

use vstd::prelude::*;
use crate::error::ChessError;
use crate::helpers::{index_to_square, on_board, square_index, square_name, square_to_index};

verus! {

/// One of the two sides.
#[derive(Copy, Clone, Debug, PartialEq, Eq, Structural)]
pub enum Color {
    White,
    Black,
}

impl Color {
    /// The other side.
    pub open spec fn opposite(self) -> Color {
        match self {
            Color::White => Color::Black,
            Color::Black => Color::White,
        }
    }
}

/// The six kinds of chess piece.
#[derive(Copy, Clone, Debug, PartialEq, Eq, Structural)]
pub enum PieceType {
    Pawn,
    Knight,
    Bishop,
    Rook,
    Queen,
    King,
}

/// A piece: its kind and the side that owns it.
#[derive(Copy, Clone, Debug, PartialEq, Eq, Structural)]
pub struct Piece {
    pub piece_type: PieceType,
    pub color: Color,
}

impl Piece {
    pub fn new(piece_type: PieceType, color: Color) -> (piece: Piece)
        ensures
            piece.piece_type == piece_type,
            piece.color == color,
    {
        Piece { piece_type, color }
    }
}

/// One cell of the bordered board: a piece, an empty interior cell, or an
/// edge sentinel.
#[derive(Copy, Clone, Debug)]
pub struct Square {
    pub piece: Option<Piece>,
    pub is_edge: bool,
}

impl Square {
    /// An interior square holding `piece`.
    pub fn new(piece: Piece) -> (square: Square)
        ensures
            square == Square::occupied(piece),
    {
        Square { piece: Some(piece), is_edge: false }
    }

    /// The interior square that holds `piece`.
    pub open spec fn occupied(piece: Piece) -> Square {
        Square { piece: Some(piece), is_edge: false }
    }

    /// The empty interior square.
    pub open spec fn vacant() -> Square {
        Square { piece: None, is_edge: false }
    }

    /// The edge sentinel.
    pub open spec fn edge() -> Square {
        Square { piece: None, is_edge: true }
    }
}

/// A move from one board index to another. The piece that moves is the one
/// on the origin square.
#[derive(Copy, Clone, Debug, PartialEq, Eq, Structural)]
pub struct Move {
    pub from: usize,
    pub to: usize,
}

impl Move {
    pub fn new(from: usize, to: usize) -> (m: Move)
        ensures
            m.from == from,
            m.to == to,
    {
        Move { from, to }
    }

    /// The move between two named squares. A name that stands for no square
    /// of the board is refused.
    pub fn from_chess_move(chess_move: (String, String)) -> (result: Result<Move, ChessError>)
        ensures
            match result {
                Ok(m) => square_index(chess_move.0@) == Some(m.from as int) && square_index(
                    chess_move.1@,
                ) == Some(m.to as int),
                Err(e) => e == ChessError::InvalidSquare && (square_index(chess_move.0@) is None
                    || square_index(chess_move.1@) is None),
            },
    {
        let from = match square_to_index(chess_move.0) {
            Ok(index) => index,
            Err(e) => {
                return Err(e);
            },
        };
        let to = match square_to_index(chess_move.1) {
            Ok(index) => index,
            Err(e) => {
                return Err(e);
            },
        };
        Ok(Move { from, to })
    }

    /// The names of the origin and of the destination. A move that touches
    /// an index outside the 64 playable ones is refused.
    pub fn to_chess_move(&self) -> (result: Result<(String, String), ChessError>)
        ensures
            match result {
                Ok(names) => {
                    &&& on_board(self.from as int)
                    &&& on_board(self.to as int)
                    &&& names.0@ == square_name(self.from as int)
                    &&& names.1@ == square_name(self.to as int)
                },
                Err(e) => e == ChessError::InvalidSquare && !(on_board(self.from as int)
                    && on_board(self.to as int)),
            },
    {
        let from = match index_to_square(self.from) {
            Ok(name) => name,
            Err(e) => {
                return Err(e);
            },
        };
        let to = match index_to_square(self.to) {
            Ok(name) => name,
            Err(e) => {
                return Err(e);
            },
        };
        Ok((from, to))
    }
}

/// The side to move.
#[derive(Copy, Clone, Debug)]
pub struct Turn {
    pub color: Color,
}

impl Turn {
    /// Hands the move to the other side.
    pub fn toggle(&mut self)
        ensures
            final(self).color == old(self).color.opposite(),
    {
        self.color = match self.color {
            Color::White => Color::Black,
            _ => Color::White,
        }
    }
}

} // verus!
