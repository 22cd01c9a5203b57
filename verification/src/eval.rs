//! Static evaluation: material and piece-square values, summed for each
//! side.

use vstd::prelude::*;
use crate::board::{Board, Position};
use crate::square::{Color, Piece, PieceType, Square};

verus! {

/// What a black pawn is worth on each square, beyond its material.
pub const BLACK_PAWN_POSITIONAL_VALUE: [u32; 100] = [
    0, 0, 0, 0, 0, 0, 0, 0, 0, 0,
    0, 0, 0, 0, 0, 0, 0, 0, 0, 0,
    0, 20, 20, 20, 20, 20, 50, 50, 50, 0,
    0, 30, 30, 40, 40, 40, 20, 40, 40, 0,
    0, 10, 10, 50, 50, 50, 10, 30, 30, 0,
    0, 20, 20, 40, 40, 40, 20, 20, 20, 0,
    0, 20, 20, 30, 30, 30, 20, 20, 20, 0,
    0, 20, 20, 20, 20, 20, 20, 20, 20, 0,
    0, 100, 100, 100, 100, 100, 100, 100, 100, 0,
    0, 0, 0, 0, 0, 0, 0, 0, 0, 0,
];

/// What a white pawn is worth on each square, beyond its material.
pub const WHITE_PAWN_POSITIONAL_VALUE: [u32; 100] = [
    0, 0, 0, 0, 0, 0, 0, 0, 0, 0,
    0, 100, 100, 100, 100, 100, 100, 100, 100, 0,
    0, 20, 20, 20, 20, 20, 20, 20, 20, 0,
    0, 20, 20, 30, 30, 30, 20, 20, 20, 0,
    0, 20, 20, 40, 40, 40, 20, 20, 20, 0,
    0, 10, 10, 50, 50, 50, 10, 30, 30, 0,
    0, 30, 30, 40, 40, 40, 20, 40, 40, 0,
    0, 20, 20, 20, 20, 20, 50, 50, 50, 0,
    0, 0, 0, 0, 0, 0, 0, 0, 0, 0,
    0, 0, 0, 0, 0, 0, 0, 0, 0, 0,
];

/// What a black knight is worth on each square, beyond its material.
pub const BLACK_KNIGHT_POSITIONAL_VALUE: [u32; 100] = [
    0, 0, 0, 0, 0, 0, 0, 0, 0, 0,
    0, 0, 30, 10, 10, 10, 10, 30, 0, 0,
    0, 10, 20, 20, 30, 30, 20, 20, 10, 0,
    0, 10, 20, 40, 40, 40, 40, 20, 10, 0,
    0, 20, 30, 50, 50, 50, 50, 30, 20, 0,
    0, 20, 30, 50, 50, 50, 50, 30, 20, 0,
    0, 10, 20, 40, 40, 40, 40, 20, 10, 0,
    0, 10, 20, 20, 30, 30, 20, 20, 10, 0,
    0, 0, 10, 10, 10, 10, 10, 10, 0, 0,
    0, 0, 0, 0, 0, 0, 0, 0, 0, 0,
];

/// What a white knight is worth on each square, beyond its material.
pub const WHITE_KNIGHT_POSITIONAL_VALUE: [u32; 100] = [
    0, 0, 0, 0, 0, 0, 0, 0, 0, 0,
    0, 0, 10, 10, 10, 10, 10, 10, 0, 0,
    0, 10, 20, 20, 30, 30, 20, 20, 10, 0,
    0, 10, 20, 40, 40, 40, 40, 20, 10, 0,
    0, 20, 30, 50, 50, 50, 50, 30, 20, 0,
    0, 20, 30, 50, 50, 50, 50, 30, 20, 0,
    0, 10, 20, 40, 40, 40, 40, 20, 10, 0,
    0, 10, 20, 20, 30, 30, 20, 20, 10, 0,
    0, 0, 30, 10, 10, 10, 10, 30, 0, 0,
    0, 0, 0, 0, 0, 0, 0, 0, 0, 0,
];

/// What a black rook is worth on each square, beyond its material.
pub const BLACK_ROOK_POSITIONAL_VALUE: [u32; 100] = [
    0, 0, 0, 0, 0, 0, 0, 0, 0, 0,
    0, 50, 20, 20, 50, 50, 50, 0, 50, 0,
    0, 0, 0, 0, 0, 0, 0, 0, 0, 0,
    0, 0, 0, 0, 0, 0, 0, 0, 0, 0,
    0, 0, 0, 0, 0, 0, 0, 0, 0, 0,
    0, 0, 0, 0, 0, 0, 0, 0, 0, 0,
    0, 0, 0, 0, 0, 0, 0, 0, 0, 0,
    0, 30, 30, 30, 30, 30, 30, 30, 30, 0,
    0, 30, 30, 30, 30, 30, 30, 30, 30, 0,
    0, 0, 0, 0, 0, 0, 0, 0, 0, 0,
];

/// What a white rook is worth on each square, beyond its material.
pub const WHITE_ROOK_POSITIONAL_VALUE: [u32; 100] = [
    0, 0, 0, 0, 0, 0, 0, 0, 0, 0,
    0, 30, 30, 30, 30, 30, 30, 30, 30, 0,
    0, 30, 30, 30, 30, 30, 30, 30, 30, 0,
    0, 0, 0, 0, 0, 0, 0, 0, 0, 0,
    0, 0, 0, 0, 0, 0, 0, 0, 0, 0,
    0, 0, 0, 0, 0, 0, 0, 0, 0, 0,
    0, 0, 0, 0, 0, 0, 0, 0, 0, 0,
    0, 0, 0, 0, 0, 0, 0, 0, 0, 0,
    0, 50, 20, 20, 50, 50, 50, 0, 50, 0,
    0, 0, 0, 0, 0, 0, 0, 0, 0, 0,
];

/// What a black bishop is worth on each square, beyond its material.
pub const BLACK_BISHOP_POSITIONAL_VALUE: [u32; 100] = [
    0, 0, 0, 0, 0, 0, 0, 0, 0, 0,
    0, 0, 0, 30, 0, 0, 30, 0, 0, 0,
    0, 0, 40, 0, 30, 30, 0, 40, 0, 0,
    0, 0, 0, 20, 20, 20, 20, 0, 0, 0,
    0, 0, 20, 40, 30, 30, 40, 20, 0, 0,
    0, 0, 40, 30, 20, 20, 30, 40, 0, 0,
    0, 0, 0, 0, 0, 0, 0, 0, 0, 0,
    0, 0, 0, 0, 0, 0, 0, 0, 0, 0,
    0, 0, 0, 0, 0, 0, 0, 0, 0, 0,
    0, 0, 0, 0, 0, 0, 0, 0, 0, 0,
];

/// What a white bishop is worth on each square, beyond its material.
pub const WHITE_BISHOP_POSITIONAL_VALUE: [u32; 100] = [
    0, 0, 0, 0, 0, 0, 0, 0, 0, 0,
    0, 0, 0, 0, 0, 0, 0, 0, 0, 0,
    0, 0, 0, 0, 0, 0, 0, 0, 0, 0,
    0, 0, 0, 0, 0, 0, 0, 0, 0, 0,
    0, 0, 40, 30, 20, 20, 30, 40, 0, 0,
    0, 0, 20, 40, 30, 30, 40, 20, 0, 0,
    0, 0, 0, 20, 20, 20, 20, 0, 0, 0,
    0, 0, 40, 0, 30, 30, 0, 40, 0, 0,
    0, 0, 0, 30, 0, 0, 30, 0, 0, 0,
    0, 0, 0, 0, 0, 0, 0, 0, 0, 0,
];

/// What a black queen is worth on each square, beyond its material.
pub const BLACK_QUEEN_POSITIONAL_VALUE: [u32; 100] = [
    0, 0, 0, 0, 0, 0, 0, 0, 0, 0,
    0, 0, 0, 0, 0, 0, 0, 0, 0, 0,
    0, 0, 0, 0, 0, 0, 0, 0, 0, 0,
    0, 0, 0, 0, 0, 0, 0, 0, 0, 0,
    0, 0, 0, 0, 0, 0, 0, 0, 0, 0,
    0, 0, 0, 0, 0, 0, 0, 0, 0, 0,
    0, 0, 0, 0, 0, 0, 0, 0, 0, 0,
    0, 0, 0, 0, 0, 0, 0, 0, 0, 0,
    0, 0, 0, 0, 0, 0, 0, 0, 0, 0,
    0, 0, 0, 0, 0, 0, 0, 0, 0, 0,
];

/// What a white queen is worth on each square, beyond its material.
pub const WHITE_QUEEN_POSITIONAL_VALUE: [u32; 100] = [
    0, 0, 0, 0, 0, 0, 0, 0, 0, 0,
    0, 0, 0, 0, 0, 0, 0, 0, 0, 0,
    0, 0, 0, 0, 0, 0, 0, 0, 0, 0,
    0, 0, 0, 0, 0, 0, 0, 0, 0, 0,
    0, 0, 0, 0, 0, 0, 0, 0, 0, 0,
    0, 0, 0, 0, 0, 0, 0, 0, 0, 0,
    0, 0, 0, 0, 0, 0, 0, 0, 0, 0,
    0, 0, 0, 0, 0, 0, 0, 0, 0, 0,
    0, 0, 0, 0, 0, 0, 0, 0, 0, 0,
    0, 0, 0, 0, 0, 0, 0, 0, 0, 0,
];

/// What a black king is worth on each square, beyond its material.
pub const BLACK_KING_POSITIONAL_VALUE: [u32; 100] = [
    0, 0, 0, 0, 0, 0, 0, 0, 0, 0,
    0, 0, 100, 100, 0, 50, 0, 100, 0, 0,
    0, 0, 0, 0, 0, 0, 0, 0, 0, 0,
    0, 0, 0, 0, 0, 0, 0, 0, 0, 0,
    0, 0, 0, 0, 0, 0, 0, 0, 0, 0,
    0, 0, 0, 0, 0, 0, 0, 0, 0, 0,
    0, 0, 0, 0, 0, 0, 0, 0, 0, 0,
    0, 0, 0, 0, 0, 0, 0, 0, 0, 0,
    0, 0, 0, 0, 0, 0, 0, 0, 0, 0,
    0, 0, 0, 0, 0, 0, 0, 0, 0, 0,
];

/// What a white king is worth on each square, beyond its material.
pub const WHITE_KING_POSITIONAL_VALUE: [u32; 100] = [
    0, 0, 0, 0, 0, 0, 0, 0, 0, 0,
    0, 0, 0, 0, 0, 0, 0, 0, 0, 0,
    0, 0, 0, 0, 0, 0, 0, 0, 0, 0,
    0, 0, 0, 0, 0, 0, 0, 0, 0, 0,
    0, 0, 0, 0, 0, 0, 0, 0, 0, 0,
    0, 0, 0, 0, 0, 0, 0, 0, 0, 0,
    0, 0, 0, 0, 0, 0, 0, 0, 0, 0,
    0, 0, 0, 0, 0, 0, 0, 0, 0, 0,
    0, 0, 100, 100, 0, 50, 0, 100, 0, 0,
    0, 0, 0, 0, 0, 0, 0, 0, 0, 0,
];

pub const PAWN_VALUE: u32 = 100;

pub const BISHOP_VALUE: u32 = 300;

pub const KNIGHT_VALUE: u32 = 300;

pub const ROOK_VALUE: u32 = 500;

pub const QUEEN_VALUE: u32 = 900;

pub const KING_VALUE: u32 = 10000;

/// The material value of a piece kind.
pub open spec fn material_value(kind: PieceType) -> int {
    match kind {
        PieceType::Pawn => 100,
        PieceType::Knight => 300,
        PieceType::Bishop => 300,
        PieceType::Rook => 500,
        PieceType::Queen => 900,
        PieceType::King => 10000,
    }
}

/// The piece-square table of a piece.
pub open spec fn positional_table(piece: Piece) -> Seq<u32> {
    match piece.color {
        Color::White => match piece.piece_type {
            PieceType::Pawn => WHITE_PAWN_POSITIONAL_VALUE@,
            PieceType::Knight => WHITE_KNIGHT_POSITIONAL_VALUE@,
            PieceType::Bishop => WHITE_BISHOP_POSITIONAL_VALUE@,
            PieceType::Rook => WHITE_ROOK_POSITIONAL_VALUE@,
            PieceType::Queen => WHITE_QUEEN_POSITIONAL_VALUE@,
            PieceType::King => WHITE_KING_POSITIONAL_VALUE@,
        },
        Color::Black => match piece.piece_type {
            PieceType::Pawn => BLACK_PAWN_POSITIONAL_VALUE@,
            PieceType::Knight => BLACK_KNIGHT_POSITIONAL_VALUE@,
            PieceType::Bishop => BLACK_BISHOP_POSITIONAL_VALUE@,
            PieceType::Rook => BLACK_ROOK_POSITIONAL_VALUE@,
            PieceType::Queen => BLACK_QUEEN_POSITIONAL_VALUE@,
            PieceType::King => BLACK_KING_POSITIONAL_VALUE@,
        },
    }
}

/// What `piece` is worth on square `index`: its material and the entry of
/// its piece-square table for that square.
pub open spec fn piece_worth(piece: Piece, index: int) -> int {
    material_value(piece.piece_type) + positional_table(piece)[index]
}

/// The most that one piece can be worth.
pub open spec fn max_piece_worth() -> int {
    10100
}

/// What the square `index` adds to the score of `color`: the worth of the
/// piece on it if that piece is of `color`, and nothing otherwise.
pub open spec fn square_worth(squares: Seq<Square>, color: Color, index: int) -> int {
    match squares[index].piece {
        Some(p) => if p.color == color {
            piece_worth(p, index)
        } else {
            0
        },
        None => 0,
    }
}

/// The score of `color` over the squares below `count`.
pub open spec fn score_below(squares: Seq<Square>, color: Color, count: int) -> int
    decreases count,
{
    if count <= 0 {
        0
    } else {
        score_below(squares, color, count - 1) + square_worth(squares, color, count - 1)
    }
}

/// The score of `color`: the worth of all its pieces.
pub open spec fn score(squares: Seq<Square>, color: Color) -> int {
    score_below(squares, color, 100)
}

/// The score of the side to move less that of the other side.
pub open spec fn relative_score(position: Position) -> int {
    score(position.squares, position.side) - score(position.squares, position.side.opposite())
}

/// The most that the score of one side can be.
pub open spec fn max_score() -> int {
    1010000
}

/// No table holds an entry above 100.
pub proof fn lemma_table_bound(piece: Piece, index: int)
    requires
        0 <= index < 100,
    ensures
        positional_table(piece)[index] <= 100,
        piece_worth(piece, index) <= max_piece_worth(),
{
}

/// The score over the first `count` squares is at most `count` times the
/// most that a piece can be worth, and never negative.
pub proof fn lemma_score_bound(squares: Seq<Square>, color: Color, count: int)
    requires
        0 <= count <= 100,
    ensures
        0 <= score_below(squares, color, count) <= count * max_piece_worth(),
    decreases count,
{
    if count > 0 {
        lemma_score_bound(squares, color, count - 1);
        match squares[count - 1].piece {
            Some(p) => {
                lemma_table_bound(p, count - 1);
            },
            None => {},
        }
    }
}

/// What a white piece of the kind of `piece` is worth on `board_index`.
pub fn get_value_of_white_piece(piece: Piece, board_index: usize) -> (value: u32)
    requires
        board_index < 100,
    ensures
        value == piece_worth(
            Piece { piece_type: piece.piece_type, color: Color::White },
            board_index as int,
        ),
{
    proof {
        lemma_table_bound(
            Piece { piece_type: piece.piece_type, color: Color::White },
            board_index as int,
        );
    }
    match piece.piece_type {
        PieceType::Pawn => WHITE_PAWN_POSITIONAL_VALUE[board_index] + PAWN_VALUE,
        PieceType::Knight => WHITE_KNIGHT_POSITIONAL_VALUE[board_index] + KNIGHT_VALUE,
        PieceType::Bishop => WHITE_BISHOP_POSITIONAL_VALUE[board_index] + BISHOP_VALUE,
        PieceType::Rook => WHITE_ROOK_POSITIONAL_VALUE[board_index] + ROOK_VALUE,
        PieceType::Queen => WHITE_QUEEN_POSITIONAL_VALUE[board_index] + QUEEN_VALUE,
        PieceType::King => WHITE_KING_POSITIONAL_VALUE[board_index] + KING_VALUE,
    }
}

/// What a black piece of the kind of `piece` is worth on `board_index`.
pub fn get_value_of_black_piece(piece: Piece, board_index: usize) -> (value: u32)
    requires
        board_index < 100,
    ensures
        value == piece_worth(
            Piece { piece_type: piece.piece_type, color: Color::Black },
            board_index as int,
        ),
{
    proof {
        lemma_table_bound(
            Piece { piece_type: piece.piece_type, color: Color::Black },
            board_index as int,
        );
    }
    match piece.piece_type {
        PieceType::Pawn => BLACK_PAWN_POSITIONAL_VALUE[board_index] + PAWN_VALUE,
        PieceType::Knight => BLACK_KNIGHT_POSITIONAL_VALUE[board_index] + KNIGHT_VALUE,
        PieceType::Bishop => BLACK_BISHOP_POSITIONAL_VALUE[board_index] + BISHOP_VALUE,
        PieceType::Rook => BLACK_ROOK_POSITIONAL_VALUE[board_index] + ROOK_VALUE,
        PieceType::Queen => BLACK_QUEEN_POSITIONAL_VALUE[board_index] + QUEEN_VALUE,
        PieceType::King => BLACK_KING_POSITIONAL_VALUE[board_index] + KING_VALUE,
    }
}

/// The score of White.
pub fn get_white_evaluation(board: &Board) -> (value: u32)
    requires
        board@.squares.len() == 100,
    ensures
        value == score(board@.squares, Color::White),
        value <= max_score(),
{
    let mut value: u32 = 0;
    let mut i: usize = 0;
    while i < 100
        invariant
            i <= 100,
            board@.squares.len() == 100,
            value == score_below(board@.squares, Color::White, i as int),
            value <= i * max_piece_worth(),
        decreases 100 - i,
    {
        proof {
            lemma_score_bound(board@.squares, Color::White, i + 1);
        }
        value = value + match board.get_piece_at(i) {
            Some(p) => match p.color {
                Color::White => get_value_of_white_piece(p, i),
                _ => 0,
            },
            None => 0,
        };
        i += 1;
    }
    value
}

/// The score of Black.
pub fn get_black_evaluation(board: &Board) -> (value: u32)
    requires
        board@.squares.len() == 100,
    ensures
        value == score(board@.squares, Color::Black),
        value <= max_score(),
{
    let mut value: u32 = 0;
    let mut i: usize = 0;
    while i < 100
        invariant
            i <= 100,
            board@.squares.len() == 100,
            value == score_below(board@.squares, Color::Black, i as int),
            value <= i * max_piece_worth(),
        decreases 100 - i,
    {
        proof {
            lemma_score_bound(board@.squares, Color::Black, i + 1);
        }
        value = value + match board.get_piece_at(i) {
            Some(p) => match p.color {
                Color::Black => get_value_of_black_piece(p, i),
                _ => 0,
            },
            None => 0,
        };
        i += 1;
    }
    value
}

/// The scores of both sides, White first.
pub fn get_snapshot_evaluation(board: &Board) -> (values: (u32, u32))
    requires
        board@.squares.len() == 100,
    ensures
        values.0 == score(board@.squares, Color::White),
        values.1 == score(board@.squares, Color::Black),
        values.0 <= max_score(),
        values.1 <= max_score(),
{
    (get_white_evaluation(board), get_black_evaluation(board))
}

} // verus!
