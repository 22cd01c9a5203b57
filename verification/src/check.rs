//! Check detection: whether the king of the side to move is attacked.
//!
//! The detector looks outwards from the king. It generates the moves that a
//! bishop, a rook, a knight, a king and a pawn of the king's own colour would
//! have from the king's square, and asks whether one of them lands on an
//! enemy piece that moves in that way.

use vstd::prelude::*;
use crate::board::{Board, Position};
use crate::square::{Color, Move, Piece, PieceType, Square};
use crate::valid_moves::{
    get_bishop_moves, get_king_moves, get_knight_moves, get_pawn_moves,
    get_rook_moves, pawn_moves, slide_moves, step_moves, BISHOP_MOVE_DIRECTIONS,
    KING_QUEEN_MOVE_DIRECTIONS, KNIGHT_STEPPING_MOVES, ROOK_MOVE_DIRECTIONS,
};

verus! {

/// Whether `square` holds the king of `color`.
pub open spec fn holds_king(square: Square, color: Color) -> bool {
    square.piece == Some(Piece { piece_type: PieceType::King, color })
}

/// The first index from `start` on that holds the king of `color`.
pub open spec fn king_square_from(squares: Seq<Square>, color: Color, start: int) -> Option<int>
    decreases squares.len() - start,
{
    if start < 0 || start >= squares.len() {
        None
    } else if holds_king(squares[start], color) {
        Some(start)
    } else {
        king_square_from(squares, color, start + 1)
    }
}

/// The square of the king of `color`: the first one that holds it.
pub open spec fn king_square(squares: Seq<Square>, color: Color) -> Option<int> {
    king_square_from(squares, color, 0)
}

/// Whether `m` lands on an enemy of `color` of kind `first` or `second`.
pub open spec fn finds_attacker(
    squares: Seq<Square>,
    m: Move,
    color: Color,
    first: PieceType,
    second: PieceType,
) -> bool {
    match squares[m.to as int].piece {
        Some(p) => (p.piece_type == first || p.piece_type == second) && p.color != color,
        None => false,
    }
}

/// Whether one of `moves` lands on an enemy of `color` of kind `first` or
/// `second`.
pub open spec fn any_attacker(
    squares: Seq<Square>,
    moves: Seq<Move>,
    color: Color,
    first: PieceType,
    second: PieceType,
) -> bool {
    exists|i: int|
        0 <= i < moves.len() && finds_attacker(squares, #[trigger] moves[i], color, first, second)
}

/// Whether a king of `color` on square `king` is attacked: along a diagonal
/// by a bishop or queen, along a rank or file by a rook or queen, by a
/// knight, by the other king, or by a pawn.
pub open spec fn attacked(squares: Seq<Square>, king: int, color: Color) -> bool {
    ||| any_attacker(
        squares,
        slide_moves(squares, king, BISHOP_MOVE_DIRECTIONS@, color),
        color,
        PieceType::Bishop,
        PieceType::Queen,
    )
    ||| any_attacker(
        squares,
        slide_moves(squares, king, ROOK_MOVE_DIRECTIONS@, color),
        color,
        PieceType::Rook,
        PieceType::Queen,
    )
    ||| any_attacker(
        squares,
        step_moves(squares, king, KNIGHT_STEPPING_MOVES@, color),
        color,
        PieceType::Knight,
        PieceType::Knight,
    )
    ||| any_attacker(
        squares,
        step_moves(squares, king, KING_QUEEN_MOVE_DIRECTIONS@, color),
        color,
        PieceType::King,
        PieceType::King,
    )
    ||| any_attacker(
        squares,
        pawn_moves(squares, king, color),
        color,
        PieceType::Pawn,
        PieceType::Pawn,
    )
}

/// Whether the side to move is in check. A side without a king is not.
pub open spec fn in_check(position: Position) -> bool {
    match king_square(position.squares, position.side) {
        Some(king) => attacked(position.squares, king, position.side),
        None => false,
    }
}

fn find_king(board: &Board, color: Color) -> (found: Option<usize>)
    requires
        board@.squares.len() == 100,
    ensures
        match found {
            Some(king) => king < 100 && king_square(board@.squares, color) == Some(king as int),
            None => king_square(board@.squares, color) is None,
        },
{
    let mut i: usize = 0;
    while i < 100
        invariant
            i <= 100,
            board@.squares.len() == 100,
            king_square(board@.squares, color) == king_square_from(board@.squares, color, i as int),
        decreases 100 - i,
    {
        let is_king = match board.get_piece_at(i) {
            Some(p) => p.piece_type == PieceType::King && p.color == color,
            None => false,
        };
        if is_king {
            return Some(i);
        }
        i += 1;
    }
    None
}

fn lands_on_attacker(
    board: &Board,
    moves: &Vec<Move>,
    color: Color,
    first: PieceType,
    second: PieceType,
) -> (found: bool)
    requires
        board@.squares.len() == 100,
        forall|i: int| 0 <= i < moves@.len() ==> (#[trigger] moves@[i]).to < 100,
    ensures
        found == any_attacker(board@.squares, moves@, color, first, second),
{
    let mut i: usize = 0;
    while i < moves.len()
        invariant
            i <= moves@.len(),
            board@.squares.len() == 100,
            forall|j: int| 0 <= j < moves@.len() ==> (#[trigger] moves@[j]).to < 100,
            forall|j: int|
                0 <= j < i ==> !finds_attacker(
                    board@.squares,
                    #[trigger] moves@[j],
                    color,
                    first,
                    second,
                ),
        decreases moves@.len() - i,
    {
        let hit = match board.get_piece_at(moves[i].to) {
            Some(p) => (p.piece_type == first || p.piece_type == second) && p.color != color,
            None => false,
        };
        if hit {
            assert(finds_attacker(board@.squares, moves@[i as int], color, first, second));
            return true;
        }
        i += 1;
    }
    false
}

/// Whether the king of the side to move is attacked. On a board without
/// that king the answer is no.
pub fn is_check(board: Board) -> (check: bool)
    requires
        board@.squares.len() == 100,
    ensures
        check == in_check(board@),
{
    let current_color: Color = board.current_turn.color;
    let king_position: usize = match find_king(&board, current_color) {
        Some(king) => king,
        None => {
            return false;
        },
    };
    let king = king_position as i8;
    let bishop_moves = get_bishop_moves(king, &board, current_color);
    if lands_on_attacker(&board, &bishop_moves, current_color, PieceType::Bishop, PieceType::Queen) {
        return true;
    }
    let rook_moves = get_rook_moves(king, &board, current_color);
    if lands_on_attacker(&board, &rook_moves, current_color, PieceType::Rook, PieceType::Queen) {
        return true;
    }
    let knight_moves = get_knight_moves(king, &board, current_color);
    if lands_on_attacker(&board, &knight_moves, current_color, PieceType::Knight, PieceType::Knight) {
        return true;
    }
    let king_moves = get_king_moves(king, &board, current_color);
    if lands_on_attacker(&board, &king_moves, current_color, PieceType::King, PieceType::King) {
        return true;
    }
    let pawn_moves = get_pawn_moves(king, &board, current_color);
    lands_on_attacker(&board, &pawn_moves, current_color, PieceType::Pawn, PieceType::Pawn)
}

} // verus!
