//! Board geometry and the character encoding of squares.
//!
//! The board is a 10x10 grid with a border one square wide. Rank 8 is the
//! first interior row (indices 11..18), rank 1 the last (81..88); files run
//! from `a` (last digit 1) to `h` (last digit 8).

use vstd::prelude::*;
use vstd::string::*;
use crate::error::ChessError;
use crate::square::{Color, Piece, PieceType, Square};

verus! {

/// Whether `index` is one of the 64 playable squares.
pub open spec fn on_board(index: int) -> bool {
    11 <= index <= 88 && index % 10 != 0 && index % 10 != 9
}

/// The number of a file letter, `a` and `A` being 0.
pub open spec fn file_number(c: char) -> Option<int> {
    if c == 'a' || c == 'A' {
        Some(0)
    } else if c == 'b' || c == 'B' {
        Some(1)
    } else if c == 'c' || c == 'C' {
        Some(2)
    } else if c == 'd' || c == 'D' {
        Some(3)
    } else if c == 'e' || c == 'E' {
        Some(4)
    } else if c == 'f' || c == 'F' {
        Some(5)
    } else if c == 'g' || c == 'G' {
        Some(6)
    } else if c == 'h' || c == 'H' {
        Some(7)
    } else {
        None
    }
}

/// The number of a rank digit, `1` to `8`.
pub open spec fn rank_number(c: char) -> Option<int> {
    if c == '1' {
        Some(1)
    } else if c == '2' {
        Some(2)
    } else if c == '3' {
        Some(3)
    } else if c == '4' {
        Some(4)
    } else if c == '5' {
        Some(5)
    } else if c == '6' {
        Some(6)
    } else if c == '7' {
        Some(7)
    } else if c == '8' {
        Some(8)
    } else {
        None
    }
}

/// The board index that a square name stands for: a file letter of either
/// case followed by a rank digit. Any other text names no square.
pub open spec fn square_index(name: Seq<char>) -> Option<int> {
    if name.len() == 2 {
        match (file_number(name[0]), rank_number(name[1])) {
            (Some(file), Some(rank)) => Some((9 - rank) * 10 + file + 1),
            _ => None,
        }
    } else {
        None
    }
}

/// The lower-case letter of file number `file` (0 for `a`).
pub open spec fn file_letter(file: int) -> char {
    if file == 0 {
        'a'
    } else if file == 1 {
        'b'
    } else if file == 2 {
        'c'
    } else if file == 3 {
        'd'
    } else if file == 4 {
        'e'
    } else if file == 5 {
        'f'
    } else if file == 6 {
        'g'
    } else {
        'h'
    }
}

/// The digit of rank `rank` (1 to 8).
pub open spec fn rank_digit(rank: int) -> char {
    if rank == 1 {
        '1'
    } else if rank == 2 {
        '2'
    } else if rank == 3 {
        '3'
    } else if rank == 4 {
        '4'
    } else if rank == 5 {
        '5'
    } else if rank == 6 {
        '6'
    } else if rank == 7 {
        '7'
    } else {
        '8'
    }
}

/// The lower-case name of a playable board index.
pub open spec fn square_name(index: int) -> Seq<char> {
    seq![file_letter(index % 10 - 1), rank_digit(9 - index / 10)]
}

/// Whether `board_index` lies off the playable 8x8 board.
pub fn is_out_of_bounds(board_index: i8) -> (out: bool)
    ensures
        out == !on_board(board_index as int),
{
    board_index < 11 || board_index > 88 || board_index % 10 == 0 || board_index % 10 == 9
}

fn file_of(c: char) -> (file: Option<usize>)
    ensures
        match file {
            Some(f) => file_number(c) == Some(f as int),
            None => file_number(c) is None,
        },
{
    if c == 'a' || c == 'A' {
        Some(0)
    } else if c == 'b' || c == 'B' {
        Some(1)
    } else if c == 'c' || c == 'C' {
        Some(2)
    } else if c == 'd' || c == 'D' {
        Some(3)
    } else if c == 'e' || c == 'E' {
        Some(4)
    } else if c == 'f' || c == 'F' {
        Some(5)
    } else if c == 'g' || c == 'G' {
        Some(6)
    } else if c == 'h' || c == 'H' {
        Some(7)
    } else {
        None
    }
}

fn rank_of(c: char) -> (rank: Option<usize>)
    ensures
        match rank {
            Some(r) => rank_number(c) == Some(r as int),
            None => rank_number(c) is None,
        },
{
    if c == '1' {
        Some(1)
    } else if c == '2' {
        Some(2)
    } else if c == '3' {
        Some(3)
    } else if c == '4' {
        Some(4)
    } else if c == '5' {
        Some(5)
    } else if c == '6' {
        Some(6)
    } else if c == '7' {
        Some(7)
    } else if c == '8' {
        Some(8)
    } else {
        None
    }
}

/// The board index of the square that `square` names, in either case.
/// Text that names no square of the board is refused.
pub fn square_to_index(square: String) -> (result: Result<usize, ChessError>)
    ensures
        match result {
            Ok(index) => square_index(square@) == Some(index as int),
            Err(e) => e == ChessError::InvalidSquare && square_index(square@) is None,
        },
{
    let name = square.as_str();
    if name.unicode_len() != 2 {
        return Err(ChessError::InvalidSquare);
    }
    match (file_of(name.get_char(0)), rank_of(name.get_char(1))) {
        (Some(file), Some(rank)) => Ok((9 - rank) * 10 + file + 1),
        _ => Err(ChessError::InvalidSquare),
    }
}

fn file_text(file: usize) -> (text: &'static str)
    requires
        file < 8,
    ensures
        text@ == seq![file_letter(file as int)],
{
    proof {
        reveal_strlit("a");
        reveal_strlit("b");
        reveal_strlit("c");
        reveal_strlit("d");
        reveal_strlit("e");
        reveal_strlit("f");
        reveal_strlit("g");
        reveal_strlit("h");
    }
    let text = if file == 0 {
        "a"
    } else if file == 1 {
        "b"
    } else if file == 2 {
        "c"
    } else if file == 3 {
        "d"
    } else if file == 4 {
        "e"
    } else if file == 5 {
        "f"
    } else if file == 6 {
        "g"
    } else {
        "h"
    };
    assert(text@ =~= seq![file_letter(file as int)]);
    text
}

fn rank_text(rank: usize) -> (text: &'static str)
    requires
        1 <= rank <= 8,
    ensures
        text@ == seq![rank_digit(rank as int)],
{
    proof {
        reveal_strlit("1");
        reveal_strlit("2");
        reveal_strlit("3");
        reveal_strlit("4");
        reveal_strlit("5");
        reveal_strlit("6");
        reveal_strlit("7");
        reveal_strlit("8");
    }
    let text = if rank == 1 {
        "1"
    } else if rank == 2 {
        "2"
    } else if rank == 3 {
        "3"
    } else if rank == 4 {
        "4"
    } else if rank == 5 {
        "5"
    } else if rank == 6 {
        "6"
    } else if rank == 7 {
        "7"
    } else {
        "8"
    };
    assert(text@ =~= seq![rank_digit(rank as int)]);
    text
}

/// The lower-case name of the square at `index`. An index that is not one
/// of the 64 playable ones is refused.
pub fn index_to_square(index: usize) -> (result: Result<String, ChessError>)
    ensures
        match result {
            Ok(name) => on_board(index as int) && name@ == square_name(index as int),
            Err(e) => e == ChessError::InvalidSquare && !on_board(index as int),
        },
{
    if index < 11 || index > 88 || index % 10 == 0 || index % 10 == 9 {
        return Err(ChessError::InvalidSquare);
    }
    let rank = 9 - index / 10;
    let mut name = String::from_str(file_text(index % 10 - 1));
    name.append(rank_text(rank));
    assert(name@ =~= square_name(index as int));
    Ok(name)
}

/// Naming a playable index and reading the name back gives the index.
pub proof fn lemma_name_round_trip(index: int)
    requires
        on_board(index),
    ensures
        square_index(square_name(index)) == Some(index),
{
    let file = index % 10 - 1;
    let rank = 9 - index / 10;
    let name = square_name(index);
    assert(0 <= file <= 7 && 1 <= rank <= 8);
    assert(name.len() == 2);
    assert(name[0] == file_letter(file) && name[1] == rank_digit(rank));
    assert(file_number(file_letter(file)) == Some(file));
    assert(rank_number(rank_digit(rank)) == Some(rank));
}

/// The square that a layout character stands for; `None` for a character
/// outside the alphabet.
pub open spec fn square_of_char(c: char) -> Option<Square> {
    if c == 'p' {
        Some(Square::occupied(Piece { piece_type: PieceType::Pawn, color: Color::Black }))
    } else if c == 'P' {
        Some(Square::occupied(Piece { piece_type: PieceType::Pawn, color: Color::White }))
    } else if c == 'b' {
        Some(Square::occupied(Piece { piece_type: PieceType::Bishop, color: Color::Black }))
    } else if c == 'B' {
        Some(Square::occupied(Piece { piece_type: PieceType::Bishop, color: Color::White }))
    } else if c == 'n' {
        Some(Square::occupied(Piece { piece_type: PieceType::Knight, color: Color::Black }))
    } else if c == 'N' {
        Some(Square::occupied(Piece { piece_type: PieceType::Knight, color: Color::White }))
    } else if c == 'r' {
        Some(Square::occupied(Piece { piece_type: PieceType::Rook, color: Color::Black }))
    } else if c == 'R' {
        Some(Square::occupied(Piece { piece_type: PieceType::Rook, color: Color::White }))
    } else if c == 'q' {
        Some(Square::occupied(Piece { piece_type: PieceType::Queen, color: Color::Black }))
    } else if c == 'Q' {
        Some(Square::occupied(Piece { piece_type: PieceType::Queen, color: Color::White }))
    } else if c == 'k' {
        Some(Square::occupied(Piece { piece_type: PieceType::King, color: Color::Black }))
    } else if c == 'K' {
        Some(Square::occupied(Piece { piece_type: PieceType::King, color: Color::White }))
    } else if c == '0' {
        Some(Square::edge())
    } else if c == '-' {
        Some(Square::vacant())
    } else {
        None
    }
}

/// The letter of a piece: upper case for White, lower case for Black.
pub open spec fn piece_char(piece: Piece) -> char {
    match piece.color {
        Color::White => match piece.piece_type {
            PieceType::Pawn => 'P',
            PieceType::Knight => 'N',
            PieceType::Bishop => 'B',
            PieceType::Rook => 'R',
            PieceType::Queen => 'Q',
            PieceType::King => 'K',
        },
        Color::Black => match piece.piece_type {
            PieceType::Pawn => 'p',
            PieceType::Knight => 'n',
            PieceType::Bishop => 'b',
            PieceType::Rook => 'r',
            PieceType::Queen => 'q',
            PieceType::King => 'k',
        },
    }
}

/// The layout character of a square: the letter of its piece, `0` for an
/// edge, `-` for an empty interior square.
pub open spec fn square_char(square: Square) -> char {
    match square.piece {
        Some(piece) => piece_char(piece),
        None => if square.is_edge {
            '0'
        } else {
            '-'
        },
    }
}

/// The square that the layout character `square` stands for. A character
/// outside the alphabet is refused.
pub fn generate_square_from_string(square: char) -> (result: Result<Square, ChessError>)
    ensures
        match result {
            Ok(sq) => square_of_char(square) == Some(sq),
            Err(e) => e == ChessError::InvalidCharacter && square_of_char(square) is None,
        },
{
    if square == 'p' {
        Ok(Square::new(Piece::new(PieceType::Pawn, Color::Black)))
    } else if square == 'P' {
        Ok(Square::new(Piece::new(PieceType::Pawn, Color::White)))
    } else if square == 'b' {
        Ok(Square::new(Piece::new(PieceType::Bishop, Color::Black)))
    } else if square == 'B' {
        Ok(Square::new(Piece::new(PieceType::Bishop, Color::White)))
    } else if square == 'n' {
        Ok(Square::new(Piece::new(PieceType::Knight, Color::Black)))
    } else if square == 'N' {
        Ok(Square::new(Piece::new(PieceType::Knight, Color::White)))
    } else if square == 'r' {
        Ok(Square::new(Piece::new(PieceType::Rook, Color::Black)))
    } else if square == 'R' {
        Ok(Square::new(Piece::new(PieceType::Rook, Color::White)))
    } else if square == 'q' {
        Ok(Square::new(Piece::new(PieceType::Queen, Color::Black)))
    } else if square == 'Q' {
        Ok(Square::new(Piece::new(PieceType::Queen, Color::White)))
    } else if square == 'k' {
        Ok(Square::new(Piece::new(PieceType::King, Color::Black)))
    } else if square == 'K' {
        Ok(Square::new(Piece::new(PieceType::King, Color::White)))
    } else if square == '0' {
        Ok(Square { piece: None, is_edge: true })
    } else if square == '-' {
        Ok(Square { piece: None, is_edge: false })
    } else {
        Err(ChessError::InvalidCharacter)
    }
}

/// Reading a layout character and writing the square back gives the
/// character.
pub proof fn lemma_char_round_trip(c: char)
    requires
        square_of_char(c) is Some,
    ensures
        square_char(square_of_char(c).unwrap()) == c,
{
}

} // verus!
