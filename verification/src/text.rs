//! Text for people: squares, boards and moves written out for display.

use vstd::prelude::*;
use vstd::string::*;
use crate::board::Board;
use crate::helpers::piece_char;
use crate::square::{Color, Move, PieceType, Square};

verus! {

/// The character that shows a square: the letter of its piece, or a blank.
pub open spec fn square_symbol(square: Square) -> char {
    match square.piece {
        Some(p) => piece_char(p),
        None => ' ',
    }
}

/// The text of a square: its symbol between square brackets.
pub open spec fn square_text(square: Square) -> Seq<char> {
    seq!['[', square_symbol(square), ']']
}

/// The text of `count` squares in a row, from index `start` on.
pub open spec fn squares_text(squares: Seq<Square>, start: int, count: int) -> Seq<char>
    decreases count,
{
    if count <= 0 {
        Seq::empty()
    } else {
        squares_text(squares, start, count - 1) + square_text(squares[start + count - 1])
    }
}

/// `width` blanks.
pub open spec fn indent(width: nat) -> Seq<char> {
    Seq::new(width, |i: int| ' ')
}

/// The line of a row of the board, counted from 1 at the top: twelve
/// blanks, the eight playable squares of the row, and a line break.
pub open spec fn row_text(squares: Seq<Square>, row: int) -> Seq<char> {
    indent(12) + squares_text(squares, row * 10 + 1, 8) + seq!['\n']
}

/// The lines of the first `count` rows.
pub open spec fn rows_text(squares: Seq<Square>, count: int) -> Seq<char>
    decreases count,
{
    if count <= 0 {
        Seq::empty()
    } else {
        rows_text(squares, count - 1) + row_text(squares, count)
    }
}

/// The picture of a board: a line break, the eight rows from rank 8 down
/// to rank 1, and eight blanks.
pub open spec fn board_text(squares: Seq<Square>) -> Seq<char> {
    seq!['\n'] + rows_text(squares, 8) + indent(8)
}

/// The character of a decimal digit.
pub open spec fn digit_char(digit: int) -> char {
    if digit == 0 {
        '0'
    } else if digit == 1 {
        '1'
    } else if digit == 2 {
        '2'
    } else if digit == 3 {
        '3'
    } else if digit == 4 {
        '4'
    } else if digit == 5 {
        '5'
    } else if digit == 6 {
        '6'
    } else if digit == 7 {
        '7'
    } else if digit == 8 {
        '8'
    } else {
        '9'
    }
}

/// The decimal digits of a number, without leading zeros.
pub open spec fn decimal(n: nat) -> Seq<char>
    decreases n,
{
    if n < 10 {
        seq![digit_char(n as int)]
    } else {
        decimal(n / 10).push(digit_char((n % 10) as int))
    }
}

/// The text of a move: its two indices in decimal, between square brackets
/// and with a comma between them.
pub open spec fn move_text(m: Move) -> Seq<char> {
    seq!['['] + decimal(m.from as nat) + seq![','] + decimal(m.to as nat) + seq![']']
}

fn digit_text(digit: usize) -> (text: &'static str)
    requires
        digit < 10,
    ensures
        text@ == seq![digit_char(digit as int)],
{
    proof {
        reveal_strlit("0");
        reveal_strlit("1");
        reveal_strlit("2");
        reveal_strlit("3");
        reveal_strlit("4");
        reveal_strlit("5");
        reveal_strlit("6");
        reveal_strlit("7");
        reveal_strlit("8");
        reveal_strlit("9");
    }
    let text = if digit == 0 {
        "0"
    } else if digit == 1 {
        "1"
    } else if digit == 2 {
        "2"
    } else if digit == 3 {
        "3"
    } else if digit == 4 {
        "4"
    } else if digit == 5 {
        "5"
    } else if digit == 6 {
        "6"
    } else if digit == 7 {
        "7"
    } else if digit == 8 {
        "8"
    } else {
        "9"
    };
    assert(text@ =~= seq![digit_char(digit as int)]);
    text
}

fn append_decimal(text: &mut String, n: usize)
    ensures
        final(text)@ == old(text)@ + decimal(n as nat),
    decreases n,
{
    if n >= 10 {
        append_decimal(text, n / 10);
    }
    text.append(digit_text(n % 10));
    assert(text@ =~= old(text)@ + decimal(n as nat));
}

impl Square {
    /// The square as text: `[P]` for a white pawn, `[k]` for the black king,
    /// `[ ]` for a square without a piece.
    pub fn to_text(&self) -> (text: String)
        ensures
            text@ == square_text(*self),
    {
        proof {
            reveal_strlit("[P]");
            reveal_strlit("[N]");
            reveal_strlit("[B]");
            reveal_strlit("[R]");
            reveal_strlit("[Q]");
            reveal_strlit("[K]");
            reveal_strlit("[p]");
            reveal_strlit("[n]");
            reveal_strlit("[b]");
            reveal_strlit("[r]");
            reveal_strlit("[q]");
            reveal_strlit("[k]");
            reveal_strlit("[ ]");
        }
        let text = match self.piece {
            Some(p) => match p.color {
                Color::White => match p.piece_type {
                    PieceType::Pawn => "[P]",
                    PieceType::Knight => "[N]",
                    PieceType::Bishop => "[B]",
                    PieceType::Rook => "[R]",
                    PieceType::Queen => "[Q]",
                    PieceType::King => "[K]",
                },
                Color::Black => match p.piece_type {
                    PieceType::Pawn => "[p]",
                    PieceType::Knight => "[n]",
                    PieceType::Bishop => "[b]",
                    PieceType::Rook => "[r]",
                    PieceType::Queen => "[q]",
                    PieceType::King => "[k]",
                },
            },
            None => "[ ]",
        };
        assert(text@ =~= square_text(*self));
        String::from_str(text)
    }
}

impl Move {
    /// The move as text: `[75,55]` for the move from index 75 to index 55.
    pub fn to_text(&self) -> (text: String)
        ensures
            text@ == move_text(*self),
    {
        proof {
            reveal_strlit("[");
            reveal_strlit(",");
            reveal_strlit("]");
        }
        let mut text = String::from_str("[");
        append_decimal(&mut text, self.from);
        text.append(",");
        append_decimal(&mut text, self.to);
        text.append("]");
        assert(text@ =~= move_text(*self));
        text
    }
}

impl Board {
    /// The picture of the board: its eight rows, rank 8 first, each square
    /// written as by `Square::to_text`.
    pub fn to_text(&self) -> (text: String)
        requires
            self@.squares.len() == 100,
        ensures
            text@ == board_text(self@.squares),
    {
        proof {
            reveal_strlit("\n");
            reveal_strlit("            ");
            reveal_strlit("        ");
        }
        let mut text = String::from_str("\n");
        assert(text@ =~= seq!['\n'] + rows_text(self@.squares, 0));
        let mut row: usize = 1;
        while row <= 8
            invariant
                1 <= row <= 9,
                self@.squares.len() == 100,
                text@ == seq!['\n'] + rows_text(self@.squares, row - 1),
            decreases 9 - row,
        {
            let ghost before = text@;
            proof {
                reveal_strlit("\n");
                reveal_strlit("            ");
            }
            text.append("            ");
            assert(text@ =~= before + indent(12));
            let mut file: usize = 1;
            while file <= 8
                invariant
                    1 <= file <= 9,
                    1 <= row <= 8,
                    self@.squares.len() == 100,
                    text@ == before + indent(12) + squares_text(
                        self@.squares,
                        row * 10 + 1,
                        file - 1,
                    ),
                decreases 9 - file,
            {
                let index = row * 10 + file;
                let square = Square {
                    piece: self.get_piece_at(index),
                    is_edge: false,
                };
                let shown = square.to_text();
                assert(square_text(square) == square_text(self@.squares[index as int]));
                text.append(shown.as_str());
                assert(text@ =~= before + indent(12) + squares_text(
                    self@.squares,
                    row * 10 + 1,
                    file as int,
                ));
                file += 1;
            }
            text.append("\n");
            assert(text@ =~= before + row_text(self@.squares, row as int));
            assert(text@ =~= seq!['\n'] + rows_text(self@.squares, row as int));
            row += 1;
        }
        text.append("        ");
        assert(text@ =~= board_text(self@.squares));
        text
    }
}

} // verus!
