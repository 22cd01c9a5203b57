//! The position: one hundred squares, the side to move, and the key that
//! encodes both as text.

use vstd::prelude::*;
use vstd::string::*;
use arrayvec::ArrayVec;
use crate::error::ChessError;
use crate::helpers::{
    generate_square_from_string, lemma_char_round_trip, on_board, piece_char, square_char,
    square_of_char,
};
use crate::square::{Color, Move, Piece, PieceType, Square, Turn};

verus! {

/// `arrayvec::ArrayVec`, a vector of bounded capacity stored inline. Its
/// inside is hidden from the verifier.
#[verifier::external_type_specification]
#[verifier::external_body]
#[verifier::reject_recursive_types(T)]
pub struct ExArrayVec<T, const CAP: usize>(ArrayVec<T, CAP>);

/// The squares that a square vector holds, first to last.
pub uninterp spec fn squares_of(squares: ArrayVec<Square, 100>) -> Seq<Square>;

/// `ArrayVec::new`: the vector starts out empty.
#[verifier::external_body]
fn new_squares() -> (squares: ArrayVec<Square, 100>)
    ensures
        squares_of(squares) == Seq::<Square>::empty(),
{
    ArrayVec::new()
}

/// `ArrayVec::push`: the element is added at the end. The call panics on a
/// full vector, which the precondition rules out.
#[verifier::external_body]
fn push_square(squares: &mut ArrayVec<Square, 100>, square: Square)
    requires
        squares_of(*old(squares)).len() < 100,
    ensures
        squares_of(*final(squares)) == squares_of(*old(squares)).push(square),
{
    squares.push(square)
}

/// Indexing an `ArrayVec` through its slice: the element at `index`. The
/// call panics past the end, which the precondition rules out.
#[verifier::external_body]
fn square_at(squares: &ArrayVec<Square, 100>, index: usize) -> (square: Square)
    requires
        index < squares_of(*squares).len(),
    ensures
        square == squares_of(*squares)[index as int],
{
    squares[index]
}

/// Assigning through the mutable slice of an `ArrayVec`: the element at
/// `index` is replaced and the others stay. The call panics past the end,
/// which the precondition rules out.
#[verifier::external_body]
fn replace_square(squares: &mut ArrayVec<Square, 100>, index: usize, square: Square)
    requires
        index < squares_of(*old(squares)).len(),
    ensures
        squares_of(*final(squares)) == squares_of(*old(squares)).update(index as int, square),
{
    squares[index] = square;
}

/// `ArrayVec::clone`: the copy holds the same elements in the same order.
#[verifier::external_body]
fn clone_squares(squares: &ArrayVec<Square, 100>) -> (copy: ArrayVec<Square, 100>)
    ensures
        squares_of(copy) == squares_of(*squares),
{
    squares.clone()
}

/// The mathematical content of a board: its squares and the side to move.
pub struct Position {
    pub squares: Seq<Square>,
    pub side: Color,
}

/// The character that encodes the side to move: `1` for White, `0` for Black.
pub open spec fn turn_char(side: Color) -> char {
    match side {
        Color::White => '1',
        Color::Black => '0',
    }
}

/// Whether `layout` is a board string: one hundred characters of the square
/// alphabet.
pub open spec fn valid_layout(layout: Seq<char>) -> bool {
    layout.len() == 100 && forall|i: int| 0 <= i < 100 ==> (#[trigger] square_of_char(layout[i])) is Some
}

/// The squares that a board string describes.
pub open spec fn parse_layout(layout: Seq<char>) -> Seq<Square> {
    Seq::new(100, |i: int| square_of_char(layout[i]).unwrap())
}

/// The layout text of a sequence of squares.
pub open spec fn layout_of(squares: Seq<Square>) -> Seq<char> {
    Seq::new(squares.len(), |i: int| square_char(squares[i]))
}

/// The key of a position: its layout followed by the turn character.
pub open spec fn key_of(position: Position) -> Seq<char> {
    layout_of(position.squares).push(turn_char(position.side))
}

/// The square that `set_square` writes for `piece`.
pub open spec fn square_for(piece: Option<Piece>) -> Square {
    match piece {
        Some(p) => Square::occupied(p),
        None => Square::vacant(),
    }
}

/// The position after the piece on `m.from` has moved to `m.to`: the origin
/// is left empty, whatever stood on the destination is replaced, and the
/// move passes to the other side. Meaningful when the origin holds a piece.
pub open spec fn apply_move(position: Position, m: Move) -> Position {
    Position {
        squares: position.squares.update(m.from as int, Square::vacant()).update(
            m.to as int,
            Square { piece: position.squares[m.from as int].piece, is_edge: false },
        ),
        side: position.side.opposite(),
    }
}

/// The position after each of `moves` has been applied in turn.
pub open spec fn play(position: Position, moves: Seq<Move>) -> Position
    decreases moves.len(),
{
    if moves.len() == 0 {
        position
    } else {
        apply_move(play(position, moves.drop_last()), moves.last())
    }
}

/// Whether the border ring of the hundred squares holds edge sentinels.
pub open spec fn framed(squares: Seq<Square>) -> bool {
    squares.len() == 100 && forall|i: int|
        0 <= i < 100 && !on_board(i) ==> #[trigger] squares[i] == Square::edge()
}

/// A valid layout parses to a framed board exactly when its border ring is
/// written with the edge character.
pub proof fn lemma_parse_framed(layout: Seq<char>)
    requires
        valid_layout(layout),
    ensures
        framed(parse_layout(layout)) <==> (forall|i: int|
            0 <= i < 100 && !on_board(i) ==> #[trigger] layout[i] == '0'),
{
    let squares = parse_layout(layout);
    if framed(squares) {
        assert forall|i: int| 0 <= i < 100 && !on_board(i) implies #[trigger] layout[i]
            == '0' by {
            assert(square_of_char(layout[i]) is Some);
            assert(squares[i] == Square::edge());
        }
    }
    if forall|i: int| 0 <= i < 100 && !on_board(i) ==> #[trigger] layout[i] == '0' {
        assert forall|i: int| 0 <= i < 100 && !on_board(i) implies #[trigger] squares[i]
            == Square::edge() by {
            assert(layout[i] == '0');
        }
    }
}

/// A move between playable squares leaves the border ring as it was.
pub proof fn lemma_move_keeps_frame(position: Position, m: Move)
    requires
        framed(position.squares),
        on_board(m.from as int),
        on_board(m.to as int),
    ensures
        framed(apply_move(position, m).squares),
{
}

/// No edge index ever holds a piece: on a framed board, and on every
/// position reached from one by moves between playable squares, each square
/// of the border ring is without a piece.
pub proof fn lemma_edge_totality(start: Position, moves: Seq<Move>, index: int)
    requires
        framed(start.squares),
        forall|k: int|
            0 <= k < moves.len() ==> on_board((#[trigger] moves[k]).from as int) && on_board(
                moves[k].to as int,
            ),
        0 <= index < 100,
        !on_board(index),
    ensures
        framed(play(start, moves).squares),
        play(start, moves).squares[index].piece is None,
    decreases moves.len(),
{
    if moves.len() > 0 {
        let earlier = moves.drop_last();
        assert forall|k: int| 0 <= k < earlier.len() implies on_board(
            (#[trigger] earlier[k]).from as int,
        ) && on_board(earlier[k].to as int) by {
            assert(earlier[k] == moves[k]);
        }
        lemma_edge_totality(start, earlier, index);
        assert(on_board(moves.last().from as int) && on_board(moves.last().to as int));
        lemma_move_keeps_frame(play(start, earlier), moves.last());
    }
    assert(play(start, moves).squares[index] == Square::edge());
}

/// A move changes the key in three places only: the origin becomes `-`, the
/// destination takes the letter of the piece that moved, and the turn
/// character is that of the other side.
pub proof fn lemma_key_after_move(position: Position, m: Move)
    requires
        position.squares.len() == 100,
        m.from < 100,
        m.to < 100,
        m.from != m.to,
        position.squares[m.from as int].piece is Some,
    ensures
        key_of(apply_move(position, m)) == key_of(position).update(m.from as int, '-').update(
            m.to as int,
            piece_char(position.squares[m.from as int].piece.unwrap()),
        ).update(100, turn_char(position.side.opposite())),
        key_of(apply_move(position, m)).len() == 101,
        forall|i: int|
            0 <= i < 100 && i != m.from && i != m.to ==> key_of(apply_move(position, m))[i]
                == key_of(position)[i],
{
    let after = key_of(apply_move(position, m));
    let expected = key_of(position).update(m.from as int, '-').update(
        m.to as int,
        piece_char(position.squares[m.from as int].piece.unwrap()),
    ).update(100, turn_char(position.side.opposite()));
    assert(after =~= expected);
}

/// The key tells positions apart: two positions have the same key exactly
/// when they have the same layout and the same side to move.
pub proof fn lemma_key_identifies(first: Position, second: Position)
    ensures
        key_of(first) == key_of(second) <==> layout_of(first.squares) == layout_of(second.squares)
            && first.side == second.side,
{
    let a = layout_of(first.squares);
    let b = layout_of(second.squares);
    if key_of(first) == key_of(second) {
        assert(a.push(turn_char(first.side)).len() == b.push(turn_char(second.side)).len());
        assert(a.push(turn_char(first.side)).drop_last() =~= a);
        assert(b.push(turn_char(second.side)).drop_last() =~= b);
        assert(a.push(turn_char(first.side)).last() == turn_char(first.side));
        assert(b.push(turn_char(second.side)).last() == turn_char(second.side));
    }
}

/// A chess position on the bordered board.
pub struct Board {
    pub squares: ArrayVec<Square, 100>,
    pub current_turn: Turn,
    pub board_string_with_turn_bit: String,
}

impl View for Board {
    type V = Position;

    open spec fn view(&self) -> Position {
        Position { squares: squares_of(self.squares), side: self.current_turn.color }
    }
}

fn square_text(square: &Square) -> (text: &'static str)
    ensures
        text@ == seq![square_char(*square)],
{
    proof {
        reveal_strlit("P");
        reveal_strlit("N");
        reveal_strlit("B");
        reveal_strlit("R");
        reveal_strlit("Q");
        reveal_strlit("K");
        reveal_strlit("p");
        reveal_strlit("n");
        reveal_strlit("b");
        reveal_strlit("r");
        reveal_strlit("q");
        reveal_strlit("k");
        reveal_strlit("0");
        reveal_strlit("-");
    }
    let text = match square.piece {
        Some(p) => match p.color {
            Color::White => match p.piece_type {
                PieceType::Pawn => "P",
                PieceType::Knight => "N",
                PieceType::Bishop => "B",
                PieceType::Rook => "R",
                PieceType::Queen => "Q",
                PieceType::King => "K",
            },
            Color::Black => match p.piece_type {
                PieceType::Pawn => "p",
                PieceType::Knight => "n",
                PieceType::Bishop => "b",
                PieceType::Rook => "r",
                PieceType::Queen => "q",
                PieceType::King => "k",
            },
        },
        None => if square.is_edge {
            "0"
        } else {
            "-"
        },
    };
    assert(text@ =~= seq![square_char(*square)]);
    text
}

fn turn_text(side: Color) -> (text: &'static str)
    ensures
        text@ == seq![turn_char(side)],
{
    proof {
        reveal_strlit("1");
        reveal_strlit("0");
    }
    let text = match side {
        Color::White => "1",
        Color::Black => "0",
    };
    assert(text@ =~= seq![turn_char(side)]);
    text
}

fn synthesise_key(squares: &ArrayVec<Square, 100>, side: Color) -> (key: String)
    requires
        squares_of(*squares).len() == 100,
    ensures
        key@ == key_of(Position { squares: squares_of(*squares), side }),
{
    let mut key = String::new();
    let mut i: usize = 0;
    while i < 100
        invariant
            i <= 100,
            squares_of(*squares).len() == 100,
            key@ == layout_of(squares_of(*squares).subrange(0, i as int)),
        decreases 100 - i,
    {
        let square = square_at(squares, i);
        key.append(square_text(&square));
        assert(key@ =~= layout_of(squares_of(*squares).subrange(0, i + 1)));
        i += 1;
    }
    assert(squares_of(*squares).subrange(0, 100) =~= squares_of(*squares));
    key.append(turn_text(side));
    assert(key@ =~= key_of(Position { squares: squares_of(*squares), side }));
    key
}

impl Board {
    /// Whether the board is well formed: it has its hundred squares, and its
    /// key is the text of those squares and of the side to move.
    pub open spec fn wf(&self) -> bool {
        &&& self@.squares.len() == 100
        &&& self.board_string_with_turn_bit@ == key_of(self@)
    }

    /// The piece on square `index`, if there is one.
    pub open spec fn piece_at(&self, index: int) -> Option<Piece> {
        self@.squares[index].piece
    }

    /// Builds the position that `board_string` describes, with
    /// `current_color` to move. The string must hold one hundred characters
    /// of the square alphabet; the key of the new board is that string
    /// followed by the turn character.
    pub fn new(board_string: String, current_color: Color) -> (result: Result<Board, ChessError>)
        ensures
            match result {
                Ok(board) => {
                    &&& valid_layout(board_string@)
                    &&& board.wf()
                    &&& board@.squares == parse_layout(board_string@)
                    &&& board@.side == current_color
                    &&& board.board_string_with_turn_bit@ == board_string@.push(
                        turn_char(current_color),
                    )
                },
                Err(ChessError::InvalidLayout) => board_string@.len() != 100,
                Err(ChessError::InvalidCharacter) => board_string@.len() == 100 && !valid_layout(
                    board_string@,
                ),
                Err(ChessError::InvalidSquare) => false,
            },
    {
        let layout = board_string.as_str();
        if layout.unicode_len() != 100 {
            return Err(ChessError::InvalidLayout);
        }
        let mut squares = new_squares();
        let mut i: usize = 0;
        while i < 100
            invariant
                i <= 100,
                layout@ == board_string@,
                layout@.len() == 100,
                squares_of(squares).len() == i,
                forall|j: int| 0 <= j < i ==> (#[trigger] square_of_char(layout@[j])) == Some(
                    squares_of(squares)[j],
                ),
            decreases 100 - i,
        {
            match generate_square_from_string(layout.get_char(i)) {
                Ok(square) => push_square(&mut squares, square),
                Err(e) => {
                    return Err(e);
                },
            }
            i += 1;
        }
        let mut key = board_string.clone();
        key.append(turn_text(current_color));
        let board = Board {
            squares,
            current_turn: Turn { color: current_color },
            board_string_with_turn_bit: key,
        };
        proof {
            assert(board@.squares =~= parse_layout(board_string@));
            assert forall|j: int| 0 <= j < 100 implies board_string@[j] == square_char(
                board@.squares[j],
            ) by {
                lemma_char_round_trip(board_string@[j]);
            }
            assert(board.board_string_with_turn_bit@ =~= board_string@.push(
                turn_char(current_color),
            ));
            assert(board.board_string_with_turn_bit@ =~= key_of(board@));
        }
        Ok(board)
    }

    /// The piece on square `index`, or `None` for an empty or edge square.
    pub fn get_piece_at(&self, index: usize) -> (piece: Option<Piece>)
        requires
            index < self@.squares.len(),
        ensures
            piece == self.piece_at(index as int),
    {
        square_at(&self.squares, index).piece
    }

    /// Puts `piece` on square `index`, or empties the square, and writes the
    /// key anew.
    pub fn set_square(&mut self, index: usize, piece: Option<Piece>)
        requires
            old(self)@.squares.len() == 100,
            index < 100,
        ensures
            final(self).wf(),
            final(self)@.squares == old(self)@.squares.update(index as int, square_for(piece)),
            final(self)@.side == old(self)@.side,
    {
        self.put(index, piece);
        self.board_string_with_turn_bit = synthesise_key(&self.squares, self.current_turn.color);
    }

    fn put(&mut self, index: usize, piece: Option<Piece>)
        requires
            index < old(self)@.squares.len(),
        ensures
            final(self)@.squares == old(self)@.squares.update(index as int, square_for(piece)),
            final(self).current_turn == old(self).current_turn,
            final(self).board_string_with_turn_bit == old(self).board_string_with_turn_bit,
    {
        match piece {
            Some(p) => replace_square(&mut self.squares, index, Square::new(p)),
            None => replace_square(&mut self.squares, index, Square { piece: None, is_edge: false }),
        }
    }

    /// The layout character of square `index`.
    pub fn get_piece_char_at(&self, index: usize) -> (c: char)
        requires
            index < self@.squares.len(),
        ensures
            c == square_char(self@.squares[index as int]),
    {
        let square = square_at(&self.squares, index);
        match square.piece {
            Some(p) => match p.color {
                Color::White => match p.piece_type {
                    PieceType::Pawn => 'P',
                    PieceType::Knight => 'N',
                    PieceType::Bishop => 'B',
                    PieceType::Rook => 'R',
                    PieceType::Queen => 'Q',
                    PieceType::King => 'K',
                },
                Color::Black => match p.piece_type {
                    PieceType::Pawn => 'p',
                    PieceType::Knight => 'n',
                    PieceType::Bishop => 'b',
                    PieceType::Rook => 'r',
                    PieceType::Queen => 'q',
                    PieceType::King => 'k',
                },
            },
            None => match square.is_edge {
                true => '0',
                false => '-',
            },
        }
    }

    /// Moves the piece on `chess_move.from` to `chess_move.to`, replacing
    /// whatever stood there, leaves the origin empty, hands the move to the
    /// other side and brings the key up to date. The move is not held to the
    /// rules of chess.
    pub fn make_move(&mut self, chess_move: Move)
        requires
            old(self)@.squares.len() == 100,
            chess_move.from < 100,
            chess_move.to < 100,
            old(self).piece_at(chess_move.from as int) is Some,
        ensures
            final(self).wf(),
            final(self)@ == apply_move(old(self)@, chess_move),
            old(self).wf() && chess_move.from != chess_move.to ==> final(self).board_string_with_turn_bit@
                == old(self).board_string_with_turn_bit@.update(
                chess_move.from as int,
                '-',
            ).update(
                chess_move.to as int,
                piece_char(old(self).piece_at(chess_move.from as int).unwrap()),
            ).update(100, turn_char(old(self)@.side.opposite())),
    {
        proof {
            if chess_move.from != chess_move.to {
                lemma_key_after_move(old(self)@, chess_move);
            }
        }
        match self.get_piece_at(chess_move.from) {
            None => {},
            Some(p) => {
                self.current_turn.toggle();
                self.put(chess_move.from, None);
                self.put(chess_move.to, Some(p));
            },
        }
        self.board_string_with_turn_bit = synthesise_key(&self.squares, self.current_turn.color);
        assert(self@.squares =~= apply_move(old(self)@, chess_move).squares);
    }

    /// A copy of the board.
    pub fn clone(&self) -> (copy: Board)
        ensures
            copy@ == self@,
            copy.board_string_with_turn_bit@ == self.board_string_with_turn_bit@,
            copy.wf() == self.wf(),
    {
        Board {
            squares: clone_squares(&self.squares),
            current_turn: self.current_turn,
            board_string_with_turn_bit: self.board_string_with_turn_bit.clone(),
        }
    }

    /// The board after `chess_move`, leaving this one as it is.
    pub fn test_move(&self, chess_move: Move) -> (next: Board)
        requires
            self@.squares.len() == 100,
            chess_move.from < 100,
            chess_move.to < 100,
            self.piece_at(chess_move.from as int) is Some,
        ensures
            next.wf(),
            next@ == apply_move(self@, chess_move),
    {
        let mut test_board = self.clone();
        test_board.make_move(chess_move);
        test_board
    }
}

} // verus!
