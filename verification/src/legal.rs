//! Legal moves: the pseudo-legal moves that do not leave the mover's own
//! king attacked.

use vstd::prelude::*;
use crate::board::{apply_move, Board, Position};
use crate::check::{in_check, is_check};
use crate::square::{Move, Piece, PieceType, Square};
use crate::valid_moves::{
    all_well_aimed, get_bishop_moves, get_king_moves, get_knight_moves, get_pawn_moves,
    get_queen_moves, get_rook_moves, lemma_pawn_moves_well_aimed, lemma_slide_moves_well_aimed,
    lemma_step_moves_well_aimed, pawn_moves, slide_moves, step_moves, well_aimed,
    BISHOP_MOVE_DIRECTIONS, KING_QUEEN_MOVE_DIRECTIONS, KNIGHT_STEPPING_MOVES,
    ROOK_MOVE_DIRECTIONS,
};

verus! {

/// The pseudo-legal moves of `piece` standing on `origin`.
pub open spec fn pseudo_moves(squares: Seq<Square>, piece: Piece, origin: int) -> Seq<Move> {
    match piece.piece_type {
        PieceType::Pawn => pawn_moves(squares, origin, piece.color),
        PieceType::Knight => step_moves(squares, origin, KNIGHT_STEPPING_MOVES@, piece.color),
        PieceType::Bishop => slide_moves(squares, origin, BISHOP_MOVE_DIRECTIONS@, piece.color),
        PieceType::Rook => slide_moves(squares, origin, ROOK_MOVE_DIRECTIONS@, piece.color),
        PieceType::Queen => slide_moves(squares, origin, KING_QUEEN_MOVE_DIRECTIONS@, piece.color),
        PieceType::King => step_moves(squares, origin, KING_QUEEN_MOVE_DIRECTIONS@, piece.color),
    }
}

/// The position after `m` with the move handed back to the side that made
/// it: the board as the mover left it, seen from the mover's side.
pub open spec fn after_own_move(position: Position, m: Move) -> Position {
    Position { squares: apply_move(position, m).squares, side: position.side }
}

/// Whether `m` leaves the king of the side to move out of check.
pub open spec fn keeps_king_safe(position: Position, m: Move) -> bool {
    !in_check(after_own_move(position, m))
}

/// Those of `moves`, in their order, that keep the king of the side to move
/// out of check.
pub open spec fn safe_moves(position: Position, moves: Seq<Move>) -> Seq<Move>
    decreases moves.len(),
{
    if moves.len() == 0 {
        Seq::empty()
    } else {
        let earlier = safe_moves(position, moves.drop_last());
        if keeps_king_safe(position, moves.last()) {
            earlier.push(moves.last())
        } else {
            earlier
        }
    }
}

/// The legal moves of `piece` standing on `origin`.
pub open spec fn piece_moves(position: Position, piece: Piece, origin: int) -> Seq<Move> {
    safe_moves(position, pseudo_moves(position.squares, piece, origin))
}

/// Whether every move of `moves` keeps the king of the side to move out of
/// check.
pub open spec fn all_keep_king_safe(position: Position, moves: Seq<Move>) -> bool {
    forall|i: int| 0 <= i < moves.len() ==> keeps_king_safe(position, #[trigger] moves[i])
}

/// The pseudo-legal moves of a piece never leave the board and never land
/// on a piece of their own side.
pub proof fn lemma_pseudo_moves_well_aimed(squares: Seq<Square>, piece: Piece, origin: int)
    requires
        0 <= origin < 100,
    ensures
        all_well_aimed(squares, origin, piece.color, pseudo_moves(squares, piece, origin)),
{
    match piece.piece_type {
        PieceType::Pawn => lemma_pawn_moves_well_aimed(squares, origin, piece.color),
        PieceType::Knight => lemma_step_moves_well_aimed(
            squares,
            origin,
            KNIGHT_STEPPING_MOVES@,
            piece.color,
        ),
        PieceType::Bishop => lemma_slide_moves_well_aimed(
            squares,
            origin,
            BISHOP_MOVE_DIRECTIONS@,
            piece.color,
        ),
        PieceType::Rook => lemma_slide_moves_well_aimed(
            squares,
            origin,
            ROOK_MOVE_DIRECTIONS@,
            piece.color,
        ),
        PieceType::Queen => lemma_slide_moves_well_aimed(
            squares,
            origin,
            KING_QUEEN_MOVE_DIRECTIONS@,
            piece.color,
        ),
        PieceType::King => lemma_step_moves_well_aimed(
            squares,
            origin,
            KING_QUEEN_MOVE_DIRECTIONS@,
            piece.color,
        ),
    }
}

/// Filtering keeps nothing but moves of the list that leave the king safe:
/// each kept move was in the list, and none of them leaves the king of the
/// side to move in check.
pub proof fn lemma_safe_moves(position: Position, moves: Seq<Move>)
    ensures
        all_keep_king_safe(position, safe_moves(position, moves)),
        forall|i: int|
            0 <= i < safe_moves(position, moves).len() ==> moves.contains(
                #[trigger] safe_moves(position, moves)[i],
            ),
        safe_moves(position, moves).len() <= moves.len(),
    decreases moves.len(),
{
    if moves.len() > 0 {
        let earlier = moves.drop_last();
        lemma_safe_moves(position, earlier);
        let kept = safe_moves(position, moves);
        assert forall|i: int| 0 <= i < kept.len() implies moves.contains(#[trigger] kept[i]) by {
            if i < safe_moves(position, earlier).len() {
                let m = safe_moves(position, earlier)[i];
                assert(earlier.contains(m));
                let j = choose|j: int| 0 <= j < earlier.len() && earlier[j] == m;
                assert(moves[j] == m);
            } else {
                assert(kept[i] == moves[moves.len() - 1]);
            }
        }
    }
}

/// The legal moves of a piece are well aimed and keep the king safe.
pub proof fn lemma_piece_moves(position: Position, piece: Piece, origin: int)
    requires
        0 <= origin < 100,
    ensures
        all_well_aimed(position.squares, origin, piece.color, piece_moves(position, piece, origin)),
        all_keep_king_safe(position, piece_moves(position, piece, origin)),
{
    let pseudo = pseudo_moves(position.squares, piece, origin);
    let kept = piece_moves(position, piece, origin);
    lemma_pseudo_moves_well_aimed(position.squares, piece, origin);
    lemma_safe_moves(position, pseudo);
    assert forall|i: int| 0 <= i < kept.len() implies well_aimed(
        position.squares,
        origin,
        piece.color,
        #[trigger] kept[i],
    ) by {
        assert(pseudo.contains(kept[i]));
        let j = choose|j: int| 0 <= j < pseudo.len() && pseudo[j] == kept[i];
        assert(well_aimed(position.squares, origin, piece.color, pseudo[j]));
    }
}

impl Piece {
    /// The legal moves of this piece from `board_index`: its pseudo-legal
    /// moves, in the order in which they are generated, without those that
    /// would leave the king of the side to move in check.
    pub fn get_moves(&self, board_index: usize, board: &Board) -> (moves: Vec<Move>)
        requires
            board@.squares.len() == 100,
            board_index < 100,
            board.piece_at(board_index as int) is Some,
        ensures
            moves@ == piece_moves(board@, *self, board_index as int),
            all_well_aimed(board@.squares, board_index as int, self.color, moves@),
            all_keep_king_safe(board@, moves@),
    {
        let candidates: Vec<Move> = match self.piece_type {
            PieceType::Pawn => get_pawn_moves(board_index as i8, board, self.color),
            PieceType::Knight => get_knight_moves(board_index as i8, board, self.color),
            PieceType::Bishop => get_bishop_moves(board_index as i8, board, self.color),
            PieceType::Rook => get_rook_moves(board_index as i8, board, self.color),
            PieceType::Queen => get_queen_moves(board_index as i8, board, self.color),
            PieceType::King => get_king_moves(board_index as i8, board, self.color),
        };
        assert(candidates@ == pseudo_moves(board@.squares, *self, board_index as int));
        let mut legal_moves: Vec<Move> = Vec::new();
        let mut i: usize = 0;
        while i < candidates.len()
            invariant
                i <= candidates@.len(),
                board@.squares.len() == 100,
                board_index < 100,
                board.piece_at(board_index as int) is Some,
                all_well_aimed(board@.squares, board_index as int, self.color, candidates@),
                legal_moves@ == safe_moves(board@, candidates@.subrange(0, i as int)),
            decreases candidates@.len() - i,
        {
            let pre_check_move = candidates[i];
            assert(well_aimed(board@.squares, board_index as int, self.color, candidates@[i as int]));
            let mut test_board: Board = board.test_move(
                Move::new(pre_check_move.from, pre_check_move.to),
            );
            test_board.current_turn.toggle();
            assert(test_board@ == after_own_move(board@, pre_check_move));
            proof {
                assert(candidates@.subrange(0, i + 1).drop_last() =~= candidates@.subrange(
                    0,
                    i as int,
                ));
                assert(candidates@.subrange(0, i + 1).last() == pre_check_move);
            }
            if !is_check(test_board) {
                legal_moves.push(pre_check_move);
            }
            i += 1;
        }
        proof {
            assert(candidates@.subrange(0, candidates@.len() as int) =~= candidates@);
            lemma_piece_moves(board@, *self, board_index as int);
        }
        legal_moves
    }
}

/// The legal moves of the pieces of the side to move that stand on the
/// squares below `count`, square by square.
pub open spec fn legal_moves_below(position: Position, count: int) -> Seq<Move>
    decreases count,
{
    if count <= 0 {
        Seq::empty()
    } else {
        let earlier = legal_moves_below(position, count - 1);
        match position.squares[count - 1].piece {
            Some(p) => if p.color == position.side {
                earlier + piece_moves(position, p, count - 1)
            } else {
                earlier
            },
            None => earlier,
        }
    }
}

/// The legal moves of the side to move: those of each of its pieces, in
/// the order of the squares they stand on.
pub open spec fn legal_moves(position: Position) -> Seq<Move> {
    legal_moves_below(position, 100)
}

/// What holds of every legal move: it starts on a square that holds a piece
/// of the side to move, ends on a square of the board that holds no piece
/// of that side, and keeps the king of that side out of check.
pub open spec fn is_sound(position: Position, m: Move) -> bool {
    &&& m.from < 100
    &&& match position.squares[m.from as int].piece {
        Some(p) => p.color == position.side,
        None => false,
    }
    &&& well_aimed(position.squares, m.from as int, position.side, m)
    &&& keeps_king_safe(position, m)
}

/// Whether every move of `moves` is sound.
pub open spec fn all_sound(position: Position, moves: Seq<Move>) -> bool {
    forall|i: int| 0 <= i < moves.len() ==> is_sound(position, #[trigger] moves[i])
}

/// Every legal move is sound.
pub proof fn lemma_legal_moves_sound(position: Position, count: int)
    requires
        count <= 100,
    ensures
        all_sound(position, legal_moves_below(position, count)),
    decreases count,
{
    if count > 0 {
        lemma_legal_moves_sound(position, count - 1);
        match position.squares[count - 1].piece {
            Some(p) => {
                lemma_piece_moves(position, p, count - 1);
            },
            None => {},
        }
    }
}

/// All legal moves of the side to move.
pub fn get_all_legal_moves(board: &Board) -> (moves: Vec<Move>)
    requires
        board@.squares.len() == 100,
    ensures
        moves@ == legal_moves(board@),
        all_sound(board@, moves@),
{
    let mut legal_moves: Vec<Move> = Vec::new();
    let mut i: usize = 0;
    while i < 100
        invariant
            i <= 100,
            board@.squares.len() == 100,
            legal_moves@ == legal_moves_below(board@, i as int),
        decreases 100 - i,
    {
        match board.get_piece_at(i) {
            Some(p) => {
                if p.color == board.current_turn.color {
                    let mut piece_moves = p.get_moves(i, board);
                    legal_moves.append(&mut piece_moves);
                }
            },
            None => {},
        }
        i += 1;
    }
    proof {
        lemma_legal_moves_sound(board@, 100);
    }
    legal_moves
}

} // verus!
