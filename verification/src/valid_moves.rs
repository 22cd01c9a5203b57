//! Pseudo-legal move generation: where a piece of each kind may go from a
//! square, by its geometry and by what stands in its way. Whether the move
//! leaves its own king attacked is not looked at here.

use vstd::prelude::*;
use crate::board::Board;
use crate::helpers::{is_out_of_bounds, on_board};
use crate::square::{Color, Move, Square};

verus! {

pub const BISHOP_MOVE_DIRECTIONS: [i8; 4] = [9, 11, -9, -11];

pub const KNIGHT_STEPPING_MOVES: [i8; 8] = [-12, -21, -19, -8, 12, 21, 19, 8];

pub const KING_QUEEN_MOVE_DIRECTIONS: [i8; 8] = [-1, -11, -10, -9, 1, 11, 10, 9];

pub const ROOK_MOVE_DIRECTIONS: [i8; 4] = [-1, 1, -10, 10];

pub const WHITE_PAWN_MOVE_DIRECTIONS: [i8; 1] = [-10];

pub const WHITE_PAWN_CAPTURE_DIRECTIONS: [i8; 2] = [-9, -11];

pub const BLACK_PAWN_MOVE_DIRECTIONS: [i8; 1] = [10];

pub const BLACK_PAWN_CAPTURE_DIRECTIONS: [i8; 2] = [9, 11];

/// The move from index `from` to index `to`.
pub open spec fn mv(from: int, to: int) -> Move {
    Move { from: from as usize, to: to as usize }
}

/// Whether a piece of `color` may land on `target`: the square is on the
/// board and holds nothing or an enemy piece.
pub open spec fn can_land(squares: Seq<Square>, target: int, color: Color) -> bool {
    on_board(target) && match squares[target].piece {
        Some(p) => p.color != color,
        None => true,
    }
}

/// The moves of a stepping piece of `color` on `origin`: one for each of
/// `deltas`, in their order, whose target the piece may land on.
pub open spec fn step_moves(squares: Seq<Square>, origin: int, deltas: Seq<i8>, color: Color) -> Seq<Move>
    decreases deltas.len(),
{
    if deltas.len() == 0 {
        Seq::empty()
    } else {
        let earlier = step_moves(squares, origin, deltas.drop_last(), color);
        let target = origin + deltas.last();
        if can_land(squares, target, color) {
            earlier.push(mv(origin, target))
        } else {
            earlier
        }
    }
}

/// What holds of every generated move: it starts on `origin`, ends on a
/// square of the board, and that square holds no piece of `color`.
pub open spec fn well_aimed(squares: Seq<Square>, origin: int, color: Color, m: Move) -> bool {
    m.from == origin && can_land(squares, m.to as int, color)
}

/// Whether every move of `moves` is well aimed.
pub open spec fn all_well_aimed(
    squares: Seq<Square>,
    origin: int,
    color: Color,
    moves: Seq<Move>,
) -> bool {
    forall|i: int| 0 <= i < moves.len() ==> well_aimed(squares, origin, color, #[trigger] moves[i])
}

/// The moves of a stepping piece never leave the board and never land on a
/// piece of their own side.
pub proof fn lemma_step_moves_well_aimed(
    squares: Seq<Square>,
    origin: int,
    deltas: Seq<i8>,
    color: Color,
)
    requires
        0 <= origin < 100,
    ensures
        all_well_aimed(squares, origin, color, step_moves(squares, origin, deltas, color)),
    decreases deltas.len(),
{
    if deltas.len() > 0 {
        lemma_step_moves_well_aimed(squares, origin, deltas.drop_last(), color);
    }
}

fn stepping_moves(board_index: i8, board: &Board, color: Color, deltas: &[i8]) -> (moves: Vec<Move>)
    requires
        board@.squares.len() == 100,
        0 <= board_index < 100,
        forall|k: int| 0 <= k < deltas@.len() ==> -21 <= #[trigger] deltas@[k] <= 21,
    ensures
        moves@ == step_moves(board@.squares, board_index as int, deltas@, color),
{
    let mut moves: Vec<Move> = Vec::new();
    let mut k: usize = 0;
    while k < deltas.len()
        invariant
            k <= deltas@.len(),
            board@.squares.len() == 100,
            0 <= board_index < 100,
            forall|j: int| 0 <= j < deltas@.len() ==> -21 <= #[trigger] deltas@[j] <= 21,
            moves@ == step_moves(board@.squares, board_index as int, deltas@.subrange(0, k as int), color),
        decreases deltas@.len() - k,
    {
        let to: i8 = board_index + deltas[k];
        proof {
            assert(deltas@.subrange(0, k + 1).drop_last() =~= deltas@.subrange(0, k as int));
            assert(deltas@.subrange(0, k + 1).last() == deltas@[k as int]);
        }
        if !is_out_of_bounds(to) {
            let free = match board.get_piece_at(to as usize) {
                Some(p) => p.color != color,
                None => true,
            };
            if free {
                moves.push(Move::new(board_index as usize, to as usize));
            }
        }
        k += 1;
    }
    assert(deltas@.subrange(0, deltas@.len() as int) =~= deltas@);
    moves
}

/// The moves of a sliding piece of `color` along one ray: from `target` on
/// in steps of `direction`, every empty square up to the first square that
/// is off the board or occupied, and that square too if it holds an enemy
/// piece. `origin` is where the piece stands.
pub open spec fn ray_moves(
    squares: Seq<Square>,
    origin: int,
    target: int,
    direction: int,
    color: Color,
) -> Seq<Move>
    decreases
            (if direction > 0 {
                if target < 100 {
                    100 - target
                } else {
                    0
                }
            } else {
                if target > 0 {
                    target
                } else {
                    0
                }
            }),
{
    if !on_board(target) || direction == 0 {
        Seq::empty()
    } else {
        match squares[target].piece {
            Some(p) => if p.color != color {
                seq![mv(origin, target)]
            } else {
                Seq::empty()
            },
            None => seq![mv(origin, target)] + ray_moves(
                squares,
                origin,
                target + direction,
                direction,
                color,
            ),
        }
    }
}

/// The moves of a sliding piece of `color` on `origin`: its rays along each
/// of `directions`, in their order.
pub open spec fn slide_moves(
    squares: Seq<Square>,
    origin: int,
    directions: Seq<i8>,
    color: Color,
) -> Seq<Move>
    decreases directions.len(),
{
    if directions.len() == 0 {
        Seq::empty()
    } else {
        slide_moves(squares, origin, directions.drop_last(), color) + ray_moves(
            squares,
            origin,
            origin + directions.last(),
            directions.last() as int,
            color,
        )
    }
}

/// The moves along a ray never leave the board and never land on a piece
/// of their own side.
pub proof fn lemma_ray_moves_well_aimed(
    squares: Seq<Square>,
    origin: int,
    target: int,
    direction: int,
    color: Color,
)
    requires
        0 <= origin < 100,
    ensures
        all_well_aimed(squares, origin, color, ray_moves(squares, origin, target, direction, color)),
    decreases
            (if direction > 0 {
                if target < 100 {
                    100 - target
                } else {
                    0
                }
            } else {
                if target > 0 {
                    target
                } else {
                    0
                }
            }),
{
    if on_board(target) && direction != 0 && squares[target].piece is None {
        lemma_ray_moves_well_aimed(squares, origin, target + direction, direction, color);
    }
}

/// The moves of a sliding piece never leave the board and never land on a
/// piece of their own side.
pub proof fn lemma_slide_moves_well_aimed(
    squares: Seq<Square>,
    origin: int,
    directions: Seq<i8>,
    color: Color,
)
    requires
        0 <= origin < 100,
    ensures
        all_well_aimed(squares, origin, color, slide_moves(squares, origin, directions, color)),
    decreases directions.len(),
{
    if directions.len() > 0 {
        lemma_slide_moves_well_aimed(squares, origin, directions.drop_last(), color);
        lemma_ray_moves_well_aimed(
            squares,
            origin,
            origin + directions.last(),
            directions.last() as int,
            color,
        );
    }
}

fn sliding_moves(board_index: i8, board: &Board, color: Color, directions: &[i8]) -> (moves: Vec<
    Move,
>)
    requires
        board@.squares.len() == 100,
        0 <= board_index < 100,
        forall|k: int|
            0 <= k < directions@.len() ==> -11 <= #[trigger] directions@[k] <= 11 && directions@[k]
                != 0,
    ensures
        moves@ == slide_moves(board@.squares, board_index as int, directions@, color),
{
    let mut moves: Vec<Move> = Vec::new();
    let mut k: usize = 0;
    while k < directions.len()
        invariant
            k <= directions@.len(),
            board@.squares.len() == 100,
            0 <= board_index < 100,
            forall|j: int|
                0 <= j < directions@.len() ==> -11 <= #[trigger] directions@[j] <= 11
                    && directions@[j] != 0,
            moves@ == slide_moves(
                board@.squares,
                board_index as int,
                directions@.subrange(0, k as int),
                color,
            ),
        decreases directions@.len() - k,
    {
        let direction: i8 = directions[k];
        let ghost before = moves@;
        let ghost ray = ray_moves(
            board@.squares,
            board_index as int,
            board_index + direction,
            direction as int,
            color,
        );
        let mut to: i8 = board_index;
        let mut stopped = false;
        while !stopped
            invariant
                board@.squares.len() == 100,
                0 <= board_index < 100,
                -11 <= direction <= 11,
                direction != 0,
                !stopped ==> 0 <= to < 100,
                ray == ray_moves(
                    board@.squares,
                    board_index as int,
                    board_index + direction,
                    direction as int,
                    color,
                ),
                stopped ==> moves@ == before + ray,
                !stopped ==> moves@ + ray_moves(
                    board@.squares,
                    board_index as int,
                    to + direction,
                    direction as int,
                    color,
                ) == before + ray,
            decreases
                    (if stopped {
                        0int
                    } else {
                        1int
                    }),
                    (if direction > 0 {
                        100 - to
                    } else {
                        to as int
                    }),
        {
            let ghost so_far = moves@;
            let ghost rest = ray_moves(
                board@.squares,
                board_index as int,
                to + direction,
                direction as int,
                color,
            );
            to = to + direction;
            if is_out_of_bounds(to) {
                stopped = true;
                assert(rest =~= Seq::<Move>::empty());
                assert(so_far + rest =~= so_far);
            } else {
                match board.get_piece_at(to as usize) {
                    Some(p) => {
                        if p.color != color {
                            moves.push(Move::new(board_index as usize, to as usize));
                            assert(rest =~= seq![mv(board_index as int, to as int)]);
                            assert(so_far + rest =~= moves@);
                        } else {
                            assert(rest =~= Seq::<Move>::empty());
                            assert(so_far + rest =~= so_far);
                        }
                        stopped = true;
                    },
                    None => {
                        moves.push(Move::new(board_index as usize, to as usize));
                        let ghost tail = ray_moves(
                            board@.squares,
                            board_index as int,
                            to + direction,
                            direction as int,
                            color,
                        );
                        assert(rest =~= seq![mv(board_index as int, to as int)] + tail);
                        assert(so_far + rest =~= moves@ + tail);
                    },
                }
            }
        }
        proof {
            assert(directions@.subrange(0, k + 1).drop_last() =~= directions@.subrange(
                0,
                k as int,
            ));
            assert(directions@.subrange(0, k + 1).last() == directions@[k as int]);
        }
        k += 1;
    }
    assert(directions@.subrange(0, directions@.len() as int) =~= directions@);
    moves
}

/// The pseudo-legal moves of a bishop of `color` on `board_index`.
pub fn get_bishop_moves(board_index: i8, board: &Board, color: Color) -> (moves: Vec<Move>)
    requires
        board@.squares.len() == 100,
        0 <= board_index < 100,
    ensures
        moves@ == slide_moves(board@.squares, board_index as int, BISHOP_MOVE_DIRECTIONS@, color),
        all_well_aimed(board@.squares, board_index as int, color, moves@),
{
    proof {
        lemma_slide_moves_well_aimed(board@.squares, board_index as int, BISHOP_MOVE_DIRECTIONS@, color);
    }
    sliding_moves(board_index, board, color, &BISHOP_MOVE_DIRECTIONS)
}

/// The pseudo-legal moves of a rook of `color` on `board_index`.
pub fn get_rook_moves(board_index: i8, board: &Board, color: Color) -> (moves: Vec<Move>)
    requires
        board@.squares.len() == 100,
        0 <= board_index < 100,
    ensures
        moves@ == slide_moves(board@.squares, board_index as int, ROOK_MOVE_DIRECTIONS@, color),
        all_well_aimed(board@.squares, board_index as int, color, moves@),
{
    proof {
        lemma_slide_moves_well_aimed(board@.squares, board_index as int, ROOK_MOVE_DIRECTIONS@, color);
    }
    sliding_moves(board_index, board, color, &ROOK_MOVE_DIRECTIONS)
}

/// The pseudo-legal moves of a queen of `color` on `board_index`.
pub fn get_queen_moves(board_index: i8, board: &Board, color: Color) -> (moves: Vec<Move>)
    requires
        board@.squares.len() == 100,
        0 <= board_index < 100,
    ensures
        moves@ == slide_moves(
            board@.squares,
            board_index as int,
            KING_QUEEN_MOVE_DIRECTIONS@,
            color,
        ),
        all_well_aimed(board@.squares, board_index as int, color, moves@),
{
    proof {
        lemma_slide_moves_well_aimed(board@.squares, board_index as int, KING_QUEEN_MOVE_DIRECTIONS@, color);
    }
    sliding_moves(board_index, board, color, &KING_QUEEN_MOVE_DIRECTIONS)
}

/// The pseudo-legal moves of a king of `color` on `board_index`.
pub fn get_king_moves(board_index: i8, board: &Board, color: Color) -> (moves: Vec<Move>)
    requires
        board@.squares.len() == 100,
        0 <= board_index < 100,
    ensures
        moves@ == step_moves(
            board@.squares,
            board_index as int,
            KING_QUEEN_MOVE_DIRECTIONS@,
            color,
        ),
        all_well_aimed(board@.squares, board_index as int, color, moves@),
{
    proof {
        lemma_step_moves_well_aimed(board@.squares, board_index as int, KING_QUEEN_MOVE_DIRECTIONS@, color);
    }
    stepping_moves(board_index, board, color, &KING_QUEEN_MOVE_DIRECTIONS)
}

/// The step of a pawn of `color`: towards rank 8 for White, towards rank 1
/// for Black.
pub open spec fn pawn_step(color: Color) -> int {
    match color {
        Color::White => -10,
        Color::Black => 10,
    }
}

/// The two capture steps of a pawn of `color`, in the order in which its
/// captures are listed.
pub open spec fn pawn_capture_steps(color: Color) -> Seq<i8> {
    match color {
        Color::White => WHITE_PAWN_CAPTURE_DIRECTIONS@,
        Color::Black => BLACK_PAWN_CAPTURE_DIRECTIONS@,
    }
}

/// Whether `origin` lies on the rank from which a pawn of `color` may
/// advance two squares: rank 2 for White, rank 7 for Black.
pub open spec fn on_pawn_home_rank(origin: int, color: Color) -> bool {
    match color {
        Color::White => 71 <= origin <= 78,
        Color::Black => 21 <= origin <= 28,
    }
}

/// Whether `target` is an empty square of the board.
pub open spec fn is_free(squares: Seq<Square>, target: int) -> bool {
    on_board(target) && squares[target].piece is None
}

/// Whether `target` is a square of the board that holds an enemy of `color`.
pub open spec fn holds_enemy(squares: Seq<Square>, target: int, color: Color) -> bool {
    on_board(target) && match squares[target].piece {
        Some(p) => p.color != color,
        None => false,
    }
}

/// The captures of a pawn of `color` on `origin`: one for each of `deltas`,
/// in their order, whose target holds an enemy piece.
pub open spec fn capture_moves(
    squares: Seq<Square>,
    origin: int,
    deltas: Seq<i8>,
    color: Color,
) -> Seq<Move>
    decreases deltas.len(),
{
    if deltas.len() == 0 {
        Seq::empty()
    } else {
        let earlier = capture_moves(squares, origin, deltas.drop_last(), color);
        let target = origin + deltas.last();
        if holds_enemy(squares, target, color) {
            earlier.push(mv(origin, target))
        } else {
            earlier
        }
    }
}

/// The advance of a pawn of `color` on `origin` by one square, if that
/// square is free.
pub open spec fn pawn_single_push(squares: Seq<Square>, origin: int, color: Color) -> Seq<Move> {
    if is_free(squares, origin + pawn_step(color)) {
        seq![mv(origin, origin + pawn_step(color))]
    } else {
        Seq::empty()
    }
}

/// The advance of a pawn of `color` on `origin` by two squares: from its
/// home rank only, and only if both squares in front of it are free.
pub open spec fn pawn_double_push(squares: Seq<Square>, origin: int, color: Color) -> Seq<Move> {
    if on_pawn_home_rank(origin, color) && is_free(squares, origin + pawn_step(color)) && is_free(
        squares,
        origin + 2 * pawn_step(color),
    ) {
        seq![mv(origin, origin + 2 * pawn_step(color))]
    } else {
        Seq::empty()
    }
}

/// The pseudo-legal moves of a pawn of `color` on `origin`: the single
/// advance, then the captures, then the double advance.
pub open spec fn pawn_moves(squares: Seq<Square>, origin: int, color: Color) -> Seq<Move> {
    pawn_single_push(squares, origin, color) + capture_moves(
        squares,
        origin,
        pawn_capture_steps(color),
        color,
    ) + pawn_double_push(squares, origin, color)
}

/// The captures of a pawn land on enemy pieces on the board.
pub proof fn lemma_capture_moves_well_aimed(
    squares: Seq<Square>,
    origin: int,
    deltas: Seq<i8>,
    color: Color,
)
    requires
        0 <= origin < 100,
    ensures
        all_well_aimed(squares, origin, color, capture_moves(squares, origin, deltas, color)),
    decreases deltas.len(),
{
    if deltas.len() > 0 {
        lemma_capture_moves_well_aimed(squares, origin, deltas.drop_last(), color);
    }
}

/// The moves of a pawn never leave the board and never land on a piece of
/// their own side.
pub proof fn lemma_pawn_moves_well_aimed(squares: Seq<Square>, origin: int, color: Color)
    requires
        0 <= origin < 100,
    ensures
        all_well_aimed(squares, origin, color, pawn_moves(squares, origin, color)),
{
    lemma_capture_moves_well_aimed(squares, origin, pawn_capture_steps(color), color);
}

fn free_at(board: &Board, to: i8) -> (free: bool)
    requires
        board@.squares.len() == 100,
    ensures
        free == is_free(board@.squares, to as int),
{
    if is_out_of_bounds(to) {
        return false;
    }
    match board.get_piece_at(to as usize) {
        Some(_) => false,
        None => true,
    }
}

/// The pseudo-legal moves of a pawn of `color` on `board_index`. There is no
/// capture in passing and no promotion.
pub fn get_pawn_moves(board_index: i8, board: &Board, color: Color) -> (moves: Vec<Move>)
    requires
        board@.squares.len() == 100,
        0 <= board_index < 100,
    ensures
        moves@ == pawn_moves(board@.squares, board_index as int, color),
        all_well_aimed(board@.squares, board_index as int, color, moves@),
{
    let move_directions: [i8; 1] = match color {
        Color::White => WHITE_PAWN_MOVE_DIRECTIONS,
        Color::Black => BLACK_PAWN_MOVE_DIRECTIONS,
    };
    let capture_directions: [i8; 2] = match color {
        Color::White => WHITE_PAWN_CAPTURE_DIRECTIONS,
        Color::Black => BLACK_PAWN_CAPTURE_DIRECTIONS,
    };
    let on_home_rank: bool = match color {
        Color::White => 71 <= board_index && board_index <= 78,
        Color::Black => 21 <= board_index && board_index <= 28,
    };
    let step: i8 = move_directions[0];
    assert(step == pawn_step(color));
    let mut moves: Vec<Move> = Vec::new();
    let single_free = free_at(board, board_index + step);
    if single_free {
        moves.push(Move::new(board_index as usize, (board_index + step) as usize));
    }
    assert(moves@ =~= pawn_single_push(board@.squares, board_index as int, color));
    let mut k: usize = 0;
    while k < 2
        invariant
            k <= 2,
            board@.squares.len() == 100,
            0 <= board_index < 100,
            capture_directions@ == pawn_capture_steps(color),
            moves@ == pawn_single_push(board@.squares, board_index as int, color) + capture_moves(
                board@.squares,
                board_index as int,
                capture_directions@.subrange(0, k as int),
                color,
            ),
        decreases 2 - k,
    {
        let to: i8 = board_index + capture_directions[k];
        proof {
            assert(capture_directions@.subrange(0, k + 1).drop_last()
                =~= capture_directions@.subrange(0, k as int));
            assert(capture_directions@.subrange(0, k + 1).last() == capture_directions@[k as int]);
        }
        if !is_out_of_bounds(to) {
            let enemy = match board.get_piece_at(to as usize) {
                Some(p) => p.color != color,
                None => false,
            };
            if enemy {
                moves.push(Move::new(board_index as usize, to as usize));
            }
        }
        assert(moves@ =~= pawn_single_push(board@.squares, board_index as int, color)
            + capture_moves(
            board@.squares,
            board_index as int,
            capture_directions@.subrange(0, k + 1),
            color,
        ));
        k += 1;
    }
    assert(capture_directions@.subrange(0, 2) =~= capture_directions@);
    if on_home_rank && single_free {
        let to: i8 = board_index + step + step;
        if free_at(board, to) {
            moves.push(Move::new(board_index as usize, to as usize));
        }
    }
    assert(moves@ =~= pawn_moves(board@.squares, board_index as int, color));
    proof {
        lemma_pawn_moves_well_aimed(board@.squares, board_index as int, color);
    }
    moves
}

/// The pseudo-legal moves of a knight of `color` on `board_index`.
pub fn get_knight_moves(board_index: i8, board: &Board, color: Color) -> (moves: Vec<Move>)
    requires
        board@.squares.len() == 100,
        0 <= board_index < 100,
    ensures
        moves@ == step_moves(board@.squares, board_index as int, KNIGHT_STEPPING_MOVES@, color),
        all_well_aimed(board@.squares, board_index as int, color, moves@),
{
    proof {
        lemma_step_moves_well_aimed(board@.squares, board_index as int, KNIGHT_STEPPING_MOVES@, color);
    }
    stepping_moves(board_index, board, color, &KNIGHT_STEPPING_MOVES)
}

} // verus!
