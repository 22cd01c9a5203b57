//! Depth-limited minimax search with alpha-beta pruning, move ordering by a
//! one-ply evaluation, and a memo of the positions already searched.

use vstd::prelude::*;
use vstd::hash_map::StringHashMap;
use crate::board::{apply_move, key_of, Board, Position};
use crate::eval::{get_snapshot_evaluation, lemma_score_bound, max_score, relative_score};
use crate::legal::{
    all_sound, get_all_legal_moves, is_sound, legal_moves, lemma_legal_moves_sound,
};
use crate::ordering::{
    lemma_stable_ordering, lemma_stable_ordering_members, sort_by_score, stable_ordering,
};
use crate::square::{Color, Move};

verus! {

/// The score of the side to move less that of the other side, as the
/// search holds it.
pub open spec fn relative_value(position: Position) -> i32 {
    relative_score(position) as i32
}

/// The legal moves of `position`, each with the relative value of the
/// position it leads to, seen from the side that moves next there.
pub open spec fn scored_moves(position: Position, moves: Seq<Move>) -> Seq<(Move, i32)> {
    Seq::new(moves.len(), |i: int| (moves[i], relative_value(apply_move(position, moves[i]))))
}

/// The moves of scored moves, without the scores.
pub open spec fn moves_of(scored: Seq<(Move, i32)>) -> Seq<Move> {
    Seq::new(scored.len(), |i: int| scored[i].0)
}

/// The legal moves of `position` in the order in which the search tries
/// them: by ascending value of the position they lead to, moves of equal
/// value in the order in which they were generated.
pub open spec fn ordered_moves(position: Position) -> Seq<Move> {
    moves_of(stable_ordering(scored_moves(position, legal_moves(position))))
}

/// What a search of one node gives: the value of the node, the move that
/// led to it, and the memo as the search left it.
pub struct Outcome {
    pub value: i32,
    pub best: Option<Move>,
    pub memo: Map<Seq<char>, (u32, i32)>,
}

/// The value of a node that is not searched further: the relative value of
/// the position for a maximising node, its negation for a minimising one.
pub open spec fn leaf_value(position: Position, is_maximizer: bool) -> i32 {
    if is_maximizer {
        relative_value(position)
    } else {
        (-relative_value(position)) as i32
    }
}

/// The value from which a node starts before it has tried a move.
pub open spec fn worst_value(is_maximizer: bool) -> i32 {
    if is_maximizer {
        i32::MIN
    } else {
        i32::MAX
    }
}

/// The search of one node. A position that the memo holds has the value
/// stored there. At depth 0, and where the side to move has no legal move,
/// the node has its leaf value. Otherwise the node tries its moves in
/// order; its value is then stored in the memo under the key of the
/// position.
pub open spec fn minimax(
    position: Position,
    depth: nat,
    is_maximizer: bool,
    alpha: i32,
    beta: i32,
    memo: Map<Seq<char>, (u32, i32)>,
) -> Outcome
    decreases depth, 1int, 0int,
{
    let key = key_of(position);
    if memo.contains_key(key) {
        Outcome { value: memo[key].1, best: None, memo }
    } else if depth == 0 {
        Outcome { value: leaf_value(position, is_maximizer), best: None, memo }
    } else {
        let moves = ordered_moves(position);
        let found = if moves.len() == 0 {
            Outcome { value: leaf_value(position, is_maximizer), best: None, memo }
        } else {
            best_of(
                position,
                depth,
                moves,
                0,
                is_maximizer,
                alpha,
                beta,
                worst_value(is_maximizer),
                None,
                memo,
            )
        };
        Outcome {
            value: found.value,
            best: found.best,
            memo: found.memo.insert(key, (depth as u32, found.value)),
        }
    }
}

/// The search of the moves of a node from `moves[next]` on, given the best
/// value and move found so far. Each move is searched one ply less deep
/// with the roles of the sides exchanged. A maximising node keeps the
/// first move of the greatest value and raises alpha to it, a minimising
/// node keeps the first move of the least value and lowers beta to it; the
/// node stops as soon as beta is no greater than alpha.
pub open spec fn best_of(
    position: Position,
    depth: nat,
    moves: Seq<Move>,
    next: int,
    is_maximizer: bool,
    alpha: i32,
    beta: i32,
    best_value: i32,
    best_move: Option<Move>,
    memo: Map<Seq<char>, (u32, i32)>,
) -> Outcome
    decreases depth, 0int, moves.len() - next,
{
    if depth == 0 || next < 0 || next >= moves.len() {
        Outcome { value: best_value, best: best_move, memo }
    } else {
        let child = minimax(
            apply_move(position, moves[next]),
            (depth - 1) as nat,
            !is_maximizer,
            alpha,
            beta,
            memo,
        );
        let value = child.value;
        let better = if is_maximizer {
            value > best_value
        } else {
            value < best_value
        };
        let new_value = if better {
            value
        } else {
            best_value
        };
        let new_move = if better {
            Some(moves[next])
        } else {
            best_move
        };
        let new_alpha = if is_maximizer && value > alpha {
            value
        } else {
            alpha
        };
        let new_beta = if !is_maximizer && value < beta {
            value
        } else {
            beta
        };
        if new_beta <= new_alpha {
            Outcome { value: new_value, best: new_move, memo: child.memo }
        } else {
            best_of(
                position,
                depth,
                moves,
                next + 1,
                is_maximizer,
                new_alpha,
                new_beta,
                new_value,
                new_move,
                child.memo,
            )
        }
    }
}

/// The move that a search of `position` to `depth` plies chooses.
pub open spec fn best_move(position: Position, depth: nat) -> Option<Move> {
    minimax(position, depth, true, i32::MIN, i32::MAX, Map::empty()).best
}

/// Whether `value` lies within what a relative score can be.
pub open spec fn in_range(value: i32) -> bool {
    -max_score() <= value <= max_score()
}

/// Whether every value that the memo holds lies within what a relative
/// score can be.
pub open spec fn memo_in_range(memo: Map<Seq<char>, (u32, i32)>) -> bool {
    forall|key: Seq<char>| memo.contains_key(key) ==> in_range((#[trigger] memo[key]).1)
}

/// The relative value of a position is its relative score, which lies
/// within the range of scores; so does the value of a leaf.
pub proof fn lemma_relative_value(position: Position)
    ensures
        relative_value(position) == relative_score(position),
        in_range(relative_value(position)),
        in_range(leaf_value(position, true)),
        in_range(leaf_value(position, false)),
        leaf_value(position, false) == -relative_score(position),
{
    lemma_score_bound(position.squares, position.side, 100);
    lemma_score_bound(position.squares, position.side.opposite(), 100);
}

/// The search of a node gives a value within the range of scores and keeps
/// the memo within it. The move it gives, if any, is one of the moves of
/// the node; and it gives a move whenever it tries the moves of a node that
/// has some.
pub proof fn lemma_minimax(
    position: Position,
    depth: nat,
    is_maximizer: bool,
    alpha: i32,
    beta: i32,
    memo: Map<Seq<char>, (u32, i32)>,
)
    requires
        memo_in_range(memo),
    ensures
        in_range(minimax(position, depth, is_maximizer, alpha, beta, memo).value),
        memo_in_range(minimax(position, depth, is_maximizer, alpha, beta, memo).memo),
        minimax(position, depth, is_maximizer, alpha, beta, memo).best is Some ==> ordered_moves(
            position,
        ).contains(minimax(position, depth, is_maximizer, alpha, beta, memo).best.unwrap()),
        depth > 0 && !memo.contains_key(key_of(position)) && ordered_moves(position).len() > 0
            ==> minimax(position, depth, is_maximizer, alpha, beta, memo).best is Some,
        minimax(position, depth, is_maximizer, alpha, beta, memo).best is Some ==> depth > 0,
    decreases depth, 1int, 0int,
{
    let key = key_of(position);
    lemma_relative_value(position);
    if memo.contains_key(key) {
    } else if depth == 0 {
    } else {
        let moves = ordered_moves(position);
        if moves.len() > 0 {
            lemma_best_of(
                position,
                depth,
                moves,
                0,
                is_maximizer,
                alpha,
                beta,
                worst_value(is_maximizer),
                None,
                memo,
            );
        }
    }
}

/// The search of the moves of a node gives a value within the range of
/// scores, provided that the best value so far lies within it or that a
/// move is still to be tried. The move it gives is the best so far or one
/// of the moves.
pub proof fn lemma_best_of(
    position: Position,
    depth: nat,
    moves: Seq<Move>,
    next: int,
    is_maximizer: bool,
    alpha: i32,
    beta: i32,
    best_value: i32,
    best_move: Option<Move>,
    memo: Map<Seq<char>, (u32, i32)>,
)
    requires
        memo_in_range(memo),
        depth > 0,
        0 <= next <= moves.len(),
        in_range(best_value) || (next < moves.len() && best_value == worst_value(is_maximizer)),
    ensures
        in_range(
            best_of(
                position,
                depth,
                moves,
                next,
                is_maximizer,
                alpha,
                beta,
                best_value,
                best_move,
                memo,
            ).value,
        ),
        memo_in_range(
            best_of(
                position,
                depth,
                moves,
                next,
                is_maximizer,
                alpha,
                beta,
                best_value,
                best_move,
                memo,
            ).memo,
        ),
        ({
            let found = best_of(
                position,
                depth,
                moves,
                next,
                is_maximizer,
                alpha,
                beta,
                best_value,
                best_move,
                memo,
            ).best;
            &&& found is Some ==> found == best_move || moves.contains(found.unwrap())
            &&& best_move is Some || !in_range(best_value) ==> found is Some
        }),
    decreases depth, 0int, moves.len() - next,
{
    if next < moves.len() {
        let child_position = apply_move(position, moves[next]);
        lemma_minimax(child_position, (depth - 1) as nat, !is_maximizer, alpha, beta, memo);
        let child = minimax(child_position, (depth - 1) as nat, !is_maximizer, alpha, beta, memo);
        let value = child.value;
        let better = if is_maximizer {
            value > best_value
        } else {
            value < best_value
        };
        let new_value = if better {
            value
        } else {
            best_value
        };
        let new_move = if better {
            Some(moves[next])
        } else {
            best_move
        };
        let new_alpha = if is_maximizer && value > alpha {
            value
        } else {
            alpha
        };
        let new_beta = if !is_maximizer && value < beta {
            value
        } else {
            beta
        };
        assert(in_range(new_value));
        assert(moves.contains(moves[next]));
        if new_beta <= new_alpha {
        } else {
            lemma_best_of(
                position,
                depth,
                moves,
                next + 1,
                is_maximizer,
                new_alpha,
                new_beta,
                new_value,
                new_move,
                child.memo,
            );
        }
    }
}

/// The ordered moves of a position are its legal moves in another order.
pub proof fn lemma_ordered_moves(position: Position)
    ensures
        ordered_moves(position).len() == legal_moves(position).len(),
        forall|i: int|
            0 <= i < ordered_moves(position).len() ==> legal_moves(position).contains(
                #[trigger] ordered_moves(position)[i],
            ),
        forall|i: int|
            0 <= i < legal_moves(position).len() ==> ordered_moves(position).contains(
                #[trigger] legal_moves(position)[i],
            ),
{
    let legal = legal_moves(position);
    let scored = scored_moves(position, legal);
    lemma_stable_ordering(scored);
    let sorted = stable_ordering(scored);
    let ordered = ordered_moves(position);
    lemma_stable_ordering_members(scored, sorted);
    assert forall|i: int| 0 <= i < ordered.len() implies legal.contains(#[trigger] ordered[i]) by {
        assert(scored.contains(sorted[i]));
        let j = choose|j: int| 0 <= j < scored.len() && scored[j] == sorted[i];
        assert(legal[j] == ordered[i]);
    }
    assert forall|i: int| 0 <= i < legal.len() implies ordered.contains(#[trigger] legal[i]) by {
        assert(sorted.contains(scored[i]));
        let j = choose|j: int| 0 <= j < sorted.len() && sorted[j] == scored[i];
        assert(ordered[j] == legal[i]);
    }
}

/// A search chooses the same move whenever it is given the same position
/// and the same depth. Where it looks at least one ply ahead it chooses a
/// move exactly when the side to move has a legal one, and the move it
/// chooses is legal.
pub proof fn lemma_best_move(position: Position, other: Position, depth: nat)
    requires
        position == other,
    ensures
        best_move(position, depth) == best_move(other, depth),
        depth > 0 ==> (best_move(position, depth) is None <==> legal_moves(position).len() == 0),
        best_move(position, depth) is Some ==> legal_moves(position).contains(
            best_move(position, depth).unwrap(),
        ),
{
    let empty = Map::<Seq<char>, (u32, i32)>::empty();
    lemma_minimax(position, depth, true, i32::MIN, i32::MAX, empty);
    lemma_ordered_moves(position);
    let found = best_move(position, depth);
    if found is Some {
        let ordered = ordered_moves(position);
        let i = choose|i: int| 0 <= i < ordered.len() && ordered[i] == found.unwrap();
        assert(legal_moves(position).contains(ordered[i]));
    }
}

/// The score of the side to move less that of the other side.
pub fn relative_evaluation(board: &Board) -> (value: i32)
    requires
        board@.squares.len() == 100,
    ensures
        value == relative_value(board@),
        value == relative_score(board@),
{
    proof {
        lemma_relative_value(board@);
    }
    let evaluations = get_snapshot_evaluation(board);
    match board.current_turn.color {
        Color::White => evaluations.0 as i32 - evaluations.1 as i32,
        Color::Black => evaluations.1 as i32 - evaluations.0 as i32,
    }
}

/// The legal moves of the side to move in the order in which the search
/// tries them: by ascending value of the position that each leads to, as
/// the other side sees it.
pub fn get_legal_moves_sorted_by_strength(board: &Board) -> (moves: Vec<Move>)
    requires
        board@.squares.len() == 100,
    ensures
        moves@ == ordered_moves(board@),
        all_sound(board@, moves@),
{
    let candidates = get_all_legal_moves(board);
    let mut scored: Vec<(Move, i32)> = Vec::new();
    let mut i: usize = 0;
    while i < candidates.len()
        invariant
            i <= candidates@.len(),
            board@.squares.len() == 100,
            candidates@ == legal_moves(board@),
            all_sound(board@, candidates@),
            scored@ == scored_moves(board@, candidates@.subrange(0, i as int)),
        decreases candidates@.len() - i,
    {
        let legal_move = candidates[i];
        assert(is_sound(board@, candidates@[i as int]));
        let next_board = board.test_move(Move { from: legal_move.from, to: legal_move.to });
        let value = relative_evaluation(&next_board);
        scored.push((legal_move, value));
        assert(scored@ =~= scored_moves(board@, candidates@.subrange(0, i + 1)));
        i += 1;
    }
    assert(candidates@.subrange(0, candidates@.len() as int) =~= candidates@);
    let sorted = sort_by_score(scored);
    let mut legal_moves_sorted: Vec<Move> = Vec::new();
    let mut k: usize = 0;
    while k < sorted.len()
        invariant
            k <= sorted@.len(),
            legal_moves_sorted@ == moves_of(sorted@.subrange(0, k as int)),
        decreases sorted@.len() - k,
    {
        legal_moves_sorted.push(sorted[k].0);
        assert(legal_moves_sorted@ =~= moves_of(sorted@.subrange(0, k + 1)));
        k += 1;
    }
    proof {
        assert(sorted@.subrange(0, sorted@.len() as int) =~= sorted@);
        lemma_ordered_moves(board@);
        assert forall|j: int| 0 <= j < legal_moves_sorted@.len() implies is_sound(
            board@,
            #[trigger] legal_moves_sorted@[j],
        ) by {
            let m = legal_moves_sorted@[j];
            assert(legal_moves(board@).contains(m));
            let q = choose|q: int| 0 <= q < candidates@.len() && candidates@[q] == m;
            assert(is_sound(board@, candidates@[q]));
        }
    }
    legal_moves_sorted
}

/// A search in progress: the memo of the positions it has searched, each
/// under its key with the depth and the value found.
pub struct Eval {
    cache: StringHashMap<(u32, i32)>,
}

impl Eval {
    /// Searches `board` to `depth` plies and gives the move chosen for the
    /// side to move. At depth 0 no move is chosen; at a greater depth a
    /// legal move is chosen whenever there is one.
    pub fn new(board: &Board, depth: u32) -> (best: Option<Move>)
        requires
            board.wf(),
        ensures
            best == best_move(board@, depth as nat),
            depth > 0 ==> (best is None <==> legal_moves(board@).len() == 0),
            best is Some ==> legal_moves(board@).contains(best.unwrap()) && is_sound(
                board@,
                best.unwrap(),
            ),
    {
        let mut evaluation = Eval { cache: StringHashMap::new() };
        evaluation.get_best_move(board, depth)
    }

    fn get_best_move(&mut self, board: &Board, depth: u32) -> (best: Option<Move>)
        requires
            board.wf(),
            old(self).cache@ == Map::<Seq<char>, (u32, i32)>::empty(),
        ensures
            best == best_move(board@, depth as nat),
            depth > 0 ==> (best is None <==> legal_moves(board@).len() == 0),
            best is Some ==> legal_moves(board@).contains(best.unwrap()) && is_sound(
                board@,
                best.unwrap(),
            ),
    {
        let min_max_evaluation = self.min_max_evaluation(board, depth, true, i32::MIN, i32::MAX);
        proof {
            lemma_best_move(board@, board@, depth as nat);
            if min_max_evaluation.1 is Some {
                let m = min_max_evaluation.1.unwrap();
                lemma_legal_moves_sound(board@, 100);
                let legal = legal_moves(board@);
                let q = choose|q: int| 0 <= q < legal.len() && legal[q] == m;
                assert(is_sound(board@, legal[q]));
            }
        }
        min_max_evaluation.1
    }

    fn min_max_evaluation(
        &mut self,
        board: &Board,
        depth: u32,
        is_maximizer: bool,
        alpha: i32,
        beta: i32,
    ) -> (found: (i32, Option<Move>))
        requires
            board.wf(),
        ensures
            (Outcome { value: found.0, best: found.1, memo: final(self).cache@ }) == minimax(
                board@,
                depth as nat,
                is_maximizer,
                alpha,
                beta,
                old(self).cache@,
            ),
        decreases depth, 1int,
    {
        if let Some(cached_result) = self.cache.get(board.board_string_with_turn_bit.as_str()) {
            let (_cached_depth, best_move_value): (u32, i32) = *cached_result;
            return (best_move_value, None);
        }
        if depth == 0 {
            return (leaf_evaluation(board, is_maximizer), None);
        }
        let legal_moves = get_legal_moves_sorted_by_strength(board);
        let (best_move_value, best_move) = if legal_moves.len() == 0 {
            (leaf_evaluation(board, is_maximizer), None)
        } else {
            self.get_best_move_with_value(board, depth, legal_moves, is_maximizer, alpha, beta)
        };
        self.cache.insert(board.board_string_with_turn_bit.clone(), (depth, best_move_value));
        (best_move_value, best_move)
    }

    fn get_best_move_with_value(
        &mut self,
        board: &Board,
        depth: u32,
        legal_moves: Vec<Move>,
        is_maximizer: bool,
        alpha: i32,
        beta: i32,
    ) -> (found: (i32, Option<Move>))
        requires
            board.wf(),
            depth > 0,
            all_sound(board@, legal_moves@),
        ensures
            (Outcome { value: found.0, best: found.1, memo: final(self).cache@ }) == best_of(
                board@,
                depth as nat,
                legal_moves@,
                0,
                is_maximizer,
                alpha,
                beta,
                worst_value(is_maximizer),
                None,
                old(self).cache@,
            ),
        decreases depth, 0int,
    {
        let mut alpha = alpha;
        let mut beta = beta;
        let mut best_move: Option<Move> = None;
        let mut best_move_value = match is_maximizer {
            true => i32::MIN,
            false => i32::MAX,
        };
        let ghost whole = best_of(
            board@,
            depth as nat,
            legal_moves@,
            0,
            is_maximizer,
            alpha,
            beta,
            worst_value(is_maximizer),
            None,
            self.cache@,
        );
        let mut i: usize = 0;
        let mut pruned = false;
        while !pruned && i < legal_moves.len()
            invariant
                board.wf(),
                depth > 0,
                all_sound(board@, legal_moves@),
                i <= legal_moves@.len(),
                pruned ==> whole == (Outcome {
                    value: best_move_value,
                    best: best_move,
                    memo: self.cache@,
                }),
                !pruned ==> whole == best_of(
                    board@,
                    depth as nat,
                    legal_moves@,
                    i as int,
                    is_maximizer,
                    alpha,
                    beta,
                    best_move_value,
                    best_move,
                    self.cache@,
                ),
            decreases
                    (if pruned {
                        0int
                    } else {
                        1int
                    }),
                    legal_moves@.len() - i,
        {
            let legal_move = legal_moves[i];
            assert(is_sound(board@, legal_moves@[i as int]));
            let next_board = board.test_move(Move { from: legal_move.from, to: legal_move.to });
            let value: i32 = self.min_max_evaluation(
                &next_board,
                depth - 1,
                !is_maximizer,
                alpha,
                beta,
            ).0;
            match is_maximizer {
                true => {
                    if value > best_move_value {
                        best_move_value = value;
                        best_move = Some(legal_move);
                    }
                    alpha = if alpha > value {
                        alpha
                    } else {
                        value
                    };
                },
                false => {
                    if value < best_move_value {
                        best_move_value = value;
                        best_move = Some(legal_move);
                    }
                    beta = if beta < value {
                        beta
                    } else {
                        value
                    };
                },
            };
            if beta <= alpha {
                pruned = true;
            } else {
                i += 1;
            }
        }
        (best_move_value, best_move)
    }
}

/// The value of a node that is not searched further.
fn leaf_evaluation(board: &Board, is_maximizer: bool) -> (value: i32)
    requires
        board@.squares.len() == 100,
    ensures
        value == leaf_value(board@, is_maximizer),
{
    proof {
        lemma_relative_value(board@);
    }
    let value = relative_evaluation(board);
    if is_maximizer {
        value
    } else {
        -value
    }
}

} // verus!
