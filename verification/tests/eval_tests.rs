use chess_engine::board::Board;
use chess_engine::eval::{
    get_black_evaluation, get_snapshot_evaluation, get_value_of_black_piece,
    get_value_of_white_piece, get_white_evaluation,
};
use chess_engine::legal::get_all_legal_moves;
use chess_engine::ordering::sort_by_score;
use chess_engine::search::{get_legal_moves_sorted_by_strength, relative_evaluation, Eval};
use chess_engine::square::{Color, Move, Piece, PieceType};

const START: &str = "00000000000rnbqkbnr00pppppppp00--------00--------00--------00--------00PPPPPPPP00RNBQKBNR00000000000";

fn start_board() -> Board {
    Board::new(String::from(START), Color::White).unwrap()
}

fn play(board: &mut Board, from: &str, to: &str) {
    board.make_move(Move::from_chess_move((String::from(from), String::from(to))).unwrap());
}

fn bishop_out() -> Board {
    let mut board: Board = start_board();
    play(&mut board, "d2", "d4");
    play(&mut board, "e7", "e5");
    play(&mut board, "h2", "h4");
    play(&mut board, "h7", "h5");
    play(&mut board, "c1", "g5");
    board
}

#[test]
fn it_evaluates_a_board_position() {
    let board: Board = start_board();
    let (white_value, black_value): (u32, u32) = get_snapshot_evaluation(&board);

    assert_eq!(white_value, black_value);
}

#[test]
fn it_gives_best_move_with_one_depth() {
    let board: Board = start_board();
    let best_move: Move = Eval::new(&board, 1).unwrap();

    let expected_best_move = Move::from_chess_move((String::from("c2"), String::from("c4"))).unwrap();
    assert_eq!((best_move.from, best_move.to), (expected_best_move.from, expected_best_move.to));
}

#[test]
fn it_blunders_pieces_with_one_depth() {
    let board = bishop_out();
    let best_move: Move = Eval::new(&board, 1).unwrap();
    let expected_best_move = Move::from_chess_move((String::from("d8"), String::from("g5"))).unwrap();
    assert_eq!((best_move.from, best_move.to), (expected_best_move.from, expected_best_move.to));
}

#[test]
fn it_explores_move_tree_given_depth() {
    let board = bishop_out();
    let best_move: Move = Eval::new(&board, 4).unwrap();
    let expected_best_move = Move::from_chess_move((String::from("f7"), String::from("f6"))).unwrap();
    assert_eq!((best_move.from, best_move.to), (expected_best_move.from, expected_best_move.to));
}

#[test]
fn it_gets_the_value_for_whites_starting_position() {
    let board: Board = start_board();
    let white_value: u32 = get_white_evaluation(&board);
    assert_eq!(white_value, 14420);
}

#[test]
fn it_gets_the_value_for_blacks_starting_position() {
    let board: Board = start_board();
    let black_value: u32 = get_black_evaluation(&board);
    assert_eq!(black_value, 14420);
}

#[test]
fn the_best_moves_are_given_by_index() {
    let best = Eval::new(&start_board(), 1).unwrap();
    assert_eq!((best.from, best.to), (73, 53));
    let best = Eval::new(&bishop_out(), 1).unwrap();
    assert_eq!((best.from, best.to), (14, 47));
    let best = Eval::new(&bishop_out(), 4).unwrap();
    assert_eq!((best.from, best.to), (26, 36));
}

#[test]
fn a_search_gives_the_same_move_each_time() {
    for depth in 1..4u32 {
        let first = Eval::new(&bishop_out(), depth);
        let second = Eval::new(&bishop_out(), depth);
        assert_eq!(first, second);
        assert!(first.is_some());
    }
}

#[test]
fn a_search_of_no_plies_chooses_nothing() {
    assert_eq!(Eval::new(&start_board(), 0), None);
}

#[test]
fn a_side_without_moves_gets_none() {
    let layout = "00000000000k-------00--------00--------00--------00--------00--------00--------00--------00000000000";
    let board = Board::new(String::from(layout), Color::White).unwrap();
    assert_eq!(get_all_legal_moves(&board).len(), 0);
    assert_eq!(Eval::new(&board, 1), None);
    assert_eq!(Eval::new(&board, 3), None);
}

#[test]
fn a_mated_side_gets_none() {
    let layout = "00000000000k-------00--------00--------00--------00--------00--------00-----ppp00-r----K-00000000000";
    let mut layout: Vec<char> = layout.chars().collect();
    layout[76] = 'P';
    layout[77] = 'P';
    layout[78] = 'P';
    let board = Board::new(layout.into_iter().collect(), Color::White).unwrap();
    assert_eq!(get_all_legal_moves(&board).len(), 0);
    assert_eq!(Eval::new(&board, 2), None);
}

#[test]
fn the_chosen_move_is_legal() {
    let board = bishop_out();
    let legal: Vec<(usize, usize)> =
        get_all_legal_moves(&board).iter().map(|m| (m.from, m.to)).collect();
    for depth in 1..4u32 {
        let best = Eval::new(&board, depth).unwrap();
        assert!(legal.contains(&(best.from, best.to)));
    }
}

#[test]
fn a_piece_is_worth_its_material_and_its_square() {
    let pawn = Piece::new(PieceType::Pawn, Color::White);
    assert_eq!(get_value_of_white_piece(pawn, 75), 120);
    assert_eq!(get_value_of_white_piece(pawn, 55), 150);
    assert_eq!(get_value_of_white_piece(pawn, 11), 200);
    assert_eq!(get_value_of_black_piece(pawn, 25), 120);
    assert_eq!(get_value_of_black_piece(pawn, 81), 200);
    let knight = Piece::new(PieceType::Knight, Color::White);
    assert_eq!(get_value_of_white_piece(knight, 82), 330);
    assert_eq!(get_value_of_white_piece(knight, 55), 350);
    assert_eq!(get_value_of_black_piece(knight, 12), 330);
    let bishop = Piece::new(PieceType::Bishop, Color::White);
    assert_eq!(get_value_of_white_piece(bishop, 83), 330);
    assert_eq!(get_value_of_black_piece(bishop, 22), 340);
    let rook = Piece::new(PieceType::Rook, Color::White);
    assert_eq!(get_value_of_white_piece(rook, 81), 550);
    assert_eq!(get_value_of_white_piece(rook, 87), 500);
    assert_eq!(get_value_of_black_piece(rook, 11), 550);
    let queen = Piece::new(PieceType::Queen, Color::White);
    assert_eq!(get_value_of_white_piece(queen, 84), 900);
    assert_eq!(get_value_of_black_piece(queen, 14), 900);
    let king = Piece::new(PieceType::King, Color::White);
    assert_eq!(get_value_of_white_piece(king, 85), 10050);
    assert_eq!(get_value_of_white_piece(king, 87), 10100);
    assert_eq!(get_value_of_black_piece(king, 15), 10050);
    assert_eq!(get_value_of_black_piece(king, 0), 10000);
}

#[test]
fn the_table_goes_by_the_side_asked_not_by_the_piece() {
    let black_pawn = Piece::new(PieceType::Pawn, Color::Black);
    assert_eq!(get_value_of_white_piece(black_pawn, 11), 200);
    assert_eq!(get_value_of_black_piece(black_pawn, 11), 100);
}

#[test]
fn the_scores_follow_the_moves() {
    let mut board = start_board();
    play(&mut board, "e2", "e4");
    assert_eq!(get_snapshot_evaluation(&board), (14450, 14420));
    assert_eq!(relative_evaluation(&board), -30);
    play(&mut board, "d7", "d5");
    assert_eq!(get_snapshot_evaluation(&board), (14450, 14450));
    assert_eq!(relative_evaluation(&board), 0);
    play(&mut board, "e4", "d5");
    assert_eq!(get_snapshot_evaluation(&board), (14440, 14300));
    assert_eq!(relative_evaluation(&board), -140);
}

#[test]
fn an_empty_board_scores_nothing() {
    let layout = "00000000000--------00--------00--------00--------00--------00--------00--------00--------00000000000";
    let board = Board::new(String::from(layout), Color::Black).unwrap();
    assert_eq!(get_snapshot_evaluation(&board), (0, 0));
    assert_eq!(relative_evaluation(&board), 0);
}

#[test]
fn sorting_is_ascending_and_stable() {
    let scored = vec![
        (Move::new(1, 2), 30),
        (Move::new(3, 4), -5),
        (Move::new(5, 6), 30),
        (Move::new(7, 8), 0),
        (Move::new(9, 10), -5),
        (Move::new(11, 12), 30),
    ];
    let sorted = sort_by_score(scored);
    let order: Vec<(usize, i32)> = sorted.iter().map(|(m, s)| (m.from, *s)).collect();
    assert_eq!(order, vec![(3, -5), (9, -5), (7, 0), (1, 30), (5, 30), (11, 30)]);
    assert_eq!(sort_by_score(Vec::new()).len(), 0);
}

#[test]
fn moves_are_tried_from_the_least_value_for_the_other_side() {
    let board = start_board();
    let ordered = get_legal_moves_sorted_by_strength(&board);
    assert_eq!(ordered.len(), 20);
    let mut last = i32::MIN;
    for m in ordered.iter() {
        let value = relative_evaluation(&board.test_move(Move::new(m.from, m.to)));
        assert!(last <= value);
        last = value;
    }
    let mut given: Vec<(usize, usize)> = ordered.iter().map(|m| (m.from, m.to)).collect();
    let mut legal: Vec<(usize, usize)> =
        get_all_legal_moves(&board).iter().map(|m| (m.from, m.to)).collect();
    given.sort();
    legal.sort();
    assert_eq!(given, legal);
    assert_eq!((ordered[0].from, ordered[0].to), (73, 53));
}
