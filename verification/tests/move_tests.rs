use chess_engine::board::Board;
use chess_engine::check::is_check;
use chess_engine::helpers::{is_out_of_bounds, square_to_index};
use chess_engine::legal::get_all_legal_moves;
use chess_engine::square::{Color, Move, Piece, PieceType};
use chess_engine::valid_moves::{
    get_bishop_moves, get_king_moves, get_knight_moves, get_pawn_moves, get_queen_moves,
    get_rook_moves,
};

const START: &str = "00000000000rnbqkbnr00pppppppp00--------00--------00--------00--------00PPPPPPPP00RNBQKBNR00000000000";

fn start_board() -> Board {
    Board::new(String::from(START), Color::White).unwrap()
}

fn play(board: &mut Board, from: &str, to: &str) {
    board.make_move(Move::from_chess_move((String::from(from), String::from(to))).unwrap());
}

fn targets(moves: &Vec<Move>) -> Vec<usize> {
    let mut to: Vec<usize> = moves.iter().map(|m| m.to).collect();
    to.sort();
    to
}

#[test]
fn it_should_return_a_list_of_moves_from_a_given_position() {
    let mut board: Board = start_board();
    play(&mut board, "h2", "h4");
    play(&mut board, "e7", "e5");
    play(&mut board, "g2", "g4");
    play(&mut board, "e5", "e4");
    play(&mut board, "a2", "a4");
    play(&mut board, "e4", "e3");
    let pawn = board.get_piece_at(square_to_index(String::from("d2")).unwrap()).unwrap();
    let legal_moves: Vec<Move> = pawn.get_moves(square_to_index(String::from("d2")).unwrap(), &board);
    assert_eq!(legal_moves.len(), 3);
}

#[test]
fn mod_it_should_return_a_list_of_moves_from_a_given_position() {
    let board: Board = start_board();
    let knight = board.get_piece_at(square_to_index(String::from("g1")).unwrap()).unwrap();
    let legal_moves: Vec<Move> = knight.get_moves(square_to_index(String::from("g1")).unwrap(), &board);
    assert_eq!(legal_moves.len(), 2);
}

#[test]
fn it_should_return_a_list_of_moves_from_a_given_position_for_a_bishop() {
    let mut board: Board = start_board();
    play(&mut board, "e2", "e4");
    play(&mut board, "e7", "e5");
    let bishop = board.get_piece_at(square_to_index(String::from("f1")).unwrap()).unwrap();
    let legal_moves: Vec<Move> = bishop.get_moves(square_to_index(String::from("f1")).unwrap(), &board);
    assert_eq!(legal_moves.len(), 5);
}

#[test]
fn it_should_return_a_list_of_moves_from_a_given_position_for_a_rook() {
    let mut board: Board = start_board();
    play(&mut board, "h2", "h4");
    play(&mut board, "e7", "e5");
    play(&mut board, "g1", "f3");
    play(&mut board, "d7", "d5");
    let rook = board.get_piece_at(88 as usize).unwrap();
    let legal_moves: Vec<Move> = rook.get_moves(88 as usize, &board);
    assert_eq!(legal_moves.len(), 3);
}

#[test]
fn it_should_return_a_list_of_moves_from_a_given_position_for_a_queen() {
    let mut board: Board = start_board();
    play(&mut board, "e2", "e4");
    play(&mut board, "e7", "e5");
    play(&mut board, "d1", "g4");
    play(&mut board, "h7", "h4");
    let queen = board.get_piece_at(57 as usize).unwrap();
    let legal_moves: Vec<Move> = queen.get_moves(57 as usize, &board);
    assert_eq!(legal_moves.len(), 14);
}

#[test]
fn it_should_return_a_list_of_moves_from_a_given_position_for_a_king() {
    let mut board: Board = start_board();
    play(&mut board, "e2", "e4");
    play(&mut board, "e7", "e5");
    play(&mut board, "e1", "e2");
    play(&mut board, "h7", "h4");
    let king = board.get_piece_at(75 as usize).unwrap();
    let legal_moves: Vec<Move> = king.get_moves(75 as usize, &board);
    assert_eq!(legal_moves.len(), 4);
}

#[test]
fn it_finds_check() {
    let mut board: Board = start_board();
    play(&mut board, "e2", "e4");
    play(&mut board, "f7", "f5");
    play(&mut board, "d1", "h5");
    assert_eq!(is_check(board.clone()), true);
    play(&mut board, "g7", "g6");
    assert_eq!(is_check(board.clone()), false);
}

#[test]
fn it_finds_twenty_legal_moves_for_white_from_initial_position() {
    let board: Board = start_board();
    let legal_moves = get_all_legal_moves(&board);
    assert_eq!(legal_moves.len(), 20);
}

#[test]
fn it_finds_twenty_legal_moves_for_black_after_white_moves() {
    let mut board: Board = start_board();
    play(&mut board, "e2", "e4");
    let legal_moves = get_all_legal_moves(&board);
    assert_eq!(legal_moves.len(), 20);
}

#[test]
fn it_finds_capture_moves_for_pawns() {
    let mut board: Board = start_board();
    play(&mut board, "e2", "e4");
    play(&mut board, "d7", "d5");
    let legal_moves = get_all_legal_moves(&board);
    assert_eq!(legal_moves.len(), 31);
}

#[test]
fn it_doesnt_leave_player_in_check() {
    let mut board: Board = start_board();
    play(&mut board, "e2", "e4");
    play(&mut board, "d7", "d5");
    play(&mut board, "d1", "h5");
    let legal_moves = get_all_legal_moves(&board);
    let legal_moves_include_f7_pawn = match legal_moves.iter().find(|legal_move| match legal_move.from {
        26 => true,
        _ => false,
    }) {
        Some(_) => true,
        None => false,
    };
    assert_eq!(legal_moves_include_f7_pawn, false);
}

#[test]
fn a_pawn_on_its_home_rank_may_advance_one_or_two() {
    let board = start_board();
    let moves = get_pawn_moves(75, &board, Color::White);
    assert_eq!(moves.iter().map(|m| (m.from, m.to)).collect::<Vec<_>>(), vec![(75, 65), (75, 55)]);
    let moves = get_pawn_moves(25, &board, Color::Black);
    assert_eq!(moves.iter().map(|m| (m.from, m.to)).collect::<Vec<_>>(), vec![(25, 35), (25, 45)]);
}

#[test]
fn a_pawn_off_its_home_rank_advances_one_only() {
    let mut board = start_board();
    play(&mut board, "e2", "e4");
    let moves = get_pawn_moves(55, &board, Color::White);
    assert_eq!(targets(&moves), vec![45]);
}

#[test]
fn a_blocked_pawn_does_not_advance() {
    let mut board = start_board();
    board.make_move(Move { from: 25, to: 65 });
    let moves = get_pawn_moves(75, &board, Color::White);
    assert_eq!(moves.len(), 0);
    let mut board = start_board();
    board.make_move(Move { from: 25, to: 55 });
    let moves = get_pawn_moves(75, &board, Color::White);
    assert_eq!(targets(&moves), vec![65]);
}

#[test]
fn a_pawn_captures_on_the_diagonals_only() {
    let mut board = start_board();
    play(&mut board, "e2", "e4");
    play(&mut board, "d7", "d5");
    let moves = get_pawn_moves(55, &board, Color::White);
    assert_eq!(moves.iter().map(|m| m.to).collect::<Vec<_>>(), vec![45, 44]);
    let moves = get_pawn_moves(44, &board, Color::Black);
    assert_eq!(moves.iter().map(|m| m.to).collect::<Vec<_>>(), vec![54, 55]);
}

#[test]
fn knights_jump_and_stay_on_the_board() {
    let board = start_board();
    let moves = get_knight_moves(87, &board, Color::White);
    assert_eq!(moves.iter().map(|m| m.to).collect::<Vec<_>>(), vec![66, 68]);
    let moves = get_knight_moves(82, &board, Color::White);
    assert_eq!(targets(&moves), vec![61, 63]);
    let moves = get_knight_moves(88, &board, Color::White);
    assert_eq!(targets(&moves), vec![67]);
}

#[test]
fn sliders_stop_at_the_first_piece() {
    let mut board = start_board();
    play(&mut board, "a2", "a4");
    play(&mut board, "a7", "a5");
    let moves = get_rook_moves(81, &board, Color::White);
    assert_eq!(moves.iter().map(|m| m.to).collect::<Vec<_>>(), vec![71, 61]);
    let mut board = start_board();
    board.make_move(Move { from: 81, to: 54 });
    let moves = get_rook_moves(54, &board, Color::White);
    assert_eq!(
        moves.iter().map(|m| m.to).collect::<Vec<_>>(),
        vec![53, 52, 51, 55, 56, 57, 58, 44, 34, 24, 64]
    );
    let moves = get_bishop_moves(54, &board, Color::White);
    assert_eq!(moves.iter().map(|m| m.to).collect::<Vec<_>>(), vec![63, 65, 45, 36, 27, 43, 32, 21]);
    let moves = get_queen_moves(54, &board, Color::White);
    assert_eq!(moves.len(), 19);
    let moves = get_king_moves(54, &board, Color::White);
    assert_eq!(moves.iter().map(|m| m.to).collect::<Vec<_>>(), vec![53, 43, 44, 45, 55, 65, 64, 63]);
}

#[test]
fn pieces_in_the_starting_position_are_hemmed_in() {
    let board = start_board();
    assert_eq!(get_rook_moves(81, &board, Color::White).len(), 0);
    assert_eq!(get_bishop_moves(83, &board, Color::White).len(), 0);
    assert_eq!(get_queen_moves(84, &board, Color::White).len(), 0);
    assert_eq!(get_king_moves(85, &board, Color::White).len(), 0);
    assert_eq!(get_rook_moves(11, &board, Color::Black).len(), 0);
}

#[test]
fn no_generated_move_leaves_the_board_or_takes_its_own() {
    let mut board = start_board();
    let line = [
        ("e2", "e4"),
        ("e7", "e5"),
        ("g1", "f3"),
        ("b8", "c6"),
        ("f1", "c4"),
        ("f8", "c5"),
        ("d1", "e2"),
        ("d8", "h4"),
    ];
    for (from, to) in line {
        play(&mut board, from, to);
        for origin in 0..100usize {
            if let Some(piece) = board.get_piece_at(origin) {
                let index = origin as i8;
                let all = [
                    get_pawn_moves(index, &board, piece.color),
                    get_knight_moves(index, &board, piece.color),
                    get_bishop_moves(index, &board, piece.color),
                    get_rook_moves(index, &board, piece.color),
                    get_queen_moves(index, &board, piece.color),
                    get_king_moves(index, &board, piece.color),
                ];
                for moves in all.iter() {
                    for m in moves.iter() {
                        assert_eq!(m.from, origin);
                        assert!(!is_out_of_bounds(m.to as i8));
                        match board.get_piece_at(m.to) {
                            Some(taken) => assert_ne!(taken.color, piece.color),
                            None => {}
                        }
                    }
                }
            }
        }
    }
}

#[test]
fn no_legal_move_leaves_the_mover_in_check() {
    let mut board = start_board();
    let line = [("e2", "e4"), ("d7", "d5"), ("d1", "h5"), ("g8", "f6"), ("h5", "f7")];
    for (from, to) in line {
        play(&mut board, from, to);
        let mover = board.current_turn.color;
        for m in get_all_legal_moves(&board).iter() {
            let piece = board.get_piece_at(m.from).unwrap();
            assert_eq!(piece.color, mover);
            let mut next = board.test_move(Move { from: m.from, to: m.to });
            next.current_turn.toggle();
            assert_eq!(next.current_turn.color, mover);
            assert!(!is_check(next));
        }
    }
}

#[test]
fn a_checked_king_has_few_moves() {
    let mut board = start_board();
    play(&mut board, "e2", "e4");
    play(&mut board, "f7", "f5");
    play(&mut board, "d1", "h5");
    let legal_moves = get_all_legal_moves(&board);
    assert_eq!(legal_moves.iter().map(|m| (m.from, m.to)).collect::<Vec<_>>(), vec![(27, 37)]);
}

#[test]
fn each_attacker_is_seen() {
    let empty = "00000000000--------00--------00--------00--------00--------00--------00--------00--------00000000000";
    let with = |pieces: &[(usize, char)]| {
        let mut layout: Vec<char> = empty.chars().collect();
        for (index, letter) in pieces {
            layout[*index] = *letter;
        }
        Board::new(layout.into_iter().collect(), Color::White).unwrap()
    };
    assert!(!is_check(with(&[(55, 'K')])));
    assert!(is_check(with(&[(55, 'K'), (11, 'b')])));
    assert!(is_check(with(&[(55, 'K'), (28, 'q')])));
    assert!(is_check(with(&[(55, 'K'), (15, 'r')])));
    assert!(is_check(with(&[(55, 'K'), (51, 'q')])));
    assert!(is_check(with(&[(55, 'K'), (34, 'n')])));
    assert!(is_check(with(&[(55, 'K'), (44, 'p')])));
    assert!(is_check(with(&[(55, 'K'), (46, 'p')])));
    assert!(is_check(with(&[(55, 'K'), (56, 'k')])));
    assert!(!is_check(with(&[(55, 'K'), (64, 'p')])));
    assert!(!is_check(with(&[(55, 'K'), (45, 'p')])));
    assert!(!is_check(with(&[(55, 'K'), (15, 'b')])));
    assert!(!is_check(with(&[(55, 'K'), (11, 'r')])));
    assert!(!is_check(with(&[(55, 'K'), (15, 'r'), (35, 'P')])));
    assert!(!is_check(with(&[(55, 'K'), (15, 'r'), (35, 'p')])));
    assert!(!is_check(with(&[(55, 'K'), (15, 'R')])));
    assert!(!is_check(with(&[(15, 'r')])));
}

#[test]
fn check_is_asked_of_the_side_to_move() {
    let mut board = start_board();
    play(&mut board, "e2", "e4");
    play(&mut board, "f7", "f5");
    play(&mut board, "d1", "h5");
    assert_eq!(board.current_turn.color, Color::Black);
    assert!(is_check(board.clone()));
    board.current_turn.toggle();
    assert!(!is_check(board.clone()));
}

#[test]
fn a_piece_moves_by_its_kind_and_colour() {
    let board = start_board();
    let pawn = Piece::new(PieceType::Pawn, Color::White);
    let moves = pawn.get_moves(71, &board);
    assert_eq!(moves.iter().map(|m| (m.from, m.to)).collect::<Vec<_>>(), vec![(71, 61), (71, 51)]);
}
