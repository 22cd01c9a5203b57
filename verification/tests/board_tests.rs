use chess_engine::board::Board;
use chess_engine::error::ChessError;
use chess_engine::helpers::{
    generate_square_from_string, index_to_square, is_out_of_bounds, square_to_index,
};
use chess_engine::square::{Color, Move, Piece, PieceType, Square, Turn};

const START: &str = "00000000000rnbqkbnr00pppppppp00--------00--------00--------00--------00PPPPPPPP00RNBQKBNR00000000000";

fn start_board() -> Board {
    Board::new(String::from(START), Color::White).unwrap()
}

#[test]
fn it_converts_index_to_chess_square() {
    let index = index_to_square(11).unwrap();
    assert_eq!(index, String::from("a8"));
}

#[test]
fn it_converts_chess_square_to_index() {
    let index = square_to_index(String::from("a1")).unwrap();
    assert_eq!(index, 81);
}

#[test]
fn it_is_case_insensitive() {
    let index = square_to_index(String::from("A1")).unwrap();
    assert_eq!(index, 81);
}

#[test]
fn it_returns_square_struct() {
    let square_char = "r".chars().next().unwrap();
    let square: Square = generate_square_from_string(square_char).unwrap();
    match square.piece {
        Some(p) => assert_eq!(p.color, Color::Black),
        None => panic!("Expected Piece not found"),
    }
}

#[test]
fn it_returns_squares_with_proper_color_enum() {
    let square_char = "R".chars().next().unwrap();
    let square: Square = generate_square_from_string(square_char).unwrap();
    match square.piece {
        Some(p) => assert_eq!(p, Piece { piece_type: PieceType::Rook, color: Color::White }),
        None => panic!("Expected Piece not found"),
    }
}

#[test]
fn it_generates_board_with_proper_inputs() {
    let board_string = String::from(START);
    let board: Board = Board::new(board_string, Color::White).unwrap();
    assert_eq!(board.squares.len(), 100);
}

#[test]
fn it_returns_a_move_struct_when_given_chess_moves() {
    let chess_move = Move::from_chess_move((String::from("E2"), String::from("E4"))).unwrap();
    assert_eq!(chess_move.from, 75);
    assert_eq!(chess_move.to, 55);
}

#[test]
fn it_returns_a_tuple_of_chess_moves() {
    let move_struct = Move { from: 75, to: 55 };
    let (from, to) = move_struct.to_chess_move().unwrap();
    assert_eq!(from, "e2");
    assert_eq!(to, "e4");
}

#[test]
fn it_sets_the_target_index_to_piece() {
    let mut board: Board = start_board();
    assert!(match board.get_piece_at(15) {
        Some(p) => p == Piece { piece_type: PieceType::King, color: Color::Black },
        None => false,
    });

    board.set_square(15, Some(Piece::new(PieceType::King, Color::White)));
    assert!(match board.get_piece_at(15) {
        Some(p) => p == Piece { piece_type: PieceType::King, color: Color::White },
        None => false,
    });

    board.set_square(15, Some(Piece::new(PieceType::King, Color::Black)));
    assert!(match board.get_piece_at(15) {
        Some(p) => p == Piece { piece_type: PieceType::King, color: Color::Black },
        None => false,
    });

    board.set_square(15, Some(Piece::new(PieceType::King, Color::White)));
    assert!(match board.get_piece_at(15) {
        Some(p) => p == Piece { piece_type: PieceType::King, color: Color::White },
        None => false,
    });

    board.set_square(15, Some(Piece::new(PieceType::King, Color::Black)));
    assert!(match board.get_piece_at(15) {
        Some(p) => p == Piece { piece_type: PieceType::King, color: Color::Black },
        None => false,
    });

    board.set_square(15, Some(Piece::new(PieceType::King, Color::White)));
    assert!(match board.get_piece_at(15) {
        Some(p) => p == Piece { piece_type: PieceType::King, color: Color::White },
        None => false,
    });
}

#[test]
fn the_from_square_has_none_piece_after_move() {
    let mut board: Board = start_board();
    board.make_move(Move { from: 75, to: 55 });
    assert_eq!(board.get_piece_at(75), None);
}

#[test]
fn the_to_square_has_the_correct_piece_after_move() {
    let mut board: Board = start_board();
    board.make_move(Move { from: 75, to: 55 });
    assert!(match board.get_piece_at(55) {
        Some(p) => p == Piece { piece_type: PieceType::Pawn, color: Color::White },
        None => false,
    })
}

#[test]
fn it_toggles_current_turn_after_each_move() {
    let mut board: Board = start_board();
    assert_eq!(board.current_turn.color, Color::White);
    board.make_move(Move { from: 75, to: 55 });
    assert_eq!(board.current_turn.color, Color::Black);
    board.make_move(Move { from: 25, to: 45 });
    assert_eq!(board.current_turn.color, Color::White);
    board.make_move(Move { from: 74, to: 54 });
    assert_eq!(board.current_turn.color, Color::Black);
    board.make_move(Move { from: 24, to: 44 });
    assert_eq!(board.current_turn.color, Color::White);
    board.make_move(Move { from: 73, to: 53 });
    assert_eq!(board.current_turn.color, Color::Black);
}

#[test]
fn it_returns_a_new_board_with_proper_squares() {
    let board: Board = start_board();
    let tested_board: Board = board.test_move(Move { from: 75, to: 55 });
    assert!(match board.get_piece_at(75) {
        Some(p) => p.piece_type == PieceType::Pawn,
        None => false,
    });

    assert!(match tested_board.get_piece_at(75) {
        Some(_) => false,
        None => true,
    });
}

#[test]
fn an_index_off_the_board_has_no_name() {
    assert_eq!(index_to_square(10), Err(ChessError::InvalidSquare));
    assert_eq!(index_to_square(0), Err(ChessError::InvalidSquare));
    assert_eq!(index_to_square(19), Err(ChessError::InvalidSquare));
    assert_eq!(index_to_square(89), Err(ChessError::InvalidSquare));
    assert_eq!(index_to_square(100), Err(ChessError::InvalidSquare));
}

#[test]
fn a_name_off_the_board_has_no_index() {
    assert_eq!(square_to_index(String::from("a0")), Err(ChessError::InvalidSquare));
    assert_eq!(square_to_index(String::from("i1")), Err(ChessError::InvalidSquare));
    assert_eq!(square_to_index(String::from("a9")), Err(ChessError::InvalidSquare));
    assert_eq!(square_to_index(String::from("")), Err(ChessError::InvalidSquare));
    assert_eq!(square_to_index(String::from("a10")), Err(ChessError::InvalidSquare));
    assert_eq!(square_to_index(String::from("é1")), Err(ChessError::InvalidSquare));
}

#[test]
fn the_corners_of_the_board_have_their_indices() {
    assert_eq!(square_to_index(String::from("a8")), Ok(11));
    assert_eq!(square_to_index(String::from("h8")), Ok(18));
    assert_eq!(square_to_index(String::from("a1")), Ok(81));
    assert_eq!(square_to_index(String::from("h1")), Ok(88));
    assert_eq!(square_to_index(String::from("H1")), Ok(88));
    assert_eq!(index_to_square(18), Ok(String::from("h8")));
    assert_eq!(index_to_square(81), Ok(String::from("a1")));
    assert_eq!(index_to_square(88), Ok(String::from("h1")));
}

#[test]
fn every_playable_index_names_itself() {
    let mut count = 0;
    for index in 0..100usize {
        match index_to_square(index) {
            Ok(name) => {
                count += 1;
                assert_eq!(square_to_index(name.clone()), Ok(index));
                assert_eq!(square_to_index(name.to_uppercase()), Ok(index));
            }
            Err(e) => assert_eq!(e, ChessError::InvalidSquare),
        }
    }
    assert_eq!(count, 64);
}

#[test]
fn out_of_bounds_is_the_border_and_beyond() {
    assert!(is_out_of_bounds(10));
    assert!(!is_out_of_bounds(11));
    assert!(!is_out_of_bounds(88));
    assert!(is_out_of_bounds(89));
    assert!(is_out_of_bounds(20));
    assert!(is_out_of_bounds(19));
    assert!(is_out_of_bounds(-1));
    assert!(is_out_of_bounds(0));
    assert!(is_out_of_bounds(100));
    assert!(is_out_of_bounds(-128));
    assert!(is_out_of_bounds(127));
    let mut playable = 0;
    for index in 0..100i8 {
        if !is_out_of_bounds(index) {
            playable += 1;
        }
    }
    assert_eq!(playable, 64);
}

#[test]
fn an_unknown_character_is_no_square() {
    assert!(matches!(generate_square_from_string('z'), Err(ChessError::InvalidCharacter)));
    assert!(matches!(generate_square_from_string(' '), Err(ChessError::InvalidCharacter)));
    assert!(matches!(generate_square_from_string('1'), Err(ChessError::InvalidCharacter)));
}

#[test]
fn edge_and_empty_characters_give_squares_without_pieces() {
    let edge = generate_square_from_string('0').unwrap();
    assert!(edge.is_edge);
    assert!(edge.piece.is_none());
    let empty = generate_square_from_string('-').unwrap();
    assert!(!empty.is_edge);
    assert!(empty.piece.is_none());
}

#[test]
fn every_piece_letter_gives_its_piece() {
    let letters = [
        ('P', PieceType::Pawn, Color::White),
        ('N', PieceType::Knight, Color::White),
        ('B', PieceType::Bishop, Color::White),
        ('R', PieceType::Rook, Color::White),
        ('Q', PieceType::Queen, Color::White),
        ('K', PieceType::King, Color::White),
        ('p', PieceType::Pawn, Color::Black),
        ('n', PieceType::Knight, Color::Black),
        ('b', PieceType::Bishop, Color::Black),
        ('r', PieceType::Rook, Color::Black),
        ('q', PieceType::Queen, Color::Black),
        ('k', PieceType::King, Color::Black),
    ];
    for (letter, piece_type, color) in letters {
        let square = generate_square_from_string(letter).unwrap();
        assert!(!square.is_edge);
        assert_eq!(square.piece, Some(Piece { piece_type, color }));
        let mut board = start_board();
        board.set_square(44, square.piece);
        assert_eq!(board.get_piece_char_at(44), letter);
    }
}

#[test]
fn a_board_of_the_wrong_length_is_refused() {
    let short = String::from(&START[..99]);
    assert!(matches!(Board::new(short, Color::White), Err(ChessError::InvalidLayout)));
    let mut long = String::from(START);
    long.push('0');
    assert!(matches!(Board::new(long, Color::White), Err(ChessError::InvalidLayout)));
    assert!(matches!(Board::new(String::new(), Color::Black), Err(ChessError::InvalidLayout)));
}

#[test]
fn a_board_with_an_unknown_piece_is_refused() {
    let layout = String::from("00000000000rnbqkbnr00pppppppp00--------00--------00--------00--------00PPPPPPPP00RNzQKBNR00000000000");
    assert_eq!(layout.chars().count(), 100);
    assert!(matches!(Board::new(layout, Color::White), Err(ChessError::InvalidCharacter)));
}

#[test]
fn the_length_is_looked_at_before_the_characters() {
    let layout = String::from("zz");
    assert!(matches!(Board::new(layout, Color::White), Err(ChessError::InvalidLayout)));
}

#[test]
fn the_key_is_the_layout_and_the_turn_character() {
    let white = Board::new(String::from(START), Color::White).unwrap();
    assert_eq!(white.board_string_with_turn_bit, format!("{}1", START));
    let black = Board::new(String::from(START), Color::Black).unwrap();
    assert_eq!(black.board_string_with_turn_bit, format!("{}0", START));
    assert_ne!(white.board_string_with_turn_bit, black.board_string_with_turn_bit);
    assert_eq!(white.board_string_with_turn_bit.chars().count(), 101);
}

#[test]
fn a_move_changes_the_key_in_three_places() {
    let mut board = start_board();
    let before: Vec<char> = board.board_string_with_turn_bit.chars().collect();
    board.make_move(Move { from: 75, to: 55 });
    let after: Vec<char> = board.board_string_with_turn_bit.chars().collect();
    assert_eq!(after.len(), 101);
    for i in 0..101 {
        if i == 75 {
            assert_eq!(after[i], '-');
        } else if i == 55 {
            assert_eq!(after[i], 'P');
        } else if i == 100 {
            assert_eq!(before[i], '1');
            assert_eq!(after[i], '0');
        } else {
            assert_eq!(after[i], before[i]);
        }
    }
    assert_eq!(
        board.board_string_with_turn_bit,
        "00000000000rnbqkbnr00pppppppp00--------00--------00----P---00--------00PPPP-PPP00RNBQKBNR000000000000"
    );
}

#[test]
fn a_capture_replaces_the_piece_on_the_destination() {
    let mut board = start_board();
    board.make_move(Move { from: 84, to: 24 });
    assert_eq!(
        board.get_piece_at(24),
        Some(Piece { piece_type: PieceType::Queen, color: Color::White })
    );
    assert_eq!(board.get_piece_at(84), None);
    assert_eq!(board.get_piece_char_at(24), 'Q');
    assert_eq!(board.get_piece_char_at(84), '-');
    assert_eq!(board.get_piece_char_at(0), '0');
}

#[test]
fn no_edge_square_holds_a_piece() {
    let mut board = start_board();
    let moves = [(75, 55), (25, 45), (87, 66), (12, 33), (86, 53), (17, 36)];
    for (from, to) in moves {
        board.make_move(Move { from, to });
        for index in 0..100usize {
            if is_out_of_bounds(index as i8) {
                assert_eq!(board.get_piece_at(index), None);
                assert_eq!(board.get_piece_char_at(index), '0');
            }
        }
    }
}

#[test]
fn a_copy_is_equal_and_apart() {
    let board = start_board();
    let mut copy = board.clone();
    assert_eq!(copy.board_string_with_turn_bit, board.board_string_with_turn_bit);
    copy.make_move(Move { from: 75, to: 55 });
    assert_eq!(board.board_string_with_turn_bit, format!("{}1", START));
    assert_ne!(copy.board_string_with_turn_bit, board.board_string_with_turn_bit);
    assert!(board.get_piece_at(75).is_some());
}

#[test]
fn setting_a_square_keeps_the_key_in_step() {
    let mut board = start_board();
    board.set_square(55, Some(Piece::new(PieceType::Knight, Color::Black)));
    let key: Vec<char> = board.board_string_with_turn_bit.chars().collect();
    assert_eq!(key[55], 'n');
    board.set_square(55, None);
    assert_eq!(board.board_string_with_turn_bit, format!("{}1", START));
}

#[test]
fn the_turn_passes_back_and_forth() {
    let mut turn = Turn { color: Color::White };
    turn.toggle();
    assert_eq!(turn.color, Color::Black);
    turn.toggle();
    assert_eq!(turn.color, Color::White);
}

#[test]
fn constructors_keep_what_they_are_given() {
    let m = Move::new(12, 34);
    assert_eq!((m.from, m.to), (12, 34));
    let piece = Piece::new(PieceType::Bishop, Color::Black);
    assert_eq!(piece.piece_type, PieceType::Bishop);
    assert_eq!(piece.color, Color::Black);
    let square = Square::new(piece);
    assert_eq!(square.piece, Some(piece));
    assert!(!square.is_edge);
}

#[test]
fn a_move_with_a_bad_name_is_refused() {
    assert_eq!(
        Move::from_chess_move((String::from("e2"), String::from("e9"))),
        Err(ChessError::InvalidSquare)
    );
    assert_eq!(
        Move::from_chess_move((String::from("z2"), String::from("e4"))),
        Err(ChessError::InvalidSquare)
    );
    assert_eq!(Move { from: 75, to: 90 }.to_chess_move(), Err(ChessError::InvalidSquare));
    assert_eq!(Move { from: 9, to: 55 }.to_chess_move(), Err(ChessError::InvalidSquare));
}
