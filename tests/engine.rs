use chess_engine::{
    alpha_beta, best_move, board_to_fen, evaluate, generate_moves, get_best_move,
    get_best_move_core, is_in_check, move_to_coord, parse_move, Board, Color, FenError, Move,
    Piece, PieceType,
};

const START: &str = "rnbqkbnr/pppppppp/8/8/8/8/PPPPPPPP/RNBQKBNR w KQkq - 0 1";

fn mv(from_row: usize, from_col: usize, to_row: usize, to_col: usize) -> Move {
    Move { from_row, from_col, to_row, to_col }
}

fn count(board: &Board, color: Color) -> usize {
    board.squares.iter().filter(|s| matches!(s, Some(p) if p.color == color)).count()
}

#[test]
fn start_position_has_sixteen_pieces_per_side() {
    let board = Board::from_fen(START).unwrap();
    assert_eq!(count(&board, Color::White), 16);
    assert_eq!(count(&board, Color::Black), 16);
    assert_eq!(board.turn, Color::White);
    assert_eq!(board.get_piece(0, 4), Some(Piece { piece_type: PieceType::King, color: Color::Black }));
    assert_eq!(board.get_piece(7, 3), Some(Piece { piece_type: PieceType::Queen, color: Color::White }));
    assert_eq!(board.get_piece(8, 0), None);
    assert_eq!(board.get_piece(0, 8), None);
}

#[test]
fn start_position_has_twenty_legal_moves() {
    let board = Board::from_fen(START).unwrap();
    let moves = generate_moves(&board);
    assert_eq!(moves.len(), 20);
    assert_eq!(moves[0], mv(6, 0, 5, 0));
    assert_eq!(moves[1], mv(6, 0, 4, 0));
}

#[test]
fn black_to_move_also_has_twenty_moves() {
    let board = Board::from_fen("rnbqkbnr/pppppppp/8/8/4P3/8/PPPP1PPP/RNBQKBNR b").unwrap();
    assert_eq!(board.turn, Color::Black);
    assert_eq!(generate_moves(&board).len(), 20);
}

#[test]
fn generated_moves_never_leave_own_king_in_check() {
    let fens = [
        START,
        "4k3/8/8/8/8/8/4r3/4K3 w - - 0 1",
        "4k3/8/8/1b6/8/8/4N3/4K3 w - - 0 1",
        "r3k2r/8/8/8/3q4/8/8/R3K2R w - - 0 1",
    ];
    for fen in fens {
        let board = Board::from_fen(fen).unwrap();
        for m in generate_moves(&board) {
            let mut after = board;
            after.make_move(&m);
            assert!(!is_in_check(&after, board.turn), "{} {:?}", fen, m);
        }
    }
}

#[test]
fn pinned_knight_cannot_move() {
    let board = Board::from_fen("4k3/4r3/8/8/8/8/4N3/4K3 w - - 0 1").unwrap();
    let moves = generate_moves(&board);
    assert!(moves.iter().all(|m| !(m.from_row == 6 && m.from_col == 4)));
}

#[test]
fn lone_kings_are_not_in_check() {
    let board = Board::from_fen("8/8/8/4k3/8/8/8/4K3 w - - 0 1").unwrap();
    assert!(!is_in_check(&board, Color::White));
    assert!(!is_in_check(&board, Color::Black));
    assert_eq!(evaluate(&board), 0);
    assert_eq!(alpha_beta(&board, 0, -10000000, 10000000), 0);
    assert_eq!(generate_moves(&board).len(), 5);
}

#[test]
fn stalemate_has_no_moves_and_scores_zero() {
    let board = Board::from_fen("k7/2Q5/1K6/8/8/8/8/8 b - - 0 1").unwrap();
    assert!(!is_in_check(&board, Color::Black));
    assert_eq!(generate_moves(&board).len(), 0);
    assert_eq!(alpha_beta(&board, 1, -10000000, 10000000), 0);
    assert_eq!(alpha_beta(&board, 3, -10000000, 10000000), 0);
    assert_eq!(alpha_beta(&board, 2, 500, 1000), 0);
    assert_eq!(best_move(&board, 2, &Vec::new()), None);
}

#[test]
fn back_rank_mate_has_no_moves() {
    let board = Board::from_fen("R5k1/5ppp/8/8/8/8/8/6K1 b - - 0 1").unwrap();
    assert!(is_in_check(&board, Color::Black));
    assert_eq!(generate_moves(&board).len(), 0);
    assert_eq!(alpha_beta(&board, 1, -10000000, 10000000), -100000 + 1);
    assert_eq!(alpha_beta(&board, 2, -10000000, 10000000), -100000 + 2);
    assert_eq!(alpha_beta(&board, 2, 0, 10), -100000 + 2);
    assert_eq!(best_move(&board, 1, &Vec::new()), None);
    assert_eq!(best_move(&board, 3, &Vec::new()), None);
}

#[test]
fn missing_king_counts_as_check() {
    let board = Board::from_fen("8/8/8/8/8/8/8/4K3 w - - 0 1").unwrap();
    assert!(is_in_check(&board, Color::Black));
    assert!(!is_in_check(&board, Color::White));
}

#[test]
fn attacks_by_each_kind_are_seen() {
    let cases = [
        ("8/8/8/3p4/4K3/8/8/7k w", true),
        ("8/8/8/8/4K3/3p4/8/7k w", false),
        ("8/8/3n4/8/4K3/8/8/7k w", true),
        ("8/8/8/8/1b2K3/8/8/7k w", false),
        ("b7/8/8/8/4K3/8/8/7k w", true),
        ("b7/8/2P5/8/4K3/8/8/7k w", false),
        ("4r3/8/8/8/4K3/8/8/7k w", true),
        ("4q3/8/8/8/4K3/8/8/7k w", true),
        ("8/8/8/8/4K3/8/8/4q2k w", true),
        ("8/8/8/8/4K3/8/8/q6k w", false),
        ("8/8/8/4k3/4K3/8/8/8 w", true),
        ("8/8/4k3/8/4K3/8/8/8 w", false),
    ];
    for (fen, expected) in cases {
        let board = Board::from_fen(fen).unwrap();
        assert_eq!(is_in_check(&board, Color::White), expected, "{}", fen);
    }
}

#[test]
fn depth_one_takes_the_free_queen() {
    let board = Board::from_fen("q3k3/8/8/8/8/8/8/R3K3 w - - 0 1").unwrap();
    assert_eq!(best_move(&board, 1, &Vec::new()), Some(mv(7, 0, 0, 0)));
    let black = Board::from_fen("r3k3/8/8/8/8/8/8/Q3K3 b - - 0 1").unwrap();
    assert_eq!(best_move(&black, 1, &Vec::new()), Some(mv(0, 0, 7, 0)));
}

#[test]
fn depth_two_avoids_a_defended_pawn() {
    // The pawn on b5 is defended by the pawn on a6: taking it loses the queen.
    let board = Board::from_fen("4k3/8/p7/1p6/8/8/8/1Q2K3 w - - 0 1").unwrap();
    let m = best_move(&board, 2, &Vec::new()).unwrap();
    assert_ne!(m, mv(7, 1, 3, 1));
}

#[test]
fn pawns_promote_to_queens_on_both_sides() {
    let mut board = Board::from_fen("7k/P7/8/8/8/8/8/K7 w - - 0 1").unwrap();
    board.make_move(&mv(1, 0, 0, 0));
    assert_eq!(board.get_piece(0, 0), Some(Piece { piece_type: PieceType::Queen, color: Color::White }));
    assert_eq!(board.get_piece(1, 0), None);
    assert_eq!(board.turn, Color::Black);

    let mut board = Board::from_fen("7k/8/8/8/8/8/7p/K7 b - - 0 1").unwrap();
    board.make_move(&mv(6, 7, 7, 7));
    assert_eq!(board.get_piece(7, 7), Some(Piece { piece_type: PieceType::Queen, color: Color::Black }));
    assert_eq!(board.turn, Color::White);
}

#[test]
fn pawn_short_of_the_far_rank_stays_a_pawn() {
    let mut board = Board::from_fen("7k/8/P7/8/8/8/8/K7 w - - 0 1").unwrap();
    board.make_move(&mv(2, 0, 1, 0));
    assert_eq!(board.get_piece(1, 0), Some(Piece { piece_type: PieceType::Pawn, color: Color::White }));
}

#[test]
fn make_move_captures_by_overwriting() {
    let mut board = Board::from_fen("q3k3/8/8/8/8/8/8/R3K3 w - - 0 1").unwrap();
    board.make_move(&mv(7, 0, 0, 0));
    assert_eq!(board.get_piece(0, 0), Some(Piece { piece_type: PieceType::Rook, color: Color::White }));
    assert_eq!(evaluate(&board), 500);
}

#[test]
fn excluding_the_best_of_two_moves_gives_the_other() {
    let board = Board::from_fen("k7/8/8/8/8/3P4/7r/K7 w - - 0 1").unwrap();
    let moves = generate_moves(&board);
    assert_eq!(moves, vec![mv(5, 3, 4, 3), mv(7, 0, 7, 1)]);
    let first = best_move(&board, 1, &Vec::new()).unwrap();
    assert_eq!(first, mv(5, 3, 4, 3));
    let second = best_move(&board, 1, &vec![first]).unwrap();
    assert_eq!(second, mv(7, 0, 7, 1));
    assert_eq!(best_move(&board, 1, &vec![first, second]), None);
}

#[test]
fn excluded_moves_that_are_not_legal_change_nothing() {
    let board = Board::from_fen("q3k3/8/8/8/8/8/8/R3K3 w - - 0 1").unwrap();
    assert_eq!(best_move(&board, 1, &vec![mv(0, 0, 0, 1)]), Some(mv(7, 0, 0, 0)));
}

#[test]
fn evaluation_is_material_from_white() {
    let board = Board::from_fen(START).unwrap();
    assert_eq!(evaluate(&board), 0);
    let board = Board::from_fen("1nb1kbnr/pppppppp/8/8/8/8/PPPPPPPP/RNBQKBNR b").unwrap();
    assert_eq!(evaluate(&board), 900 + 500);
    let board = Board::from_fen("4k3/8/8/8/8/8/8/4K3 b").unwrap();
    assert_eq!(evaluate(&board), 0);
    let board = Board::from_fen("4k3/pppppppp/8/8/8/8/8/4KNBR w").unwrap();
    assert_eq!(evaluate(&board), 320 + 330 + 500 - 800);
    let board = Board::from_fen("k7/8/8/8/8/8/8/8 w").unwrap();
    assert_eq!(evaluate(&board), -20000);
}

#[test]
fn depth_zero_scores_material_from_white() {
    let white = Board::from_fen("4k3/8/8/8/8/8/8/Q3K3 w").unwrap();
    assert_eq!(alpha_beta(&white, 0, -10000000, 10000000), 900);
    let black = Board::from_fen("4k3/8/8/8/8/8/8/Q3K3 b").unwrap();
    assert_eq!(alpha_beta(&black, 0, -10000000, 10000000), 900);
    assert_eq!(alpha_beta(&black, 0, 1000, 2000), 900);
}

#[test]
fn malformed_texts_are_refused() {
    let bad = [
        "8/8/8/8/8/8/8 w",
        "8/8/8/8/8/8/8/8/8 w",
        "9/8/8/8/8/8/8/8 w",
        "7/8/8/8/8/8/8/8 w",
        "x7/8/8/8/8/8/8/8 w",
        "ppppppppp/8/8/8/8/8/8/8 w",
        "8//8/8/8/8/8/8/8 w",
        "",
    ];
    for fen in bad {
        assert_eq!(Board::from_fen(fen).err(), Some(FenError::MalformedInput), "{}", fen);
    }
}

#[test]
fn side_field_defaults_to_white() {
    let board = Board::from_fen("8/8/8/8/8/8/8/8").unwrap();
    assert_eq!(board.turn, Color::White);
    let board = Board::from_fen("  8/8/8/8/8/8/8/8   b  KQ - 3 9").unwrap();
    assert_eq!(board.turn, Color::Black);
    let board = Board::from_fen("8/8/8/8/8/8/8/8 w").unwrap();
    assert_eq!(board.turn, Color::White);
}

#[test]
fn encoding_writes_placeholders() {
    let board = Board::from_fen(START).unwrap();
    assert_eq!(board_to_fen(&board), "rnbqkbnr/pppppppp/8/8/8/8/PPPPPPPP/RNBQKBNR w - - 0 1");
    let board = Board::from_fen("4k3/8/p7/1p6/8/8/8/1Q2K2R b Kq e3 4 20").unwrap();
    assert_eq!(board_to_fen(&board), "4k3/8/p7/1p6/8/8/8/1Q2K2R b - - 0 1");
    let board = Board::new();
    assert_eq!(board_to_fen(&board), "8/8/8/8/8/8/8/8 w - - 0 1");
}

#[test]
fn coordinate_notation_round_trips() {
    assert_eq!(parse_move("e2e4"), Some(mv(6, 4, 4, 4)));
    assert_eq!(parse_move("a8h1"), Some(mv(0, 0, 7, 7)));
    assert_eq!(parse_move("e2e9"), None);
    assert_eq!(parse_move("i2e4"), None);
    assert_eq!(parse_move("e2e4q"), None);
    assert_eq!(parse_move("e2"), None);
    assert_eq!(move_to_coord(&mv(6, 4, 4, 4)), "e2e4");
    assert_eq!(move_to_coord(&mv(0, 7, 7, 0)), "h8a1");
}

#[test]
fn move_text_lists_rows_and_columns() {
    assert_eq!(mv(6, 4, 4, 4).to_string(), "6,4,4,4");
    assert_eq!(mv(7, 0, 0, 0).to_string(), "7,0,0,0");
}

#[test]
fn entry_points_search_a_text() {
    assert_eq!(get_best_move("q3k3/8/8/8/8/8/8/R3K3 w - - 0 1", 1), "7,0,0,0");
    assert_eq!(get_best_move("R5k1/5ppp/8/8/8/8/8/6K1 b - - 0 1", 2), "");
    assert_eq!(
        get_best_move_core("q3k3/8/8/8/8/8/8/R3K3 w - - 0 1", 1, &Vec::new()),
        Ok(Some(mv(7, 0, 0, 0)))
    );
    assert_eq!(get_best_move_core("q3k3/8/8 w", 1, &Vec::new()), Err(FenError::MalformedInput));
    assert_eq!(get_best_move("q3k3/8/8 w", 1), "");
    assert_eq!(get_best_move("x7/8/8/8/8/8/8/8 w", 2), "");
}

#[test]
fn search_finds_mate_in_one() {
    let board = Board::from_fen("6k1/5ppp/8/8/8/8/8/R5K1 w - - 0 1").unwrap();
    assert_eq!(best_move(&board, 2, &Vec::new()), Some(mv(7, 0, 0, 0)));
    assert_eq!(alpha_beta(&board, 2, -10000000, 10000000), 100000 - 1);
}

#[test]
fn bot_avoids_repeating_a_recent_board() {
    let board = Board::from_fen("k7/8/8/8/8/3P4/7r/K7 w - - 0 1").unwrap();
    assert_eq!(chess_engine::search::choose_move(&board, 1, &Vec::new()), Some(mv(5, 3, 4, 3)));
    let mut after_pawn = board;
    after_pawn.make_move(&mv(5, 3, 4, 3));
    assert_eq!(chess_engine::search::choose_move(&board, 1, &vec![after_pawn]), Some(mv(7, 0, 7, 1)));
    let mut after_king = board;
    after_king.make_move(&mv(7, 0, 7, 1));
    assert_eq!(chess_engine::search::choose_move(&board, 1, &vec![after_pawn, after_king]), None);
}

#[test]
fn same_position_compares_squares_and_turn() {
    let a = Board::from_fen(START).unwrap();
    let b = Board::from_fen("rnbqkbnr/pppppppp/8/8/8/8/PPPPPPPP/RNBQKBNR w").unwrap();
    let c = Board::from_fen("rnbqkbnr/pppppppp/8/8/8/8/PPPPPPPP/RNBQKBNR b").unwrap();
    let d = Board::from_fen("rnbqkbnr/pppppppp/8/8/4P3/8/PPPP1PPP/RNBQKBNR w").unwrap();
    assert!(a.same_position(&b));
    assert!(!a.same_position(&c));
    assert!(!a.same_position(&d));
}

#[test]
fn any_unicode_whitespace_separates_fields() {
    let board = Board::from_fen("8/8/8/8/8/8/8/8\u{000C}b").unwrap();
    assert_eq!(board.turn, Color::Black);
    let board = Board::from_fen("\u{00A0}8/8/8/8/8/8/8/8\u{3000}b\u{000B}- - 0 1").unwrap();
    assert_eq!(board.turn, Color::Black);
    assert_eq!(Board::from_fen("8/8/8/8/8/8/8/8_b").err(), Some(FenError::MalformedInput));
}

#[test]
fn bot_retries_exclude_earlier_choices() {
    let board = Board::from_fen("k7/8/8/8/8/3P4/7r/K7 w - - 0 1").unwrap();
    let mut after_pawn = board;
    after_pawn.make_move(&mv(5, 3, 4, 3));
    let mut after_king = board;
    after_king.make_move(&mv(7, 0, 7, 1));
    assert_eq!(
        chess_engine::search::choose_move(&board, 2, &vec![after_king, after_pawn]),
        None
    );
    assert_eq!(chess_engine::search::choose_move(&board, 2, &vec![after_king]), Some(mv(5, 3, 4, 3)));
}
