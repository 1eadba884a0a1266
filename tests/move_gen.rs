use movegen::square;
use movegen::{generate_moves, is_legal, Color, Game, Move, MoveTypes, Piece};

#[test]
fn white_pawn_can_move_one_tile_forward() {
    let mut game = Game::new_from_start_pos();
    let moves = generate_moves(&mut game, MoveTypes::All);
    assert!(moves.contains(&Move::new(square::a2, square::a3, Piece::WhitePawn, Piece::NoPiece, false, false, false, false)));
}

#[test]
fn black_pawn_can_move_one_tile_forward() {
    let mut game = Game::new_from_fen("rnbqkbnr/pppppppp/8/8/4P3/8/PPPP1PPP/RNBQKBNR b KQkq e3 0 1").unwrap();
    let moves = generate_moves(&mut game, MoveTypes::All);
    assert!(moves.contains(&Move::new(square::c7, square::c6, Piece::BlackPawn, Piece::NoPiece, false, false, false, false)));
}

#[test]
fn white_pawn_can_correctly_double_push() {
    let mut game = Game::new_from_start_pos();
    let moves = generate_moves(&mut game, MoveTypes::All);
    assert!(moves.contains(&Move::new(square::a2, square::a4, Piece::WhitePawn, Piece::NoPiece, false, true, false, false)));
}

#[test]
fn black_pawn_can_correctly_double_push() {
    let mut game = Game::new_from_fen("rnbqkbnr/pppppppp/8/8/4P3/8/PPPP1PPP/RNBQKBNR b KQkq - 0 1").unwrap();
    let moves = generate_moves(&mut game, MoveTypes::All);
    assert!(moves.contains(&Move::new(square::c7, square::c5, Piece::BlackPawn, Piece::NoPiece, false, true, false, false)));
}

#[test]
fn pawn_can_capture_on_both_diagonals() {
    let mut game = Game::new_from_fen("1k6/8/8/4p1b1/5P2/8/8/1K6 w - - 0 25").unwrap();
    let moves = generate_moves(&mut game, MoveTypes::All);
    assert!(moves.contains(&Move::new(square::f4, square::e5, Piece::WhitePawn, Piece::NoPiece, true, false, false, false)));
    assert!(moves.contains(&Move::new(square::f4, square::g5, Piece::WhitePawn, Piece::NoPiece, true, false, false, false)));
}

#[test]
fn white_can_enpassant_capture_correctly() {
    let mut game = Game::new_from_fen("k7/8/8/4Pp2/8/8/8/K7 w - f6 0 25").unwrap();
    let moves = generate_moves(&mut game, MoveTypes::All);
            assert!(moves.contains(&Move::new(square::e5, square::f6, Piece::WhitePawn, Piece::NoPiece, true, false, true, false)));
}

#[test]
fn black_can_enpassant_capture_correctly() {
    let mut game = Game::new_from_fen("k7/8/8/8/8/pP6/8/7K b - b2 0 25").unwrap();
    let moves = generate_moves(&mut game, MoveTypes::All);
    assert!(moves.contains(&Move::new(square::a3, square::b2, Piece::BlackPawn, Piece::NoPiece, true, false, true, false)));
}

#[test]
fn can_not_move_pawn_when_piece_in_the_way() {
    let mut game = Game::new_from_fen("k7/8/8/8/8/1N6/1P6/K7 w - - 0 25").unwrap();
    let moves = generate_moves(&mut game, MoveTypes::All).all_from(square::b2);
    assert_eq!(moves.len(), 0);
}

#[test]
fn white_pawn_should_have_4_promotion_options_when_reaching_back_row() {
    let mut game = Game::new_from_fen("k7/2P5/8/8/8/8/8/K7 w - - 0 25").unwrap();
    let moves = generate_moves(&mut game, MoveTypes::All).all_from(square::c7);
    assert_eq!(moves.len(), 4);
}

#[test]
fn black_pawn_should_have_4_promotion_options_when_reaching_back_row() {
    let mut game = Game::new_from_fen("k7/8/8/8/8/8/2p5/K7 b - - 0 25").unwrap();
    let moves = generate_moves(&mut game, MoveTypes::All).all_from(square::c2);
    assert_eq!(moves.len(), 4);
}

#[test]
fn should_be_able_to_promote_on_back_row_capture() {
    let mut game = Game::new_from_fen("k2r4/2P5/8/8/8/8/8/K7 w - - 0 25").unwrap();
    let moves = generate_moves(&mut game, MoveTypes::All).all_from(square::c7);
    assert_eq!(moves.len(), 8);
}

#[test]
fn white_knight_has_2_right_legal_moves_at_start() {
    let mut game = Game::new_from_start_pos();
    let moves = generate_moves(&mut game, MoveTypes::All).all_from(square::b1);
    assert!(moves.len() == 2);
    assert!(moves.contains(&Move::new(square::b1, square::a3, Piece::WhiteKnight, Piece::NoPiece, false, false, false, false)));
    assert!(moves.contains(&Move::new(square::b1, square::c3, Piece::WhiteKnight, Piece::NoPiece, false, false, false, false)));
}

#[test]
fn king_can_move_in_all_directions() {
    let mut game = Game::new_from_fen("8/1K6/8/4k3/8/8/8/8 w - - 0 25").unwrap();
    let moves = generate_moves(&mut game, MoveTypes::All).all_from(square::b7);
    assert!(moves.len() == 8);
    assert!(moves.contains(&Move::new(square::b7, square::a8, Piece::WhiteKing, Piece::NoPiece, false, false, false, false)));
    assert!(moves.contains(&Move::new(square::b7, square::b6, Piece::WhiteKing, Piece::NoPiece, false, false, false, false)));
}

#[test]
fn king_cannot_move_over_edge() {
    let mut game = Game::new_from_fen("8/K7/8/4k3/8/8/8/8 w - - 0 25").unwrap();
    let moves = generate_moves(&mut game, MoveTypes::All).all_from(square::a7);
    assert!(moves.len() == 5);
    assert!(moves.contains(&Move::new(square::a7, square::a8, Piece::WhiteKing, Piece::NoPiece, false, false, false, false)));
    assert!(moves.contains(&Move::new(square::a7, square::b6, Piece::WhiteKing, Piece::NoPiece, false, false, false, false)));
}

#[test]
fn rook_has_no_legal_moves_at_start() {
    let mut game = Game::new_from_start_pos();
    let moves = generate_moves(&mut game, MoveTypes::All).all_from(square::a1);
    assert!(moves.len() == 0);
}

#[test]
fn queen_has_no_legal_moves_at_start() {
    let mut game = Game::new_from_start_pos();
    let moves = generate_moves(&mut game, MoveTypes::All).all_from(square::d1);
    assert!(moves.len() == 0);
}

#[test]
fn queen_has_correct_number_of_legal_moves_on_open_board() {
    let mut game = Game::new_from_fen("K7/8/8/8/3Q4/8/8/7k w - - 0 25").unwrap();
    let moves = generate_moves(&mut game, MoveTypes::All).all_from(square::d4);
    assert!(moves.len() == 27);
    assert!(moves.contains(&Move::new(square::d4, square::d1, Piece::WhiteQueen, Piece::NoPiece, false, false, false, false)));
}

#[test]
fn rook_has_correct_number_of_legal_moves_on_open_board() {
    let mut game = Game::new_from_fen("K7/8/8/8/3R4/8/8/7k w - - 0 25").unwrap();
    let moves = generate_moves(&mut game, MoveTypes::All).all_from(square::d4);
    assert!(moves.len() == 14);
}

#[test]
fn bishop_has_correct_number_of_legal_moves_on_open_board() {
    let mut game = Game::new_from_fen("K7/8/8/8/3B4/8/8/7k w - - 0 25").unwrap();
    let moves = generate_moves(&mut game, MoveTypes::All).all_from(square::d4);
    assert!(moves.len() == 13);
}

#[test]
fn queen_has_correct_number_of_moves_when_friendlies_in_the_way() {
    let mut game = Game::new_from_fen("8/1KR5/1QN5/1BB5/8/8/8/7k w - - 0 25").unwrap();
    let moves = generate_moves(&mut game, MoveTypes::All).all_from(square::b6);
    assert!(moves.len() == 3);
}

#[test]
fn queen_has_correct_number_of_moves_when_enemies_in_the_way() {
    let mut game = Game::new_from_fen("7K/1rr5/1Qb5/1nb5/8/8/8/7k w - - 0 25").unwrap();
    let moves = generate_moves(&mut game, MoveTypes::All).all_from(square::b6);
    assert!(moves.len() == 8);
}

#[test]
fn castling_moves_are_found_for_white() {
    let mut game = Game::new_from_fen("4k3/8/8/8/8/8/8/R3K2R w KQ - 0 25").unwrap();
    let moves = generate_moves(&mut game, MoveTypes::All).all_from(square::e1);
    assert!(moves.contains(&Move::new(square::e1, square::g1, Piece::WhiteKing, Piece::NoPiece, false, false, false, true)));
    assert!(moves.contains(&Move::new(square::e1, square::c1, Piece::WhiteKing, Piece::NoPiece, false, false, false, true)));
}

#[test]
fn castling_moves_are_found_for_black() {
    let mut game = Game::new_from_fen("r3k2r/8/8/8/8/8/8/4K3 b kq - 0 25").unwrap();
    let moves = generate_moves(&mut game, MoveTypes::All).all_from(square::e8);
    assert!(moves.contains(&Move::new(square::e8, square::g8, Piece::BlackKing, Piece::NoPiece, false, false, false, true)));
    assert!(moves.contains(&Move::new(square::e8, square::c8, Piece::BlackKing, Piece::NoPiece, false, false, false, true)));
}

#[test]
fn castling_moves_are_not_found_when_unavailable() {
    let mut game = Game::new_from_fen("4k3/8/8/8/8/8/8/R3K2R w - - 0 25").unwrap();
    let moves = generate_moves(&mut game, MoveTypes::All).all_from(square::e1);
    assert!(moves.len() == 5);
}

#[test]
fn cant_castle_if_pieces_in_the_way() {
    let mut game = Game::new_from_fen("4k3/8/8/8/8/8/8/RR2K1NR w KQ - 0 25").unwrap();
    let moves = generate_moves(&mut game, MoveTypes::All).all_from(square::e1);
    assert_eq!(moves.len(), 5);
}

#[test]
fn cant_move_king_into_rook_line_of_attack() {
    let mut game = Game::new_from_fen("kr6/8/8/8/8/8/8/K7 w - - 0 25").unwrap();
    let moves = generate_moves(&mut game, MoveTypes::All).all_from(square::a1);
    assert_eq!(moves.values().iter().filter(|m| is_legal(&game, m)).count(), 1);
}

#[test]
fn bishop_has_correct_number_of_legal_moves() {
    let mut game = Game::new_from_fen("K6k/B7/8/8/8/8/8/8 w - - 0 25").unwrap();
    let moves = generate_moves(&mut game, MoveTypes::All).all_from(square::a7);
    assert_eq!(moves.len(), 7);
}

#[test]
fn cant_move_blocking_piece_if_king_is_pinned() {
    let mut game = Game::new_from_fen("K6k/B7/r7/8/8/8/8/8 w - - 0 25").unwrap();
    let moves = generate_moves(&mut game, MoveTypes::All).all_from(square::a7);
    assert_eq!(moves.values().iter().any(|m| is_legal(&game, m)), false);
}

#[test]
fn cant_castle_if_in_check() {
    let mut game = Game::new_from_fen("k7/8/8/4r3/8/8/8/4K2R w K - 0 25").unwrap();
    let moves = generate_moves(&mut game, MoveTypes::All).all_from(square::e1);
    assert_eq!(moves.values().iter().any(|m| m.is_castling()), false);
}

#[test]
fn is_in_check_is_true_when_in_check_by_rook() {
    let game = Game::new_from_fen("k7/8/8/8/4r3/8/8/4K3 w K - 0 25").unwrap();
    assert_eq!(game.is_in_check(Color::White), true);
}

#[test]
fn rooks_should_have_5_moves_here() {
    let mut game = Game::new_from_fen("rnbqkbnr/pppppppp/8/8/8/8/8/RNBQKBNR w K - 0 25").unwrap();
    assert_eq!(generate_moves(&mut game, MoveTypes::All).all_from(square::h1).len(), 6);
    assert_eq!(generate_moves(&mut game, MoveTypes::All).all_from(square::a1).len(), 6);
}

#[test]
fn rook_should_have_a_capture_move() {
    let mut game = Game::new_from_fen("rnbqkbnr/pppppppp/8/8/8/8/8/RNBQKBNR w K - 0 25").unwrap();
    let moves = generate_moves(&mut game, MoveTypes::All).all_from(square::a1);
    assert_eq!(moves.contains(&Move::new(square::a1, square::a7, Piece::WhiteRook, Piece::NoPiece, true, false, false, false)), true);
}

#[test]
fn knight_should_have_a_capture_move() {
    let mut game = Game::new_from_fen("rnbqkbnr/p1pppppp/8/8/8/1p6/8/N1BQKBNR w K - 0 25").unwrap();
    assert_eq!(generate_moves(&mut game, MoveTypes::All).all_from(square::a1).contains(&Move::new(square::a1, square::b3, Piece::WhiteKnight, Piece::NoPiece, true, false, false, false)), true);
}

#[test]
fn bishop_should_have_a_capture_move() {
    let mut game = Game::new_from_fen("rnbqkbnr/p1pppppp/8/1p6/4P3/8/PPPP1PPP/RNBQKBNR w K - 0 25").unwrap();
    assert_eq!(generate_moves(&mut game, MoveTypes::All).all_from(square::f1).contains(&Move::new(square::f1, square::b5, Piece::WhiteBishop, Piece::NoPiece, true, false, false, false)), true);
}

#[test]
fn rook_captured_by_pawn_generates_right_move() {
    let mut game = Game::new_from_fen("1nbqkbnr/1ppppppp/8/8/r7/1P6/P1PPPPPP/RNBQKBNR w K - 0 25").unwrap();
    let moves = generate_moves(&mut game, MoveTypes::All).all_from(square::b3);
    assert_eq!(moves.contains(&Move::new(square::b3, square::a4, Piece::WhitePawn, Piece::NoPiece, true, false, false, false)), true);
}

#[test]
fn pawns_cant_capture_straight() {
    let mut game = Game::new_from_fen("k7/8/8/p7/P7/8/8/K7 w K - 0 25").unwrap();
    let moves = generate_moves(&mut game, MoveTypes::All).all_from(square::d8);
    assert_eq!(moves.contains(&Move::new(square::a4, square::a5, Piece::WhitePawn, Piece::NoPiece, true, false, false, false)), false);
}

#[test]
fn pawns_cant_move_straight_into_piece() {
    let mut game = Game::new_from_fen("k7/8/8/p7/P7/8/8/K7 w K - 0 25").unwrap();
    let moves = generate_moves(&mut game, MoveTypes::All).all_from(square::a4);
    assert_eq!(moves.contains(&Move::new(square::a4, square::a5, Piece::WhitePawn, Piece::NoPiece, false, false, false, false)), false);
}

#[test]
fn rook_should_not_have_illegal_moves() {
    let mut game = Game::new_from_fen("r1bqkbnr/pppppppp/2n5/1P6/8/8/2PPPPPP/RNBQKBNR b KQkq - 0 25").unwrap();
    let moves = generate_moves(&mut game, MoveTypes::All).all_from(square::a8);
    assert_eq!(moves.len(), 1);
}

#[test]
fn cant_castle_if_path_is_under_attack() {
    let mut game = Game::new_from_fen("rnbqkbn1/ppppppp1/8/8/8/4BNP1/PPPPPrP1/RNBQK2R w KQq - 0 8").unwrap();
    let moves = generate_moves(&mut game, MoveTypes::All).all_from(square::e1);
    assert_eq!(moves.contains(&Move::new(square::e1, square::g1, Piece::WhiteKing, Piece::NoPiece, false, false, false, true)), false);
}

#[test]
fn can_castle_when_its_open() {
    let mut game = Game::new_from_fen("r3k2r/p1ppqpb1/bn2pnp1/3PN3/1p2P3/2N2Q1p/PPPBBPPP/R3K2R w KQkq - 0 10").unwrap();
    let moves = generate_moves(&mut game, MoveTypes::All).all_from(square::e1);
    assert_eq!(moves.contains(&Move::new(square::e1, square::g1, Piece::WhiteKing, Piece::NoPiece, false, false, false, true)), true);
}

#[test]
fn cant_castle_when_a_paw_is_in_front_of_king() {
    let mut game = Game::new_from_fen("r3k2r/4P3/8/8/8/8/8/4K3 b kq - 0 10").unwrap();
    let moves = generate_moves(&mut game, MoveTypes::All).all_from(square::e8);
    assert_eq!(moves.contains(&Move::new(square::e8, square::g8, Piece::WhiteKing, Piece::NoPiece, false, false, false, true)), false);
    assert_eq!(moves.contains(&Move::new(square::e8, square::c8, Piece::WhiteKing, Piece::NoPiece, false, false, false, true)), false);
}
