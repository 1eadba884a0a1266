use movegen::square;
use movegen::{generate_moves, is_legal, Game, FenError, Move, MoveTypes, Piece};

const POSITIONS: [&str; 5] = [
    "r3k2r/p1ppqpb1/bn2pnp1/3PN3/1p2P3/2N2Q1p/PPPBBPPP/R3K2R w KQkq - 0 10",
    "k7/8/8/4Pp2/8/8/8/K7 w - f6 0 25",
    "k2r4/2P5/8/8/8/8/8/K7 w - - 0 25",
    "7K/1rr5/1Qb5/1nb5/8/8/8/7k w - - 0 25",
    "k7/8/8/8/8/pP6/8/7K b - b2 0 25",
];

#[test]
fn captures_only_is_the_capturing_part_of_all() {
    for fen in POSITIONS.iter() {
        let game = Game::new_from_fen(fen).unwrap();
        let all = generate_moves(&game, MoveTypes::All);
        let caps = generate_moves(&game, MoveTypes::Quiescence);
        assert!(caps.len() <= all.len());
        for m in caps.values().iter() {
            assert!(all.contains(m));
        }
        let filtered: Vec<Move> = all.values().iter().filter(|m| m.is_capture()).cloned().collect();
        assert_eq!(&filtered, caps.values());
    }
}

#[test]
fn generation_is_deterministic() {
    for fen in POSITIONS.iter() {
        let game = Game::new_from_fen(fen).unwrap();
        assert_eq!(generate_moves(&game, MoveTypes::All).values(), generate_moves(&game, MoveTypes::All).values());
    }
}

#[test]
fn start_position_pawn_knight_rook_queen_counts() {
    let game = Game::new_from_start_pos();
    let moves = generate_moves(&game, MoveTypes::All);
    let pawn = moves.all_from(square::e2);
    assert_eq!(pawn.len(), 2);
    assert_eq!(pawn.values().iter().filter(|m| m.double_push).count(), 1);
    assert_eq!(moves.all_from(square::g1).len(), 2);
    assert_eq!(moves.all_from(square::h1).len(), 0);
    assert_eq!(moves.all_from(square::d1).len(), 0);
    assert_eq!(moves.len(), 20);
}

#[test]
fn exactly_one_enpassant_move() {
    let game = Game::new_from_fen("k7/8/8/4Pp2/8/8/8/K7 w - f6 0 25").unwrap();
    let moves = generate_moves(&game, MoveTypes::All);
    let ep: Vec<&Move> = moves.values().iter().filter(|m| m.is_enpassant()).collect();
    assert_eq!(ep.len(), 1);
    assert!(ep[0].is_capture());
    assert_eq!(ep[0].to_square(), square::f6);
    assert!(is_legal(&game, ep[0]));
    let quiet = generate_moves(&game, MoveTypes::Quiescence);
    assert_eq!(quiet.values().iter().filter(|m| m.is_enpassant()).count(), 1);
}

#[test]
fn promotion_pieces_are_queen_knight_rook_bishop() {
    let game = Game::new_from_fen("k2r4/2P5/8/8/8/8/8/K7 w - - 0 25").unwrap();
    let moves = generate_moves(&game, MoveTypes::All).all_from(square::c7);
    let promos: Vec<Piece> = moves.values().iter().map(|m| m.promotion).collect();
    assert_eq!(
        promos,
        vec![
            Piece::WhiteQueen, Piece::WhiteKnight, Piece::WhiteRook, Piece::WhiteBishop,
            Piece::WhiteQueen, Piece::WhiteKnight, Piece::WhiteRook, Piece::WhiteBishop,
        ]
    );
    assert_eq!(moves.values().iter().filter(|m| m.is_capture()).count(), 4);
    let caps = generate_moves(&game, MoveTypes::Quiescence).all_from(square::c7);
    assert_eq!(caps.len(), 4);
}

#[test]
fn castling_each_condition_suppresses_its_side() {
    let ks = Move::new(square::e1, square::g1, Piece::WhiteKing, Piece::NoPiece, false, false, false, true);
    let qs = Move::new(square::e1, square::c1, Piece::WhiteKing, Piece::NoPiece, false, false, false, true);
    let both = Game::new_from_fen("4k3/8/8/8/8/8/8/R3K2R w KQ - 0 1").unwrap();
    let m = generate_moves(&both, MoveTypes::All);
    assert!(m.contains(&ks) && m.contains(&qs));
    assert!(!generate_moves(&both, MoveTypes::Quiescence).contains(&ks));
    let no_q_right = Game::new_from_fen("4k3/8/8/8/8/8/8/R3K2R w K - 0 1").unwrap();
    let m = generate_moves(&no_q_right, MoveTypes::All);
    assert!(m.contains(&ks) && !m.contains(&qs));
    let blocked = Game::new_from_fen("4k3/8/8/8/8/8/8/R3KB1R w KQ - 0 1").unwrap();
    let m = generate_moves(&blocked, MoveTypes::All);
    assert!(!m.contains(&ks) && m.contains(&qs));
    let transit_attacked = Game::new_from_fen("4k3/8/8/8/8/8/3r4/R3K2R w KQ - 0 1").unwrap();
    let m = generate_moves(&transit_attacked, MoveTypes::All);
    assert!(m.contains(&ks) && !m.contains(&qs));
    // the destination square is left to the legality test
    let dest_attacked = Game::new_from_fen("4k3/8/8/8/8/8/6r1/R3K2R w KQ - 0 1").unwrap();
    let m = generate_moves(&dest_attacked, MoveTypes::All);
    assert!(m.contains(&ks));
    assert!(!is_legal(&dest_attacked, &ks));
}

#[test]
fn king_next_to_rook_keeps_only_safe_squares() {
    let game = Game::new_from_fen("k7/8/8/8/8/8/1r6/K7 w - - 0 1").unwrap();
    let moves = generate_moves(&game, MoveTypes::All).all_from(square::a1);
    assert_eq!(moves.len(), 3);
    let legal: Vec<u8> = moves.values().iter().filter(|m| is_legal(&game, m)).map(|m| m.to_square()).collect();
    assert_eq!(legal, vec![square::b2]);
}

#[test]
fn fen_errors() {
    assert_eq!(Game::new_from_fen("8/8/8 w - - 0 1").err(), Some(FenError::Placement));
    assert_eq!(Game::new_from_fen("8/8/8/8/8/8/8/8 x - - 0 1").err(), Some(FenError::ActiveColor));
    assert_eq!(Game::new_from_fen("8/8/8/8/8/8/8/8 w X - 0 1").err(), Some(FenError::Castling));
    assert_eq!(Game::new_from_fen("8/8/8/8/8/8/8/8 w - z9 0 1").err(), Some(FenError::EnPassant));
    assert_eq!(Game::new_from_fen("8/8/8/8/8/8/8/8 w - - x 1").err(), Some(FenError::Counter));
}

#[test]
fn fen_reads_every_field() {
    let game = Game::new_from_fen("rnbqkbnr/pppppppp/8/8/4P3/8/PPPP1PPP/RNBQKBNR b Kq e3 3 7").unwrap();
    assert_eq!(game.castling_ability, 1 | 8);
    assert_eq!(game.enpassant_square, Some(square::e3));
    assert_eq!(game.halfmove_clock, 3);
    assert_eq!(game.fullmove_number, 7);
    assert_eq!(game.all_occupancies.count_ones(), 32);
    let start = Game::new_from_start_pos();
    let same = Game::new_from_fen("rnbqkbnr/pppppppp/8/8/8/8/PPPPPPPP/RNBQKBNR w KQkq - 0 1").unwrap();
    assert_eq!(format!("{:?}", start), format!("{:?}", same));
}

#[test]
fn square_names() {
    assert_eq!(movegen::square::file_letter(square::e4), 'e');
    assert_eq!(movegen::square::rank_digit(square::e4), '4');
    assert_eq!(movegen::square::file_letter(square::a8), 'a');
    assert_eq!(movegen::square::rank_digit(square::h1), '1');
}
