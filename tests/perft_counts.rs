use movegen::square;
use movegen::{generate_moves, make_move, perft, perft_branch, perft_divide, unmake_move};
use movegen::{Game, Move, MoveTypes, Piece, SearchEnv};

fn play(game: &mut Game, from: u8, to: u8) {
    let moves = generate_moves(game, MoveTypes::All).legal_values(game);
    let m = *moves.iter().find(|m| m.from_square() == from && m.to_square() == to).unwrap();
    let mut envir = SearchEnv::new();
    make_move(game, &m, &mut envir);
}

#[test]
fn perft_test() {
    let mut game = Game::new_from_start_pos();
    play(&mut game, square::a2, square::a3);
    play(&mut game, square::d7, square::d6);
    play(&mut game, square::b2, square::b3);
    play(&mut game, square::c8, square::h3);
    let pe = perft(&mut game, 1);
    println!("Found total: {}", pe);
    assert_eq!(pe, generate_moves(&game, MoveTypes::All).len() as u128);
}

#[test]
fn perft_from_start_matches_known_counts() {
    let mut game = Game::new_from_start_pos();
    assert_eq!(perft(&mut game, 1), 20);
    assert_eq!(perft(&mut game, 2), 400);
    assert_eq!(perft(&mut game, 3), 8902);
}

#[test]
fn perft_depth_one_is_move_count() {
    let fens = [
        "r3k2r/p1ppqpb1/bn2pnp1/3PN3/1p2P3/2N2Q1p/PPPBBPPP/R3K2R w KQkq - 0 10",
        "k7/8/8/4Pp2/8/8/8/K7 w - f6 0 25",
        "8/1KR5/1QN5/1BB5/8/8/8/7k w - - 0 25",
    ];
    for fen in fens.iter() {
        let mut game = Game::new_from_fen(fen).unwrap();
        let n = generate_moves(&game, MoveTypes::All).len() as u128;
        assert_eq!(perft(&mut game, 1), n);
    }
}

#[test]
fn root_split_sums_to_sequential_count() {
    let fens = [
        "r3k2r/p1ppqpb1/bn2pnp1/3PN3/1p2P3/2N2Q1p/PPPBBPPP/R3K2R w KQkq - 0 10",
        "rnbqkbnr/pppppppp/8/8/4P3/8/PPPP1PPP/RNBQKBNR b KQkq e3 0 1",
    ];
    for fen in fens.iter() {
        for depth in 2..4u8 {
            let mut game = Game::new_from_fen(fen).unwrap();
            let (moves, counts) = perft_divide(&game, depth);
            assert_eq!(moves.len(), counts.len());
            let split: u128 = counts.iter().sum();
            let by_branch: u128 = moves.values().iter().map(|m| perft_branch(&game, m, depth)).sum();
            assert_eq!(split, perft(&mut game, depth));
            assert_eq!(by_branch, split);
        }
    }
}

#[test]
fn perft_leaves_the_position_unchanged() {
    let mut game = Game::new_from_fen("r3k2r/p1ppqpb1/bn2pnp1/3PN3/1p2P3/2N2Q1p/PPPBBPPP/R3K2R w KQkq - 0 10").unwrap();
    let before = format!("{:?}", game);
    perft(&mut game, 2);
    assert_eq!(format!("{:?}", game), before);
}

#[test]
fn make_then_unmake_restores_every_field() {
    let fens = [
        "r3k2r/p1ppqpb1/bn2pnp1/3PN3/1p2P3/2N2Q1p/PPPBBPPP/R3K2R w KQkq - 0 10",
        "k7/8/8/4Pp2/8/8/8/K7 w - f6 0 25",
        "k2r4/2P5/8/8/8/8/8/K7 w - - 0 25",
    ];
    for fen in fens.iter() {
        let mut game = Game::new_from_fen(fen).unwrap();
        let before = format!("{:?}", game);
        let moves = generate_moves(&game, MoveTypes::All);
        for m in moves.values().iter() {
            let mut envir = SearchEnv::new();
            make_move(&mut game, m, &mut envir);
            unmake_move(&mut game, m, &mut envir);
            assert_eq!(format!("{:?}", game), before);
            assert_eq!(envir.history.len(), 0);
        }
    }
}

#[test]
fn castling_moves_the_rook_and_drops_rights() {
    let mut game = Game::new_from_fen("4k3/8/8/8/8/8/8/R3K2R w KQ - 0 25").unwrap();
    let m = Move::new(square::e1, square::g1, Piece::WhiteKing, Piece::NoPiece, false, false, false, true);
    let mut envir = SearchEnv::new();
    make_move(&mut game, &m, &mut envir);
    assert_eq!(game.boards[Piece::WhiteRook.index()], (1u64 << square::a1) | (1u64 << square::f1));
    assert_eq!(game.boards[Piece::WhiteKing.index()], 1u64 << square::g1);
    assert_eq!(game.castling_ability, 0);
}

#[test]
fn double_push_sets_the_enpassant_square() {
    let mut game = Game::new_from_start_pos();
    let m = Move::new(square::e2, square::e4, Piece::WhitePawn, Piece::NoPiece, false, true, false, false);
    let mut envir = SearchEnv::new();
    make_move(&mut game, &m, &mut envir);
    assert_eq!(game.enpassant_square, Some(square::e3));
    assert_eq!(game.all_occupancies & (1u64 << square::e2), 0);
    assert_ne!(game.all_occupancies & (1u64 << square::e4), 0);
}
