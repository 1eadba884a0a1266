//! Making and unmaking moves. Each made move saves the position before it in the
//! search environment, and unmaking restores that saved position.
use vstd::prelude::*;
use vstd::array::spec_array_update;
use crate::bitboard::{with_square, without_square, set_bit, unset_bit};
use crate::game::Game;
use crate::types::{Color, Kind, Piece, Move, piece_spec, piece_of, index_spec};

verus! {

/// The state a search carries beside the position: the ply reached, and the
/// positions before each move made and not yet unmade.
#[derive(Clone, Debug)]
pub struct SearchEnv {
    pub ply: u32,
    pub history: Vec<Game>,
}

impl SearchEnv {
    pub fn new() -> (r: SearchEnv)
        ensures
            r.ply == 0,
            r.history@ == Seq::<Game>::empty(),
    {
        SearchEnv { ply: 0, history: Vec::new() }
    }
}

/// `b` with square `sq` added, when `sq` is a square.
pub open spec fn add_sq(b: u64, sq: int) -> u64 {
    if 0 <= sq < 64 {
        with_square(b, sq)
    } else {
        b
    }
}

/// `b` with square `sq` removed, when `sq` is a square.
pub open spec fn remove_sq(b: u64, sq: int) -> u64 {
    if 0 <= sq < 64 {
        without_square(b, sq)
    } else {
        b
    }
}

/// `g` with bitboard `i`, if there is one, replaced by `v`.
pub open spec fn put_board(g: Game, i: int, v: u64) -> Game {
    if 0 <= i < 12 {
        Game { boards: spec_array_update(g.boards, i, v), ..g }
    } else {
        g
    }
}

/// `g` with `sq` removed from bitboards `i` up to `end` (excluded).
pub open spec fn clear_boards(g: Game, sq: int, i: int, end: int) -> Game
    decreases end - i,
{
    if i >= end || i < 0 || end > 12 {
        g
    } else {
        clear_boards(put_board(g, i, remove_sq(g.boards@[i], sq)), sq, i + 1, end)
    }
}

/// The square of the pawn taken en passant by color `c` landing on `to`.
pub open spec fn victim_square(c: Color, to: int) -> int {
    match c {
        Color::White => to + 8,
        Color::Black => to - 8,
    }
}

/// The taking part of `m`: the pawn taken en passant, or whatever opposing piece
/// stands on the destination.
pub open spec fn take_step(g: Game, m: Move) -> Game {
    let c = g.active_player;
    let first = index_spec(piece_spec(c.opponent(), Kind::Pawn));
    if m.enpassant {
        put_board(g, first, remove_sq(g.boards@[first], victim_square(c, m.to as int)))
    } else if m.capture {
        clear_boards(g, m.to as int, first, first + 6)
    } else {
        g
    }
}

/// The moving part of `m`: the piece leaves the origin, and it (or the piece it
/// promotes to) arrives on the destination.
pub open spec fn shift_step(g: Game, m: Move) -> Game {
    let pi = index_spec(m.piece);
    let dest = if m.promotion != Piece::NoPiece {
        index_spec(m.promotion)
    } else {
        pi
    };
    let g1 = if 0 <= pi < 12 {
        put_board(g, pi, remove_sq(g.boards@[pi], m.from as int))
    } else {
        g
    };
    if 0 <= dest < 12 {
        put_board(g1, dest, add_sq(g1.boards@[dest], m.to as int))
    } else {
        g1
    }
}

/// `g` with the rook of bitboard `ri` moved from `a` to `b`.
pub open spec fn move_rook(g: Game, ri: int, a: int, b: int) -> Game {
    put_board(g, ri, add_sq(remove_sq(g.boards@[ri], a), b))
}

/// The rook's part of a castling move, by the king's destination.
pub open spec fn rook_step(g: Game, m: Move) -> Game {
    if m.castling {
        if m.to == 62 {
            move_rook(g, 3, 63, 61)
        } else if m.to == 58 {
            move_rook(g, 3, 56, 59)
        } else if m.to == 6 {
            move_rook(g, 9, 7, 5)
        } else if m.to == 2 {
            move_rook(g, 9, 0, 3)
        } else {
            g
        }
    } else {
        g
    }
}

/// `g` with each occupancy recomputed from the bitboards.
pub open spec fn occupancy_step(g: Game) -> Game {
    let b = g.boards@;
    let white = b[0] | b[1] | b[2] | b[3] | b[4] | b[5];
    let black = b[6] | b[7] | b[8] | b[9] | b[10] | b[11];
    Game { white_occupancies: white, black_occupancies: black, all_occupancies: white | black, ..g }
}

/// The castling rights that survive a move touching square `sq`: a king's or a
/// rook's home square loses the rights that depend on it (the masks are over the
/// rights 1 white king side, 2 white queen side, 4 black king side, 8 black queen side).
pub open spec fn rights_kept(sq: int) -> u8 {
    if sq == 60 {
        12
    } else if sq == 63 {
        14
    } else if sq == 56 {
        13
    } else if sq == 4 {
        3
    } else if sq == 7 {
        11
    } else if sq == 0 {
        7
    } else {
        15
    }
}

/// The bookkeeping of `m` made from `before`: castling rights, en-passant square,
/// clocks and the side to move.
pub open spec fn bookkeeping_step(g: Game, m: Move, before: Game) -> Game {
    let pawn_or_capture = m.piece == Piece::WhitePawn || m.piece == Piece::BlackPawn || m.capture;
    Game {
        castling_ability: before.castling_ability & rights_kept(m.from as int) & rights_kept(
            m.to as int,
        ),
        enpassant_square: if m.double_push {
            Some(((m.from + m.to) / 2) as u8)
        } else {
            None
        },
        halfmove_clock: if pawn_or_capture {
            0
        } else if before.halfmove_clock < u32::MAX {
            (before.halfmove_clock + 1) as u32
        } else {
            before.halfmove_clock
        },
        fullmove_number: if before.active_player == Color::Black
            && before.fullmove_number < u32::MAX {
            (before.fullmove_number + 1) as u32
        } else {
            before.fullmove_number
        },
        active_player: before.active_player.opponent(),
        ..g
    }
}

/// The position after making `m` in `g`.
pub open spec fn applied(g: Game, m: Move) -> Game {
    bookkeeping_step(occupancy_step(rook_step(shift_step(take_step(g, m), m), m)), m, g)
}

fn add_square(b: u64, sq: i32) -> (r: u64)
    ensures
        r == add_sq(b, sq as int),
{
    if 0 <= sq && sq < 64 {
        set_bit(b, sq as u8)
    } else {
        b
    }
}

fn remove_square(b: u64, sq: i32) -> (r: u64)
    ensures
        r == remove_sq(b, sq as int),
{
    if 0 <= sq && sq < 64 {
        unset_bit(b, sq as u8)
    } else {
        b
    }
}

fn shift_rook(game: &mut Game, ri: usize, a: i32, b: i32)
    requires
        ri < 12,
    ensures
        *final(game) == move_rook(*old(game), ri as int, a as int, b as int),
{
    game.boards[ri] = add_square(remove_square(game.boards[ri], a), b);
}

/// Makes `m` in `game`, saving the position before it in `envir`.
pub fn make_move(game: &mut Game, m: &Move, envir: &mut SearchEnv)
    ensures
        *final(game) == applied(*old(game), *m),
        final(envir).history@ == old(envir).history@.push(*old(game)),
        final(envir).ply == old(envir).ply,
{
    let before = *game;
    envir.history.push(before);
    let c = game.active_player;
    let from = m.from as i32;
    let to = m.to as i32;
    // taking
    let first = piece_of(c.opponent(), Kind::Pawn).index();
    if m.enpassant {
        let victim: i32 = match c {
            Color::White => to + 8,
            Color::Black => to - 8,
        };
        game.boards[first] = remove_square(game.boards[first], victim);
    } else if m.capture {
        let ghost g0 = *game;
        let mut i: usize = first;
        while i < first + 6
            invariant
                first == index_spec(piece_spec(c.opponent(), Kind::Pawn)),
                first <= i <= first + 6,
                clear_boards(g0, to as int, first as int, first + 6) == clear_boards(
                    *game,
                    to as int,
                    i as int,
                    first + 6,
                ),
            decreases first + 6 - i,
        {
            game.boards[i] = remove_square(game.boards[i], to);
            i = i + 1;
        }
    }
    assert(*game == take_step(before, *m));
    // moving
    let pi = m.piece.index();
    let dest = if m.promotion != Piece::NoPiece {
        m.promotion.index()
    } else {
        pi
    };
    if pi < 12 {
        game.boards[pi] = remove_square(game.boards[pi], from);
    }
    if dest < 12 {
        game.boards[dest] = add_square(game.boards[dest], to);
    }
    // the rook of a castling move
    if m.castling {
        if m.to == 62 {
            shift_rook(game, 3, 63, 61);
        } else if m.to == 58 {
            shift_rook(game, 3, 56, 59);
        } else if m.to == 6 {
            shift_rook(game, 9, 7, 5);
        } else if m.to == 2 {
            shift_rook(game, 9, 0, 3);
        }
    }
    // occupancies
    let white = game.boards[0] | game.boards[1] | game.boards[2] | game.boards[3] | game.boards[4]
        | game.boards[5];
    let black = game.boards[6] | game.boards[7] | game.boards[8] | game.boards[9] | game.boards[10]
        | game.boards[11];
    game.white_occupancies = white;
    game.black_occupancies = black;
    game.all_occupancies = white | black;
    // bookkeeping
    let kept_from: u8 = rights_kept_exec(m.from);
    let kept_to: u8 = rights_kept_exec(m.to);
    game.castling_ability = before.castling_ability & kept_from & kept_to;
    game.enpassant_square = if m.double_push {
        Some(((m.from as u16 + m.to as u16) / 2) as u8)
    } else {
        None
    };
    let pawn_or_capture = m.piece == Piece::WhitePawn || m.piece == Piece::BlackPawn || m.capture;
    game.halfmove_clock = if pawn_or_capture {
        0
    } else if before.halfmove_clock < u32::MAX {
        before.halfmove_clock + 1
    } else {
        before.halfmove_clock
    };
    game.fullmove_number = if before.active_player == Color::Black && before.fullmove_number
        < u32::MAX {
        before.fullmove_number + 1
    } else {
        before.fullmove_number
    };
    game.active_player = before.active_player.opponent();
}

fn rights_kept_exec(sq: u8) -> (r: u8)
    ensures
        r == rights_kept(sq as int),
{
    if sq == 60 {
        12
    } else if sq == 63 {
        14
    } else if sq == 56 {
        13
    } else if sq == 4 {
        3
    } else if sq == 7 {
        11
    } else if sq == 0 {
        7
    } else {
        15
    }
}

/// Unmakes the last move made with `envir`: the position becomes, bit for bit, the
/// one saved before that move.
pub fn unmake_move(game: &mut Game, m: &Move, envir: &mut SearchEnv)
    requires
        old(envir).history@.len() > 0,
    ensures
        *final(game) == old(envir).history@.last(),
        final(envir).history@ == old(envir).history@.drop_last(),
        final(envir).ply == old(envir).ply,
{
    match envir.history.pop() {
        Some(g) => {
            *game = g;
        },
        None => {},
    }
}

/// Making a move and then unmaking it leaves the position bit for bit as it was, and
/// the saved history too: whatever states `make_move` and then `unmake_move` pass
/// through, as their contracts describe them, end where they began.
pub proof fn lemma_make_then_unmake(
    before: Game,
    env_before: SearchEnv,
    m: Move,
    mid: Game,
    env_mid: SearchEnv,
    after: Game,
    env_after: SearchEnv,
)
    requires
        mid == applied(before, m),
        env_mid.history@ == env_before.history@.push(before),
        env_mid.ply == env_before.ply,
        after == env_mid.history@.last(),
        env_after.history@ == env_mid.history@.drop_last(),
        env_after.ply == env_mid.ply,
    ensures
        after == before,
        env_after.history@ == env_before.history@,
        env_after.ply == env_before.ply,
{
    assert(env_before.history@.push(before).drop_last() =~= env_before.history@);
}

} // verus!
