//! Pseudo-legal move generation and the legality test.
use vstd::prelude::*;
use crate::bitboard::{in_set, row_of, get_bit, set_bit, unset_bit, with_square, without_square, lemma_and_not, lemma_disjoint, lemma_with_square, lemma_without_square, lemma_or_nonempty};
use crate::attacks::{Reach, attacks, pawn_reach, attack_table, reaches, lemma_attacks};
use crate::game::{Game, WHITE_KING_SIDE, WHITE_QUEEN_SIDE, BLACK_KING_SIDE, BLACK_QUEEN_SIDE};
use crate::types::{Color, Kind, Piece, Move, MoveList, mk_move, piece_spec, piece_of, index_spec};
use vstd::array::spec_array_update;

verus! {

/// Which moves to generate: all of them, or only captures (en passant included).
#[derive(Clone, Copy, Debug, PartialEq, Eq, Structural)]
pub enum MoveTypes {
    All,
    Quiescence,
}

/// The square one step forward from `s` for a pawn of color `c`.
pub open spec fn forward(c: Color, s: int) -> int {
    match c {
        Color::White => s - 8,
        Color::Black => s + 8,
    }
}

/// Whether a pawn of color `c` arriving on `to` promotes.
pub open spec fn promotes(c: Color, to: int) -> bool {
    match c {
        Color::White => to < 8,
        Color::Black => to > 55,
    }
}

/// The row from which pawns of color `c` may advance two squares.
pub open spec fn start_row(c: Color) -> int {
    match c {
        Color::White => 6,
        Color::Black => 1,
    }
}

/// One move from `from` to each square below `n` of `bits`, in ascending order.
pub open spec fn target_moves(from: int, piece: Piece, bits: u64, capture: bool, n: nat) -> Seq<
    Move,
>
    decreases n,
{
    if n == 0 {
        Seq::empty()
    } else {
        target_moves(from, piece, bits, capture, (n - 1) as nat) + if in_set(bits, n - 1) {
            seq![mk_move(from, n - 1, piece, Piece::NoPiece, capture, false, false, false)]
        } else {
            Seq::empty()
        }
    }
}

/// The four promotions of a pawn of color `c` moving from `from` to `to`:
/// queen, knight, rook, bishop.
pub open spec fn promotions(c: Color, from: int, to: int, capture: bool) -> Seq<Move> {
    let p = piece_spec(c, Kind::Pawn);
    seq![
        mk_move(from, to, p, piece_spec(c, Kind::Queen), capture, false, false, false),
        mk_move(from, to, p, piece_spec(c, Kind::Knight), capture, false, false, false),
        mk_move(from, to, p, piece_spec(c, Kind::Rook), capture, false, false, false),
        mk_move(from, to, p, piece_spec(c, Kind::Bishop), capture, false, false, false),
    ]
}

/// The forward moves of the side-to-move's pawn on `s`: in `All` mode only, and only
/// onto an empty square; four promotions on the last row, else a single push, then
/// a double push from the start row if that square is empty too.
pub open spec fn pawn_pushes(g: Game, mode: MoveTypes, s: int) -> Seq<Move> {
    let c = g.active_player;
    let one = forward(c, s);
    let p = piece_spec(c, Kind::Pawn);
    if mode == MoveTypes::All && 0 <= one < 64 && !in_set(g.all_occupancies, one) {
        if promotes(c, one) {
            promotions(c, s, one, false)
        } else {
            seq![mk_move(s, one, p, Piece::NoPiece, false, false, false, false)] + if row_of(s)
                == start_row(c) && !in_set(g.all_occupancies, forward(c, one)) {
                seq![mk_move(s, forward(c, one), p, Piece::NoPiece, false, true, false, false)]
            } else {
                Seq::empty()
            }
        }
    } else {
        Seq::empty()
    }
}

/// The en-passant capture of the side-to-move's pawn on `s`, if it attacks the
/// en-passant square.
pub open spec fn pawn_enpassant(g: Game, s: int) -> Seq<Move> {
    let c = g.active_player;
    match g.enpassant_square {
        Some(e) => if e < 64 && in_set(attacks(pawn_reach(c), s, g.all_occupancies), e as int) {
            seq![
                mk_move(s, e as int, piece_spec(c, Kind::Pawn), Piece::NoPiece, true, false, true, false),
            ]
        } else {
            Seq::empty()
        },
        None => Seq::empty(),
    }
}

/// The squares a pawn on `s` of the side to move captures on.
pub open spec fn pawn_capture_set(g: Game, s: int) -> u64 {
    attacks(pawn_reach(g.active_player), s, g.all_occupancies) & g.occupancy(
        g.active_player.opponent(),
    )
}

/// The captures onto squares below `n` of the side-to-move's pawn on `s`, in
/// ascending order of destination; four promotions each on the last row.
pub open spec fn pawn_captures(g: Game, s: int, n: nat) -> Seq<Move>
    decreases n,
{
    if n == 0 {
        Seq::empty()
    } else {
        let c = g.active_player;
        let t = n - 1;
        pawn_captures(g, s, (n - 1) as nat) + if in_set(pawn_capture_set(g, s), t) {
            if promotes(c, t) {
                promotions(c, s, t, true)
            } else {
                seq![mk_move(s, t, piece_spec(c, Kind::Pawn), Piece::NoPiece, true, false, false, false)]
            }
        } else {
            Seq::empty()
        }
    }
}

/// All moves of the side-to-move's pawn on `s`.
pub open spec fn pawn_moves(g: Game, mode: MoveTypes, s: int) -> Seq<Move> {
    pawn_pushes(g, mode, s) + pawn_enpassant(g, s) + pawn_captures(g, s, 64)
}

/// How a piece of kind `k` (not a pawn) attacks.
pub open spec fn reach_of(k: Kind) -> Reach {
    match k {
        Kind::Knight => Reach::Knight,
        Kind::Bishop => Reach::Bishop,
        Kind::Rook => Reach::Rook,
        Kind::Queen => Reach::Queen,
        _ => Reach::King,
    }
}

/// The moves of the side-to-move's piece of kind `k` (not a pawn) on `s`: in `All`
/// mode the moves to empty attacked squares, then the captures.
pub open spec fn piece_moves(g: Game, mode: MoveTypes, k: Kind, s: int) -> Seq<Move> {
    let c = g.active_player;
    let att = attacks(reach_of(k), s, g.all_occupancies);
    (if mode == MoveTypes::All {
        target_moves(s, piece_spec(c, k), att & !g.all_occupancies, false, 64)
    } else {
        Seq::empty()
    }) + target_moves(s, piece_spec(c, k), att & g.occupancy(c.opponent()), true, 64)
}

/// The moves of the side-to-move's pieces of kind `k` on squares below `n`, square by
/// square in ascending order.
#[verifier::opaque]
pub open spec fn kind_moves(g: Game, mode: MoveTypes, k: Kind, n: nat) -> Seq<Move>
    decreases n,
{
    if n == 0 {
        Seq::empty()
    } else {
        let s = n - 1;
        kind_moves(g, mode, k, (n - 1) as nat) + if in_set(
            g.bb(piece_spec(g.active_player, k)),
            s,
        ) {
            if k == Kind::Pawn {
                pawn_moves(g, mode, s)
            } else {
                piece_moves(g, mode, k, s)
            }
        } else {
            Seq::empty()
        }
    }
}

/// One castling move of the king from `king_sq` to `to`: in `All` mode, with right
/// `right` held, the squares of `path` empty, and neither `king_sq` nor `pass` attacked.
pub open spec fn castle(
    g: Game,
    mode: MoveTypes,
    right: u8,
    path: u64,
    king_sq: int,
    pass: int,
    to: int,
) -> Seq<Move> {
    let c = g.active_player;
    if mode == MoveTypes::All && g.castling_ability & right != 0 && g.all_occupancies & path == 0
        && !g.square_attacked(king_sq, c.opponent()) && !g.square_attacked(pass, c.opponent()) {
        seq![mk_move(king_sq, to, piece_spec(c, Kind::King), Piece::NoPiece, false, false, false, true)]
    } else {
        Seq::empty()
    }
}

/// The castling moves of the side to move: king side, then queen side.
#[verifier::opaque]
pub open spec fn castles(g: Game, mode: MoveTypes) -> Seq<Move> {
    match g.active_player {
        Color::White => castle(g, mode, WHITE_KING_SIDE, 0x6000_0000_0000_0000, 60, 61, 62)
            + castle(g, mode, WHITE_QUEEN_SIDE, 0x0e00_0000_0000_0000, 60, 59, 58),
        Color::Black => castle(g, mode, BLACK_KING_SIDE, 0x60, 4, 5, 6) + castle(
            g,
            mode,
            BLACK_QUEEN_SIDE,
            0x0e,
            4,
            3,
            2,
        ),
    }
}

/// The pseudo-legal moves of the side to move, in generation order: pawns, castling,
/// knights, bishops, rooks, queens, king.
pub open spec fn generated(g: Game, mode: MoveTypes) -> Seq<Move> {
    kind_moves(g, mode, Kind::Pawn, 64) + castles(g, mode) + kind_moves(g, mode, Kind::Knight, 64)
        + kind_moves(g, mode, Kind::Bishop, 64) + kind_moves(g, mode, Kind::Rook, 64)
        + kind_moves(g, mode, Kind::Queen, 64) + kind_moves(g, mode, Kind::King, 64)
}

fn push_targets(moves: &mut MoveList, from: u8, piece: Piece, bits: u64, capture: bool)
    requires
        from < 64,
    ensures
        final(moves)@ == old(moves)@ + target_moves(from as int, piece, bits, capture, 64),
{
    let ghost start = moves@;
    let mut t: u8 = 0;
    while t < 64
        invariant
            t <= 64,
            from < 64,
            moves@ == start + target_moves(from as int, piece, bits, capture, t as nat),
        decreases 64 - t,
    {
        if get_bit(bits, t) {
            moves.add_move(Move::new(from, t, piece, Piece::NoPiece, capture, false, false, false));
        }
        assert(moves@ =~= start + target_moves(from as int, piece, bits, capture, (t + 1) as nat));
        t = t + 1;
    }
}

fn push_promotions(moves: &mut MoveList, c: Color, from: u8, to: u8, capture: bool)
    ensures
        final(moves)@ == old(moves)@ + promotions(c, from as int, to as int, capture),
{
    let p = piece_of(c, Kind::Pawn);
    moves.add_move(Move::new(from, to, p, piece_of(c, Kind::Queen), capture, false, false, false));
    moves.add_move(Move::new(from, to, p, piece_of(c, Kind::Knight), capture, false, false, false));
    moves.add_move(Move::new(from, to, p, piece_of(c, Kind::Rook), capture, false, false, false));
    moves.add_move(Move::new(from, to, p, piece_of(c, Kind::Bishop), capture, false, false, false));
    assert(moves@ =~= old(moves)@ + promotions(c, from as int, to as int, capture));
}

fn push_pawn_moves(moves: &mut MoveList, g: &Game, mode: MoveTypes, s: u8)
    requires
        s < 64,
    ensures
        final(moves)@ == old(moves)@ + pawn_moves(*g, mode, s as int),
{
    let ghost start = moves@;
    let c = g.active_player;
    let p = piece_of(c, Kind::Pawn);
    // forward moves
    let one: i32 = match c {
        Color::White => s as i32 - 8,
        Color::Black => s as i32 + 8,
    };
    if mode == MoveTypes::All && 0 <= one && one < 64 && !get_bit(g.all_occupancies, one as u8) {
        let to = one as u8;
        let last = match c {
            Color::White => to < 8,
            Color::Black => to > 55,
        };
        if last {
            push_promotions(moves, c, s, to, false);
        } else {
            moves.add_move(Move::new(s, to, p, Piece::NoPiece, false, false, false, false));
            let two: u8 = match c {
                Color::White => to - 8,
                Color::Black => to + 8,
            };
            let start_row: u8 = match c {
                Color::White => 6,
                Color::Black => 1,
            };
            if s / 8 == start_row && !get_bit(g.all_occupancies, two) {
                moves.add_move(Move::new(s, two, p, Piece::NoPiece, false, true, false, false));
            }
        }
    }
    assert(moves@ =~= start + pawn_pushes(*g, mode, s as int));
    let ghost after_pushes = moves@;
    // en passant
    let att = attack_table(
        match c {
            Color::White => Reach::WhitePawn,
            Color::Black => Reach::BlackPawn,
        },
        s,
        g.all_occupancies,
    );
    match g.enpassant_square {
        Some(e) => {
            if e < 64 && get_bit(att, e) {
                moves.add_move(Move::new(s, e, p, Piece::NoPiece, true, false, true, false));
            }
        },
        None => {},
    }
    assert(moves@ =~= after_pushes + pawn_enpassant(*g, s as int));
    let ghost after_ep = moves@;
    // captures
    let targets = att & g.occupancy_of(c.opponent());
    let mut t: u8 = 0;
    while t < 64
        invariant
            t <= 64,
            s < 64,
            c == g.active_player,
            p == piece_spec(c, Kind::Pawn),
            targets == pawn_capture_set(*g, s as int),
            moves@ == after_ep + pawn_captures(*g, s as int, t as nat),
        decreases 64 - t,
    {
        if get_bit(targets, t) {
            let last = match c {
                Color::White => t < 8,
                Color::Black => t > 55,
            };
            if last {
                push_promotions(moves, c, s, t, true);
            } else {
                moves.add_move(Move::new(s, t, p, Piece::NoPiece, true, false, false, false));
            }
        }
        assert(moves@ =~= after_ep + pawn_captures(*g, s as int, (t + 1) as nat));
        t = t + 1;
    }
    assert(moves@ =~= start + pawn_moves(*g, mode, s as int));
}

fn reach_exec(k: Kind) -> (r: Reach)
    ensures
        r == reach_of(k),
{
    match k {
        Kind::Knight => Reach::Knight,
        Kind::Bishop => Reach::Bishop,
        Kind::Rook => Reach::Rook,
        Kind::Queen => Reach::Queen,
        _ => Reach::King,
    }
}

fn push_piece_moves(moves: &mut MoveList, g: &Game, mode: MoveTypes, k: Kind, s: u8)
    requires
        s < 64,
    ensures
        final(moves)@ == old(moves)@ + piece_moves(*g, mode, k, s as int),
{
    let ghost start = moves@;
    let c = g.active_player;
    let piece = piece_of(c, k);
    let att = attack_table(reach_exec(k), s, g.all_occupancies);
    if mode == MoveTypes::All {
        push_targets(moves, s, piece, att & !g.all_occupancies, false);
    }
    push_targets(moves, s, piece, att & g.occupancy_of(c.opponent()), true);
    assert(moves@ =~= start + piece_moves(*g, mode, k, s as int));
}

fn push_kind_moves(moves: &mut MoveList, g: &Game, mode: MoveTypes, k: Kind)
    ensures
        final(moves)@ == old(moves)@ + kind_moves(*g, mode, k, 64),
{
    let ghost start = moves@;
    proof {
        reveal(kind_moves);
    }
    let board = g.get_piece_bitboard(piece_of(g.active_player, k));
    let mut s: u8 = 0;
    while s < 64
        invariant
            s <= 64,
            board == g.bb(piece_spec(g.active_player, k)),
            moves@ == start + kind_moves(*g, mode, k, s as nat),
        decreases 64 - s,
    {
        if get_bit(board, s) {
            match k {
                Kind::Pawn => push_pawn_moves(moves, g, mode, s),
                _ => push_piece_moves(moves, g, mode, k, s),
            }
        }
        proof {
            reveal(kind_moves);
        }
        assert(moves@ =~= start + kind_moves(*g, mode, k, (s + 1) as nat));
        s = s + 1;
    }
}

fn push_castle(
    moves: &mut MoveList,
    g: &Game,
    mode: MoveTypes,
    right: u8,
    path: u64,
    king_sq: u8,
    pass: u8,
    to: u8,
)
    requires
        king_sq < 64,
        pass < 64,
    ensures
        final(moves)@ == old(moves)@ + castle(
            *g,
            mode,
            right,
            path,
            king_sq as int,
            pass as int,
            to as int,
        ),
{
    let c = g.active_player;
    if mode == MoveTypes::All && g.castling_ability & right != 0 && g.all_occupancies & path == 0
        && !g.is_square_attacked(king_sq, c.opponent()) && !g.is_square_attacked(
        pass,
        c.opponent(),
    ) {
        moves.add_move(
            Move::new(king_sq, to, piece_of(c, Kind::King), Piece::NoPiece, false, false, false, true),
        );
    }
    assert(moves@ =~= old(moves)@ + castle(
        *g,
        mode,
        right,
        path,
        king_sq as int,
        pass as int,
        to as int,
    ));
}

/// Every pseudo-legal move of the side to move, in generation order (see `generated`).
/// With `Quiescence` only captures and en-passant captures are generated.
pub fn generate_moves(game: &Game, move_types: MoveTypes) -> (moves: MoveList)
    ensures
        moves@ == generated(*game, move_types),
        all_shaped(*game, moves@),
{
    let mut moves = MoveList::new();
    push_kind_moves(&mut moves, game, move_types, Kind::Pawn);
    match game.active_player {
        Color::White => {
            push_castle(&mut moves, game, move_types, WHITE_KING_SIDE, 0x6000_0000_0000_0000, 60, 61, 62);
            push_castle(&mut moves, game, move_types, WHITE_QUEEN_SIDE, 0x0e00_0000_0000_0000, 60, 59, 58);
        },
        Color::Black => {
            push_castle(&mut moves, game, move_types, BLACK_KING_SIDE, 0x60, 4, 5, 6);
            push_castle(&mut moves, game, move_types, BLACK_QUEEN_SIDE, 0x0e, 4, 3, 2);
        },
    }
    push_kind_moves(&mut moves, game, move_types, Kind::Knight);
    push_kind_moves(&mut moves, game, move_types, Kind::Bishop);
    push_kind_moves(&mut moves, game, move_types, Kind::Rook);
    push_kind_moves(&mut moves, game, move_types, Kind::Queen);
    push_kind_moves(&mut moves, game, move_types, Kind::King);
    proof {
        reveal(castles);
    }
    assert(moves@ =~= generated(*game, move_types));
    proof {
        lemma_generated_shaped(*game, move_types);
    }
    moves
}

/// `g` with bitboard `i` replaced by `v`.
pub open spec fn set_board(g: Game, i: int, v: u64) -> Game {
    Game { boards: spec_array_update(g.boards, i, v), ..g }
}

/// `g` with `sq` cleared from the first bitboard among those of index `i` up to
/// `end` (excluded) that holds it.
pub open spec fn clear_first(g: Game, sq: int, i: int, end: int) -> Game
    decreases end - i,
{
    if i >= end {
        g
    } else if in_set(g.boards@[i], sq) {
        set_board(g, i, without_square(g.boards@[i], sq))
    } else {
        clear_first(g, sq, i + 1, end)
    }
}

/// The square of the pawn taken by an en-passant capture onto `to` by color `c`.
pub open spec fn enpassant_victim(c: Color, to: int) -> int {
    match c {
        Color::White => to + 8,
        Color::Black => to - 8,
    }
}

/// What the legality test needs of `m` applied to `g`: the moving piece's bitboard
/// and the board's occupancy lose `m.from` and gain `m.to`; an en-passant capture
/// removes the taken pawn from its bitboard and from the occupancy; another capture
/// removes `m.to` from the first of the opponent's pawn, knight, bishop, rook and
/// queen bitboards that holds it.
pub open spec fn peek(g: Game, m: Move) -> Game {
    let pi = index_spec(m.piece);
    let g1 = set_board(g, pi, with_square(without_square(g.boards@[pi], m.from as int), m.to as int));
    let g2 = Game {
        all_occupancies: with_square(without_square(g.all_occupancies, m.from as int), m.to as int),
        ..g1
    };
    let c = g.active_player;
    if m.enpassant {
        let qi = index_spec(piece_spec(c.opponent(), Kind::Pawn));
        let v = enpassant_victim(c, m.to as int);
        let g3 = set_board(g2, qi, without_square(g2.boards@[qi], v));
        Game { all_occupancies: without_square(g3.all_occupancies, v), ..g3 }
    } else if m.capture {
        let first = index_spec(piece_spec(c.opponent(), Kind::Pawn));
        clear_first(g2, m.to as int, first, first + 5)
    } else {
        g2
    }
}

/// Whether making the pseudo-legal move `m` leaves the mover's king unattacked.
pub fn is_legal(game: &Game, cmove: &Move) -> (r: bool)
    requires
        cmove.from < 64,
        cmove.to < 64,
        cmove.piece != Piece::NoPiece,
        cmove.enpassant ==> 0 <= enpassant_victim(game.active_player, cmove.to as int) < 64,
    ensures
        r == !peek(*game, *cmove).in_check(game.active_player),
{
    let from_sq = cmove.from_square();
    let to_sq = cmove.to_square();
    let piece_ind = cmove.piece.index();
    let c = game.active_player;
    let mut copy = *game;
    copy.all_occupancies = set_bit(unset_bit(copy.all_occupancies, from_sq), to_sq);
    copy.boards[piece_ind] = set_bit(unset_bit(copy.boards[piece_ind], from_sq), to_sq);
    if cmove.is_enpassant() {
        let (qi, victim): (usize, u8) = match c {
            Color::White => (Piece::BlackPawn.index(), to_sq + 8),
            Color::Black => (Piece::WhitePawn.index(), to_sq - 8),
        };
        copy.boards[qi] = unset_bit(copy.boards[qi], victim);
        copy.all_occupancies = unset_bit(copy.all_occupancies, victim);
    } else if cmove.is_capture() {
        let first = piece_of(c.opponent(), Kind::Pawn).index();
        let mut bb: usize = first;
        let ghost g2 = copy;
        while bb < first + 5
            invariant_except_break
                copy == g2,
                clear_first(g2, to_sq as int, first as int, first + 5) == clear_first(
                    copy,
                    to_sq as int,
                    bb as int,
                    first + 5,
                ),
            invariant
                first == index_spec(piece_spec(c.opponent(), Kind::Pawn)),
                first <= bb <= first + 5,
                to_sq < 64,
            ensures
                copy == clear_first(g2, to_sq as int, first as int, first + 5),
            decreases first + 5 - bb,
        {
            if get_bit(copy.boards[bb], to_sq) {
                copy.boards[bb] = unset_bit(copy.boards[bb], to_sq);
                break;
            }
            bb = bb + 1;
        }
    }
    !copy.is_in_check(c)
}

/// The capturing moves of `s`, in their order.
pub open spec fn captures_of(s: Seq<Move>) -> Seq<Move> {
    s.filter(|m: Move| m.capture)
}

proof fn lemma_captures_all(s: Seq<Move>)
    requires
        forall|i: int| 0 <= i < s.len() ==> (#[trigger] s[i]).capture,
    ensures
        captures_of(s) == s,
    decreases s.len(),
{
    reveal(Seq::filter);
    if s.len() > 0 {
        lemma_captures_all(s.drop_last());
        assert(s.drop_last().push(s.last()) =~= s);
    }
}

proof fn lemma_captures_none(s: Seq<Move>)
    requires
        forall|i: int| 0 <= i < s.len() ==> !(#[trigger] s[i]).capture,
    ensures
        captures_of(s) == Seq::<Move>::empty(),
    decreases s.len(),
{
    reveal(Seq::filter);
    if s.len() > 0 {
        lemma_captures_none(s.drop_last());
    } else {
        assert(s.filter(|m: Move| m.capture) =~= Seq::<Move>::empty());
    }
}

proof fn lemma_captures_add(a: Seq<Move>, b: Seq<Move>)
    ensures
        captures_of(a + b) == captures_of(a) + captures_of(b),
{
    Seq::filter_distributes_over_add(a, b, |m: Move| m.capture);
}

proof fn lemma_target_moves_flag(from: int, piece: Piece, bits: u64, capture: bool, n: nat)
    ensures
        forall|i: int|
            0 <= i < target_moves(from, piece, bits, capture, n).len() ==> (#[trigger] target_moves(
                from,
                piece,
                bits,
                capture,
                n,
            )[i]).capture == capture,
    decreases n,
{
    if n > 0 {
        lemma_target_moves_flag(from, piece, bits, capture, (n - 1) as nat);
    }
}

proof fn lemma_pawn_captures_flag(g: Game, s: int, n: nat)
    ensures
        forall|i: int|
            0 <= i < pawn_captures(g, s, n).len() ==> (#[trigger] pawn_captures(g, s, n)[i]).capture,
    decreases n,
{
    if n > 0 {
        lemma_pawn_captures_flag(g, s, (n - 1) as nat);
    }
}

proof fn lemma_kind_moves_captures(g: Game, k: Kind, n: nat)
    ensures
        kind_moves(g, MoveTypes::Quiescence, k, n) == captures_of(kind_moves(g, MoveTypes::All, k, n)),
    decreases n,
{
    reveal(kind_moves);
    if n == 0 {
        lemma_captures_none(Seq::<Move>::empty());
    } else {
        let s = n - 1;
        lemma_kind_moves_captures(g, k, (n - 1) as nat);
        let all_part = if in_set(g.bb(piece_spec(g.active_player, k)), s) {
            if k == Kind::Pawn {
                pawn_moves(g, MoveTypes::All, s)
            } else {
                piece_moves(g, MoveTypes::All, k, s)
            }
        } else {
            Seq::empty()
        };
        lemma_captures_add(kind_moves(g, MoveTypes::All, k, (n - 1) as nat), all_part);
        if in_set(g.bb(piece_spec(g.active_player, k)), s) {
            if k == Kind::Pawn {
                let pushes = pawn_pushes(g, MoveTypes::All, s);
                let ep = pawn_enpassant(g, s);
                let caps = pawn_captures(g, s, 64);
                lemma_captures_add(pushes + ep, caps);
                lemma_captures_add(pushes, ep);
                lemma_captures_none(pushes);
                lemma_captures_all(ep);
                lemma_pawn_captures_flag(g, s, 64);
                lemma_captures_all(caps);
                assert(pawn_pushes(g, MoveTypes::Quiescence, s) == Seq::<Move>::empty());
                assert(pawn_moves(g, MoveTypes::Quiescence, s) =~= ep + caps);
            } else {
                let c = g.active_player;
                let att = attacks(reach_of(k), s, g.all_occupancies);
                let quiet = target_moves(s, piece_spec(c, k), att & !g.all_occupancies, false, 64);
                let caps = target_moves(s, piece_spec(c, k), att & g.occupancy(c.opponent()), true, 64);
                lemma_captures_add(quiet, caps);
                lemma_target_moves_flag(s, piece_spec(c, k), att & !g.all_occupancies, false, 64);
                lemma_target_moves_flag(s, piece_spec(c, k), att & g.occupancy(c.opponent()), true, 64);
                lemma_captures_none(quiet);
                lemma_captures_all(caps);
                assert(piece_moves(g, MoveTypes::Quiescence, k, s) =~= Seq::<Move>::empty() + caps);
            }
        } else {
            lemma_captures_none(Seq::<Move>::empty());
        }
        assert(kind_moves(g, MoveTypes::Quiescence, k, n) =~= captures_of(kind_moves(g, MoveTypes::All, k, n)));
    }
}

proof fn lemma_captures_add7(
    p: Seq<Move>,
    cs: Seq<Move>,
    n: Seq<Move>,
    b: Seq<Move>,
    r: Seq<Move>,
    qu: Seq<Move>,
    k: Seq<Move>,
)
    ensures
        captures_of(p + cs + n + b + r + qu + k) == captures_of(p) + captures_of(cs) + captures_of(n)
            + captures_of(b) + captures_of(r) + captures_of(qu) + captures_of(k),
{
    lemma_captures_add(p, cs);
    lemma_captures_add(p + cs, n);
    lemma_captures_add(p + cs + n, b);
    lemma_captures_add(p + cs + n + b, r);
    lemma_captures_add(p + cs + n + b + r, qu);
    lemma_captures_add(p + cs + n + b + r + qu, k);
}

proof fn lemma_castles_captures(g: Game)
    ensures
        captures_of(castles(g, MoveTypes::All)) == castles(g, MoveTypes::Quiescence),
{
    reveal(castles);
    let cs = castles(g, MoveTypes::All);
    assert forall|i: int| 0 <= i < cs.len() implies !(#[trigger] cs[i]).capture by {}
    lemma_captures_none(cs);
    assert(castles(g, MoveTypes::Quiescence) =~= Seq::<Move>::empty());
}

proof fn lemma_generated_captures(g: Game)
    ensures
        generated(g, MoveTypes::Quiescence) == captures_of(generated(g, MoveTypes::All)),
{
    let a = MoveTypes::All;
    let q = MoveTypes::Quiescence;
    let p = kind_moves(g, a, Kind::Pawn, 64);
    let cs = castles(g, a);
    let n = kind_moves(g, a, Kind::Knight, 64);
    let b = kind_moves(g, a, Kind::Bishop, 64);
    let r = kind_moves(g, a, Kind::Rook, 64);
    let qu = kind_moves(g, a, Kind::Queen, 64);
    let k = kind_moves(g, a, Kind::King, 64);
    lemma_kind_moves_captures(g, Kind::Pawn, 64);
    lemma_kind_moves_captures(g, Kind::Knight, 64);
    lemma_kind_moves_captures(g, Kind::Bishop, 64);
    lemma_kind_moves_captures(g, Kind::Rook, 64);
    lemma_kind_moves_captures(g, Kind::Queen, 64);
    lemma_kind_moves_captures(g, Kind::King, 64);
    lemma_castles_captures(g);
    lemma_captures_add7(p, cs, n, b, r, qu, k);
}

/// The captures-only list is exactly the capturing moves of the full list, in the same
/// order: it is never longer, and each of its moves is in the full list.
pub proof fn lemma_captures_only_within_all(g: Game)
    ensures
        generated(g, MoveTypes::Quiescence) == captures_of(generated(g, MoveTypes::All)),
        generated(g, MoveTypes::Quiescence).len() <= generated(g, MoveTypes::All).len(),
        forall|m: Move|
            #[trigger] generated(g, MoveTypes::Quiescence).contains(m) ==> generated(
                g,
                MoveTypes::All,
            ).contains(m),
{
    lemma_generated_captures(g);
    let all = generated(g, MoveTypes::All);
    all.lemma_filter_len(|m: Move| m.capture);
    assert forall|m: Move| #[trigger] generated(g, MoveTypes::Quiescence).contains(m) implies all.contains(m) by {
        all.lemma_filter_contains_rev(|m: Move| m.capture, m);
    }
}

/// The moves `is_legal` can test in `g`: squares on the board, a real piece, and for
/// an en-passant capture a taken pawn on the board.
pub open spec fn testable(g: Game, m: Move) -> bool {
    &&& m.from < 64
    &&& m.to < 64
    &&& m.piece != Piece::NoPiece
    &&& m.enpassant ==> 0 <= enpassant_victim(g.active_player, m.to as int) < 64
}

/// Whether `m` passes the legality test in `g`.
pub open spec fn legal_in(g: Game, m: Move) -> bool {
    !peek(g, m).in_check(g.active_player)
}

impl MoveList {
    /// The moves of the list that pass the legality test in `game`, in order.
    pub fn legal_values(&self, game: &Game) -> (r: Vec<Move>)
        requires
            forall|i: int| 0 <= i < self@.len() ==> testable(*game, #[trigger] self@[i]),
        ensures
            r@ == self@.filter(|m: Move| legal_in(*game, m)),
    {
        let mut out: Vec<Move> = Vec::new();
        let mut i: usize = 0;
        while i < self.moves.len()
            invariant
                i <= self@.len(),
                forall|j: int| 0 <= j < self@.len() ==> testable(*game, #[trigger] self@[j]),
                out@ == self@.take(i as int).filter(|m: Move| legal_in(*game, m)),
            decreases self@.len() - i,
        {
            let m = self.moves[i];
            proof {
                reveal(Seq::filter);
                assert(self@.take(i as int + 1).drop_last() == self@.take(i as int));
            }
            if is_legal(game, &m) {
                out.push(m);
            }
            i = i + 1;
        }
        proof {
            assert(self@.take(self@.len() as int) == self@);
        }
        out
    }
}

/// Piece `p` belongs to color `c`.
pub open spec fn piece_color_is(p: Piece, c: Color) -> bool {
    match c {
        Color::White => index_spec(p) < 6,
        Color::Black => 6 <= index_spec(p) < 12,
    }
}

/// The shape every generated move has in `g`: squares on the board; a piece of the
/// side to move, standing on the origin unless the move castles; an empty destination
/// for a move that does not capture; an opposing piece on the destination for a
/// capture other than en passant; and for en passant the position's en-passant square
/// as destination, with the taken pawn's square on the board.
pub open spec fn pseudo_legal_shape(g: Game, m: Move) -> bool {
    let c = g.active_player;
    &&& m.from < 64
    &&& m.to < 64
    &&& piece_color_is(m.piece, c)
    &&& !m.castling ==> in_set(g.bb(m.piece), m.from as int)
    &&& !m.capture ==> !in_set(g.all_occupancies, m.to as int)
    &&& m.capture && !m.enpassant ==> in_set(g.occupancy(c.opponent()), m.to as int)
    &&& m.enpassant ==> g.enpassant_square == Some(m.to) && 0 <= enpassant_victim(c, m.to as int)
        < 64
}

/// Every move of `s` has the generated shape in `g`.
pub open spec fn all_shaped(g: Game, s: Seq<Move>) -> bool {
    forall|i: int| 0 <= i < s.len() ==> pseudo_legal_shape(g, #[trigger] s[i])
}

proof fn lemma_shaped_add(g: Game, a: Seq<Move>, b: Seq<Move>)
    requires
        all_shaped(g, a),
        all_shaped(g, b),
    ensures
        all_shaped(g, a + b),
{
    assert forall|i: int| 0 <= i < (a + b).len() implies pseudo_legal_shape(g, #[trigger] (a + b)[i]) by {
        if i < a.len() {
            assert((a + b)[i] == a[i]);
        } else {
            assert((a + b)[i] == b[i - a.len()]);
        }
    }
}

proof fn lemma_kind_piece_color(c: Color, k: Kind)
    ensures
        piece_color_is(piece_spec(c, k), c),
        piece_spec(c, k) != Piece::NoPiece,
{
}

proof fn lemma_target_moves_shaped(
    g: Game,
    from: int,
    piece: Piece,
    bits: u64,
    capture: bool,
    n: nat,
)
    requires
        0 <= from < 64,
        n <= 64,
        piece_color_is(piece, g.active_player),
        in_set(g.bb(piece), from),
        forall|t: int|
            0 <= t < 64 && #[trigger] in_set(bits, t) ==> if capture {
                in_set(g.occupancy(g.active_player.opponent()), t)
            } else {
                !in_set(g.all_occupancies, t)
            },
    ensures
        all_shaped(g, target_moves(from, piece, bits, capture, n)),
    decreases n,
{
    if n > 0 {
        lemma_target_moves_shaped(g, from, piece, bits, capture, (n - 1) as nat);
        let last = if in_set(bits, n - 1) {
            seq![mk_move(from, n - 1, piece, Piece::NoPiece, capture, false, false, false)]
        } else {
            Seq::empty()
        };
        lemma_shaped_add(g, target_moves(from, piece, bits, capture, (n - 1) as nat), last);
    }
}

proof fn lemma_promotions_shaped(g: Game, from: int, to: int, capture: bool)
    requires
        0 <= from < 64,
        0 <= to < 64,
        in_set(g.bb(piece_spec(g.active_player, Kind::Pawn)), from),
        capture ==> in_set(g.occupancy(g.active_player.opponent()), to),
        !capture ==> !in_set(g.all_occupancies, to),
    ensures
        all_shaped(g, promotions(g.active_player, from, to, capture)),
{
    lemma_kind_piece_color(g.active_player, Kind::Pawn);
}

proof fn lemma_pawn_captures_shaped(g: Game, s: int, n: nat)
    requires
        0 <= s < 64,
        n <= 64,
        in_set(g.bb(piece_spec(g.active_player, Kind::Pawn)), s),
    ensures
        all_shaped(g, pawn_captures(g, s, n)),
    decreases n,
{
    if n > 0 {
        let c = g.active_player;
        let t = n - 1;
        lemma_pawn_captures_shaped(g, s, (n - 1) as nat);
        lemma_kind_piece_color(c, Kind::Pawn);
        lemma_and_not(attacks(pawn_reach(c), s, g.all_occupancies), g.occupancy(c.opponent()), t);
        let last = if in_set(pawn_capture_set(g, s), t) {
            if promotes(c, t) {
                lemma_promotions_shaped(g, s, t, true);
                promotions(c, s, t, true)
            } else {
                seq![mk_move(s, t, piece_spec(c, Kind::Pawn), Piece::NoPiece, true, false, false, false)]
            }
        } else {
            Seq::empty()
        };
        lemma_shaped_add(g, pawn_captures(g, s, (n - 1) as nat), last);
    }
}

proof fn lemma_pawn_moves_shaped(g: Game, mode: MoveTypes, s: int)
    requires
        0 <= s < 64,
        in_set(g.bb(piece_spec(g.active_player, Kind::Pawn)), s),
    ensures
        all_shaped(g, pawn_moves(g, mode, s)),
{
    let c = g.active_player;
    lemma_kind_piece_color(c, Kind::Pawn);
    let one = forward(c, s);
    if mode == MoveTypes::All && 0 <= one < 64 && !in_set(g.all_occupancies, one) {
        if promotes(c, one) {
            lemma_promotions_shaped(g, s, one, false);
        }
    }
    assert(all_shaped(g, pawn_pushes(g, mode, s)));
    match g.enpassant_square {
        Some(e) => {
            if e < 64 {
                lemma_attacks(pawn_reach(c), s, g.all_occupancies, e as int, 64);
            }
        },
        None => {},
    }
    assert(all_shaped(g, pawn_enpassant(g, s)));
    lemma_pawn_captures_shaped(g, s, 64);
    lemma_shaped_add(g, pawn_pushes(g, mode, s), pawn_enpassant(g, s));
    lemma_shaped_add(g, pawn_pushes(g, mode, s) + pawn_enpassant(g, s), pawn_captures(g, s, 64));
}

proof fn lemma_piece_moves_shaped(g: Game, mode: MoveTypes, k: Kind, s: int)
    requires
        0 <= s < 64,
        k != Kind::Pawn,
        in_set(g.bb(piece_spec(g.active_player, k)), s),
    ensures
        all_shaped(g, piece_moves(g, mode, k, s)),
{
    let c = g.active_player;
    let att = attacks(reach_of(k), s, g.all_occupancies);
    lemma_kind_piece_color(c, k);
    assert forall|t: int| 0 <= t < 64 && #[trigger] in_set(att & !g.all_occupancies, t) implies !in_set(
        g.all_occupancies,
        t,
    ) by {
        lemma_and_not(att, !g.all_occupancies, t);
        lemma_and_not(g.all_occupancies, att, t);
    }
    assert forall|t: int| 0 <= t < 64 && #[trigger] in_set(att & g.occupancy(c.opponent()), t) implies in_set(
        g.occupancy(c.opponent()),
        t,
    ) by {
        lemma_and_not(att, g.occupancy(c.opponent()), t);
    }
    lemma_target_moves_shaped(g, s, piece_spec(c, k), att & !g.all_occupancies, false, 64);
    lemma_target_moves_shaped(g, s, piece_spec(c, k), att & g.occupancy(c.opponent()), true, 64);
    let quiet = if mode == MoveTypes::All {
        target_moves(s, piece_spec(c, k), att & !g.all_occupancies, false, 64)
    } else {
        Seq::empty()
    };
    lemma_shaped_add(g, quiet, target_moves(s, piece_spec(c, k), att & g.occupancy(c.opponent()), true, 64));
}

proof fn lemma_kind_moves_shaped(g: Game, mode: MoveTypes, k: Kind, n: nat)
    requires
        n <= 64,
    ensures
        all_shaped(g, kind_moves(g, mode, k, n)),
    decreases n,
{
    reveal(kind_moves);
    if n > 0 {
        let s = n - 1;
        lemma_kind_moves_shaped(g, mode, k, (n - 1) as nat);
        let part = if in_set(g.bb(piece_spec(g.active_player, k)), s) {
            if k == Kind::Pawn {
                lemma_pawn_moves_shaped(g, mode, s);
                pawn_moves(g, mode, s)
            } else {
                lemma_piece_moves_shaped(g, mode, k, s);
                piece_moves(g, mode, k, s)
            }
        } else {
            Seq::empty()
        };
        lemma_shaped_add(g, kind_moves(g, mode, k, (n - 1) as nat), part);
    }
}

proof fn lemma_castle_shaped(
    g: Game,
    mode: MoveTypes,
    right: u8,
    path: u64,
    king_sq: int,
    pass: int,
    to: int,
)
    requires
        0 <= king_sq < 64,
        0 <= to < 64,
        in_set(path, to),
    ensures
        all_shaped(g, castle(g, mode, right, path, king_sq, pass, to)),
{
    lemma_kind_piece_color(g.active_player, Kind::King);
    if g.all_occupancies & path == 0 {
        lemma_disjoint(g.all_occupancies, path, to);
    }
}

proof fn lemma_castles_shaped(g: Game, mode: MoveTypes)
    ensures
        all_shaped(g, castles(g, mode)),
{
    reveal(castles);
    assert(in_set(0x6000_0000_0000_0000u64, 62)) by {
        assert((0x6000_0000_0000_0000u64 >> 62u64) & 1 == 1) by (bit_vector);
    }
    assert(in_set(0x0e00_0000_0000_0000u64, 58)) by {
        assert((0x0e00_0000_0000_0000u64 >> 58u64) & 1 == 1) by (bit_vector);
    }
    assert(in_set(0x60u64, 6)) by {
        assert((0x60u64 >> 6u64) & 1 == 1) by (bit_vector);
    }
    assert(in_set(0x0eu64, 2)) by {
        assert((0x0eu64 >> 2u64) & 1 == 1) by (bit_vector);
    }
    lemma_castle_shaped(g, mode, WHITE_KING_SIDE, 0x6000_0000_0000_0000, 60, 61, 62);
    lemma_castle_shaped(g, mode, WHITE_QUEEN_SIDE, 0x0e00_0000_0000_0000, 60, 59, 58);
    lemma_castle_shaped(g, mode, BLACK_KING_SIDE, 0x60, 4, 5, 6);
    lemma_castle_shaped(g, mode, BLACK_QUEEN_SIDE, 0x0e, 4, 3, 2);
    lemma_shaped_add(
        g,
        castle(g, mode, WHITE_KING_SIDE, 0x6000_0000_0000_0000, 60, 61, 62),
        castle(g, mode, WHITE_QUEEN_SIDE, 0x0e00_0000_0000_0000, 60, 59, 58),
    );
    lemma_shaped_add(g, castle(g, mode, BLACK_KING_SIDE, 0x60, 4, 5, 6), castle(g, mode, BLACK_QUEEN_SIDE, 0x0e, 4, 3, 2));
}

/// Every generated move has the pseudo-legal shape, and so can be handed to the
/// legality test.
pub proof fn lemma_generated_shaped(g: Game, mode: MoveTypes)
    ensures
        all_shaped(g, generated(g, mode)),
        forall|i: int|
            0 <= i < generated(g, mode).len() ==> testable(g, #[trigger] generated(g, mode)[i]),
{
    let p = kind_moves(g, mode, Kind::Pawn, 64);
    let cs = castles(g, mode);
    let n = kind_moves(g, mode, Kind::Knight, 64);
    let b = kind_moves(g, mode, Kind::Bishop, 64);
    let r = kind_moves(g, mode, Kind::Rook, 64);
    let q = kind_moves(g, mode, Kind::Queen, 64);
    let k = kind_moves(g, mode, Kind::King, 64);
    lemma_kind_moves_shaped(g, mode, Kind::Pawn, 64);
    lemma_castles_shaped(g, mode);
    lemma_kind_moves_shaped(g, mode, Kind::Knight, 64);
    lemma_kind_moves_shaped(g, mode, Kind::Bishop, 64);
    lemma_kind_moves_shaped(g, mode, Kind::Rook, 64);
    lemma_kind_moves_shaped(g, mode, Kind::Queen, 64);
    lemma_kind_moves_shaped(g, mode, Kind::King, 64);
    lemma_shaped_add(g, p, cs);
    lemma_shaped_add(g, p + cs, n);
    lemma_shaped_add(g, p + cs + n, b);
    lemma_shaped_add(g, p + cs + n + b, r);
    lemma_shaped_add(g, p + cs + n + b + r, q);
    lemma_shaped_add(g, p + cs + n + b + r + q, k);
}

proof fn lemma_clear_first(g: Game, sq: int, i: int, end: int, j: int, t: int)
    requires
        0 <= i,
        end <= 12,
        0 <= j < 12,
        0 <= sq < 64,
        0 <= t < 64,
        t != sq || j < i || j >= end,
    ensures
        in_set(clear_first(g, sq, i, end).boards@[j], t) == in_set(g.boards@[j], t),
        clear_first(g, sq, i, end).all_occupancies == g.all_occupancies,
        clear_first(g, sq, i, end).active_player == g.active_player,
    decreases end - i,
{
    if i < end {
        if in_set(g.boards@[i], sq) {
            if j == i {
                lemma_without_square(g.boards@[i], sq, t);
            }
        } else {
            lemma_clear_first(g, sq, i + 1, end, j, t);
        }
    }
}

/// A king may not step to a square that an opposing rook still reaches along a rank
/// or file once the king has left its square: such a move fails the legality test.
pub proof fn lemma_king_on_rook_line_is_illegal(g: Game, m: Move, r: int)
    requires
        testable(g, m),
        m.piece == piece_spec(g.active_player, Kind::King),
        !m.enpassant,
        0 <= r < 64,
        r != m.to,
        in_set(g.bb(piece_spec(g.active_player.opponent(), Kind::Rook)), r),
        reaches(Reach::Rook, m.to as int, r, peek(g, m).all_occupancies),
    ensures
        !legal_in(g, m),
{
    let c = g.active_player;
    let o = c.opponent();
    let to = m.to as int;
    let from = m.from as int;
    let ki = index_spec(piece_spec(c, Kind::King));
    let ri = index_spec(piece_spec(o, Kind::Rook));
    let qi = index_spec(piece_spec(o, Kind::Queen));
    let first = index_spec(piece_spec(o, Kind::Pawn));
    let g1 = set_board(g, ki, with_square(without_square(g.boards@[ki], from), to));
    let g2 = Game {
        all_occupancies: with_square(without_square(g.all_occupancies, from), to),
        ..g1
    };
    let p = peek(g, m);
    // the king stands on the destination
    lemma_with_square(without_square(g.boards@[ki], from), to, to);
    if m.capture {
        lemma_clear_first(g2, to, first, first + 5, ki, to);
        lemma_clear_first(g2, to, first, first + 5, ri, r);
    }
    assert(in_set(p.bb(piece_spec(c, Kind::King)), to));
    // the rook is still on its square
    assert(in_set(p.boards@[ri], r));
    let occ = p.all_occupancies;
    let att = attacks(Reach::Rook, to, occ);
    let rooks = p.bb(piece_spec(o, Kind::Rook)) | p.bb(piece_spec(o, Kind::Queen));
    lemma_attacks(Reach::Rook, to, occ, r, 64);
    lemma_or_nonempty(p.bb(piece_spec(o, Kind::Rook)), p.bb(piece_spec(o, Kind::Queen)), r);
    lemma_and_not(att, rooks, r);
    lemma_or_nonempty(att & rooks, 0, r);
    assert(p.square_attacked(to, o));
    assert(p.active_player == c);
    assert(in_set(p.bb(piece_spec(c, Kind::King)), to) && p.square_attacked(to, c.opponent()));
}

/// No move of `s` castles.
pub open spec fn none_castle(s: Seq<Move>) -> bool {
    forall|i: int| 0 <= i < s.len() ==> !(#[trigger] s[i]).castling
}

proof fn lemma_none_castle_add(a: Seq<Move>, b: Seq<Move>)
    requires
        none_castle(a),
        none_castle(b),
    ensures
        none_castle(a + b),
{
    assert forall|i: int| 0 <= i < (a + b).len() implies !(#[trigger] (a + b)[i]).castling by {
        if i < a.len() {
            assert((a + b)[i] == a[i]);
        } else {
            assert((a + b)[i] == b[i - a.len()]);
        }
    }
}

proof fn lemma_target_moves_none_castle(from: int, piece: Piece, bits: u64, capture: bool, n: nat)
    ensures
        none_castle(target_moves(from, piece, bits, capture, n)),
    decreases n,
{
    if n > 0 {
        lemma_target_moves_none_castle(from, piece, bits, capture, (n - 1) as nat);
        let last = if in_set(bits, n - 1) {
            seq![mk_move(from, n - 1, piece, Piece::NoPiece, capture, false, false, false)]
        } else {
            Seq::empty()
        };
        lemma_none_castle_add(target_moves(from, piece, bits, capture, (n - 1) as nat), last);
    }
}

proof fn lemma_pawn_captures_none_castle(g: Game, s: int, n: nat)
    ensures
        none_castle(pawn_captures(g, s, n)),
    decreases n,
{
    if n > 0 {
        let c = g.active_player;
        let t = n - 1;
        lemma_pawn_captures_none_castle(g, s, (n - 1) as nat);
        let last = if in_set(pawn_capture_set(g, s), t) {
            if promotes(c, t) {
                promotions(c, s, t, true)
            } else {
                seq![mk_move(s, t, piece_spec(c, Kind::Pawn), Piece::NoPiece, true, false, false, false)]
            }
        } else {
            Seq::empty()
        };
        lemma_none_castle_add(pawn_captures(g, s, (n - 1) as nat), last);
    }
}

proof fn lemma_kind_moves_none_castle(g: Game, mode: MoveTypes, k: Kind, n: nat)
    ensures
        none_castle(kind_moves(g, mode, k, n)),
    decreases n,
{
    reveal(kind_moves);
    if n > 0 {
        let s = n - 1;
        lemma_kind_moves_none_castle(g, mode, k, (n - 1) as nat);
        let part = if in_set(g.bb(piece_spec(g.active_player, k)), s) {
            if k == Kind::Pawn {
                lemma_pawn_captures_none_castle(g, s, 64);
                lemma_none_castle_add(pawn_pushes(g, mode, s), pawn_enpassant(g, s));
                lemma_none_castle_add(pawn_pushes(g, mode, s) + pawn_enpassant(g, s), pawn_captures(g, s, 64));
                pawn_moves(g, mode, s)
            } else {
                let c = g.active_player;
                let att = attacks(reach_of(k), s, g.all_occupancies);
                lemma_target_moves_none_castle(s, piece_spec(c, k), att & !g.all_occupancies, false, 64);
                lemma_target_moves_none_castle(s, piece_spec(c, k), att & g.occupancy(c.opponent()), true, 64);
                let quiet = if mode == MoveTypes::All {
                    target_moves(s, piece_spec(c, k), att & !g.all_occupancies, false, 64)
                } else {
                    Seq::empty()
                };
                lemma_none_castle_add(quiet, target_moves(s, piece_spec(c, k), att & g.occupancy(c.opponent()), true, 64));
                piece_moves(g, mode, k, s)
            }
        } else {
            Seq::empty()
        };
        lemma_none_castle_add(kind_moves(g, mode, k, (n - 1) as nat), part);
    }
}

proof fn lemma_contains_add(a: Seq<Move>, b: Seq<Move>, x: Move)
    ensures
        (a + b).contains(x) <==> (a.contains(x) || b.contains(x)),
{
    if (a + b).contains(x) {
        let i = choose|i: int| 0 <= i < (a + b).len() && (a + b)[i] == x;
        if i < a.len() {
            assert(a[i] == x);
        } else {
            assert(b[i - a.len()] == x);
        }
    }
    if a.contains(x) {
        let i = choose|i: int| 0 <= i < a.len() && a[i] == x;
        assert((a + b)[i] == x);
    }
    if b.contains(x) {
        let i = choose|i: int| 0 <= i < b.len() && b[i] == x;
        assert((a + b)[i + a.len()] == x);
    }
}

proof fn lemma_none_castle_excludes(a: Seq<Move>, x: Move)
    requires
        none_castle(a),
        x.castling,
    ensures
        !a.contains(x),
{
}

/// The conditions under which a castling move is generated: the right is held, the
/// path is empty, and neither the king's square nor the square it passes is attacked.
pub open spec fn castle_allowed(g: Game, right: u8, path: u64, king_sq: int, pass: int) -> bool {
    &&& g.castling_ability & right != 0
    &&& g.all_occupancies & path == 0
    &&& !g.square_attacked(king_sq, g.active_player.opponent())
    &&& !g.square_attacked(pass, g.active_player.opponent())
}

/// The castling move of the king of color `c` from `king_sq` to `to`.
pub open spec fn castling_move(c: Color, king_sq: int, to: int) -> Move {
    mk_move(king_sq, to, piece_spec(c, Kind::King), Piece::NoPiece, false, false, false, true)
}

proof fn lemma_castle_in_generated(g: Game, x: Move, other: Move)
    requires
        x.castling,
        x != other,
        g.active_player == Color::White ==> (x == castling_move(Color::White, 60, 62) && other
            == castling_move(Color::White, 60, 58)) || (x == castling_move(Color::White, 60, 58)
            && other == castling_move(Color::White, 60, 62)),
        g.active_player == Color::Black ==> (x == castling_move(Color::Black, 4, 6) && other
            == castling_move(Color::Black, 4, 2)) || (x == castling_move(Color::Black, 4, 2)
            && other == castling_move(Color::Black, 4, 6)),
    ensures
        generated(g, MoveTypes::All).contains(x) <==> castles(g, MoveTypes::All).contains(x),
{
    let a = MoveTypes::All;
    let p = kind_moves(g, a, Kind::Pawn, 64);
    let cs = castles(g, a);
    let n = kind_moves(g, a, Kind::Knight, 64);
    let b = kind_moves(g, a, Kind::Bishop, 64);
    let r = kind_moves(g, a, Kind::Rook, 64);
    let q = kind_moves(g, a, Kind::Queen, 64);
    let k = kind_moves(g, a, Kind::King, 64);
    lemma_kind_moves_none_castle(g, a, Kind::Pawn, 64);
    lemma_kind_moves_none_castle(g, a, Kind::Knight, 64);
    lemma_kind_moves_none_castle(g, a, Kind::Bishop, 64);
    lemma_kind_moves_none_castle(g, a, Kind::Rook, 64);
    lemma_kind_moves_none_castle(g, a, Kind::Queen, 64);
    lemma_kind_moves_none_castle(g, a, Kind::King, 64);
    lemma_contains_add(p, cs, x);
    lemma_contains_add(p + cs, n, x);
    lemma_contains_add(p + cs + n, b, x);
    lemma_contains_add(p + cs + n + b, r, x);
    lemma_contains_add(p + cs + n + b + r, q, x);
    lemma_contains_add(p + cs + n + b + r + q, k, x);
}

/// Castling is generated exactly when `castle_allowed` holds for its side: removing
/// the right, occupying a path square, or attacking the king's square or the square
/// it passes each suppresses it, and the safety of the destination is not consulted
/// (that is left to the legality test).
pub proof fn lemma_castling_generated_iff(g: Game)
    ensures
        g.active_player == Color::White ==> (generated(g, MoveTypes::All).contains(
            castling_move(Color::White, 60, 62),
        ) <==> castle_allowed(g, WHITE_KING_SIDE, 0x6000_0000_0000_0000, 60, 61)),
        g.active_player == Color::White ==> (generated(g, MoveTypes::All).contains(
            castling_move(Color::White, 60, 58),
        ) <==> castle_allowed(g, WHITE_QUEEN_SIDE, 0x0e00_0000_0000_0000, 60, 59)),
        g.active_player == Color::Black ==> (generated(g, MoveTypes::All).contains(
            castling_move(Color::Black, 4, 6),
        ) <==> castle_allowed(g, BLACK_KING_SIDE, 0x60, 4, 5)),
        g.active_player == Color::Black ==> (generated(g, MoveTypes::All).contains(
            castling_move(Color::Black, 4, 2),
        ) <==> castle_allowed(g, BLACK_QUEEN_SIDE, 0x0e, 4, 3)),
{
    reveal(castles);
    let a = MoveTypes::All;
    if g.active_player == Color::White {
        let ks = castling_move(Color::White, 60, 62);
        let qs = castling_move(Color::White, 60, 58);
        lemma_castle_in_generated(g, ks, qs);
        lemma_castle_in_generated(g, qs, ks);
        let c1 = castle(g, a, WHITE_KING_SIDE, 0x6000_0000_0000_0000, 60, 61, 62);
        let c2 = castle(g, a, WHITE_QUEEN_SIDE, 0x0e00_0000_0000_0000, 60, 59, 58);
        lemma_contains_add(c1, c2, ks);
        lemma_contains_add(c1, c2, qs);
        if castle_allowed(g, WHITE_KING_SIDE, 0x6000_0000_0000_0000, 60, 61) {
            assert(c1[0] == ks);
        }
        if castle_allowed(g, WHITE_QUEEN_SIDE, 0x0e00_0000_0000_0000, 60, 59) {
            assert(c2[0] == qs);
        }
    } else {
        let ks = castling_move(Color::Black, 4, 6);
        let qs = castling_move(Color::Black, 4, 2);
        lemma_castle_in_generated(g, ks, qs);
        lemma_castle_in_generated(g, qs, ks);
        let c1 = castle(g, a, BLACK_KING_SIDE, 0x60, 4, 5, 6);
        let c2 = castle(g, a, BLACK_QUEEN_SIDE, 0x0e, 4, 3, 2);
        lemma_contains_add(c1, c2, ks);
        lemma_contains_add(c1, c2, qs);
        if castle_allowed(g, BLACK_KING_SIDE, 0x60, 4, 5) {
            assert(c1[0] == ks);
        }
        if castle_allowed(g, BLACK_QUEEN_SIDE, 0x0e, 4, 3) {
            assert(c2[0] == qs);
        }
    }
}

} // verus!
