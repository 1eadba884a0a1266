//! Positions: one bitboard per piece, the occupancy of each side and of the board,
//! the side to move, castling rights and the en-passant target square.
use vstd::prelude::*;
use vstd::string::*;
use crate::bitboard::{in_set, get_bit, set_bit};
use crate::attacks::{Reach, attacks, pawn_reach, attack_table};
use crate::types::{Color, Kind, Piece, piece_spec, piece_of, index_spec};

verus! {

/// Castling right: white, king side.
pub const WHITE_KING_SIDE: u8 = 1;

/// Castling right: white, queen side.
pub const WHITE_QUEEN_SIDE: u8 = 2;

/// Castling right: black, king side.
pub const BLACK_KING_SIDE: u8 = 4;

/// Castling right: black, queen side.
pub const BLACK_QUEEN_SIDE: u8 = 8;

/// A position.
#[derive(Clone, Copy, Debug)]
pub struct Game {
    /// One bitboard per piece, indexed as `index_spec` says.
    pub boards: [u64; 12],
    pub white_occupancies: u64,
    pub black_occupancies: u64,
    pub all_occupancies: u64,
    pub active_player: Color,
    /// A mask of the castling rights still held.
    pub castling_ability: u8,
    pub enpassant_square: Option<u8>,
    pub halfmove_clock: u32,
    pub fullmove_number: u32,
}

/// Why a position description was refused.
#[derive(Clone, Copy, Debug, PartialEq, Eq, Structural)]
pub enum FenError {
    /// The piece placement field is malformed.
    Placement,
    /// The side to move is neither `w` nor `b`.
    ActiveColor,
    /// The castling field is malformed.
    Castling,
    /// The en-passant field is malformed.
    EnPassant,
    /// A move counter is malformed.
    Counter,
}

impl Game {
    /// The bitboard of piece `p`.
    pub open spec fn bb(self, p: Piece) -> u64 {
        self.boards@[index_spec(p)]
    }

    /// The squares held by color `c`.
    pub open spec fn occupancy(self, c: Color) -> u64 {
        match c {
            Color::White => self.white_occupancies,
            Color::Black => self.black_occupancies,
        }
    }

    /// The bitboards of distinct pieces are disjoint; each side's occupancy is the
    /// union of its six bitboards and the board's occupancy is the union of both;
    /// the en-passant square, if any, is a square.
    pub open spec fn wf(self) -> bool {
        &&& forall|i: int, j: int|
            0 <= i < j < 12 ==> #[trigger] self.boards@[i] & #[trigger] self.boards@[j] == 0
        &&& self.white_occupancies == self.boards@[0] | self.boards@[1] | self.boards@[2]
            | self.boards@[3] | self.boards@[4] | self.boards@[5]
        &&& self.black_occupancies == self.boards@[6] | self.boards@[7] | self.boards@[8]
            | self.boards@[9] | self.boards@[10] | self.boards@[11]
        &&& self.all_occupancies == self.white_occupancies | self.black_occupancies
        &&& match self.enpassant_square {
            Some(e) => e < 64,
            None => true,
        }
    }

    /// Whether square `sq` is attacked by a piece of color `by`.
    pub open spec fn square_attacked(self, sq: int, by: Color) -> bool {
        let occ = self.all_occupancies;
        ||| attacks(pawn_reach(by.opponent()), sq, occ) & self.bb(piece_spec(by, Kind::Pawn)) != 0
        ||| attacks(Reach::Knight, sq, occ) & self.bb(piece_spec(by, Kind::Knight)) != 0
        ||| attacks(Reach::Bishop, sq, occ) & (self.bb(piece_spec(by, Kind::Bishop)) | self.bb(
            piece_spec(by, Kind::Queen),
        )) != 0
        ||| attacks(Reach::Rook, sq, occ) & (self.bb(piece_spec(by, Kind::Rook)) | self.bb(
            piece_spec(by, Kind::Queen),
        )) != 0
        ||| attacks(Reach::King, sq, occ) & self.bb(piece_spec(by, Kind::King)) != 0
    }

    /// Whether a king of color `c` stands on an attacked square.
    pub open spec fn in_check(self, c: Color) -> bool {
        exists|k: int|
            0 <= k < 64 && #[trigger] in_set(self.bb(piece_spec(c, Kind::King)), k)
                && self.square_attacked(k, c.opponent())
    }

    /// The bitboard of piece `p`.
    pub fn get_piece_bitboard(&self, p: Piece) -> (r: u64)
        requires
            p != Piece::NoPiece,
        ensures
            r == self.bb(p),
    {
        self.boards[p.index()]
    }

    /// The squares held by color `c`.
    pub fn occupancy_of(&self, c: Color) -> (r: u64)
        ensures
            r == self.occupancy(c),
    {
        match c {
            Color::White => self.white_occupancies,
            Color::Black => self.black_occupancies,
        }
    }

    /// Whether square `sq` is attacked by a piece of color `by`.
    pub fn is_square_attacked(&self, sq: u8, by: Color) -> (r: bool)
        requires
            sq < 64,
        ensures
            r == self.square_attacked(sq as int, by),
    {
        let occ = self.all_occupancies;
        let queens = self.get_piece_bitboard(piece_of(by, Kind::Queen));
        attack_table(
            match by {
                Color::White => Reach::BlackPawn,
                Color::Black => Reach::WhitePawn,
            },
            sq,
            occ,
        ) & self.get_piece_bitboard(piece_of(by, Kind::Pawn)) != 0 || attack_table(
            Reach::Knight,
            sq,
            occ,
        ) & self.get_piece_bitboard(piece_of(by, Kind::Knight)) != 0 || attack_table(
            Reach::Bishop,
            sq,
            occ,
        ) & (self.get_piece_bitboard(piece_of(by, Kind::Bishop)) | queens) != 0 || attack_table(
            Reach::Rook,
            sq,
            occ,
        ) & (self.get_piece_bitboard(piece_of(by, Kind::Rook)) | queens) != 0 || attack_table(
            Reach::King,
            sq,
            occ,
        ) & self.get_piece_bitboard(piece_of(by, Kind::King)) != 0
    }

    /// Whether a king of color `c` stands on a square attacked by the other side.
    pub fn is_in_check(&self, c: Color) -> (r: bool)
        ensures
            r == self.in_check(c),
    {
        let kings = self.get_piece_bitboard(piece_of(c, Kind::King));
        let mut k: u8 = 0;
        while k < 64
            invariant
                k <= 64,
                kings == self.bb(piece_spec(c, Kind::King)),
                forall|j: int|
                    0 <= j < k ==> !(#[trigger] in_set(kings, j) && self.square_attacked(
                        j,
                        c.opponent(),
                    )),
            decreases 64 - k,
        {
            if get_bit(kings, k) && self.is_square_attacked(k, c.opponent()) {
                return true;
            }
            k = k + 1;
        }
        false
    }
}

/// The piece a position description writes as `ch`.
pub open spec fn piece_for_char(ch: char) -> Option<Piece> {
    if ch == 'P' {
        Some(Piece::WhitePawn)
    } else if ch == 'N' {
        Some(Piece::WhiteKnight)
    } else if ch == 'B' {
        Some(Piece::WhiteBishop)
    } else if ch == 'R' {
        Some(Piece::WhiteRook)
    } else if ch == 'Q' {
        Some(Piece::WhiteQueen)
    } else if ch == 'K' {
        Some(Piece::WhiteKing)
    } else if ch == 'p' {
        Some(Piece::BlackPawn)
    } else if ch == 'n' {
        Some(Piece::BlackKnight)
    } else if ch == 'b' {
        Some(Piece::BlackBishop)
    } else if ch == 'r' {
        Some(Piece::BlackRook)
    } else if ch == 'q' {
        Some(Piece::BlackQueen)
    } else if ch == 'k' {
        Some(Piece::BlackKing)
    } else {
        None
    }
}

/// The piece a position description writes as `ch`.
#[verifier::when_used_as_spec(piece_for_char)]
pub fn piece_from_char(ch: char) -> (r: Option<Piece>)
    ensures
        r == piece_for_char(ch),
{
    if ch == 'P' {
        Some(Piece::WhitePawn)
    } else if ch == 'N' {
        Some(Piece::WhiteKnight)
    } else if ch == 'B' {
        Some(Piece::WhiteBishop)
    } else if ch == 'R' {
        Some(Piece::WhiteRook)
    } else if ch == 'Q' {
        Some(Piece::WhiteQueen)
    } else if ch == 'K' {
        Some(Piece::WhiteKing)
    } else if ch == 'p' {
        Some(Piece::BlackPawn)
    } else if ch == 'n' {
        Some(Piece::BlackKnight)
    } else if ch == 'b' {
        Some(Piece::BlackBishop)
    } else if ch == 'r' {
        Some(Piece::BlackRook)
    } else if ch == 'q' {
        Some(Piece::BlackQueen)
    } else if ch == 'k' {
        Some(Piece::BlackKing)
    } else {
        None
    }
}

/// Whether the twelve bitboards are pairwise disjoint.
fn boards_disjoint(b: &[u64; 12]) -> (r: bool)
    ensures
        r == (forall|i: int, j: int| 0 <= i < j < 12 ==> #[trigger] b@[i] & #[trigger] b@[j] == 0),
{
    let mut i: usize = 0;
    while i < 12
        invariant
            i <= 12,
            forall|x: int, y: int| 0 <= x < y < 12 && x < i ==> #[trigger] b@[x] & #[trigger] b@[y] == 0,
        decreases 12 - i,
    {
        let mut j: usize = i + 1;
        while j < 12
            invariant
                i < 12,
                i + 1 <= j <= 12,
                forall|x: int, y: int| 0 <= x < y < 12 && x < i ==> #[trigger] b@[x] & #[trigger] b@[y] == 0,
                forall|y: int| i < y < j ==> b@[i as int] & #[trigger] b@[y] == 0,
            decreases 12 - j,
        {
            if b[i] & b[j] != 0 {
                return false;
            }
            j = j + 1;
        }
        i = i + 1;
    }
    true
}

/// Skips one space at `i`, if there is one.
fn skip_space(fen: &str, i: usize) -> (r: usize)
    requires
        i <= fen@.len(),
    ensures
        i <= r <= fen@.len(),
{
    if i < fen.unicode_len() && fen.get_char(i) == ' ' {
        i + 1
    } else {
        i
    }
}

/// Reads a decimal counter at `i`; `None` when no digit stands there or it exceeds
/// `u32::MAX`.
fn read_counter(fen: &str, i: usize) -> (r: (Option<u32>, usize))
    requires
        i <= fen@.len(),
    ensures
        i <= r.1 <= fen@.len(),
{
    let n = fen.unicode_len();
    let mut j = i;
    let mut value: u64 = 0;
    while j < n && '0' <= fen.get_char(j) && fen.get_char(j) <= '9'
        invariant
            n == fen@.len(),
            i <= j <= n,
            value <= u32::MAX,
        decreases n - j,
    {
        let d = (fen.get_char(j) as u32 - '0' as u32) as u64;
        if value * 10 + d > u32::MAX as u64 {
            return (None, j);
        }
        value = value * 10 + d;
        j = j + 1;
    }
    if j == i {
        (None, j)
    } else {
        (Some(value as u32), j)
    }
}

impl Game {
    /// The standard starting position, white to move with all castling rights.
    pub fn new_from_start_pos() -> (g: Game)
        ensures
            g.boards@ == seq![
                0x00ff_0000_0000_0000u64, 0x4200_0000_0000_0000u64, 0x2400_0000_0000_0000u64,
                0x8100_0000_0000_0000u64, 0x0800_0000_0000_0000u64, 0x1000_0000_0000_0000u64,
                0xff00u64, 0x42u64, 0x24u64, 0x81u64, 0x08u64, 0x10u64,
            ],
            g.white_occupancies == 0xffff_0000_0000_0000u64,
            g.black_occupancies == 0xffffu64,
            g.all_occupancies == 0xffff_0000_0000_ffffu64,
            g.active_player == Color::White,
            g.castling_ability == 15,
            g.enpassant_square.is_none(),
            g.wf(),
    {
        let boards: [u64; 12] = [
            0x00ff_0000_0000_0000,
            0x4200_0000_0000_0000,
            0x2400_0000_0000_0000,
            0x8100_0000_0000_0000,
            0x0800_0000_0000_0000,
            0x1000_0000_0000_0000,
            0xff00,
            0x42,
            0x24,
            0x81,
            0x08,
            0x10,
        ];
        assert(boards@ =~= seq![
            0x00ff_0000_0000_0000u64, 0x4200_0000_0000_0000u64, 0x2400_0000_0000_0000u64,
            0x8100_0000_0000_0000u64, 0x0800_0000_0000_0000u64, 0x1000_0000_0000_0000u64,
            0xff00u64, 0x42u64, 0x24u64, 0x81u64, 0x08u64, 0x10u64,
        ]);
        proof {
            let b = boards@;
            assert(0x00ff_0000_0000_0000u64 & 0x4200_0000_0000_0000u64 == 0 &&
                0x00ff_0000_0000_0000u64 & 0x2400_0000_0000_0000u64 == 0 &&
                0x00ff_0000_0000_0000u64 & 0x8100_0000_0000_0000u64 == 0 &&
                0x00ff_0000_0000_0000u64 & 0x0800_0000_0000_0000u64 == 0 &&
                0x00ff_0000_0000_0000u64 & 0x1000_0000_0000_0000u64 == 0 &&
                0x00ff_0000_0000_0000u64 & 0xff00u64 == 0 &&
                0x00ff_0000_0000_0000u64 & 0x42u64 == 0 &&
                0x00ff_0000_0000_0000u64 & 0x24u64 == 0 &&
                0x00ff_0000_0000_0000u64 & 0x81u64 == 0 &&
                0x00ff_0000_0000_0000u64 & 0x08u64 == 0 &&
                0x00ff_0000_0000_0000u64 & 0x10u64 == 0 &&
                0x4200_0000_0000_0000u64 & 0x2400_0000_0000_0000u64 == 0 &&
                0x4200_0000_0000_0000u64 & 0x8100_0000_0000_0000u64 == 0 &&
                0x4200_0000_0000_0000u64 & 0x0800_0000_0000_0000u64 == 0 &&
                0x4200_0000_0000_0000u64 & 0x1000_0000_0000_0000u64 == 0 &&
                0x4200_0000_0000_0000u64 & 0xff00u64 == 0 &&
                0x4200_0000_0000_0000u64 & 0x42u64 == 0 &&
                0x4200_0000_0000_0000u64 & 0x24u64 == 0 &&
                0x4200_0000_0000_0000u64 & 0x81u64 == 0 &&
                0x4200_0000_0000_0000u64 & 0x08u64 == 0 &&
                0x4200_0000_0000_0000u64 & 0x10u64 == 0 &&
                0x2400_0000_0000_0000u64 & 0x8100_0000_0000_0000u64 == 0 &&
                0x2400_0000_0000_0000u64 & 0x0800_0000_0000_0000u64 == 0 &&
                0x2400_0000_0000_0000u64 & 0x1000_0000_0000_0000u64 == 0 &&
                0x2400_0000_0000_0000u64 & 0xff00u64 == 0 &&
                0x2400_0000_0000_0000u64 & 0x42u64 == 0 &&
                0x2400_0000_0000_0000u64 & 0x24u64 == 0 &&
                0x2400_0000_0000_0000u64 & 0x81u64 == 0 &&
                0x2400_0000_0000_0000u64 & 0x08u64 == 0 &&
                0x2400_0000_0000_0000u64 & 0x10u64 == 0 &&
                0x8100_0000_0000_0000u64 & 0x0800_0000_0000_0000u64 == 0 &&
                0x8100_0000_0000_0000u64 & 0x1000_0000_0000_0000u64 == 0 &&
                0x8100_0000_0000_0000u64 & 0xff00u64 == 0 &&
                0x8100_0000_0000_0000u64 & 0x42u64 == 0 &&
                0x8100_0000_0000_0000u64 & 0x24u64 == 0 &&
                0x8100_0000_0000_0000u64 & 0x81u64 == 0 &&
                0x8100_0000_0000_0000u64 & 0x08u64 == 0 &&
                0x8100_0000_0000_0000u64 & 0x10u64 == 0 &&
                0x0800_0000_0000_0000u64 & 0x1000_0000_0000_0000u64 == 0 &&
                0x0800_0000_0000_0000u64 & 0xff00u64 == 0 &&
                0x0800_0000_0000_0000u64 & 0x42u64 == 0 &&
                0x0800_0000_0000_0000u64 & 0x24u64 == 0 &&
                0x0800_0000_0000_0000u64 & 0x81u64 == 0 &&
                0x0800_0000_0000_0000u64 & 0x08u64 == 0 &&
                0x0800_0000_0000_0000u64 & 0x10u64 == 0 &&
                0x1000_0000_0000_0000u64 & 0xff00u64 == 0 &&
                0x1000_0000_0000_0000u64 & 0x42u64 == 0 &&
                0x1000_0000_0000_0000u64 & 0x24u64 == 0 &&
                0x1000_0000_0000_0000u64 & 0x81u64 == 0 &&
                0x1000_0000_0000_0000u64 & 0x08u64 == 0 &&
                0x1000_0000_0000_0000u64 & 0x10u64 == 0 &&
                0xff00u64 & 0x42u64 == 0 &&
                0xff00u64 & 0x24u64 == 0 &&
                0xff00u64 & 0x81u64 == 0 &&
                0xff00u64 & 0x08u64 == 0 &&
                0xff00u64 & 0x10u64 == 0 &&
                0x42u64 & 0x24u64 == 0 &&
                0x42u64 & 0x81u64 == 0 &&
                0x42u64 & 0x08u64 == 0 &&
                0x42u64 & 0x10u64 == 0 &&
                0x24u64 & 0x81u64 == 0 &&
                0x24u64 & 0x08u64 == 0 &&
                0x24u64 & 0x10u64 == 0 &&
                0x81u64 & 0x08u64 == 0 &&
                0x81u64 & 0x10u64 == 0 &&
                0x08u64 & 0x10u64 == 0) by (bit_vector);
            assert(0x00ff_0000_0000_0000u64 | 0x4200_0000_0000_0000u64 | 0x2400_0000_0000_0000u64
                | 0x8100_0000_0000_0000u64 | 0x0800_0000_0000_0000u64 | 0x1000_0000_0000_0000u64
                == 0xffff_0000_0000_0000u64 && 0xff00u64 | 0x42u64 | 0x24u64 | 0x81u64 | 0x08u64
                | 0x10u64 == 0xffffu64 && 0xffff_0000_0000_0000u64 | 0xffffu64
                == 0xffff_0000_0000_ffffu64) by (bit_vector);
            assert forall|i: int, j: int| 0 <= i < j < 12 implies #[trigger] b[i] & #[trigger] b[j]
                == 0 by {
                assert(i == 0 || i == 1 || i == 2 || i == 3 || i == 4 || i == 5 || i == 6 || i == 7 || i == 8 || i == 9 || i == 10 || i == 11);
                assert(j == 0 || j == 1 || j == 2 || j == 3 || j == 4 || j == 5 || j == 6 || j == 7 || j == 8 || j == 9 || j == 10 || j == 11);
            }
        }
        Game {
            boards,
            white_occupancies: 0xffff_0000_0000_0000,
            black_occupancies: 0xffff,
            all_occupancies: 0xffff_0000_0000_ffff,
            active_player: Color::White,
            castling_ability: 15,
            enpassant_square: None,
            halfmove_clock: 0,
            fullmove_number: 1,
        }
    }

    /// Reads a position description: piece placement by rows from the eighth rank,
    /// side to move, castling rights, en-passant square, then optionally the halfmove
    /// clock and the fullmove number. A position it returns is well formed.
    pub fn new_from_fen(fen: &str) -> (r: Result<Game, FenError>)
        ensures
            r matches Ok(g) ==> g.wf(),
    {
        let n = fen.unicode_len();
        let mut boards: [u64; 12] = [0; 12];
        let mut row: u8 = 0;
        let mut file: u8 = 0;
        let mut i: usize = 0;
        while i < n && fen.get_char(i) != ' '
            invariant
                n == fen@.len(),
                i <= n,
                row <= 7,
                file <= 8,
            decreases n - i,
        {
            let ch = fen.get_char(i);
            if ch == '/' {
                if file != 8 || row == 7 {
                    return Err(FenError::Placement);
                }
                row = row + 1;
                file = 0;
            } else if '1' <= ch && ch <= '8' {
                let d = (ch as u32 - '0' as u32) as u8;
                if file + d > 8 {
                    return Err(FenError::Placement);
                }
                file = file + d;
            } else {
                match piece_from_char(ch) {
                    Some(p) => {
                        if file >= 8 {
                            return Err(FenError::Placement);
                        }
                        let k = p.index();
                        boards[k] = set_bit(boards[k], row * 8 + file);
                        file = file + 1;
                    },
                    None => {
                        return Err(FenError::Placement);
                    },
                }
            }
            i = i + 1;
        }
        if row != 7 || file != 8 {
            return Err(FenError::Placement);
        }
        i = skip_space(fen, i);
        let active_player = if i < n && fen.get_char(i) == 'w' {
            Color::White
        } else if i < n && fen.get_char(i) == 'b' {
            Color::Black
        } else {
            return Err(FenError::ActiveColor);
        };
        i = skip_space(fen, i + 1);
        let mut castling_ability: u8 = 0;
        if i < n && fen.get_char(i) == '-' {
            i = i + 1;
        } else {
            while i < n && fen.get_char(i) != ' '
                invariant
                    n == fen@.len(),
                    i <= n,
                decreases n - i,
            {
                let ch = fen.get_char(i);
                let right: u8 = if ch == 'K' {
                    WHITE_KING_SIDE
                } else if ch == 'Q' {
                    WHITE_QUEEN_SIDE
                } else if ch == 'k' {
                    BLACK_KING_SIDE
                } else if ch == 'q' {
                    BLACK_QUEEN_SIDE
                } else {
                    return Err(FenError::Castling);
                };
                castling_ability = castling_ability | right;
                i = i + 1;
            }
        }
        i = skip_space(fen, i);
        let mut enpassant_square: Option<u8> = None;
        if i < n && fen.get_char(i) == '-' {
            i = i + 1;
        } else if i < n && i + 1 < n && 'a' <= fen.get_char(i) && fen.get_char(i) <= 'h' && '1' <= fen.get_char(
            i + 1,
        ) && fen.get_char(i + 1) <= '8' {
            let f = (fen.get_char(i) as u32 - 'a' as u32) as u8;
            let rank = (fen.get_char(i + 1) as u32 - '0' as u32) as u8;
            enpassant_square = Some((8 - rank) * 8 + f);
            i = i + 2;
        } else {
            return Err(FenError::EnPassant);
        }
        i = skip_space(fen, i);
        let mut halfmove_clock: u32 = 0;
        let mut fullmove_number: u32 = 1;
        if i < n {
            let (h, j) = read_counter(fen, i);
            match h {
                Some(v) => halfmove_clock = v,
                None => return Err(FenError::Counter),
            }
            i = skip_space(fen, j);
            if i < n {
                let (f, _k) = read_counter(fen, i);
                match f {
                    Some(v) => fullmove_number = v,
                    None => return Err(FenError::Counter),
                }
            }
        }
        if !boards_disjoint(&boards) {
            return Err(FenError::Placement);
        }
        let white_occupancies = boards[0] | boards[1] | boards[2] | boards[3] | boards[4]
            | boards[5];
        let black_occupancies = boards[6] | boards[7] | boards[8] | boards[9] | boards[10]
            | boards[11];
        Ok(
            Game {
                boards,
                white_occupancies,
                black_occupancies,
                all_occupancies: white_occupancies | black_occupancies,
                active_player,
                castling_ability,
                enpassant_square,
                halfmove_clock,
                fullmove_number,
            },
        )
    }
}

} // verus!
