//! Colors, pieces, moves and move lists.
use vstd::prelude::*;

verus! {

/// The two sides.
#[derive(Clone, Copy, Debug, PartialEq, Eq, Structural)]
pub enum Color {
    White,
    Black,
}

impl Color {
    pub open spec fn opponent_spec(self) -> Color {
        match self {
            Color::White => Color::Black,
            Color::Black => Color::White,
        }
    }

    /// The other side.
    #[verifier::when_used_as_spec(opponent_spec)]
    pub fn opponent(self) -> (r: Color)
        ensures
            r == self.opponent_spec(),
    {
        match self {
            Color::White => Color::Black,
            Color::Black => Color::White,
        }
    }
}

/// The kind of a piece, regardless of its color.
#[derive(Clone, Copy, Debug, PartialEq, Eq, Structural)]
pub enum Kind {
    Pawn,
    Knight,
    Bishop,
    Rook,
    Queen,
    King,
}

/// A colored piece, or `NoPiece` (the promotion field of a move that promotes nothing).
#[derive(Clone, Copy, Debug, PartialEq, Eq, Structural)]
pub enum Piece {
    WhitePawn,
    WhiteKnight,
    WhiteBishop,
    WhiteRook,
    WhiteQueen,
    WhiteKing,
    BlackPawn,
    BlackKnight,
    BlackBishop,
    BlackRook,
    BlackQueen,
    BlackKing,
    NoPiece,
}

/// The piece of color `c` and kind `k`.
pub open spec fn piece_spec(c: Color, k: Kind) -> Piece {
    match c {
        Color::White => match k {
            Kind::Pawn => Piece::WhitePawn,
            Kind::Knight => Piece::WhiteKnight,
            Kind::Bishop => Piece::WhiteBishop,
            Kind::Rook => Piece::WhiteRook,
            Kind::Queen => Piece::WhiteQueen,
            Kind::King => Piece::WhiteKing,
        },
        Color::Black => match k {
            Kind::Pawn => Piece::BlackPawn,
            Kind::Knight => Piece::BlackKnight,
            Kind::Bishop => Piece::BlackBishop,
            Kind::Rook => Piece::BlackRook,
            Kind::Queen => Piece::BlackQueen,
            Kind::King => Piece::BlackKing,
        },
    }
}

/// The piece of color `c` and kind `k`.
#[verifier::when_used_as_spec(piece_spec)]
pub fn piece_of(c: Color, k: Kind) -> (r: Piece)
    ensures
        r == piece_spec(c, k),
{
    match c {
        Color::White => match k {
            Kind::Pawn => Piece::WhitePawn,
            Kind::Knight => Piece::WhiteKnight,
            Kind::Bishop => Piece::WhiteBishop,
            Kind::Rook => Piece::WhiteRook,
            Kind::Queen => Piece::WhiteQueen,
            Kind::King => Piece::WhiteKing,
        },
        Color::Black => match k {
            Kind::Pawn => Piece::BlackPawn,
            Kind::Knight => Piece::BlackKnight,
            Kind::Bishop => Piece::BlackBishop,
            Kind::Rook => Piece::BlackRook,
            Kind::Queen => Piece::BlackQueen,
            Kind::King => Piece::BlackKing,
        },
    }
}

/// The index of a piece's bitboard: white pieces 0 to 5, black pieces 6 to 11,
/// each color in the order pawn, knight, bishop, rook, queen, king; 12 for `NoPiece`.
pub open spec fn index_spec(p: Piece) -> int {
    match p {
        Piece::WhitePawn => 0,
        Piece::WhiteKnight => 1,
        Piece::WhiteBishop => 2,
        Piece::WhiteRook => 3,
        Piece::WhiteQueen => 4,
        Piece::WhiteKing => 5,
        Piece::BlackPawn => 6,
        Piece::BlackKnight => 7,
        Piece::BlackBishop => 8,
        Piece::BlackRook => 9,
        Piece::BlackQueen => 10,
        Piece::BlackKing => 11,
        Piece::NoPiece => 12,
    }
}

impl Piece {
    /// The index of this piece's bitboard (see `index_spec`).
    pub fn index(self) -> (r: usize)
        ensures
            r == index_spec(self),
    {
        match self {
            Piece::WhitePawn => 0,
            Piece::WhiteKnight => 1,
            Piece::WhiteBishop => 2,
            Piece::WhiteRook => 3,
            Piece::WhiteQueen => 4,
            Piece::WhiteKing => 5,
            Piece::BlackPawn => 6,
            Piece::BlackKnight => 7,
            Piece::BlackBishop => 8,
            Piece::BlackRook => 9,
            Piece::BlackQueen => 10,
            Piece::BlackKing => 11,
            Piece::NoPiece => 12,
        }
    }
}

/// A move: origin and destination squares, the moving piece, the piece promoted to
/// (`NoPiece` if none) and four flags. Two moves are equal when all fields are.
#[derive(Clone, Copy, Debug, PartialEq, Eq, Structural)]
pub struct Move {
    pub from: u8,
    pub to: u8,
    pub piece: Piece,
    pub promotion: Piece,
    pub capture: bool,
    pub double_push: bool,
    pub enpassant: bool,
    pub castling: bool,
}

/// The move with the given fields.
pub open spec fn mk_move(
    from: int,
    to: int,
    piece: Piece,
    promotion: Piece,
    capture: bool,
    double_push: bool,
    enpassant: bool,
    castling: bool,
) -> Move {
    Move {
        from: from as u8,
        to: to as u8,
        piece,
        promotion,
        capture,
        double_push,
        enpassant,
        castling,
    }
}

impl Move {
    /// The move with the given fields.
    pub fn new(
        from: u8,
        to: u8,
        piece: Piece,
        promotion: Piece,
        capture: bool,
        double_push: bool,
        enpassant: bool,
        castling: bool,
    ) -> (r: Move)
        ensures
            r == mk_move(
                from as int,
                to as int,
                piece,
                promotion,
                capture,
                double_push,
                enpassant,
                castling,
            ),
    {
        Move { from, to, piece, promotion, capture, double_push, enpassant, castling }
    }

    pub fn from_square(&self) -> (r: u8)
        ensures
            r == self.from,
    {
        self.from
    }

    pub fn to_square(&self) -> (r: u8)
        ensures
            r == self.to,
    {
        self.to
    }

    pub fn is_capture(&self) -> (r: bool)
        ensures
            r == self.capture,
    {
        self.capture
    }

    pub fn is_enpassant(&self) -> (r: bool)
        ensures
            r == self.enpassant,
    {
        self.enpassant
    }

    pub fn is_castling(&self) -> (r: bool)
        ensures
            r == self.castling,
    {
        self.castling
    }
}

/// An ordered list of moves, in the order they were added.
#[derive(Clone, Debug)]
pub struct MoveList {
    pub moves: Vec<Move>,
}

impl View for MoveList {
    type V = Seq<Move>;

    open spec fn view(&self) -> Seq<Move> {
        self.moves@
    }
}

impl MoveList {
    pub fn new() -> (r: MoveList)
        ensures
            r@ == Seq::<Move>::empty(),
    {
        MoveList { moves: Vec::new() }
    }

    /// Appends a move at the end.
    pub fn add_move(&mut self, m: Move)
        ensures
            final(self)@ == old(self)@.push(m),
    {
        self.moves.push(m);
    }

    pub fn len(&self) -> (r: usize)
        ensures
            r == self@.len(),
    {
        self.moves.len()
    }

    /// The moves, in order.
    pub fn values(&self) -> (r: &Vec<Move>)
        ensures
            r@ == self@,
    {
        &self.moves
    }

    /// Whether the list holds a move equal to `m`.
    pub fn contains(&self, m: &Move) -> (r: bool)
        ensures
            r == self@.contains(*m),
    {
        let mut i: usize = 0;
        while i < self.moves.len()
            invariant
                i <= self@.len(),
                forall|j: int| 0 <= j < i ==> self@[j] != *m,
            decreases self@.len() - i,
        {
            if self.moves[i] == *m {
                return true;
            }
            i = i + 1;
        }
        false
    }

    /// The moves that leave square `sq`, in their order.
    pub fn all_from(&self, sq: u8) -> (r: MoveList)
        ensures
            r@ == self@.filter(|m: Move| m.from == sq),
    {
        let mut out: Vec<Move> = Vec::new();
        let mut i: usize = 0;
        while i < self.moves.len()
            invariant
                i <= self@.len(),
                out@ == self@.take(i as int).filter(|m: Move| m.from == sq),
            decreases self@.len() - i,
        {
            let m = self.moves[i];
            proof {
                reveal(Seq::filter);
                assert(self@.take(i as int + 1).drop_last() == self@.take(i as int));
            }
            if m.from == sq {
                out.push(m);
            }
            i = i + 1;
        }
        proof {
            assert(self@.take(self@.len() as int) == self@);
        }
        MoveList { moves: out }
    }
}

} // verus!
