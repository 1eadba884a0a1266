//! Chess move generation on bitboards: pseudo-legal moves for the side to move, a
//! legality test, making and unmaking moves, and perft leaf counts.
use vstd::prelude::*;

pub mod bitboard;
pub mod types;
pub mod attacks;
pub mod game;
pub mod move_generator;
pub mod make_move;
pub mod perft;
pub mod square;

pub use types::{Color, Kind, Piece, Move, MoveList};
pub use game::{Game, FenError};
pub use move_generator::{MoveTypes, generate_moves, is_legal};
pub use make_move::{SearchEnv, make_move, unmake_move};
pub use perft::{perft, perft_branch, perft_divide};

verus! {

} // verus!
