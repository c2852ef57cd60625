//! A chess position engine: the state of a game on a board of 128 sparse
//! addresses, the legal moves of each piece, making moves and taking them
//! back, position strings, and the ways a game ends. Every function carries
//! a contract over a mathematical model of the position, which Verus proves
//! of its body; the one thing taken on trust is what `String::push` does.

pub mod board;
pub mod chess;
pub mod constants;
pub mod error;
pub mod fen;
pub mod fen_laws;
pub mod laws;
pub mod material;
pub mod move_gen;
pub mod perft;
pub mod piece;
pub mod position;
pub mod square;
pub mod text;
pub mod utils;

pub use chess::{Chess, GameState};
pub use error::Error;
pub use move_gen::MoveGen;
pub use piece::{Color, PType, Piece};
pub use position::{Capture, CastlingRights, Move};
pub use square::{File, Rank, Square};
