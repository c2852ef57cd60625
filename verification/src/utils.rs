use crate::error::Error;
use crate::piece::{Color, Piece};
use crate::square::on_board;
use vstd::prelude::*;

verus! {

/// Accepts the addresses that lie on the board: those with neither off-board bit set.
pub fn is_valid_idx(idx: u8) -> (r: Result<(), Error>)
    ensures
        r == if on_board(idx as int) { Ok::<(), Error>(()) } else { Err::<(), Error>(Error::IllegalIndex) },
{
    assert((idx & 0x88 == 0) == (idx < 128 && idx % 16 < 8)) by (bit_vector);
    if idx & 0x88 == 0 {
        Ok(())
    } else {
        Err(Error::IllegalIndex)
    }
}

/// Whether the piece belongs to the other side than `side_to_move`.
pub fn is_enemy(piece: &Piece, side_to_move: Color) -> (r: bool)
    ensures
        r == (piece.color != side_to_move),
{
    !is_friendly(piece, side_to_move)
}

/// Whether the piece belongs to `side_to_move`.
pub fn is_friendly(piece: &Piece, side_to_move: Color) -> (r: bool)
    ensures
        r == (piece.color == side_to_move),
{
    piece.color == side_to_move
}

} // verus!
