use crate::piece::{Color, PType, Piece};
use vstd::prelude::*;

verus! {

/// The eight directions of a queen, as address deltas: the four straight
/// ones first, then the four diagonal ones.
pub open spec fn queen_deltas() -> Seq<i8> {
    seq![16i8, -16i8, 1i8, -1i8, 17i8, 15i8, -15i8, -17i8]
}

/// The four directions of a rook.
pub open spec fn rook_deltas() -> Seq<i8> {
    seq![16i8, -16i8, 1i8, -1i8]
}

/// The four directions of a bishop.
pub open spec fn bishop_deltas() -> Seq<i8> {
    seq![17i8, 15i8, -15i8, -17i8]
}

/// The eight jumps of a knight.
pub open spec fn knight_deltas() -> Seq<i8> {
    seq![33i8, 31i8, 18i8, 14i8, -14i8, -18i8, -31i8, -33i8]
}

/// The steps of a king: the eight neighbours, then the two castling steps.
pub open spec fn king_deltas() -> Seq<i8> {
    seq![16i8, -16i8, 1i8, -1i8, 17i8, 15i8, -15i8, -17i8, 2i8, -2i8]
}

/// The steps of a pawn of the given side: one forward, two forward, then the
/// two captures.
pub open spec fn pawn_deltas(color: Color) -> Seq<i8> {
    match color {
        Color::WHITE => seq![16i8, 32i8, 15i8, 17i8],
        Color::BLACK => seq![-16i8, -32i8, -15i8, -17i8],
    }
}

/// The directions along which a sliding piece of the given kind moves; no
/// direction for the other kinds.
pub open spec fn sliding_deltas(kind: PType) -> Seq<i8> {
    match kind {
        PType::QUEEN => queen_deltas(),
        PType::ROOK => rook_deltas(),
        PType::BISHOP => bishop_deltas(),
        _ => Seq::empty(),
    }
}

/// Whether `delta` is one of the four straight directions.
pub open spec fn is_straight(delta: int) -> bool {
    delta == 16 || delta == -16 || delta == 1 || delta == -1
}

/// Whether `delta` is one of the four diagonal directions.
pub open spec fn is_diagonal(delta: int) -> bool {
    delta == 17 || delta == 15 || delta == -15 || delta == -17
}

/// Whether `piece`, standing in direction `delta` from a square, attacks that
/// square; `adjacent` says that it stands on the first square in that
/// direction. A pawn attacks only the two squares diagonally ahead of it:
/// a black pawn the ones below it, a white pawn the ones above it.
pub open spec fn attacks_along(piece: Piece, delta: int, adjacent: bool) -> bool {
    match piece.p_type {
        PType::QUEEN => is_straight(delta) || is_diagonal(delta),
        PType::ROOK => is_straight(delta),
        PType::BISHOP => is_diagonal(delta),
        PType::KING => adjacent && (is_straight(delta) || is_diagonal(delta)),
        PType::PAWN => adjacent && is_diagonal(delta) && ((delta > 0) == (piece.color
            == Color::BLACK)),
        PType::KNIGHT => false,
    }
}

/// The `k`-th direction of a queen.
pub fn queen_delta(k: usize) -> (d: i8)
    requires
        k < 8,
    ensures
        d == queen_deltas()[k as int],
        is_straight(d as int) || is_diagonal(d as int),
{
    match k {
        0 => 16,
        1 => -16,
        2 => 1,
        3 => -1,
        4 => 17,
        5 => 15,
        6 => -15,
        _ => -17,
    }
}

/// The `k`-th jump of a knight.
pub fn knight_delta(k: usize) -> (d: i8)
    requires
        k < 8,
    ensures
        d == knight_deltas()[k as int],
{
    match k {
        0 => 33,
        1 => 31,
        2 => 18,
        3 => 14,
        4 => -14,
        5 => -18,
        6 => -31,
        _ => -33,
    }
}

/// The `k`-th step of a king.
pub fn king_delta(k: usize) -> (d: i8)
    requires
        k < 10,
    ensures
        d == king_deltas()[k as int],
{
    match k {
        0 => 16,
        1 => -16,
        2 => 1,
        3 => -1,
        4 => 17,
        5 => 15,
        6 => -15,
        7 => -17,
        8 => 2,
        _ => -2,
    }
}

/// The `k`-th step of a pawn of the given side.
pub fn pawn_delta(color: Color, k: usize) -> (d: i8)
    requires
        k < 4,
    ensures
        d == pawn_deltas(color)[k as int],
{
    let up: i8 = match k {
        0 => 16,
        1 => 32,
        2 => 15,
        _ => 17,
    };
    match color {
        Color::WHITE => up,
        Color::BLACK => -up,
    }
}

/// The number of directions of a sliding piece of the given kind.
pub fn sliding_count(kind: PType) -> (n: usize)
    ensures
        n == sliding_deltas(kind).len(),
        n <= 8,
{
    match kind {
        PType::QUEEN => 8,
        PType::ROOK => 4,
        PType::BISHOP => 4,
        _ => 0,
    }
}

/// The `k`-th direction of a sliding piece of the given kind.
pub fn sliding_delta(kind: PType, k: usize) -> (d: i8)
    requires
        k < sliding_deltas(kind).len(),
    ensures
        d == sliding_deltas(kind)[k as int],
        d != 0,
{
    match kind {
        PType::BISHOP => queen_delta(k + 4),
        _ => queen_delta(k),
    }
}

/// Decides `attacks_along` for a piece found in direction `delta`.
pub fn can_attack(piece: &Piece, delta: i8, adjacent: bool) -> (r: bool)
    ensures
        r == attacks_along(*piece, delta as int, adjacent),
{
    let straight = delta == 16 || delta == -16 || delta == 1 || delta == -1;
    let diagonal = delta == 17 || delta == 15 || delta == -15 || delta == -17;
    match piece.p_type {
        PType::QUEEN => straight || diagonal,
        PType::ROOK => straight,
        PType::BISHOP => diagonal,
        PType::KING => adjacent && (straight || diagonal),
        PType::PAWN => adjacent && diagonal && ((delta > 0) == (piece.color == Color::BLACK)),
        PType::KNIGHT => false,
    }
}

} // verus!
