use crate::board::Board;
use crate::piece::{Color, PType, Piece};
use crate::square::{on_board, Square};
use crate::utils::is_valid_idx;
use vstd::prelude::*;

verus! {

broadcast use crate::board::Board::lemma_len;

/// Whether the slot `i` of the board holds a piece of the given kind and
/// side, on a square of the given shade where one is asked for.
pub open spec fn counts_at(
    board: Seq<Option<Piece>>,
    kind: PType,
    color: Color,
    shade: Option<Color>,
    i: int,
) -> bool {
    on_board(i) && board[i] == Some(Piece { p_type: kind, color }) && (shade is Some ==> Square(
        i as u8,
    ).spec_color() == shade->Some_0)
}

/// The number of such pieces on the squares with an address below `n`.
pub open spec fn count_on(
    board: Seq<Option<Piece>>,
    kind: PType,
    color: Color,
    shade: Option<Color>,
    n: int,
) -> nat
    decreases n,
{
    if n <= 0 {
        0
    } else {
        count_on(board, kind, color, shade, n - 1) + (if counts_at(board, kind, color, shade, n - 1) {
            1nat
        } else {
            0nat
        })
    }
}

/// Whether a pawn, a rook or a queen stands on a square with an address below `n`.
pub open spec fn mating_piece_below(board: Seq<Option<Piece>>, n: int) -> bool {
    exists|i: int|
        0 <= i < n && on_board(i) && (#[trigger] board[i]) is Some && (board[i]->Some_0.p_type
            == PType::PAWN || board[i]->Some_0.p_type == PType::ROOK || board[i]->Some_0.p_type
            == PType::QUEEN)
}

/// Whether neither side can mate with what is on the board, by this rule of
/// thumb: no pawn, rook or queen is left, and either only the kings are, or
/// one knight or bishop beside them, or no knight and one bishop each on
/// squares of one shade, or no knight and on each side bishops on squares of
/// one and the same shade.
pub open spec fn insufficient_material(board: Seq<Option<Piece>>) -> bool {
    let knights = count_on(board, PType::KNIGHT, Color::WHITE, None, 128) + count_on(
        board,
        PType::KNIGHT,
        Color::BLACK,
        None,
        128,
    );
    let bishops = count_on(board, PType::BISHOP, Color::WHITE, None, 128) + count_on(
        board,
        PType::BISHOP,
        Color::BLACK,
        None,
        128,
    );
    let white_light = count_on(board, PType::BISHOP, Color::WHITE, Some(Color::WHITE), 128);
    let white_dark = count_on(board, PType::BISHOP, Color::WHITE, Some(Color::BLACK), 128);
    let black_light = count_on(board, PType::BISHOP, Color::BLACK, Some(Color::WHITE), 128);
    let black_dark = count_on(board, PType::BISHOP, Color::BLACK, Some(Color::BLACK), 128);
    !mating_piece_below(board, 128) && {
        ||| knights == 0 && bishops == 0
        ||| knights + bishops == 1
        ||| knights == 0 && ((white_dark == 1 && black_dark == 1) || (white_light == 1
            && black_light == 1))
        ||| knights == 0 && ((white_dark != 0 && black_dark != 0) || (white_light != 0
            && black_light != 0))
    }
}

/// Decides `insufficient_material` for a board.
pub fn has_insufficient_material(board: &Board) -> (r: bool)
    ensures
        r == insufficient_material(board@),
{
    let ghost b = board@;
    let mut w_knights: usize = 0;
    let mut b_knights: usize = 0;
    let mut w_bishops: usize = 0;
    let mut b_bishops: usize = 0;
    let mut w_light: usize = 0;
    let mut w_dark: usize = 0;
    let mut b_light: usize = 0;
    let mut b_dark: usize = 0;
    let mut idx: u8 = 0;
    while idx < 128
        invariant
            idx <= 128,
            b == board@,
            !mating_piece_below(b, idx as int),
            w_knights == count_on(b, PType::KNIGHT, Color::WHITE, None, idx as int),
            b_knights == count_on(b, PType::KNIGHT, Color::BLACK, None, idx as int),
            w_bishops == count_on(b, PType::BISHOP, Color::WHITE, None, idx as int),
            b_bishops == count_on(b, PType::BISHOP, Color::BLACK, None, idx as int),
            w_light == count_on(b, PType::BISHOP, Color::WHITE, Some(Color::WHITE), idx as int),
            w_dark == count_on(b, PType::BISHOP, Color::WHITE, Some(Color::BLACK), idx as int),
            b_light == count_on(b, PType::BISHOP, Color::BLACK, Some(Color::WHITE), idx as int),
            b_dark == count_on(b, PType::BISHOP, Color::BLACK, Some(Color::BLACK), idx as int),
            w_knights <= idx,
            b_knights <= idx,
            w_bishops <= idx,
            b_bishops <= idx,
            w_light <= idx,
            w_dark <= idx,
            b_light <= idx,
            b_dark <= idx,
        decreases 128 - idx,
    {
        if is_valid_idx(idx).is_ok() {
            if let Some(piece) = board.get(&idx) {
                if piece.p_type == PType::PAWN || piece.p_type == PType::ROOK || piece.p_type
                    == PType::QUEEN {
                    assert(mating_piece_below(b, 128)) by {
                        assert(b[idx as int] is Some);
                    }
                    return false;
                }
                let light = Square(idx).color() == Color::WHITE;
                if piece.color == Color::WHITE {
                    if piece.p_type == PType::KNIGHT {
                        w_knights += 1;
                    }
                    if piece.p_type == PType::BISHOP {
                        if light {
                            w_light += 1;
                        } else {
                            w_dark += 1;
                        }
                        w_bishops += 1;
                    }
                } else {
                    if piece.p_type == PType::KNIGHT {
                        b_knights += 1;
                    }
                    if piece.p_type == PType::BISHOP {
                        if light {
                            b_light += 1;
                        } else {
                            b_dark += 1;
                        }
                        b_bishops += 1;
                    }
                }
            }
        }
        assert(!mating_piece_below(b, idx + 1)) by {
            if mating_piece_below(b, idx + 1) {
                let i = choose|i: int|
                    0 <= i < idx + 1 && on_board(i) && (#[trigger] b[i]) is Some && (b[i]->Some_0.p_type
                        == PType::PAWN || b[i]->Some_0.p_type == PType::ROOK || b[i]->Some_0.p_type
                        == PType::QUEEN);
                if i < idx {
                    assert(mating_piece_below(b, idx as int));
                }
            }
        }
        idx += 1;
    }
    let knights = w_knights + b_knights;
    let bishops = w_bishops + b_bishops;
    if knights == 0 && bishops == 0 {
        return true;
    }
    if knights + bishops == 1 {
        return true;
    }
    if knights == 0 && ((w_dark == 1 && b_dark == 1) || (w_light == 1 && b_light == 1)) {
        return true;
    }
    if knights == 0 && ((w_dark != 0 && b_dark != 0) || (w_light != 0 && b_light != 0)) {
        return true;
    }
    false
}

} // verus!
