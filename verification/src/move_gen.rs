use crate::chess::GameState;
use crate::laws::{lemma_make_unmake, lemma_plausible_can_make, lemma_pseudo_legal_plausible};
use crate::utils::is_valid_idx;
use crate::constants::{
    king_delta, king_deltas, knight_delta, knight_deltas, pawn_delta, pawn_deltas, sliding_count,
    sliding_delta, sliding_deltas,
};
use crate::piece::{Color, PType, Piece};
use crate::position::{attacked, castles_kingside, castles_queenside, shifted, Move, Position};
use crate::square::Square;
use crate::utils::is_friendly;
use vstd::prelude::*;

verus! {

broadcast use crate::board::Board::lemma_len;

/// The move from `from` to `to` without promotion.
pub open spec fn plain(from: Square, to: Square) -> Move {
    Move { from, to, promotion_piece: None }
}

/// The move from `from` to `to` that promotes to `kind`.
pub open spec fn promoting(from: Square, to: Square, kind: PType, color: Color) -> Move {
    Move { from, to, promotion_piece: Some(Piece { p_type: kind, color }) }
}

/// The moves by which a pawn arrives on `to`: on the first or the last
/// rank the four promotions, to bishop, knight, rook and queen; elsewhere
/// the plain move.
pub open spec fn pawn_arrivals(from: Square, to: Square, color: Color) -> Seq<Move> {
    if to.spec_rank() == 0 || to.spec_rank() == 7 {
        seq![
            promoting(from, to, PType::BISHOP, color),
            promoting(from, to, PType::KNIGHT, color),
            promoting(from, to, PType::ROOK, color),
            promoting(from, to, PType::QUEEN, color),
        ]
    } else {
        seq![plain(from, to)]
    }
}

/// Whether the square one step ahead of the pawn is free, or off the board.
pub open spec fn pawn_step_free(p: Position, from: Square, color: Color) -> bool {
    match from.spec_add(pawn_deltas(color)[0] as int) {
        Ok(to) => p.piece_at(to) is None,
        Err(_) => true,
    }
}

/// The single step of a pawn: onto the square ahead, if it is free.
pub open spec fn pawn_single(p: Position, from: Square, color: Color) -> Seq<Move> {
    match from.spec_add(pawn_deltas(color)[0] as int) {
        Ok(to) => if p.piece_at(to) is None {
            pawn_arrivals(from, to, color)
        } else {
            Seq::empty()
        },
        Err(_) => Seq::empty(),
    }
}

/// Whether a pawn of the given side on `from` stands on its starting rank.
pub open spec fn on_starting_rank(from: Square, color: Color) -> bool {
    (from.spec_rank() == 1 && color == Color::WHITE) || (from.spec_rank() == 6 && color
        == Color::BLACK)
}

/// The double step of a pawn: from its starting rank, over a free square
/// onto a free square.
pub open spec fn pawn_double(p: Position, from: Square, color: Color) -> Seq<Move> {
    match from.spec_add(pawn_deltas(color)[1] as int) {
        Ok(to) => if pawn_step_free(p, from, color) && p.piece_at(to) is None && on_starting_rank(
            from,
            color,
        ) {
            seq![plain(from, to)]
        } else {
            Seq::empty()
        },
        Err(_) => Seq::empty(),
    }
}

/// The capture of a pawn along `delta`: onto a piece of the side that is not
/// to move, or onto the empty en-passant target.
pub open spec fn pawn_capture(p: Position, from: Square, color: Color, delta: i8) -> Seq<Move> {
    match from.spec_add(delta as int) {
        Ok(to) => match p.piece_at(to) {
            None => if p.en_passant_sq == Some(to) {
                seq![plain(from, to)]
            } else {
                Seq::empty()
            },
            Some(other) => if other.color != p.side_to_move {
                pawn_arrivals(from, to, color)
            } else {
                Seq::empty()
            },
        },
        Err(_) => Seq::empty(),
    }
}

/// The pseudo-legal moves of a pawn of the given side on `from`: single
/// step, double step, then the two captures.
pub open spec fn pawn_moves(p: Position, from: Square, color: Color) -> Seq<Move> {
    pawn_single(p, from, color) + pawn_double(p, from, color) + pawn_capture(
        p,
        from,
        color,
        pawn_deltas(color)[2],
    ) + pawn_capture(p, from, color, pawn_deltas(color)[3])
}

/// Whether `sq` holds a piece of the side to move.
pub open spec fn friendly_on(p: Position, sq: Square) -> bool {
    p.piece_at(sq) is Some && p.piece_at(sq)->Some_0.color == p.side_to_move
}

/// The jump of a knight by `delta`: onto any square of the board that holds
/// no piece of the side to move.
pub open spec fn knight_jump(p: Position, from: Square, delta: i8) -> Seq<Move> {
    match from.spec_add(delta as int) {
        Ok(to) => if friendly_on(p, to) {
            Seq::empty()
        } else {
            seq![plain(from, to)]
        },
        Err(_) => Seq::empty(),
    }
}

/// The pseudo-legal moves of a knight by its first `k` jumps.
pub open spec fn knight_moves(p: Position, from: Square, k: int) -> Seq<Move>
    decreases k,
{
    if k <= 0 || k > 8 {
        Seq::empty()
    } else {
        knight_moves(p, from, k - 1) + knight_jump(p, from, knight_deltas()[k - 1])
    }
}

/// Whether `sq` is free and not attacked.
pub open spec fn free_and_safe(p: Position, sq: Square) -> bool {
    p.piece_at(sq) is None && !attacked(p.board, p.side_to_move, sq)
}

/// Whether the king may castle along `m`: the right stands, the
/// destination is free, the side is not in check, and on the king's side the
/// two squares it crosses are free and not attacked; on the queen's side the
/// three squares between king and rook are free and the two that the king
/// crosses are not attacked.
pub open spec fn may_castle(p: Position, m: Move) -> bool {
    let rights = p.current_rights();
    if (castles_kingside(m) && !rights.0) || (castles_queenside(m) && !rights.1) || p.piece_at(m.to)
        is Some || p.is_in_check {
        false
    } else if castles_kingside(m) {
        free_and_safe(p, shifted(m.from, 1)) && free_and_safe(p, shifted(m.from, 2))
    } else if castles_queenside(m) {
        p.piece_at(shifted(m.from, -1)) is None && p.piece_at(shifted(m.from, -2)) is None
            && p.piece_at(shifted(m.from, -3)) is None && !attacked(
            p.board,
            p.side_to_move,
            shifted(m.from, -1),
        ) && !attacked(p.board, p.side_to_move, shifted(m.from, -2))
    } else {
        false
    }
}

/// The step of a king by `delta`: onto a square that holds no piece of the
/// side to move; the steps by two files only where the king may castle.
pub open spec fn king_step(p: Position, from: Square, delta: i8) -> Seq<Move> {
    match from.spec_add(delta as int) {
        Ok(to) => if friendly_on(p, to) {
            Seq::empty()
        } else if (to.0 - from.0 == 2 || to.0 - from.0 == -2) && !may_castle(p, plain(from, to)) {
            Seq::empty()
        } else {
            seq![plain(from, to)]
        },
        Err(_) => Seq::empty(),
    }
}

/// The pseudo-legal moves of a king by its first `k` steps.
pub open spec fn king_moves(p: Position, from: Square, k: int) -> Seq<Move>
    decreases k,
{
    if k <= 0 || k > 10 {
        Seq::empty()
    } else {
        king_moves(p, from, k - 1) + king_step(p, from, king_deltas()[k - 1])
    }
}

/// The moves of a sliding piece along `delta`, walking on from `cur`: every
/// free square, and the first occupied one if it holds a piece of the side
/// that is not to move.
pub open spec fn slide(p: Position, from: Square, cur: Square, delta: i8) -> Seq<Move>
    decreases
            (if delta > 0 {
                128 - cur.0
            } else {
                cur.0 as int
            }),
{
    if !cur.valid() || delta == 0 {
        Seq::empty()
    } else {
        match cur.spec_add(delta as int) {
            Err(_) => Seq::empty(),
            Ok(to) => match p.piece_at(to) {
                Some(other) => if other.color != p.side_to_move {
                    seq![plain(from, to)]
                } else {
                    Seq::empty()
                },
                None => seq![plain(from, to)] + slide(p, from, to, delta),
            },
        }
    }
}

/// The pseudo-legal moves of a sliding piece of the given kind along its
/// first `k` directions.
pub open spec fn sliding_moves(p: Position, from: Square, kind: PType, k: int) -> Seq<Move>
    decreases k,
{
    if k <= 0 || k > sliding_deltas(kind).len() {
        Seq::empty()
    } else {
        sliding_moves(p, from, kind, k - 1) + slide(p, from, from, sliding_deltas(kind)[k - 1])
    }
}

/// The pseudo-legal moves of the piece on `sq`: those that obey the way the
/// piece moves, whether or not they leave the own king attacked.
pub open spec fn pseudo_legal_moves(p: Position, sq: Square) -> Seq<Move> {
    match p.piece_at(sq) {
        None => Seq::empty(),
        Some(piece) => match piece.p_type {
            PType::QUEEN | PType::ROOK | PType::BISHOP => sliding_moves(
                p,
                sq,
                piece.p_type,
                sliding_deltas(piece.p_type).len() as int,
            ),
            PType::KNIGHT => knight_moves(p, sq, 8),
            PType::PAWN => pawn_moves(p, sq, piece.color),
            PType::KING => king_moves(p, sq, 10),
        },
    }
}

/// Whether, after `m` is made, the king of the side to move is not attacked.
/// A side without a remembered king is never attacked.
pub open spec fn keeps_king_safe(p: Position, m: Move) -> bool {
    let after = p.make(m);
    match after.current_king_sq() {
        Some(king) => !attacked(after.board, after.side_to_move, king),
        None => true,
    }
}

/// The test that a move keeps the king safe in the position `p`.
pub open spec fn king_safety(p: Position) -> spec_fn(Move) -> bool {
    |m: Move| keeps_king_safe(p, m)
}

/// The legal moves of the piece on `sq`: the pseudo-legal ones that keep the
/// king safe, in the order in which they are generated.
pub open spec fn legal_moves(p: Position, sq: Square) -> Seq<Move> {
    pseudo_legal_moves(p, sq).filter(king_safety(p))
}

/// The legal moves of the pieces of `color` that stand on the first `n`
/// addresses of the board, in the order of the addresses.
pub open spec fn legal_moves_below(p: Position, color: Color, n: int) -> Seq<Move>
    decreases n,
{
    if n <= 0 || n > 128 {
        Seq::empty()
    } else {
        let sq = Square((n - 1) as u8);
        legal_moves_below(p, color, n - 1) + (if sq.valid() && p.piece_at(sq) is Some && p.piece_at(
            sq,
        )->Some_0.color == color {
            legal_moves(p, sq)
        } else {
            Seq::empty()
        })
    }
}

/// All legal moves of the pieces of `color`.
pub open spec fn all_legal_moves(p: Position, color: Color) -> Seq<Move> {
    legal_moves_below(p, color, 128)
}

impl Position {
    /// Whether the side to move is in check and has no legal move.
    pub open spec fn checkmate(self) -> bool {
        self.is_in_check && all_legal_moves(self, self.side_to_move).len() == 0
    }

    /// Whether the side to move is not in check and has no legal move.
    pub open spec fn stalemate(self) -> bool {
        !self.is_in_check && all_legal_moves(self, self.side_to_move).len() == 0
    }
}

/// The generator of moves.
pub struct MoveGen;

impl MoveGen {
    /// The legal moves of the piece on `sq`, which belongs to the side to
    /// move: every pseudo-legal move is made for trial, kept if the king of
    /// the side is then not attacked, and taken back. The state comes back
    /// as it was.
    pub fn moves_for_square(state: &mut GameState, sq: Square) -> (moves: Vec<Move>)
        requires
            old(state)@.wf(),
            old(state)@.has_room(),
            sq.valid(),
            old(state)@.piece_at(sq) is Some ==> old(state)@.piece_at(sq)->Some_0.color == old(
                state,
            )@.side_to_move,
        ensures
            final(state)@ == old(state)@,
            moves@ == legal_moves(old(state)@, sq),
    {
        let ghost start = state@;
        let pseudo = MoveGen::pseudo_legal(state, sq);
        proof {
            lemma_pseudo_legal_plausible(start, sq);
        }
        let mut legal: Vec<Move> = Vec::new();
        let mut i: usize = 0;
        assert(pseudo@.take(0) =~= Seq::<Move>::empty());
        proof {
            reveal(Seq::filter);
        }
        while i < pseudo.len()
            invariant
                i <= pseudo.len(),
                state@ == start,
                start.wf(),
                start.has_room(),
                start.all_plausible(pseudo@),
                legal@ == pseudo@.take(i as int).filter(king_safety(start)),
            decreases pseudo.len() - i,
        {
            let m = pseudo[i];
            proof {
                lemma_plausible_can_make(start, m);
                lemma_make_unmake(start, m);
            }
            state.make_move(m);
            let is_legal = match state.get_current_king_sq() {
                Some(king) => !state.is_attacked(king),
                None => true,
            };
            state.undo();
            if is_legal {
                legal.push(m);
            }
            proof {
                reveal(Seq::filter);
                let next = pseudo@.take(i + 1);
                assert(next.drop_last() =~= pseudo@.take(i as int));
                assert(next.last() == m);
                assert(king_safety(start)(m) == is_legal);
            }
            i += 1;
        }
        assert(pseudo@.take(pseudo.len() as int) =~= pseudo@);
        legal
    }

    /// All legal moves of the side to move, piece by piece in the order of
    /// the addresses of the board.
    pub fn moves(state: &mut GameState, color: Color) -> (moves: Vec<Move>)
        requires
            old(state)@.wf(),
            old(state)@.has_room(),
            color == old(state)@.side_to_move,
        ensures
            final(state)@ == old(state)@,
            moves@ == all_legal_moves(old(state)@, color),
    {
        let ghost start = state@;
        let mut moves: Vec<Move> = Vec::new();
        let mut idx: u8 = 0;
        while idx < 128
            invariant
                idx <= 128,
                state@ == start,
                start.wf(),
                start.has_room(),
                color == start.side_to_move,
                moves@ == legal_moves_below(start, color, idx as int),
            decreases 128 - idx,
        {
            if is_valid_idx(idx).is_ok() {
                let of_color = match state.board.get(&idx) {
                    Some(piece) => piece.color == color,
                    None => false,
                };
                if of_color {
                    let mut found = MoveGen::moves_for_square(state, Square(idx));
                    moves.append(&mut found);
                }
            }
            assert(moves@ =~= legal_moves_below(start, color, idx + 1));
            idx += 1;
        }
        moves
    }

    fn push_arrivals(moves: &mut Vec<Move>, from: Square, to: Square, color: Color)
        ensures
            final(moves)@ == old(moves)@ + pawn_arrivals(from, to, color),
    {
        if to.rank() == 0 || to.rank() == 7 {
            moves.push(Move::new(from, to, Some(Piece::new(PType::BISHOP, color))));
            moves.push(Move::new(from, to, Some(Piece::new(PType::KNIGHT, color))));
            moves.push(Move::new(from, to, Some(Piece::new(PType::ROOK, color))));
            moves.push(Move::new(from, to, Some(Piece::new(PType::QUEEN, color))));
        } else {
            moves.push(Move::new(from, to, None));
        }
        assert(moves@ =~= old(moves)@ + pawn_arrivals(from, to, color));
    }

    fn push_pawn_capture(state: &GameState, moves: &mut Vec<Move>, from: Square, color: Color, delta: i8)
        requires
            from.valid(),
        ensures
            final(moves)@ == old(moves)@ + pawn_capture(state@, from, color, delta),
    {
        let ghost before = moves@;
        if let Ok(to_sq) = from.add(delta) {
            match state.board.get(&to_sq.0) {
                None => {
                    let target = match state.en_passant_sq {
                        Some(target) => target == to_sq,
                        None => false,
                    };
                    if target {
                        moves.push(Move::new(from, to_sq, None));
                    }
                },
                Some(other) => {
                    if !is_friendly(other, state.side_to_move) {
                        MoveGen::push_arrivals(moves, from, to_sq, color);
                    }
                },
            }
        }
        assert(moves@ =~= before + pawn_capture(state@, from, color, delta));
    }

    /// The pseudo-legal moves of the pawn `piece` on `from_sq`.
    pub fn get_pawn_moves(state: &GameState, from_sq: Square, piece: &Piece) -> (moves: Vec<Move>)
        requires
            from_sq.valid(),
        ensures
            moves@ == pawn_moves(state@, from_sq, piece.color),
    {
        let color = piece.color;
        let mut moves: Vec<Move> = Vec::new();
        let mut can_go_forward = true;
        if let Ok(to_sq) = from_sq.add(pawn_delta(color, 0)) {
            if state.board.get(&to_sq.0).is_some() {
                can_go_forward = false;
            } else {
                MoveGen::push_arrivals(&mut moves, from_sq, to_sq, color);
            }
        }
        assert(moves@ =~= pawn_single(state@, from_sq, color));
        assert(can_go_forward == pawn_step_free(state@, from_sq, color));
        if let Ok(to_sq) = from_sq.add(pawn_delta(color, 1)) {
            if can_go_forward && state.board.get(&to_sq.0).is_none() {
                if (from_sq.rank() == 1 && color == Color::WHITE) || (from_sq.rank() == 6 && color
                    == Color::BLACK) {
                    moves.push(Move::new(from_sq, to_sq, None));
                }
            }
        }
        assert(moves@ =~= pawn_single(state@, from_sq, color) + pawn_double(state@, from_sq, color));
        MoveGen::push_pawn_capture(state, &mut moves, from_sq, color, pawn_delta(color, 2));
        MoveGen::push_pawn_capture(state, &mut moves, from_sq, color, pawn_delta(color, 3));
        moves
    }

    /// Whether the king on `from_sq` may castle to `to_sq`.
    fn can_castle(state: &GameState, from_sq: Square, to_sq: Square) -> (r: bool)
        requires
            from_sq.valid(),
            to_sq.valid(),
        ensures
            r == may_castle(state@, plain(from_sq, to_sq)),
    {
        let m = Move::new(from_sq, to_sq, None);
        let rights = state.get_castling_rights();
        let kingside = state.is_castling_kingside(&m);
        let queenside = state.is_castling_queenside(&m);
        if (kingside && !rights.0) || (queenside && !rights.1) || state.is_occupied(&to_sq)
            || state.is_in_check {
            return false;
        }
        if kingside {
            let one = Square(from_sq.0 + 1);
            let two = Square(from_sq.0 + 2);
            !state.is_occupied(&one) && !state.is_attacked(one) && !state.is_occupied(&two)
                && !state.is_attacked(two)
        } else if queenside {
            let one = Square(from_sq.0 - 1);
            let two = Square(from_sq.0 - 2);
            let three = Square(from_sq.0 - 3);
            !state.is_occupied(&one) && !state.is_occupied(&two) && !state.is_occupied(&three)
                && !state.is_attacked(one) && !state.is_attacked(two)
        } else {
            false
        }
    }

    /// The pseudo-legal moves of the king on `from_sq`, castling included.
    pub fn get_king_moves(state: &GameState, from_sq: Square) -> (moves: Vec<Move>)
        requires
            from_sq.valid(),
        ensures
            moves@ == king_moves(state@, from_sq, 10),
    {
        let mut moves: Vec<Move> = Vec::new();
        let mut k: usize = 0;
        while k < 10
            invariant
                k <= 10,
                from_sq.valid(),
                moves@ == king_moves(state@, from_sq, k as int),
            decreases 10 - k,
        {
            let delta = king_delta(k);
            let ghost before = moves@;
            if let Ok(to_sq) = from_sq.add(delta) {
                let friendly = match state.board.get(&to_sq.0) {
                    Some(piece) => is_friendly(piece, state.side_to_move),
                    None => false,
                };
                if !friendly {
                    let m = Move::new(from_sq, to_sq, None);
                    if !state.is_castling(&m) || MoveGen::can_castle(state, from_sq, to_sq) {
                        moves.push(m);
                    }
                }
            }
            assert(moves@ =~= before + king_step(state@, from_sq, delta));
            k += 1;
        }
        moves
    }

    /// The pseudo-legal moves of the knight on `from_sq`.
    pub fn get_knight_moves(state: &GameState, from_sq: Square) -> (moves: Vec<Move>)
        requires
            from_sq.valid(),
        ensures
            moves@ == knight_moves(state@, from_sq, 8),
    {
        let mut moves: Vec<Move> = Vec::new();
        let mut k: usize = 0;
        while k < 8
            invariant
                k <= 8,
                from_sq.valid(),
                moves@ == knight_moves(state@, from_sq, k as int),
            decreases 8 - k,
        {
            let delta = knight_delta(k);
            let ghost before = moves@;
            if let Ok(to_sq) = from_sq.add(delta) {
                let friendly = match state.board.get(&to_sq.0) {
                    Some(piece) => is_friendly(piece, state.side_to_move),
                    None => false,
                };
                if !friendly {
                    moves.push(Move::new(from_sq, to_sq, None));
                }
            }
            assert(moves@ =~= before + knight_jump(state@, from_sq, delta));
            k += 1;
        }
        moves
    }

    /// Appends the moves of a sliding piece on `from_sq` along `delta`.
    fn push_slide(state: &GameState, moves: &mut Vec<Move>, from_sq: Square, delta: i8)
        requires
            from_sq.valid(),
            delta != 0,
        ensures
            final(moves)@ == old(moves)@ + slide(state@, from_sq, from_sq, delta),
    {
        let ghost p = state@;
        let ghost target = moves@ + slide(p, from_sq, from_sq, delta);
        let mut temp = from_sq;
        loop
            invariant_except_break
                temp.valid(),
                target == moves@ + slide(p, from_sq, temp, delta),
            invariant
                from_sq.valid(),
                delta != 0,
                p == state@,
            ensures
                moves@ == target,
            decreases
                    (if delta > 0 {
                        128 - temp.0
                    } else {
                        temp.0 as int
                    }),
        {
            let ghost before = moves@;
            match temp.add(delta) {
                Err(_) => {
                    assert(before + Seq::<Move>::empty() =~= before);
                    break ;
                },
                Ok(to_sq) => {
                    match state.board.get(&to_sq.0) {
                        Some(piece) => {
                            if !is_friendly(piece, state.side_to_move) {
                                moves.push(Move::new(from_sq, to_sq, None));
                            }
                            assert(moves@ =~= before + slide(p, from_sq, temp, delta));
                            break ;
                        },
                        None => {
                            moves.push(Move::new(from_sq, to_sq, None));
                            assert(before + (seq![plain(from_sq, to_sq)] + slide(
                                p,
                                from_sq,
                                to_sq,
                                delta,
                            )) =~= moves@ + slide(p, from_sq, to_sq, delta));
                            temp = to_sq;
                        },
                    }
                },
            }
        }
    }

    /// The pseudo-legal moves of the sliding piece `piece` on `from_sq`.
    pub fn get_sliding_moves(state: &GameState, from_sq: Square, piece: &Piece) -> (moves: Vec<Move>)
        requires
            from_sq.valid(),
        ensures
            moves@ == sliding_moves(
                state@,
                from_sq,
                piece.p_type,
                sliding_deltas(piece.p_type).len() as int,
            ),
    {
        let mut moves: Vec<Move> = Vec::new();
        let count = sliding_count(piece.p_type);
        let mut k: usize = 0;
        while k < count
            invariant
                k <= count,
                count == sliding_deltas(piece.p_type).len(),
                from_sq.valid(),
                moves@ == sliding_moves(state@, from_sq, piece.p_type, k as int),
            decreases count - k,
        {
            let delta = sliding_delta(piece.p_type, k);
            MoveGen::push_slide(state, &mut moves, from_sq, delta);
            k += 1;
        }
        moves
    }

    /// The pseudo-legal moves of the piece on `sq`.
    pub fn pseudo_legal(state: &GameState, sq: Square) -> (moves: Vec<Move>)
        requires
            sq.valid(),
        ensures
            moves@ == pseudo_legal_moves(state@, sq),
    {
        let piece = match state.board.get(&sq.0) {
            Some(piece) => *piece,
            None => {
                return Vec::new();
            },
        };
        match piece.p_type {
            PType::QUEEN | PType::ROOK | PType::BISHOP => MoveGen::get_sliding_moves(
                state,
                sq,
                &piece,
            ),
            PType::KNIGHT => MoveGen::get_knight_moves(state, sq),
            PType::PAWN => MoveGen::get_pawn_moves(state, sq, &piece),
            PType::KING => MoveGen::get_king_moves(state, sq),
        }
    }
}

} // verus!
