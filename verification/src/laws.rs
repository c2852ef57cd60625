use crate::constants::{king_deltas, knight_deltas, pawn_deltas, sliding_deltas};
use crate::chess::GameState;
use crate::fen::{fen_text, fields, lemma_placed_board_len, lemma_placed_keeps_books, loaded, placement};
use crate::move_gen::{
    friendly_on, keeps_king_safe, king_moves, king_safety, king_step, knight_jump, knight_moves,
    legal_moves, legal_moves_below, pawn_arrivals, pawn_capture, pawn_double, pawn_moves, pawn_single,
    plain, pseudo_legal_moves, slide, sliding_moves,
};
use crate::piece::{Color, PType};
use crate::position::{
    backward, black_king_home, castles_kingside, castles_queenside, first_index, king_of,
    occurrences_of, pawn_of, recorded, rook_of, white_king_home, Move, Occurrences, Position,
};
use crate::square::{on_board, Square};
use vstd::prelude::*;

verus! {

/// The home square of the king of the given side.
pub open spec fn king_home(color: Color) -> Square {
    match color {
        Color::WHITE => white_king_home(),
        Color::BLACK => black_king_home(),
    }
}

impl Position {
    /// Every king on the board stands where the king of its side is remembered.
    pub open spec fn kings_remembered(self) -> bool {
        forall|i: int|
            0 <= i < 128 && (#[trigger] self.board[i]) is Some && self.board[i]->Some_0.p_type
                == PType::KING ==> self.king_sq(self.board[i]->Some_0.color) == Some(
                Square(i as u8),
            )
    }

    /// The en-passant target, if there is one, is a free square right behind
    /// a pawn of the side that is not to move.
    pub open spec fn target_consistent(self) -> bool {
        match self.en_passant_sq {
            None => true,
            Some(target) => {
                &&& target.valid()
                &&& self.piece_at(target) is None
                &&& on_board(target.0 + backward(self.side_to_move))
                &&& self.board[target.0 + backward(self.side_to_move)] == Some(
                    pawn_of(self.side_to_move.spec_opposite()),
                )
            },
        }
    }

    /// A castling right that stands has its rook in the corner and the king
    /// of its side, if it is on the board, on its home square.
    pub open spec fn right_consistent(self, right: bool, color: Color, corner: int) -> bool {
        right ==> {
            &&& self.board[corner] == Some(rook_of(color))
            &&& self.king_sq(color) is Some && self.piece_at(self.king_sq(color)->Some_0) == Some(
                king_of(color),
            ) ==> self.king_sq(color) == Some(king_home(color))
        }
    }

    /// The four castling rights agree with the board.
    pub open spec fn rights_consistent(self) -> bool {
        &&& self.right_consistent(self.castling_rights.white_queenside, Color::WHITE, 0x00)
        &&& self.right_consistent(self.castling_rights.white_kingside, Color::WHITE, 0x07)
        &&& self.right_consistent(self.castling_rights.black_queenside, Color::BLACK, 0x70)
        &&& self.right_consistent(self.castling_rights.black_kingside, Color::BLACK, 0x77)
    }

    /// No placement is counted more often than moves were made, and one.
    pub open spec fn counts_bounded(self) -> bool {
        forall|i: int|
            0 <= i < self.unique_positions.len() ==> (#[trigger] self.unique_positions[i]).1
                <= self.full_moves + 1
    }

    /// What holds of every position that was loaded or reached by play: the
    /// board has its 128 slots, the remembered squares lie on the board, the
    /// kings stand where they are remembered, the en-passant target and the
    /// castling rights agree with the board, the check flag agrees with the
    /// check rays, and the repetition counts are bounded.
    pub open spec fn wf(self) -> bool {
        &&& self.board.len() == 128
        &&& self.white_king_square is Some ==> self.white_king_square->Some_0.valid()
        &&& self.black_king_square is Some ==> self.black_king_square->Some_0.valid()
        &&& self.kings_remembered()
        &&& self.target_consistent()
        &&& self.rights_consistent()
        &&& self.is_in_check == (self.check_rays.len() > 0)
        &&& self.counts_bounded()
    }

    /// Whether both move counters can still be stepped.
    pub open spec fn has_room(self) -> bool {
        self.half_moves < 255 && self.full_moves < 255
    }

    /// What holds of every pseudo-legal move of a piece of the side to move:
    /// it leads from that piece to another square of the board that holds no
    /// piece of the same side, it promotes only a pawn on the last rank and
    /// never to a king, a pawn steps as pawns do and only over free squares,
    /// and a king castles only with the right and over free squares.
    pub open spec fn plausible(self, m: Move) -> bool {
        let piece = self.piece_at(m.from)->Some_0;
        let step = m.to.0 - m.from.0;
        let forward = -backward(piece.color);
        &&& m.from.valid()
        &&& m.to.valid()
        &&& m.from != m.to
        &&& self.piece_at(m.from) is Some
        &&& piece.color == self.side_to_move
        &&& !friendly_on(self, m.to)
        &&& m.promotion_piece is Some ==> m.promotion_piece->Some_0.p_type != PType::KING
            && piece.p_type == PType::PAWN && step != 2 * forward
        &&& piece.p_type == PType::PAWN ==> {
            &&& step == forward || step == 2 * forward || step == forward - 1 || step == forward
                + 1
            &&& step == 2 * forward ==> self.board[m.from.0 + forward] is None && self.piece_at(
                m.to,
            ) is None
            &&& step == forward ==> self.piece_at(m.to) is None
        }
        &&& piece.p_type == PType::KING && castles_kingside(m) ==> {
            &&& self.current_rights().0
            &&& self.board[m.from.0 + 1] is None
            &&& self.board[m.from.0 + 2] is None
        }
        &&& piece.p_type == PType::KING && castles_queenside(m) ==> {
            &&& self.current_rights().1
            &&& self.board[m.from.0 - 1] is None
            &&& self.board[m.from.0 - 2] is None
            &&& self.board[m.from.0 - 3] is None
        }
    }

    /// Whether every move of the list is plausible.
    pub open spec fn all_plausible(self, moves: Seq<Move>) -> bool {
        forall|i: int| 0 <= i < moves.len() ==> self.plausible(#[trigger] moves[i])
    }
}

proof fn lemma_all_plausible_add(p: Position, a: Seq<Move>, b: Seq<Move>)
    requires
        p.all_plausible(a),
        p.all_plausible(b),
    ensures
        p.all_plausible(a + b),
{
    assert forall|i: int| 0 <= i < (a + b).len() implies p.plausible(#[trigger] (a + b)[i]) by {
        if i < a.len() {
            assert((a + b)[i] == a[i]);
        } else {
            assert((a + b)[i] == b[i - a.len()]);
        }
    }
}

proof fn lemma_pawn_arrivals_plausible(p: Position, from: Square, to: Square)
    requires
        p.board.len() == 128,
        from.valid(),
        p.piece_at(from) is Some,
        p.piece_at(from)->Some_0.p_type == PType::PAWN,
        p.piece_at(from)->Some_0.color == p.side_to_move,
        p.plausible(plain(from, to)),
        to.0 - from.0 != -2 * backward(p.side_to_move),
    ensures
        p.all_plausible(pawn_arrivals(from, to, p.side_to_move)),
{
    let moves = pawn_arrivals(from, to, p.side_to_move);
    assert forall|i: int| 0 <= i < moves.len() implies p.plausible(#[trigger] moves[i]) by {
        let m = moves[i];
        assert(m.from == from && m.to == to);
    }
}

proof fn lemma_pawn_single_plausible(p: Position, from: Square)
    requires
        p.board.len() == 128,
        from.valid(),
        p.piece_at(from) is Some,
        p.piece_at(from)->Some_0.p_type == PType::PAWN,
        p.piece_at(from)->Some_0.color == p.side_to_move,
    ensures
        p.all_plausible(pawn_single(p, from, p.side_to_move)),
{
    match from.spec_add(pawn_deltas(p.side_to_move)[0] as int) {
        Ok(to) => {
            if p.piece_at(to) is None {
                assert(p.plausible(plain(from, to)));
                lemma_pawn_arrivals_plausible(p, from, to);
            }
        },
        Err(_) => {},
    }
}

proof fn lemma_pawn_double_plausible(p: Position, from: Square)
    requires
        p.board.len() == 128,
        from.valid(),
        p.piece_at(from) is Some,
        p.piece_at(from)->Some_0.p_type == PType::PAWN,
        p.piece_at(from)->Some_0.color == p.side_to_move,
    ensures
        p.all_plausible(pawn_double(p, from, p.side_to_move)),
{
    let color = p.side_to_move;
    match from.spec_add(pawn_deltas(color)[1] as int) {
        Ok(to) => {
            let one = from.spec_add(pawn_deltas(color)[0] as int);
            assert(one is Ok);
            assert(one->Ok_0.0 == from.0 - backward(color));
        },
        Err(_) => {},
    }
}

proof fn lemma_pawn_capture_plausible(p: Position, from: Square, k: int)
    requires
        p.board.len() == 128,
        from.valid(),
        p.piece_at(from) is Some,
        p.piece_at(from)->Some_0.p_type == PType::PAWN,
        p.piece_at(from)->Some_0.color == p.side_to_move,
        k == 2 || k == 3,
    ensures
        p.all_plausible(pawn_capture(p, from, p.side_to_move, pawn_deltas(p.side_to_move)[k])),
{
    match from.spec_add(pawn_deltas(p.side_to_move)[k] as int) {
        Ok(to) => {
            if p.piece_at(to) is Some && p.piece_at(to)->Some_0.color != p.side_to_move {
                assert(p.plausible(plain(from, to)));
                lemma_pawn_arrivals_plausible(p, from, to);
            }
        },
        Err(_) => {},
    }
}

proof fn lemma_pawn_moves_plausible(p: Position, from: Square)
    requires
        p.board.len() == 128,
        from.valid(),
        p.piece_at(from) is Some,
        p.piece_at(from)->Some_0.p_type == PType::PAWN,
        p.piece_at(from)->Some_0.color == p.side_to_move,
    ensures
        p.all_plausible(pawn_moves(p, from, p.side_to_move)),
{
    let color = p.side_to_move;
    let deltas = pawn_deltas(color);
    let single = pawn_single(p, from, color);
    let double = pawn_double(p, from, color);
    let left = pawn_capture(p, from, color, deltas[2]);
    let right = pawn_capture(p, from, color, deltas[3]);
    lemma_pawn_single_plausible(p, from);
    lemma_pawn_double_plausible(p, from);
    lemma_pawn_capture_plausible(p, from, 2);
    lemma_pawn_capture_plausible(p, from, 3);
    lemma_all_plausible_add(p, single, double);
    lemma_all_plausible_add(p, single + double, left);
    lemma_all_plausible_add(p, single + double + left, right);
}

proof fn lemma_knight_moves_plausible(p: Position, from: Square, k: int)
    requires
        p.board.len() == 128,
        from.valid(),
        p.piece_at(from) is Some,
        p.piece_at(from)->Some_0.p_type == PType::KNIGHT,
        p.piece_at(from)->Some_0.color == p.side_to_move,
    ensures
        p.all_plausible(knight_moves(p, from, k)),
    decreases k,
{
    if 0 < k <= 8 {
        lemma_knight_moves_plausible(p, from, k - 1);
        let jump = knight_jump(p, from, knight_deltas()[k - 1]);
        assert(p.all_plausible(jump));
        lemma_all_plausible_add(p, knight_moves(p, from, k - 1), jump);
    }
}

proof fn lemma_king_moves_plausible(p: Position, from: Square, k: int)
    requires
        p.board.len() == 128,
        from.valid(),
        p.piece_at(from) is Some,
        p.piece_at(from)->Some_0.p_type == PType::KING,
        p.piece_at(from)->Some_0.color == p.side_to_move,
    ensures
        p.all_plausible(king_moves(p, from, k)),
    decreases k,
{
    if 0 < k <= 10 {
        lemma_king_moves_plausible(p, from, k - 1);
        let step = king_step(p, from, king_deltas()[k - 1]);
        assert(p.all_plausible(step));
        lemma_all_plausible_add(p, king_moves(p, from, k - 1), step);
    }
}

proof fn lemma_slide_plausible(p: Position, from: Square, cur: Square, delta: i8)
    requires
        p.board.len() == 128,
        from.valid(),
        delta > 0 ==> cur.0 >= from.0,
        delta < 0 ==> cur.0 <= from.0,
        p.piece_at(from) is Some,
        p.piece_at(from)->Some_0.p_type != PType::PAWN,
        p.piece_at(from)->Some_0.p_type != PType::KING,
        p.piece_at(from)->Some_0.color == p.side_to_move,
    ensures
        p.all_plausible(slide(p, from, cur, delta)),
    decreases
            (if delta > 0 {
                128 - cur.0
            } else {
                cur.0 as int
            }),
{
    if cur.valid() && delta != 0 {
        match cur.spec_add(delta as int) {
            Err(_) => {},
            Ok(to) => {
                assert(p.plausible(plain(from, to)) || friendly_on(p, to));
                if p.piece_at(to) is None {
                    lemma_slide_plausible(p, from, to, delta);
                    lemma_all_plausible_add(p, seq![plain(from, to)], slide(p, from, to, delta));
                }
            },
        }
    }
}

proof fn lemma_sliding_moves_plausible(p: Position, from: Square, kind: PType, k: int)
    requires
        p.board.len() == 128,
        from.valid(),
        p.piece_at(from) is Some,
        p.piece_at(from)->Some_0.p_type != PType::PAWN,
        p.piece_at(from)->Some_0.p_type != PType::KING,
        p.piece_at(from)->Some_0.color == p.side_to_move,
    ensures
        p.all_plausible(sliding_moves(p, from, kind, k)),
    decreases k,
{
    if 0 < k <= sliding_deltas(kind).len() {
        lemma_sliding_moves_plausible(p, from, kind, k - 1);
        lemma_slide_plausible(p, from, from, sliding_deltas(kind)[k - 1]);
        lemma_all_plausible_add(
            p,
            sliding_moves(p, from, kind, k - 1),
            slide(p, from, from, sliding_deltas(kind)[k - 1]),
        );
    }
}

/// Every pseudo-legal move of a piece of the side to move is plausible.
pub proof fn lemma_pseudo_legal_plausible(p: Position, sq: Square)
    requires
        p.board.len() == 128,
        sq.valid(),
        p.piece_at(sq) is Some ==> p.piece_at(sq)->Some_0.color == p.side_to_move,
    ensures
        p.all_plausible(pseudo_legal_moves(p, sq)),
{
    match p.piece_at(sq) {
        None => {},
        Some(piece) => {
            match piece.p_type {
                PType::QUEEN | PType::ROOK | PType::BISHOP => {
                    lemma_sliding_moves_plausible(
                        p,
                        sq,
                        piece.p_type,
                        sliding_deltas(piece.p_type).len() as int,
                    );
                },
                PType::KNIGHT => {
                    lemma_knight_moves_plausible(p, sq, 8);
                },
                PType::PAWN => {
                    lemma_pawn_moves_plausible(p, sq);
                },
                PType::KING => {
                    lemma_king_moves_plausible(p, sq, 10);
                },
            }
        },
    }
}

/// What passes a filter was in the list and passes the test.
pub proof fn lemma_filter_member(moves: Seq<Move>, test: spec_fn(Move) -> bool, m: Move)
    requires
        moves.filter(test).contains(m),
    ensures
        moves.contains(m),
        test(m),
    decreases moves.len(),
{
    reveal(Seq::filter);
    if moves.len() > 0 {
        let rest = moves.drop_last().filter(test);
        if test(moves.last()) && m == moves.last() {
            assert(moves[moves.len() - 1] == m);
        } else {
            if test(moves.last()) {
                let i = choose|i: int| 0 <= i < rest.push(moves.last()).len() && rest.push(moves.last())[i] == m;
                assert(rest[i] == m);
            }
            assert(rest.contains(m));
            lemma_filter_member(moves.drop_last(), test, m);
            let j = choose|j: int| 0 <= j < moves.drop_last().len() && moves.drop_last()[j] == m;
            assert(moves[j] == m);
        }
    }
}

/// A legal move is pseudo-legal, and it keeps the king safe.
pub proof fn lemma_legal_is_pseudo_legal(p: Position, sq: Square, m: Move)
    requires
        legal_moves(p, sq).contains(m),
    ensures
        pseudo_legal_moves(p, sq).contains(m),
        keeps_king_safe(p, m),
{
    let pseudo = pseudo_legal_moves(p, sq);
    let safe = king_safety(p);
    lemma_filter_member(pseudo, safe, m);
}

/// A plausible move can be made in a well-formed position with room in
/// its counters.
pub proof fn lemma_plausible_can_make(p: Position, m: Move)
    requires
        p.wf(),
        p.has_room(),
        p.plausible(m),
    ensures
        p.can_make(m),
{
    assert forall|i: int| 0 <= i < p.unique_positions.len() implies (
    #[trigger] p.unique_positions[i]).1 < 0xffff by {}
}

/// Making a plausible move in a well-formed position and taking it back
/// gives the position back, in every field.
#[verifier::rlimit(50)]
pub proof fn lemma_make_unmake(p: Position, m: Move)
    requires
        p.wf(),
        p.has_room(),
        p.plausible(m),
    ensures
        p.make(m).can_unmake(),
        p.make(m).unmake() == p,
        p.make(m).current_king_sq() is Some ==> p.make(m).current_king_sq()->Some_0.valid(),
{
    let q = p.make(m);
    let r = q.unmake();
    assert(q.history.last() == p.snapshot(m));
    assert(q.history.drop_last() =~= p.history);
    assert(r.history =~= p.history);
    assert(r.captures =~= p.captures);
    assert(p.kings_remembered());
    assert(p.board[m.from.0 as int] is Some);
    assert(r.board =~= p.board);
    assert(r.white_king_square == p.white_king_square);
    assert(r.black_king_square == p.black_king_square);
}

/// The first entry for a key lies at or after the place where the search
/// began, and within the table or right behind it.
pub proof fn lemma_first_index_bounds(t: Occurrences, key: Seq<char>, from: int)
    requires
        0 <= from <= t.len(),
    ensures
        from <= first_index(t, key, from) <= t.len(),
    decreases t.len() - from,
{
    if from < t.len() && t[from].0 != key {
        lemma_first_index_bounds(t, key, from + 1);
    }
}

/// Playing a plausible move in a well-formed position leaves a well-formed
/// position.
#[verifier::rlimit(50)]
pub proof fn lemma_played_wf(p: Position, m: Move)
    requires
        p.wf(),
        p.has_room(),
        p.plausible(m),
    ensures
        p.played(m).wf(),
        p.make(m).flipped().current_king_sq() is Some ==> p.make(m).flipped().current_king_sq()->Some_0.valid(),
{
    let piece = p.piece_at(m.from)->Some_0;
    let q = p.make(m).flipped();
    let r = p.played(m);
    assert(r.board == q.board);
    assert(r.board.len() == 128);
    assert(r.kings_remembered()) by {
        assert(p.kings_remembered());
        assert forall|i: int|
            0 <= i < 128 && (#[trigger] r.board[i]) is Some && r.board[i]->Some_0.p_type
                == PType::KING implies r.king_sq(r.board[i]->Some_0.color) == Some(
            Square(i as u8),
        ) by {
            if i != m.to.0 {
                assert(p.board[i] == r.board[i]);
            }
        }
    }
    assert(r.target_consistent());
    assert(r.rights_consistent());
    assert(r.counts_bounded()) by {
        assert(p.counts_bounded());
        let key = placement(q.board);
        assert(r.unique_positions == recorded(p.unique_positions, key));
        lemma_first_index_bounds(p.unique_positions, key, 0);
        assert(r.full_moves == p.full_moves + 1);
        assert forall|i: int| 0 <= i < r.unique_positions.len() implies (
        #[trigger] r.unique_positions[i]).1 <= r.full_moves + 1 by {
            if i < p.unique_positions.len() {
                assert(p.unique_positions[i].1 <= p.full_moves + 1);
            }
        }
    }
}

/// Whether every move of the list starts on `sq`.
pub open spec fn all_start_on(moves: Seq<Move>, sq: Square) -> bool {
    forall|i: int| 0 <= i < moves.len() ==> (#[trigger] moves[i]).from == sq
}

proof fn lemma_all_start_on_add(a: Seq<Move>, b: Seq<Move>, sq: Square)
    requires
        all_start_on(a, sq),
        all_start_on(b, sq),
    ensures
        all_start_on(a + b, sq),
{
    assert forall|i: int| 0 <= i < (a + b).len() implies (#[trigger] (a + b)[i]).from == sq by {
        if i < a.len() {
            assert((a + b)[i] == a[i]);
        } else {
            assert((a + b)[i] == b[i - a.len()]);
        }
    }
}

proof fn lemma_slide_starts(p: Position, from: Square, cur: Square, delta: i8)
    ensures
        all_start_on(slide(p, from, cur, delta), from),
    decreases
            (if delta > 0 {
                128 - cur.0
            } else {
                cur.0 as int
            }),
{
    if cur.valid() && delta != 0 {
        match cur.spec_add(delta as int) {
            Err(_) => {},
            Ok(to) => {
                if p.piece_at(to) is None {
                    lemma_slide_starts(p, from, to, delta);
                    lemma_all_start_on_add(seq![plain(from, to)], slide(p, from, to, delta), from);
                }
            },
        }
    }
}

proof fn lemma_sliding_moves_start(p: Position, from: Square, kind: PType, k: int)
    ensures
        all_start_on(sliding_moves(p, from, kind, k), from),
    decreases k,
{
    if 0 < k <= sliding_deltas(kind).len() {
        lemma_sliding_moves_start(p, from, kind, k - 1);
        lemma_slide_starts(p, from, from, sliding_deltas(kind)[k - 1]);
        lemma_all_start_on_add(
            sliding_moves(p, from, kind, k - 1),
            slide(p, from, from, sliding_deltas(kind)[k - 1]),
            from,
        );
    }
}

proof fn lemma_knight_moves_start(p: Position, from: Square, k: int)
    ensures
        all_start_on(knight_moves(p, from, k), from),
    decreases k,
{
    if 0 < k <= 8 {
        lemma_knight_moves_start(p, from, k - 1);
        lemma_all_start_on_add(
            knight_moves(p, from, k - 1),
            knight_jump(p, from, knight_deltas()[k - 1]),
            from,
        );
    }
}

proof fn lemma_king_moves_start(p: Position, from: Square, k: int)
    ensures
        all_start_on(king_moves(p, from, k), from),
    decreases k,
{
    if 0 < k <= 10 {
        lemma_king_moves_start(p, from, k - 1);
        lemma_all_start_on_add(
            king_moves(p, from, k - 1),
            king_step(p, from, king_deltas()[k - 1]),
            from,
        );
    }
}

proof fn lemma_pawn_moves_start(p: Position, from: Square, color: Color)
    ensures
        all_start_on(pawn_moves(p, from, color), from),
{
    let deltas = pawn_deltas(color);
    let single = pawn_single(p, from, color);
    let double = pawn_double(p, from, color);
    let left = pawn_capture(p, from, color, deltas[2]);
    let right = pawn_capture(p, from, color, deltas[3]);
    lemma_all_start_on_add(single, double, from);
    lemma_all_start_on_add(single + double, left, from);
    lemma_all_start_on_add(single + double + left, right, from);
}

/// The moves of a square start on that square: every pseudo-legal move of
/// the piece on `sq`, and so every legal one, leads away from `sq`.
pub proof fn law_moves_start_on_their_square(p: Position, sq: Square, m: Move)
    requires
        pseudo_legal_moves(p, sq).contains(m) || legal_moves(p, sq).contains(m),
    ensures
        m.from == sq,
{
    if legal_moves(p, sq).contains(m) {
        lemma_legal_is_pseudo_legal(p, sq, m);
    }
    let pseudo = pseudo_legal_moves(p, sq);
    match p.piece_at(sq) {
        None => {},
        Some(piece) => {
            match piece.p_type {
                PType::QUEEN | PType::ROOK | PType::BISHOP => {
                    lemma_sliding_moves_start(
                        p,
                        sq,
                        piece.p_type,
                        sliding_deltas(piece.p_type).len() as int,
                    );
                },
                PType::KNIGHT => {
                    lemma_knight_moves_start(p, sq, 8);
                },
                PType::PAWN => {
                    lemma_pawn_moves_start(p, sq, piece.color);
                },
                PType::KING => {
                    lemma_king_moves_start(p, sq, 10);
                },
            }
        },
    }
    let i = choose|i: int| 0 <= i < pseudo.len() && pseudo[i] == m;
    assert(pseudo[i].from == sq);
}

/// Whether `m` is a legal move in `p`: it moves a piece of the side to move
/// and is among the legal moves of its origin.
pub open spec fn is_legal(p: Position, m: Move) -> bool {
    &&& m.from.valid()
    &&& p.piece_at(m.from) is Some
    &&& p.piece_at(m.from)->Some_0.color == p.side_to_move
    &&& legal_moves(p, m.from).contains(m)
}

/// A legal move in a well-formed position is plausible.
pub proof fn lemma_legal_move_plausible(p: Position, m: Move)
    requires
        p.wf(),
        is_legal(p, m),
    ensures
        p.plausible(m),
{
    lemma_legal_is_pseudo_legal(p, m.from, m);
    lemma_pseudo_legal_plausible(p, m.from);
    let pseudo = pseudo_legal_moves(p, m.from);
    let i = choose|i: int| 0 <= i < pseudo.len() && pseudo[i] == m;
    assert(p.plausible(pseudo[i]));
}

/// Make and unmake are inverse: taking back a legal move, right after it
/// was made or after it was played, gives the position back in every
/// field: board, rights, counters, en-passant target, repetition table,
/// check status, remembered kings, captures and history.
pub proof fn law_unmake_inverts_make(p: Position, m: Move)
    requires
        p.wf(),
        p.has_room(),
        is_legal(p, m),
    ensures
        p.make(m).unmake() == p,
        p.played(m).unmake() == p,
{
    lemma_legal_move_plausible(p, m);
    lemma_make_unmake(p, m);
    let q = p.make(m);
    let r = p.played(m);
    assert(r.history == q.history);
    assert(r.captures == q.captures);
    assert(r.unmake() == q.unmake());
}

/// Legal moves never leave the own king attacked: every legal move of the
/// piece on `sq` is a pseudo-legal move of that piece after which the king
/// of the side to move is not attacked.
pub proof fn law_legal_moves_keep_king_safe(p: Position, sq: Square, m: Move)
    requires
        legal_moves(p, sq).contains(m),
    ensures
        pseudo_legal_moves(p, sq).contains(m),
        keeps_king_safe(p, m),
{
    lemma_legal_is_pseudo_legal(p, sq, m);
}

/// The same of the moves of a whole side: each of them is a legal move of
/// a piece of that side, and keeps the king safe.
pub proof fn law_all_legal_moves_keep_king_safe(p: Position, color: Color, n: int, m: Move)
    requires
        legal_moves_below(p, color, n).contains(m),
    ensures
        keeps_king_safe(p, m),
        exists|sq: Square|
            sq.valid() && p.piece_at(sq) is Some && p.piece_at(sq)->Some_0.color == color
                && #[trigger] legal_moves(p, sq).contains(m),
    decreases n,
{
    if 0 < n <= 128 {
        let sq = Square((n - 1) as u8);
        let head = legal_moves_below(p, color, n - 1);
        let tail = if sq.valid() && p.piece_at(sq) is Some && p.piece_at(sq)->Some_0.color == color {
            legal_moves(p, sq)
        } else {
            Seq::empty()
        };
        let all = head + tail;
        let i = choose|i: int| 0 <= i < all.len() && all[i] == m;
        if i < head.len() {
            assert(head[i] == m);
            law_all_legal_moves_keep_king_safe(p, color, n - 1, m);
        } else {
            assert(tail[i - head.len()] == m);
            assert(legal_moves(p, sq).contains(m));
            lemma_legal_is_pseudo_legal(p, sq, m);
        }
    }
}

/// Where the search for a key ends, the key stands; before that, it does not.
pub proof fn lemma_first_index_finds(t: Occurrences, key: Seq<char>, from: int)
    requires
        0 <= from <= t.len(),
    ensures
        first_index(t, key, from) < t.len() ==> t[first_index(t, key, from)].0 == key,
        forall|j: int| from <= j < first_index(t, key, from) ==> (#[trigger] t[j]).0 != key,
    decreases t.len() - from,
{
    lemma_first_index_bounds(t, key, from);
    if from < t.len() && t[from].0 != key {
        lemma_first_index_finds(t, key, from + 1);
    }
}

/// The search for a key ends at the first place where the key stands.
pub proof fn lemma_first_index_is(t: Occurrences, key: Seq<char>, from: int, at: int)
    requires
        0 <= from <= at <= t.len(),
        forall|j: int| from <= j < at ==> (#[trigger] t[j]).0 != key,
        at < t.len() ==> t[at].0 == key,
    ensures
        first_index(t, key, from) == at,
    decreases at - from,
{
    if from < at {
        lemma_first_index_is(t, key, from + 1, at);
    }
}

/// The repetition table counts as a mapping does: recording a placement
/// adds one to its count and leaves the count of every other placement as
/// it was.
pub proof fn law_recording_counts(t: Occurrences, key: Seq<char>, other: Seq<char>)
    ensures
        occurrences_of(recorded(t, key), key) == occurrences_of(t, key) + 1,
        other != key ==> occurrences_of(recorded(t, key), other) == occurrences_of(t, other),
{
    let after = recorded(t, key);
    let at = first_index(t, key, 0);
    lemma_first_index_finds(t, key, 0);
    lemma_first_index_bounds(t, key, 0);
    lemma_first_index_is(after, key, 0, at);
    if other != key {
        let there = first_index(t, other, 0);
        lemma_first_index_finds(t, other, 0);
        lemma_first_index_bounds(t, other, 0);
        if there < t.len() {
            lemma_first_index_is(after, other, 0, there);
        } else {
            lemma_first_index_is(after, other, 0, after.len() as int);
        }
    }
}

/// Castling rights only fall: a right that stands after a move stood before it.
pub proof fn law_rights_only_fall(p: Position, m: Move)
    ensures
        p.make(m).castling_rights.white_kingside ==> p.castling_rights.white_kingside,
        p.make(m).castling_rights.white_queenside ==> p.castling_rights.white_queenside,
        p.make(m).castling_rights.black_kingside ==> p.castling_rights.black_kingside,
        p.make(m).castling_rights.black_queenside ==> p.castling_rights.black_queenside,
        p.played(m).castling_rights == p.make(m).castling_rights,
{
}

/// The history is as deep as the moves made and not taken back: making a
/// move adds one entry, taking one back removes one, and nothing else
/// touches it.
pub proof fn law_history_depth(p: Position, m: Move)
    ensures
        p.make(m).history.len() == p.history.len() + 1,
        p.played(m).history.len() == p.history.len() + 1,
        p.history.len() > 0 ==> p.unmake().history.len() == p.history.len() - 1,
        p.history.len() == 0 ==> p.unmake() == p,
{
}

/// Playing passes the turn on: after a legal move is played the other side
/// is to move.
pub proof fn law_playing_alternates_turns(p: Position, m: Move)
    ensures
        p.played(m).side_to_move == p.side_to_move.spec_opposite(),
{
}

/// What loads is written as it was read: a position string that loads is
/// the position string of the position it loads as.
pub proof fn law_round_trip(s: Seq<char>)
    requires
        loaded(s) is Ok,
    ensures
        fen_text(loaded(s)->Ok_0) == s,
        loaded(s)->Ok_0.wf(),
{
    let f = fields(s)->Some_0;
    lemma_placed_keeps_books(f[0], 0, 7, 0, GameState::spec_new());
    lemma_placed_board_len(f[0], 0, 7, 0, GameState::spec_new());
}

} // verus!
