use crate::board::Board;
use crate::constants::{can_attack, knight_delta, queen_delta};
use crate::error::Error;
use crate::fen::{
    castling_text, fen_text, find_space, lemma_placed_keeps_books, loaded, one_king_each, parsed,
    place_pieces, placement, placement_string, read_counter, read_rights, read_target, target_text,
};
use crate::laws::{
    lemma_legal_is_pseudo_legal, lemma_plausible_can_make, lemma_played_wf,
    lemma_pseudo_legal_plausible,
};
use crate::material::{has_insufficient_material, insufficient_material};
use crate::move_gen::{legal_moves, MoveGen};
use crate::piece::{Color, PType, Piece};
use crate::position::{
    attack_rays, attacked, backward, castles_kingside, castles_queenside, first_index, knight_attack,
    knight_attacks, line_attacks, ray_attack, recorded, updated_rights, Capture, CastlingRights,
    Move, Occurrences, Position, Snapshot,
};
use crate::square::{on_board, Square};
use crate::text::push_decimal;
use crate::utils::is_valid_idx;
use vstd::prelude::*;
use vstd::string::StrSliceExecFns;

verus! {

broadcast use crate::board::Board::lemma_len;

/// One line of the repetition table: a placement and how often it occurred.
pub struct PositionCount {
    pub placement: String,
    pub count: u16,
}

impl PositionCount {
    pub open spec fn view(&self) -> (Seq<char>, nat) {
        (self.placement@, self.count as nat)
    }
}

/// The repetition table as mathematics.
pub open spec fn table_view(t: Seq<PositionCount>) -> Occurrences {
    t.map_values(|e: PositionCount| e@)
}

/// What make-move keeps to take the move back.
pub struct HistoryEntry {
    pub(crate) m: Move,
    pub(crate) piece: Piece,
    pub(crate) castling_rights: CastlingRights,
    pub(crate) en_passant_sq: Option<Square>,
    pub(crate) half_moves: u8,
    pub(crate) full_moves: u8,
    pub(crate) is_queenside_castle: bool,
    pub(crate) is_kingside_castle: bool,
    pub(crate) has_moved: bool,
    pub(crate) unique_positions: Vec<PositionCount>,
    pub(crate) side_to_move: Color,
    pub(crate) is_capture: bool,
    pub(crate) check_rays: Vec<Square>,
}

impl HistoryEntry {
    pub open(crate) spec fn view(&self) -> Snapshot {
        Snapshot {
            m: self.m,
            piece: self.piece,
            castling_rights: self.castling_rights,
            en_passant_sq: self.en_passant_sq,
            half_moves: self.half_moves,
            full_moves: self.full_moves,
            is_queenside_castle: self.is_queenside_castle,
            is_kingside_castle: self.is_kingside_castle,
            has_moved: self.has_moved,
            unique_positions: table_view(self.unique_positions@),
            side_to_move: self.side_to_move,
            is_capture: self.is_capture,
            check_rays: self.check_rays@,
        }
    }
}

/// The history as mathematics.
pub open spec fn history_view(h: Seq<HistoryEntry>) -> Seq<Snapshot> {
    h.map_values(|e: HistoryEntry| e@)
}

/// The state of a game: the board and everything else that the rules need,
/// with the history of the moves made.
pub struct GameState {
    pub board: Board,
    pub en_passant_sq: Option<Square>,
    pub side_to_move: Color,
    pub is_in_check: bool,
    pub white_king_square: Option<Square>,
    pub black_king_square: Option<Square>,
    pub(crate) check_rays: Vec<Square>,
    pub(crate) castling_rights: CastlingRights,
    pub captures: Vec<Capture>,
    pub(crate) unique_positions: Vec<PositionCount>,
    pub(crate) half_moves: u8,
    pub(crate) full_moves: u8,
    pub(crate) history: Vec<HistoryEntry>,
    pub(crate) has_moved: bool,
}

/// A copy of a list of squares.
pub fn copy_squares(src: &Vec<Square>) -> (dst: Vec<Square>)
    ensures
        dst@ == src@,
{
    let mut dst: Vec<Square> = Vec::new();
    let mut i: usize = 0;
    while i < src.len()
        invariant
            i <= src.len(),
            dst@ == src@.take(i as int),
        decreases src.len() - i,
    {
        dst.push(src[i]);
        assert(dst@ =~= src@.take(i + 1));
        i += 1;
    }
    assert(src@.take(src.len() as int) =~= src@);
    dst
}

/// A copy of a repetition table.
pub fn copy_table(src: &Vec<PositionCount>) -> (dst: Vec<PositionCount>)
    ensures
        table_view(dst@) == table_view(src@),
{
    let mut dst: Vec<PositionCount> = Vec::new();
    let mut i: usize = 0;
    while i < src.len()
        invariant
            i <= src.len(),
            dst.len() == i,
            forall|j: int| 0 <= j < i ==> (#[trigger] dst@[j])@ == src@[j]@,
        decreases src.len() - i,
    {
        dst.push(PositionCount { placement: src[i].placement.clone(), count: src[i].count });
        i += 1;
    }
    assert(table_view(dst@) =~= table_view(src@));
    dst
}

/// Appends the castling field.
fn push_castling(text: &mut String, rights: &CastlingRights)
    ensures
        final(text)@ == old(text)@ + castling_text(*rights),
{
    let mut any = false;
    if rights.white_kingside {
        text.push('K');
        any = true;
    }
    let ghost one = text@;
    assert(one =~= old(text)@ + (if rights.white_kingside {
        seq!['K']
    } else {
        Seq::empty()
    }));
    if rights.white_queenside {
        text.push('Q');
        any = true;
    }
    let ghost two = text@;
    assert(two =~= one + (if rights.white_queenside {
        seq!['Q']
    } else {
        Seq::empty()
    }));
    if rights.black_kingside {
        text.push('k');
        any = true;
    }
    let ghost three = text@;
    assert(three =~= two + (if rights.black_kingside {
        seq!['k']
    } else {
        Seq::empty()
    }));
    if rights.black_queenside {
        text.push('q');
        any = true;
    }
    let ghost four = text@;
    assert(four =~= three + (if rights.black_queenside {
        seq!['q']
    } else {
        Seq::empty()
    }));
    if !any {
        text.push('-');
    }
    assert(text@ =~= old(text)@ + castling_text(*rights));
}

/// Appends the en-passant field.
fn push_target(text: &mut String, target: Option<Square>)
    ensures
        final(text)@ == old(text)@ + target_text(target),
{
    match target {
        Some(sq) => {
            text.push((sq.file() + 97) as char);
            push_decimal(text, sq.rank() + 1);
        },
        None => {
            text.push('-');
        },
    }
    assert(text@ =~= old(text)@ + target_text(target));
}

/// The verdict on a move offered for play: the error that turns it down, or
/// nothing against it.
pub open spec fn play_verdict(p: Position, m: Move) -> Result<(), Error> {
    if p.piece_at(m.from) is None {
        Err(Error::UnknownMove)
    } else if p.piece_at(m.from)->Some_0.color != p.side_to_move {
        Err(Error::MustWaitForTurn)
    } else if !legal_moves(p, m.from).contains(m) {
        Err(Error::IllegalMove)
    } else {
        Ok(())
    }
}

/// Whether `m` is among `moves`.
pub fn contains_move(moves: &Vec<Move>, m: &Move) -> (found: bool)
    ensures
        found == moves@.contains(*m),
{
    let mut i: usize = 0;
    while i < moves.len()
        invariant
            i <= moves.len(),
            forall|j: int| 0 <= j < i ==> moves@[j] != *m,
        decreases moves.len() - i,
    {
        if moves[i].same(m) {
            return true;
        }
        i += 1;
    }
    false
}

/// Counts one more occurrence of the placement `key`.
pub fn record_placement(table: &mut Vec<PositionCount>, key: String)
    requires
        forall|i: int| 0 <= i < old(table).len() ==> (#[trigger] old(table)@[i]).count < 0xffff,
    ensures
        table_view(final(table)@) == recorded(table_view(old(table)@), key@),
{
    let ghost before = table_view(table@);
    let mut i: usize = 0;
    while i < table.len()
        invariant
            i <= table.len(),
            *table == *old(table),
            before == table_view(table@),
            first_index(before, key@, 0) == first_index(before, key@, i as int),
            forall|i: int| 0 <= i < old(table).len() ==> (#[trigger] old(table)@[i]).count < 0xffff,
        decreases table.len() - i,
    {
        if table[i].placement == key {
            let count = table[i].count;
            table.set(i, PositionCount { placement: key, count: count + 1 });
            assert(table_view(table@) =~= recorded(before, key@));
            return ;
        }
        i += 1;
    }
    table.push(PositionCount { placement: key, count: 1 });
    assert(table_view(table@) =~= recorded(before, key@));
}

impl GameState {
    /// The state as mathematics.
    pub open(crate) spec fn view(&self) -> Position {
        Position {
            board: self.board@,
            en_passant_sq: self.en_passant_sq,
            side_to_move: self.side_to_move,
            is_in_check: self.is_in_check,
            white_king_square: self.white_king_square,
            black_king_square: self.black_king_square,
            check_rays: self.check_rays@,
            castling_rights: self.castling_rights,
            captures: self.captures@,
            unique_positions: table_view(self.unique_positions@),
            half_moves: self.half_moves,
            full_moves: self.full_moves,
            has_moved: self.has_moved,
            history: history_view(self.history@),
        }
    }

    /// The state before any position is loaded: an empty board, white to
    /// move, no rights, no history.
    pub open spec fn spec_new() -> Position {
        Position {
            board: Board::empty_slots(),
            en_passant_sq: None,
            side_to_move: Color::WHITE,
            is_in_check: false,
            white_king_square: None,
            black_king_square: None,
            check_rays: Seq::empty(),
            castling_rights: CastlingRights::spec_none(),
            captures: Seq::empty(),
            unique_positions: Seq::empty(),
            half_moves: 0,
            full_moves: 0,
            has_moved: false,
            history: Seq::empty(),
        }
    }

    /// An empty state.
    pub fn new() -> (state: GameState)
        ensures
            state@ == GameState::spec_new(),
            state@.wf(),
    {
        proof {
            lemma_new_wf();
        }
        let state = GameState {
            side_to_move: Color::WHITE,
            board: Board::new(),
            en_passant_sq: None,
            is_in_check: false,
            check_rays: Vec::new(),
            white_king_square: None,
            black_king_square: None,
            castling_rights: CastlingRights::default(),
            captures: Vec::new(),
            full_moves: 0,
            half_moves: 0,
            unique_positions: Vec::new(),
            has_moved: false,
            history: Vec::new(),
        };
        assert(state@.unique_positions =~= Seq::empty());
        assert(state@.history =~= Seq::empty());
        state
    }

    /// Back to the empty state.
    pub fn reset(&mut self)
        ensures
            final(self)@ == GameState::spec_new(),
    {
        self.side_to_move = Color::WHITE;
        self.board = Board::new();
        self.en_passant_sq = None;
        self.is_in_check = false;
        self.check_rays = Vec::new();
        self.white_king_square = None;
        self.black_king_square = None;
        self.castling_rights = CastlingRights::default();
        self.captures = Vec::new();
        self.full_moves = 0;
        self.half_moves = 0;
        self.unique_positions = Vec::new();
        self.has_moved = false;
        self.history = Vec::new();
        assert(self@.unique_positions =~= Seq::empty());
        assert(self@.history =~= Seq::empty());
    }

    /// Puts `piece` on `sq`; a king is remembered there.
    pub fn set(&mut self, piece: Piece, sq: &Square)
        requires
            sq.valid(),
        ensures
            final(self)@ == old(self)@.with_piece(piece, *sq),
    {
        if piece.p_type == PType::KING {
            self.update_king_sq(*sq, piece.color);
        }
        self.board.set(piece, &sq.0);
    }

    fn update_king_sq(&mut self, sq: Square, color: Color)
        ensures
            final(self)@ == match color {
                Color::WHITE => Position { white_king_square: Some(sq), ..old(self)@ },
                Color::BLACK => Position { black_king_square: Some(sq), ..old(self)@ },
            },
    {
        if color == Color::WHITE {
            self.white_king_square = Some(sq);
        } else {
            self.black_king_square = Some(sq);
        }
    }

    /// The squares from which `sq` is attacked along direction `delta`.
    fn get_ray(&self, sq: Square, delta: i8) -> (ray: Vec<Square>)
        requires
            sq.valid(),
            delta != 0,
        ensures
            ray@ == ray_attack(self@.board, self@.side_to_move, sq, sq, delta),
    {
        let ghost board = self@.board;
        let ghost side = self@.side_to_move;
        let mut temp = sq;
        let mut visiting: Vec<Square> = Vec::new();
        let mut attacker_present = false;
        loop
            invariant_except_break
                temp.valid(),
                !attacker_present,
                ray_attack(board, side, sq, sq, delta) == (if ray_attack(
                    board,
                    side,
                    sq,
                    temp,
                    delta,
                ).len() > 0 {
                    visiting@ + ray_attack(board, side, sq, temp, delta)
                } else {
                    Seq::empty()
                }),
            invariant
                sq.valid(),
                delta != 0,
                board == self@.board,
                side == self@.side_to_move,
                board.len() == 128,
            ensures
                attacker_present ==> visiting@ == ray_attack(board, side, sq, sq, delta),
                !attacker_present ==> ray_attack(board, side, sq, sq, delta).len() == 0,
            decreases
                    (if delta > 0 {
                        128 - temp.0
                    } else {
                        temp.0 as int
                    }),
        {
            match temp.add(delta) {
                Err(_) => {
                    break ;
                },
                Ok(to_sq) => {
                    match self.board.get(&to_sq.0) {
                        None => {
                            let ghost walked = visiting@;
                            visiting.push(to_sq);
                            proof {
                                let rest = ray_attack(board, side, sq, to_sq, delta);
                                if rest.len() > 0 {
                                    assert(walked + (seq![to_sq] + rest) =~= visiting@ + rest);
                                }
                            }
                            temp = to_sq;
                        },
                        Some(piece) => {
                            if piece.color != self.side_to_move && can_attack(
                                piece,
                                delta,
                                temp == sq,
                            ) {
                                let ghost walked = visiting@;
                                visiting.push(to_sq);
                                attacker_present = true;
                                assert(visiting@ =~= walked + seq![to_sq]);
                            }
                            break ;
                        },
                    }
                },
            }
        }
        if attacker_present {
            visiting
        } else {
            Vec::new()
        }
    }

    /// The attack geometry of `sq`, seen by the side to move.
    pub fn get_attack_rays(&self, sq: Square) -> (rays: Vec<Square>)
        requires
            sq.valid(),
        ensures
            rays@ == attack_rays(self@.board, self@.side_to_move, sq),
    {
        let mut rays: Vec<Square> = Vec::new();
        let mut k: usize = 0;
        while k < 8
            invariant
                k <= 8,
                sq.valid(),
                rays@ == line_attacks(self@.board, self@.side_to_move, sq, k as int),
            decreases 8 - k,
        {
            let delta = queen_delta(k);
            let mut ray = self.get_ray(sq, delta);
            rays.append(&mut ray);
            k += 1;
        }
        let ghost lines = rays@;
        k = 0;
        while k < 8
            invariant
                k <= 8,
                sq.valid(),
                lines == line_attacks(self@.board, self@.side_to_move, sq, 8),
                rays@ == lines + knight_attacks(self@.board, self@.side_to_move, sq, k as int),
            decreases 8 - k,
        {
            let delta = knight_delta(k);
            let ghost before = rays@;
            if let Ok(to_sq) = sq.add(delta) {
                if let Some(piece) = self.board.get(&to_sq.0) {
                    if piece.p_type == PType::KNIGHT && piece.color != self.side_to_move {
                        rays.push(to_sq);
                    }
                }
            }
            assert(rays@ =~= before + knight_attack(self@.board, self@.side_to_move, sq, delta));
            assert(rays@ =~= lines + knight_attacks(self@.board, self@.side_to_move, sq, k + 1));
            k += 1;
        }
        rays
    }

    /// Whether a piece of the side that is not to move attacks `sq`.
    pub fn is_attacked(&self, sq: Square) -> (r: bool)
        requires
            sq.valid(),
        ensures
            r == attacked(self@.board, self@.side_to_move, sq),
    {
        self.get_attack_rays(sq).len() > 0
    }

    /// The remembered square of the king of the side to move.
    pub fn get_current_king_sq(&self) -> (sq: Option<Square>)
        ensures
            sq == self@.current_king_sq(),
    {
        if self.side_to_move == Color::WHITE {
            self.white_king_square
        } else {
            self.black_king_square
        }
    }

    /// The two rights of the side to move: kingside, queenside.
    pub fn get_castling_rights(&self) -> (rights: (bool, bool))
        ensures
            rights == self@.current_rights(),
    {
        if self.side_to_move == Color::WHITE {
            (self.castling_rights.white_kingside, self.castling_rights.white_queenside)
        } else {
            (self.castling_rights.black_kingside, self.castling_rights.black_queenside)
        }
    }

    /// The squares that give check, as last worked out.
    pub fn get_check_rays(&self) -> (rays: Vec<Square>)
        ensures
            rays@ == self@.check_rays,
    {
        copy_squares(&self.check_rays)
    }

    /// Works out the check status of the side to move anew.
    pub fn update_king_attacks(&mut self)
        requires
            old(self)@.current_king_sq() is Some ==> old(self)@.current_king_sq()->Some_0.valid(),
        ensures
            final(self)@ == old(self)@.with_check_status(),
    {
        match self.get_current_king_sq() {
            Some(king_sq) => {
                self.check_rays = self.get_attack_rays(king_sq);
                self.is_in_check = self.check_rays.len() > 0;
            },
            None => {
                self.check_rays = Vec::new();
                self.is_in_check = false;
            },
        }
    }

    /// Whether `piece` belongs to the side to move.
    pub fn is_friendly(&self, piece: &Piece) -> (r: bool)
        ensures
            r == (piece.color == self@.side_to_move),
    {
        piece.color == self.side_to_move
    }

    /// Whether a piece stands on `sq`.
    pub fn is_occupied(&self, sq: &Square) -> (r: bool)
        requires
            sq.valid(),
        ensures
            r == self@.piece_at(*sq) is Some,
    {
        self.board.get(&sq.0).is_some()
    }

    /// Whether `m` moves a pawn onto the en-passant target.
    fn is_enpassant_capture(&self, m: &Move) -> (r: bool)
        requires
            m.from.valid(),
        ensures
            r == self@.is_enpassant_capture(*m),
    {
        match self.board.get(&m.from.0) {
            Some(p) => p.p_type == PType::PAWN && match self.en_passant_sq {
                Some(target) => target == m.to,
                None => false,
            },
            None => false,
        }
    }

    /// Whether `m` is a double step of a pawn that lands beside a pawn of the other side.
    fn is_enpassant_move(&self, m: &Move) -> (r: bool)
        requires
            m.from.valid(),
            m.to.valid(),
        ensures
            r == self@.is_enpassant_move(*m),
    {
        let p = match self.board.get(&m.from.0) {
            Some(p) => *p,
            None => {
                return false;
            },
        };
        if p.p_type != PType::PAWN {
            return false;
        }
        let step: i16 = m.to.0 as i16 - m.from.0 as i16;
        if step != 32 && step != -32 {
            return false;
        }
        let right = self.enemy_pawn_beside(m.to, p.color, 1);
        let left = self.enemy_pawn_beside(m.to, p.color, -1);
        right || left
    }

    fn enemy_pawn_beside(&self, sq: Square, color: Color, d: i8) -> (r: bool)
        requires
            sq.valid(),
        ensures
            r == self@.enemy_pawn_beside(sq, color, d as int),
    {
        match sq.add(d) {
            Ok(to) => match self.board.get(&to.0) {
                Some(piece) => piece.p_type == PType::PAWN && piece.color != color,
                None => false,
            },
            Err(_) => false,
        }
    }

    /// Whether `m` takes a piece.
    fn is_capture(&self, m: &Move) -> (r: bool)
        requires
            m.from.valid(),
            m.to.valid(),
        ensures
            r == self@.is_capture(*m),
    {
        match self.board.get(&m.to.0) {
            Some(p) => p.color != self.side_to_move,
            None => self.is_enpassant_capture(m),
        }
    }

    /// Whether `m` moves two files sideways, as a castling king does.
    pub fn is_castling(&self, m: &Move) -> (r: bool)
        ensures
            r == (m.to.0 - m.from.0 == 2 || m.to.0 - m.from.0 == -2),
    {
        let step: i16 = m.to.0 as i16 - m.from.0 as i16;
        step == 2 || step == -2
    }

    /// Whether `m` moves two files to the right from a king's home square.
    pub fn is_castling_kingside(&self, m: &Move) -> (r: bool)
        ensures
            r == castles_kingside(*m),
    {
        (m.from.0 == 0x04 || m.from.0 == 0x74) && m.to.0 as i16 - m.from.0 as i16 == 2
    }

    /// Whether `m` moves two files to the left from a king's home square.
    pub fn is_castling_queenside(&self, m: &Move) -> (r: bool)
        ensures
            r == castles_queenside(*m),
    {
        (m.from.0 == 0x04 || m.from.0 == 0x74) && m.to.0 as i16 - m.from.0 as i16 == -2
    }

    fn is_rook_of(&self, idx: u8, color: Color) -> (r: bool)
        requires
            idx < 128,
        ensures
            r == (self@.board[idx as int] == Some(Piece { p_type: PType::ROOK, color })),
    {
        match self.board.get(&idx) {
            Some(p) => p.p_type == PType::ROOK && p.color == color,
            None => false,
        }
    }

    /// Takes away the rights that a move of `piece` along `m` ended.
    fn update_castling_rights(&mut self, piece: &Piece, m: &Move)
        ensures
            final(self)@ == (Position {
                castling_rights: updated_rights(
                    old(self)@.board,
                    old(self)@.castling_rights,
                    *piece,
                    *m,
                ),
                ..old(self)@
            }),
    {
        let rights = self.castling_rights;
        let king = piece.p_type == PType::KING;
        let rook = piece.p_type == PType::ROOK;
        let white = piece.color == Color::WHITE;
        let white_queenside = rights.white_queenside && self.is_rook_of(0x00, Color::WHITE) && !(king
            && white) && !(rook && white && m.from.0 == 0x00);
        let white_kingside = rights.white_kingside && self.is_rook_of(0x07, Color::WHITE) && !(king
            && white) && !(rook && white && m.from.0 == 0x07);
        let black_queenside = rights.black_queenside && self.is_rook_of(0x70, Color::BLACK) && !(king
            && !white) && !(rook && !white && m.from.0 == 0x70);
        let black_kingside = rights.black_kingside && self.is_rook_of(0x77, Color::BLACK) && !(king
            && !white) && !(rook && !white && m.from.0 == 0x77);
        self.castling_rights =
        CastlingRights { white_kingside, white_queenside, black_kingside, black_queenside };
    }

    /// Counts the placement on the board once more in the repetition table.
    fn update_positions(&mut self)
        requires
            forall|i: int|
                0 <= i < old(self)@.unique_positions.len() ==> (
                #[trigger] old(self)@.unique_positions[i]).1 < 0xffff,
        ensures
            final(self)@ == (Position {
                unique_positions: recorded(
                    old(self)@.unique_positions,
                    placement(old(self)@.board),
                ),
                ..old(self)@
            }),
    {
        assert forall|i: int| 0 <= i < self.unique_positions.len() implies (
        #[trigger] self.unique_positions@[i]).count < 0xffff by {
            assert(self@.unique_positions[i].1 == self.unique_positions@[i].count);
        }
        let key = placement_string(&self.board);
        record_placement(&mut self.unique_positions, key);
    }

    /// Takes what `m` captures off the board and onto the list of captures.
    fn take_captured(&mut self, m: &Move, piece: Piece)
        requires
            old(self)@.can_make(*m),
            old(self)@.piece_at(m.from) == Some(piece),
        ensures
            final(self)@ == old(self)@.after_capture(*m),
    {
        if self.is_capture(m) {
            if self.is_enpassant_capture(m) {
                let back: i8 = match piece.color {
                    Color::WHITE => -16,
                    Color::BLACK => 16,
                };
                let behind = m.to.add(back).unwrap();
                self.board.remove(&behind.0);
                self.captures.push(
                    Capture { sq: behind, piece: Piece::new(PType::PAWN, piece.color.opposite()) },
                );
            } else {
                let taken = *self.board.get(&m.to.0).unwrap();
                self.captures.push(Capture { sq: m.to, piece: taken });
            }
        }
    }

    /// Moves the rook of a castling king to the king's other side.
    fn move_castling_rook(&mut self, m: &Move, piece: Piece)
        requires
            m.from.valid(),
            m.to.valid(),
            old(self)@.piece_at(m.from) == Some(piece),
        ensures
            final(self)@ == old(self)@.after_rook_move(*m),
    {
        if piece.p_type == PType::KING {
            if self.is_castling_kingside(m) {
                self.board.remove(&(m.to.0 + 1));
                self.set(Piece::new(PType::ROOK, piece.color), &Square(m.to.0 - 1));
            } else if self.is_castling_queenside(m) {
                self.board.remove(&(m.to.0 - 2));
                self.set(Piece::new(PType::ROOK, piece.color), &Square(m.to.0 + 1));
            }
        }
    }

    /// Brings the books forward: history, en-passant target, counters.
    fn book(&mut self, entry: HistoryEntry, piece: Piece, m: &Move)
        requires
            m.from.valid(),
            m.to.valid(),
            old(self)@.full_moves < 255,
            old(self)@.half_moves < 255,
            old(self)@.is_enpassant_move(*m) ==> on_board(
                m.to.0 + backward(piece.color),
            ),
        ensures
            final(self)@ == old(self)@.booked(entry@, piece, *m),
    {
        let ghost start = self@;
        let is_capture = entry.is_capture;
        self.history.push(entry);
        assert(history_view(self.history@) =~= start.history.push(entry@));
        let target = if self.is_enpassant_move(m) {
            let back: i8 = match piece.color {
                Color::WHITE => -16,
                Color::BLACK => 16,
            };
            Some(m.to.add(back).unwrap())
        } else {
            None
        };
        self.en_passant_sq = target;
        self.has_moved = true;
        self.full_moves += 1;
        if piece.p_type == PType::PAWN || is_capture {
            self.half_moves = 0;
        } else {
            self.half_moves += 1;
        }
    }

    /// Puts the piece, or what it is promoted to, on the destination and
    /// empties the origin.
    fn settle(&mut self, piece: Piece, m: &Move)
        requires
            m.from.valid(),
            m.to.valid(),
        ensures
            final(self)@ == old(self)@.settled(piece, *m),
    {
        match m.promotion_piece {
            Some(promoted) => {
                self.set(promoted, &m.to);
            },
            None => {
                self.set(piece, &m.to);
            },
        }
        self.board.remove(&m.from.0);
    }

    /// Reads a position string onto a fresh state, field by field.
    fn parse(fen: &str) -> (r: Option<GameState>)
        ensures
            r is Some == parsed(fen@) is Some,
            r is Some ==> r->Some_0@ == parsed(fen@)->Some_0,
            r is Some ==> r->Some_0@.board.len() == 128,
    {
        let n = fen.unicode_len();
        let e0 = find_space(fen, 0);
        if e0 >= n {
            return None;
        }
        let e1 = find_space(fen, e0 + 1);
        if e1 >= n {
            return None;
        }
        let e2 = find_space(fen, e1 + 1);
        if e2 >= n {
            return None;
        }
        let e3 = find_space(fen, e2 + 1);
        if e3 >= n {
            return None;
        }
        let e4 = find_space(fen, e3 + 1);
        if e4 >= n {
            return None;
        }
        let e5 = find_space(fen, e4 + 1);
        let f0 = fen.substring_char(0, e0);
        let f1 = fen.substring_char(e0 + 1, e1);
        let f2 = fen.substring_char(e1 + 1, e2);
        let f3 = fen.substring_char(e2 + 1, e3);
        let f4 = fen.substring_char(e3 + 1, e4);
        let f5 = fen.substring_char(e4 + 1, e5);
        let mut state = GameState::new();
        if !place_pieces(&mut state, f0) {
            return None;
        }
        let side = match Color::try_from(f1) {
            Ok(side) => side,
            Err(_) => {
                return None;
            },
        };
        let rights = match read_rights(f2) {
            Some(rights) => rights,
            None => {
                return None;
            },
        };
        let target = match read_target(f3) {
            Some(target) => target,
            None => {
                return None;
            },
        };
        let half = match read_counter(f4) {
            Some(half) => half,
            None => {
                return None;
            },
        };
        let full = match read_counter(f5) {
            Some(full) => full,
            None => {
                return None;
            },
        };
        state.side_to_move = side;
        state.castling_rights = rights;
        state.en_passant_sq = target;
        state.half_moves = half;
        state.full_moves = full;
        proof {
            lemma_placed_keeps_books(f0@, 0, 7, 0, GameState::spec_new());
            assert(table_view(state.unique_positions@).len() == 0);
        }
        state.unique_positions.push(PositionCount { placement: f0.to_owned(), count: 1 });
        assert(state@.unique_positions =~= seq![(f0@, 1nat)]);
        Some(state)
    }

    /// Whether every king on the board stands where the king of its side
    /// is remembered.
    fn has_kings_remembered(&self) -> (r: bool)
        ensures
            r == self@.kings_remembered(),
    {
        let mut idx: u8 = 0;
        while idx < 128
            invariant
                idx <= 128,
                forall|i: int|
                    0 <= i < idx && (#[trigger] self@.board[i]) is Some && self@.board[i]->Some_0.p_type
                        == PType::KING ==> self@.king_sq(self@.board[i]->Some_0.color) == Some(
                        Square(i as u8),
                    ),
            decreases 128 - idx,
        {
            if let Some(piece) = self.board.get(&idx) {
                if piece.p_type == PType::KING {
                    let remembered = match piece.color {
                        Color::WHITE => self.white_king_square,
                        Color::BLACK => self.black_king_square,
                    };
                    let here = match remembered {
                        Some(sq) => sq.0 == idx,
                        None => false,
                    };
                    if !here {
                        assert(!self@.kings_remembered()) by {
                            assert(self@.board[idx as int] is Some);
                        }
                        return false;
                    }
                }
            }
            idx += 1;
        }
        true
    }

    /// Whether the remembered square of a king, if there is one, lies on the board.
    fn king_square_on_board(sq: Option<Square>) -> (r: bool)
        ensures
            r == (sq is Some ==> sq->Some_0.valid()),
    {
        match sq {
            Some(sq) => is_valid_idx(sq.0).is_ok(),
            None => true,
        }
    }

    /// Whether each side has exactly one king, remembered where it stands.
    fn has_one_king_each(&self) -> (r: bool)
        ensures
            r == one_king_each(self@),
    {
        self.white_king_square.is_some() && self.black_king_square.is_some()
            && GameState::king_square_on_board(self.white_king_square)
            && GameState::king_square_on_board(self.black_king_square)
            && self.has_kings_remembered()
    }

    /// Whether no placement is counted more often than moves were made, and one.
    fn has_counts_bounded(&self) -> (r: bool)
        ensures
            r == self@.counts_bounded(),
    {
        let mut i: usize = 0;
        while i < self.unique_positions.len()
            invariant
                i <= self.unique_positions.len(),
                forall|j: int|
                    0 <= j < i ==> (#[trigger] self@.unique_positions[j]).1 <= self@.full_moves + 1,
            decreases self.unique_positions.len() - i,
        {
            if self.unique_positions[i].count > self.full_moves as u16 + 1 {
                assert(self@.unique_positions[i as int].1 > self@.full_moves + 1);
                return false;
            }
            i += 1;
        }
        true
    }

    /// Whether the state is well-formed: what every state is that was loaded
    /// or reached by play, and what a state may cease to be when its public
    /// fields are written to.
    pub fn is_well_formed(&self) -> (r: bool)
        ensures
            r == self@.wf(),
    {
        GameState::king_square_on_board(self.white_king_square) && GameState::king_square_on_board(
            self.black_king_square,
        ) && self.has_kings_remembered() && self.has_consistent_target()
            && self.has_consistent_rights() && self.is_in_check == (self.check_rays.len() > 0)
            && self.has_counts_bounded()
    }

    /// Whether both move counters can still be stepped.
    pub fn has_room(&self) -> (r: bool)
        ensures
            r == self@.has_room(),
    {
        self.half_moves < 255 && self.full_moves < 255
    }

    /// The half-move clock and the full-move counter.
    pub fn get_counters(&self) -> (r: (u8, u8))
        ensures
            r == (self@.half_moves, self@.full_moves),
    {
        (self.half_moves, self.full_moves)
    }

    /// Whether the en-passant target agrees with the board.
    fn has_consistent_target(&self) -> (r: bool)
        ensures
            r == self@.target_consistent(),
    {
        match self.en_passant_sq {
            None => true,
            Some(target) => {
                if is_valid_idx(target.0).is_err() {
                    return false;
                }
                if self.board.get(&target.0).is_some() {
                    return false;
                }
                let back: i8 = match self.side_to_move {
                    Color::WHITE => -16,
                    Color::BLACK => 16,
                };
                match target.add(back) {
                    Ok(behind) => match self.board.get(&behind.0) {
                        Some(piece) => piece.p_type == PType::PAWN && piece.color
                            != self.side_to_move,
                        None => false,
                    },
                    Err(_) => false,
                }
            },
        }
    }

    /// Whether a castling right, if it stands, agrees with the board.
    fn has_consistent_right(&self, right: bool, color: Color, corner: u8) -> (r: bool)
        requires
            corner < 128,
            self@.king_sq(color) is Some ==> self@.king_sq(color)->Some_0.valid(),
        ensures
            r == self@.right_consistent(right, color, corner as int),
    {
        if !right {
            return true;
        }
        if !self.is_rook_of(corner, color) {
            return false;
        }
        let king = match color {
            Color::WHITE => self.white_king_square,
            Color::BLACK => self.black_king_square,
        };
        let home: u8 = match color {
            Color::WHITE => 0x04,
            Color::BLACK => 0x74,
        };
        match king {
            None => true,
            Some(sq) => {
                let holds_king = match self.board.get(&sq.0) {
                    Some(piece) => piece.p_type == PType::KING && piece.color == color,
                    None => false,
                };
                !holds_king || sq.0 == home
            },
        }
    }

    /// Whether the four castling rights agree with the board.
    fn has_consistent_rights(&self) -> (r: bool)
        requires
            self@.white_king_square is Some ==> self@.white_king_square->Some_0.valid(),
            self@.black_king_square is Some ==> self@.black_king_square->Some_0.valid(),
        ensures
            r == self@.rights_consistent(),
    {
        self.has_consistent_right(self.castling_rights.white_queenside, Color::WHITE, 0x00)
            && self.has_consistent_right(self.castling_rights.white_kingside, Color::WHITE, 0x07)
            && self.has_consistent_right(self.castling_rights.black_queenside, Color::BLACK, 0x70)
            && self.has_consistent_right(self.castling_rights.black_kingside, Color::BLACK, 0x77)
    }

    /// Loads the position that `fen` spells out, in place of whatever the
    /// state held. The string must be in canonical form, each side must
    /// have exactly one king, and the en-passant target and the castling
    /// rights must agree with the board; otherwise the state stays as it was.
    pub fn load_fen(&mut self, fen: &str) -> (r: Result<(), Error>)
        ensures
            match loaded(fen@) {
                Ok(p) => r is Ok && final(self)@ == p,
                Err(e) => r == Err::<(), Error>(e) && final(self)@ == old(self)@,
            },
            r is Ok ==> final(self)@.wf(),
    {
        let mut state = match GameState::parse(fen) {
            Some(state) => state,
            None => {
                return Err(Error::InvalidFen);
            },
        };
        let encoded = state.get_fen();
        let given = fen.to_owned();
        if encoded != given {
            return Err(Error::InvalidFen);
        }
        if !state.has_one_king_each() {
            return Err(Error::NoKingPresent);
        }
        if !state.has_consistent_target() || !state.has_consistent_rights() {
            return Err(Error::InvalidFen);
        }
        state.update_king_attacks();
        *self = state;
        Ok(())
    }

    /// Whether the game is drawn: by stalemate, repetition, the fifty-move
    /// rule or want of material.
    pub fn is_draw(&mut self) -> (r: bool)
        requires
            old(self)@.wf(),
            old(self)@.has_room(),
        ensures
            final(self)@ == old(self)@,
            r == (old(self)@.stalemate() || old(self)@.threefold_repetition() || old(
                self,
            )@.fifty_moves() || insufficient_material(old(self)@.board)),
    {
        self.is_stalemate() || self.is_threefold_repetition() || self.is_50_moves()
            || self.is_insufficient_material()
    }

    /// Whether the side to move is not in check and has no legal move.
    pub fn is_stalemate(&mut self) -> (r: bool)
        requires
            old(self)@.wf(),
            old(self)@.has_room(),
        ensures
            final(self)@ == old(self)@,
            r == old(self)@.stalemate(),
    {
        let color = self.side_to_move;
        !self.is_in_check && MoveGen::moves(self, color).len() == 0
    }

    /// Whether the side to move is in check and has no legal move.
    pub fn is_checkmate(&mut self) -> (r: bool)
        requires
            old(self)@.wf(),
            old(self)@.has_room(),
        ensures
            final(self)@ == old(self)@,
            r == old(self)@.checkmate(),
    {
        let color = self.side_to_move;
        self.is_in_check && MoveGen::moves(self, color).len() == 0
    }

    /// Whether neither side has the material to mate.
    pub fn is_insufficient_material(&self) -> (r: bool)
        ensures
            r == insufficient_material(self@.board),
    {
        has_insufficient_material(&self.board)
    }

    /// Whether a hundred half-moves went by without a pawn move or a capture.
    pub fn is_50_moves(&self) -> (r: bool)
        ensures
            r == self@.fifty_moves(),
    {
        self.half_moves >= 100
    }

    /// Whether some placement occurred three times.
    pub fn is_threefold_repetition(&self) -> (r: bool)
        ensures
            r == self@.threefold_repetition(),
    {
        let mut i: usize = 0;
        while i < self.unique_positions.len()
            invariant
                i <= self.unique_positions.len(),
                forall|j: int| 0 <= j < i ==> (#[trigger] self@.unique_positions[j]).1 < 3,
            decreases self.unique_positions.len() - i,
        {
            if self.unique_positions[i].count >= 3 {
                assert(self@.unique_positions[i as int].1 >= 3);
                return true;
            }
            i += 1;
        }
        false
    }

    /// Plays the move `m` if it is legal: makes it, passes the turn on and
    /// works out the check status. A move from an empty square, of a piece
    /// of the other side, or outside the legal moves of its origin is turned
    /// down, and the state stays as it was.
    pub fn play_move(&mut self, m: Move) -> (r: Result<(), Error>)
        requires
            old(self)@.wf(),
            old(self)@.has_room(),
            m.from.valid(),
        ensures
            r == play_verdict(old(self)@, m),
            r is Ok ==> final(self)@ == old(self)@.played(m),
            r is Err ==> final(self)@ == old(self)@,
            r is Ok ==> final(self)@.side_to_move == old(self)@.side_to_move.spec_opposite(),
            r is Err ==> final(self)@.side_to_move == old(self)@.side_to_move,
            final(self)@.wf(),
    {
        let ghost start = self@;
        if !self.is_occupied(&m.from) {
            return Err(Error::UnknownMove);
        }
        let of_mover = match self.board.get(&m.from.0) {
            Some(piece) => piece.color == self.side_to_move,
            None => false,
        };
        if !of_mover {
            return Err(Error::MustWaitForTurn);
        }
        let legal = MoveGen::moves_for_square(self, m.from);
        if !contains_move(&legal, &m) {
            return Err(Error::IllegalMove);
        }
        proof {
            lemma_pseudo_legal_plausible(start, m.from);
            lemma_legal_is_pseudo_legal(start, m.from, m);
            lemma_plausible_can_make(start, m);
            lemma_played_wf(start, m);
        }
        self.make_move(m);
        self.change_turn();
        self.update_king_attacks();
        Ok(())
    }

    /// Makes the move `m` on the board and in the books: captures, castling
    /// rook, en-passant target, counters, rights and repetition table. The
    /// side to move and the check status are left to the caller.
    pub fn make_move(&mut self, m: Move)
        requires
            old(self)@.can_make(m),
        ensures
            final(self)@ == old(self)@.make(m),
    {
        let ghost start = self@;
        let piece = *self.board.get(&m.from.0).unwrap();
        let king = piece.p_type == PType::KING;
        let kingside = self.is_castling_kingside(&m);
        let entry = HistoryEntry {
            m,
            piece,
            castling_rights: self.castling_rights,
            full_moves: self.full_moves,
            half_moves: self.half_moves,
            en_passant_sq: self.en_passant_sq,
            is_kingside_castle: king && kingside,
            is_queenside_castle: king && !kingside && self.is_castling_queenside(&m),
            has_moved: self.has_moved,
            unique_positions: copy_table(&self.unique_positions),
            side_to_move: self.side_to_move,
            is_capture: self.is_capture(&m),
            check_rays: copy_squares(&self.check_rays),
        };
        assert(entry@ == start.snapshot(m));
        self.take_captured(&m, piece);
        self.move_castling_rook(&m, piece);
        self.book(entry, piece, &m);
        self.settle(piece, &m);
        self.update_castling_rights(&piece, &m);
        self.update_positions();
    }

    /// Takes the last move back: the pieces, the rook of a castling king,
    /// the piece taken, and the books as they were. Nothing happens when no
    /// move was made.
    pub fn undo(&mut self)
        requires
            old(self)@.can_unmake(),
        ensures
            final(self)@ == old(self)@.unmake(),
    {
        let ghost start = self@;
        match self.history.pop() {
            Some(entry) => {
                assert(history_view(self.history@) =~= start.history.drop_last());
                assert(entry@ == start.history.last());
                let piece = entry.piece;
                self.set(piece, &entry.m.from);
                self.board.remove(&entry.m.to.0);
                if entry.is_kingside_castle {
                    self.board.remove(&(entry.m.from.0 + 1));
                    self.set(Piece::new(PType::ROOK, piece.color), &Square(entry.m.from.0 + 3));
                } else if entry.is_queenside_castle {
                    self.board.remove(&(entry.m.from.0 - 1));
                    self.set(Piece::new(PType::ROOK, piece.color), &Square(entry.m.from.0 - 4));
                }
                self.full_moves = entry.full_moves;
                self.half_moves = entry.half_moves;
                self.has_moved = entry.has_moved;
                self.unique_positions = entry.unique_positions;
                self.side_to_move = entry.side_to_move;
                self.castling_rights = entry.castling_rights;
                self.en_passant_sq = entry.en_passant_sq;
                self.check_rays = entry.check_rays;
                self.is_in_check = self.check_rays.len() > 0;
                if entry.is_capture {
                    match self.captures.pop() {
                        Some(c) => {
                            self.board.set(c.piece, &c.sq.0);
                        },
                        None => {},
                    }
                }
            },
            None => {
                assert(history_view(self.history@) =~= start.history);
            },
        }
    }

    /// The position string of the state.
    pub fn get_fen(&self) -> (text: String)
        ensures
            text@ == fen_text(self@),
    {
        let mut text = placement_string(&self.board);
        text.push(' ');
        text.push(self.side_to_move.letter());
        text.push(' ');
        assert(text@ =~= placement(self@.board) + seq![' ', self@.side_to_move.spec_letter(), ' ']);
        push_castling(&mut text, &self.castling_rights);
        text.push(' ');
        push_target(&mut text, self.en_passant_sq);
        text.push(' ');
        push_decimal(&mut text, self.half_moves);
        text.push(' ');
        let full_moves: u8 = if !self.has_moved {
            self.full_moves
        } else if self.full_moves >= 2 {
            self.full_moves - 1
        } else {
            1
        };
        push_decimal(&mut text, full_moves);
        text
    }

    pub(crate) fn change_turn(&mut self)
        ensures
            final(self)@ == old(self)@.flipped(),
    {
        if self.side_to_move == Color::WHITE {
            self.side_to_move = Color::BLACK;
        } else {
            self.side_to_move = Color::WHITE;
        }
    }
}

/// The kind of piece that starts on the given file of the back rank.
pub open spec fn back_rank_kind(file: int) -> PType {
    if file == 0 || file == 7 {
        PType::ROOK
    } else if file == 1 || file == 6 {
        PType::KNIGHT
    } else if file == 2 || file == 5 {
        PType::BISHOP
    } else if file == 3 {
        PType::QUEEN
    } else {
        PType::KING
    }
}

/// What stands on the slot `i` at the start of a game, with the files from
/// `files` on still to be set up.
pub open spec fn start_slot(i: int, files: int) -> Option<Piece> {
    let file = i % 16;
    let rank = i / 16;
    if file >= 8 || file >= files {
        None
    } else if rank == 0 {
        Some(Piece { p_type: back_rank_kind(file), color: Color::WHITE })
    } else if rank == 1 {
        Some(Piece { p_type: PType::PAWN, color: Color::WHITE })
    } else if rank == 6 {
        Some(Piece { p_type: PType::PAWN, color: Color::BLACK })
    } else if rank == 7 {
        Some(Piece { p_type: back_rank_kind(file), color: Color::BLACK })
    } else {
        None
    }
}

/// The placement field of the start of a game.
pub open spec fn start_placement() -> Seq<char> {
    "rnbqkbnr/pppppppp/8/8/8/8/PPPPPPPP/RNBQKBNR"@
}

/// The position at the start of a game: the pieces on their home squares,
/// white to move, every right to castle, the first move ahead.
pub open spec fn start_position() -> Position {
    Position {
        board: Seq::new(128, |i: int| start_slot(i, 8)),
        en_passant_sq: None,
        side_to_move: Color::WHITE,
        is_in_check: false,
        white_king_square: Some(Square(0x04)),
        black_king_square: Some(Square(0x74)),
        check_rays: Seq::empty(),
        castling_rights: CastlingRights {
            white_kingside: true,
            white_queenside: true,
            black_kingside: true,
            black_queenside: true,
        },
        captures: Seq::empty(),
        unique_positions: seq![(start_placement(), 1nat)],
        half_moves: 0,
        full_moves: 1,
        has_moved: false,
        history: Seq::empty(),
    }
}

/// The position at the start of a game is well-formed.
pub proof fn lemma_start_wf()
    ensures
        start_position().wf(),
        start_position().has_room(),
{
    let p = start_position();
    assert(p.kings_remembered());
    assert(p.rights_consistent());
}

/// The test that a captured piece is of the given side.
pub open spec fn taken_of(color: Color) -> spec_fn(Capture) -> bool {
    |c: Capture| c.piece.color == color
}

/// The empty state is well-formed.
pub proof fn lemma_new_wf()
    ensures
        GameState::spec_new().wf(),
{
}

/// A game of chess: the state, reached only through the rules.
pub struct Chess {
    state: GameState,
}

impl Chess {
    /// The game as mathematics.
    pub closed spec fn view(&self) -> Position {
        self.state@
    }

    /// A game at its start.
    pub fn new() -> (chess: Chess)
        ensures
            chess@ == start_position(),
            chess@.wf(),
    {
        let mut state = GameState::new();
        let mut file: u8 = 0;
        assert(state@.board =~= Seq::new(128, |i: int| start_slot(i, 0)));
        while file < 8
            invariant
                file <= 8,
                state@ == (Position {
                    board: Seq::new(128, |i: int| start_slot(i, file as int)),
                    white_king_square: if file > 4 {
                        Some(Square(0x04))
                    } else {
                        None
                    },
                    black_king_square: if file > 4 {
                        Some(Square(0x74))
                    } else {
                        None
                    },
                    ..GameState::spec_new()
                }),
            decreases 8 - file,
        {
            let kind = match file {
                0 | 7 => PType::ROOK,
                1 | 6 => PType::KNIGHT,
                2 | 5 => PType::BISHOP,
                3 => PType::QUEEN,
                _ => PType::KING,
            };
            state.set(Piece::new(kind, Color::WHITE), &Square(file));
            state.set(Piece::new(PType::PAWN, Color::WHITE), &Square(0x10 + file));
            state.set(Piece::new(PType::PAWN, Color::BLACK), &Square(0x60 + file));
            state.set(Piece::new(kind, Color::BLACK), &Square(0x70 + file));
            assert(state@.board =~= Seq::new(128, |i: int| start_slot(i, file + 1)));
            file += 1;
        }
        state.castling_rights =
        CastlingRights {
            white_kingside: true,
            white_queenside: true,
            black_kingside: true,
            black_queenside: true,
        };
        state.full_moves = 1;
        state.unique_positions.push(
            PositionCount {
                placement: "rnbqkbnr/pppppppp/8/8/8/8/PPPPPPPP/RNBQKBNR".to_owned(),
                count: 1,
            },
        );
        assert(state@.unique_positions =~= seq![(start_placement(), 1nat)]);
        proof {
            lemma_start_wf();
        }
        Chess { state }
    }

    /// Plays the move `m` if it is legal; see `GameState::play_move`.
    pub fn play_move(&mut self, m: Move) -> (r: Result<(), Error>)
        requires
            old(self)@.wf(),
            old(self)@.has_room(),
            m.from.valid(),
        ensures
            r == play_verdict(old(self)@, m),
            r is Ok ==> final(self)@ == old(self)@.played(m),
            r is Err ==> final(self)@ == old(self)@,
            r is Ok ==> final(self)@.side_to_move == old(self)@.side_to_move.spec_opposite(),
            r is Err ==> final(self)@.side_to_move == old(self)@.side_to_move,
            final(self)@.wf(),
    {
        self.state.play_move(m)
    }

    /// The legal moves of the piece on `sq`, which belongs to the side to move.
    pub fn moves_for_square(&mut self, sq: Square) -> (moves: Vec<Move>)
        requires
            old(self)@.wf(),
            old(self)@.has_room(),
            sq.valid(),
            old(self)@.piece_at(sq) is Some ==> old(self)@.piece_at(sq)->Some_0.color == old(
                self,
            )@.side_to_move,
        ensures
            final(self)@ == old(self)@,
            moves@ == legal_moves(old(self)@, sq),
    {
        MoveGen::moves_for_square(&mut self.state, sq)
    }

    /// The pieces taken so far: first the black ones, which white took, then
    /// the white ones, which black took, each in the order of the game.
    pub fn get_captures(&self) -> (r: (Vec<Capture>, Vec<Capture>))
        ensures
            r.0@ == self@.captures.filter(taken_of(Color::BLACK)),
            r.1@ == self@.captures.filter(taken_of(Color::WHITE)),
    {
        let mut white_captures: Vec<Capture> = Vec::new();
        let mut black_captures: Vec<Capture> = Vec::new();
        let mut i: usize = 0;
        proof {
            reveal(Seq::filter);
            assert(self@.captures.take(0) =~= Seq::<Capture>::empty());
        }
        while i < self.state.captures.len()
            invariant
                i <= self.state.captures.len(),
                self@.captures == self.state.captures@,
                white_captures@ == self@.captures.take(i as int).filter(taken_of(Color::BLACK)),
                black_captures@ == self@.captures.take(i as int).filter(taken_of(Color::WHITE)),
            decreases self.state.captures.len() - i,
        {
            let capture = self.state.captures[i];
            if capture.piece.color == Color::BLACK {
                white_captures.push(capture);
            } else {
                black_captures.push(capture);
            }
            proof {
                reveal(Seq::filter);
                let next = self@.captures.take(i + 1);
                assert(next.drop_last() =~= self@.captures.take(i as int));
                assert(next.last() == capture);
            }
            i += 1;
        }
        assert(self@.captures.take(self.state.captures.len() as int) =~= self@.captures);
        (white_captures, black_captures)
    }

    /// Whether the game is drawn.
    pub fn is_draw(&mut self) -> (r: bool)
        requires
            old(self)@.wf(),
            old(self)@.has_room(),
        ensures
            final(self)@ == old(self)@,
            r == (old(self)@.stalemate() || old(self)@.threefold_repetition() || old(
                self,
            )@.fifty_moves() || insufficient_material(old(self)@.board)),
    {
        self.state.is_draw()
    }

    /// Whether the side to move is not in check and has no legal move.
    pub fn is_stalemate(&mut self) -> (r: bool)
        requires
            old(self)@.wf(),
            old(self)@.has_room(),
        ensures
            final(self)@ == old(self)@,
            r == old(self)@.stalemate(),
    {
        self.state.is_stalemate()
    }

    /// Whether some placement occurred three times.
    pub fn is_threefold_repetition(&mut self) -> (r: bool)
        ensures
            final(self)@ == old(self)@,
            r == old(self)@.threefold_repetition(),
    {
        self.state.is_threefold_repetition()
    }

    /// Whether a hundred half-moves went by without a pawn move or a capture.
    pub fn is_50_moves(&self) -> (r: bool)
        ensures
            r == self@.fifty_moves(),
    {
        self.state.is_50_moves()
    }

    /// Whether neither side has the material to mate.
    pub fn is_insufficient_material(&self) -> (r: bool)
        ensures
            r == insufficient_material(self@.board),
    {
        self.state.is_insufficient_material()
    }

    /// Whether the side to move is in check and has no legal move.
    pub fn is_checkmate(&mut self) -> (r: bool)
        requires
            old(self)@.wf(),
            old(self)@.has_room(),
        ensures
            final(self)@ == old(self)@,
            r == old(self)@.checkmate(),
    {
        self.state.is_checkmate()
    }

    /// Back to the empty state.
    pub fn reset(&mut self)
        ensures
            final(self)@ == GameState::spec_new(),
    {
        self.state.reset();
    }

    /// Loads the position that `fen` spells out; see `GameState::load_fen`.
    pub fn load_fen(&mut self, fen: &str) -> (r: Result<(), Error>)
        ensures
            match loaded(fen@) {
                Ok(p) => r is Ok && final(self)@ == p,
                Err(e) => r == Err::<(), Error>(e) && final(self)@ == old(self)@,
            },
            r is Ok ==> final(self)@.wf(),
    {
        self.state.load_fen(fen)
    }

    /// The position string of the game.
    pub fn get_fen(&self) -> (text: String)
        ensures
            text@ == fen_text(self@),
    {
        self.state.get_fen()
    }

    /// The side to move.
    pub fn get_turn(&self) -> (color: Color)
        ensures
            color == self@.side_to_move,
    {
        self.state.side_to_move
    }

    /// Hands the move to `color`, whatever the rules say.
    pub fn set_turn(&mut self, color: Color)
        ensures
            final(self)@ == (Position { side_to_move: color, ..old(self)@ }),
    {
        self.state.side_to_move = color;
    }

    /// Whether the game is well-formed; see `GameState::is_well_formed`.
    pub fn is_well_formed(&self) -> (r: bool)
        ensures
            r == self@.wf(),
    {
        self.state.is_well_formed()
    }

    /// Whether both move counters can still be stepped.
    pub fn has_room(&self) -> (r: bool)
        ensures
            r == self@.has_room(),
    {
        self.state.has_room()
    }

    /// The board of the game.
    pub fn board(&self) -> (board: &Board)
        ensures
            board@ == self@.board,
    {
        &self.state.board
    }
}

} // verus!
