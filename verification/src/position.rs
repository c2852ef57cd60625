use crate::constants::{attacks_along, knight_deltas, queen_deltas};
use crate::fen::placement;
use crate::piece::{Color, PType, Piece};
use crate::square::{on_board, Square};
use vstd::prelude::*;

verus! {

/// A move: the origin, the destination, and the piece a pawn turns into on
/// the last rank.
#[derive(Clone, Copy, PartialEq, Eq, Debug)]
pub struct Move {
    pub from: Square,
    pub to: Square,
    pub promotion_piece: Option<Piece>,
}

/// The four castling rights.
#[derive(Clone, Copy, PartialEq, Eq, Debug, Structural)]
pub struct CastlingRights {
    pub white_kingside: bool,
    pub white_queenside: bool,
    pub black_kingside: bool,
    pub black_queenside: bool,
}

/// A piece that was taken, and the square it was taken from.
#[derive(Clone, Copy, PartialEq, Eq, Debug)]
pub struct Capture {
    pub sq: Square,
    pub piece: Piece,
}

impl Move {
    /// The move from `from` to `to`.
    pub fn new(from: Square, to: Square, promotion_piece: Option<Piece>) -> (m: Move)
        ensures
            m == (Move { from, to, promotion_piece }),
    {
        Move { from, to, promotion_piece }
    }

    /// The move between two squares given in algebraic notation.
    pub fn from_str(from: &str, to: &str, promotion_piece: Option<Piece>) -> (m: Move)
        requires
            Square::spec_parse(from@) is Ok,
            Square::spec_parse(to@) is Ok,
        ensures
            m == (Move {
                from: Square::spec_parse(from@)->Ok_0,
                to: Square::spec_parse(to@)->Ok_0,
                promotion_piece,
            }),
    {
        Move {
            from: Square::try_from(from).unwrap(),
            to: Square::try_from(to).unwrap(),
            promotion_piece,
        }
    }

    /// Whether two moves are the same move.
    pub fn same(&self, other: &Move) -> (r: bool)
        ensures
            r == (*self == *other),
    {
        let promotion = match (self.promotion_piece, other.promotion_piece) {
            (Some(a), Some(b)) => a == b,
            (None, None) => true,
            _ => false,
        };
        self.from == other.from && self.to == other.to && promotion
    }
}

impl CastlingRights {
    /// No right at all.
    pub open spec fn spec_none() -> CastlingRights {
        CastlingRights {
            white_kingside: false,
            white_queenside: false,
            black_kingside: false,
            black_queenside: false,
        }
    }
}

impl Default for CastlingRights {
    fn default() -> (r: CastlingRights)
        ensures
            r == CastlingRights::spec_none(),
    {
        CastlingRights {
            white_kingside: false,
            white_queenside: false,
            black_kingside: false,
            black_queenside: false,
        }
    }
}

/// The repetition table as mathematics: placements in the order in which
/// they first occurred, each with the number of times it occurred.
pub type Occurrences = Seq<(Seq<char>, nat)>;

/// What is kept of a position when a move is made, to take the move back.
pub struct Snapshot {
    pub m: Move,
    pub piece: Piece,
    pub castling_rights: CastlingRights,
    pub en_passant_sq: Option<Square>,
    pub half_moves: u8,
    pub full_moves: u8,
    pub is_queenside_castle: bool,
    pub is_kingside_castle: bool,
    pub has_moved: bool,
    pub unique_positions: Occurrences,
    pub side_to_move: Color,
    pub is_capture: bool,
    pub check_rays: Seq<Square>,
}

/// The state of a game as mathematics.
pub struct Position {
    pub board: Seq<Option<Piece>>,
    pub en_passant_sq: Option<Square>,
    pub side_to_move: Color,
    pub is_in_check: bool,
    pub white_king_square: Option<Square>,
    pub black_king_square: Option<Square>,
    pub check_rays: Seq<Square>,
    pub castling_rights: CastlingRights,
    pub captures: Seq<Capture>,
    pub unique_positions: Occurrences,
    pub half_moves: u8,
    pub full_moves: u8,
    pub has_moved: bool,
    pub history: Seq<Snapshot>,
}

pub open spec fn white_king_home() -> Square {
    Square(0x04)
}

pub open spec fn black_king_home() -> Square {
    Square(0x74)
}

/// The square `delta` away from `sq`, where that lies within the address space.
pub open spec fn shifted(sq: Square, delta: int) -> Square {
    Square((sq.0 + delta) as u8)
}

/// One rank towards the own side, seen from a piece of the given colour.
pub open spec fn backward(color: Color) -> int {
    match color {
        Color::WHITE => -16,
        Color::BLACK => 16,
    }
}

pub open spec fn rook_of(color: Color) -> Piece {
    Piece { p_type: PType::ROOK, color }
}

pub open spec fn pawn_of(color: Color) -> Piece {
    Piece { p_type: PType::PAWN, color }
}

pub open spec fn king_of(color: Color) -> Piece {
    Piece { p_type: PType::KING, color }
}

/// The index of the first entry for `key` at or after `from`; the length of
/// the table if there is none.
pub open spec fn first_index(t: Occurrences, key: Seq<char>, from: int) -> int
    decreases t.len() - from,
{
    if from < 0 || from >= t.len() {
        t.len() as int
    } else if t[from].0 == key {
        from
    } else {
        first_index(t, key, from + 1)
    }
}

/// The table after one more occurrence of `key`.
pub open spec fn recorded(t: Occurrences, key: Seq<char>) -> Occurrences {
    let i = first_index(t, key, 0);
    if i < t.len() {
        t.update(i, (key, t[i].1 + 1))
    } else {
        t.push((key, 1nat))
    }
}

/// How often the placement `key` occurred by the table.
pub open spec fn occurrences_of(t: Occurrences, key: Seq<char>) -> nat {
    let i = first_index(t, key, 0);
    if i < t.len() {
        t[i].1
    } else {
        0
    }
}

/// Whether some placement occurred at least `n` times.
pub open spec fn occurred_times(t: Occurrences, n: nat) -> bool {
    exists|i: int| 0 <= i < t.len() && (#[trigger] t[i]).1 >= n
}

/// Whether the king moves two files to the right from its home square.
pub open spec fn castles_kingside(m: Move) -> bool {
    (m.from == white_king_home() || m.from == black_king_home()) && m.to.0 - m.from.0 == 2
}

/// Whether the king moves two files to the left from its home square.
pub open spec fn castles_queenside(m: Move) -> bool {
    (m.from == white_king_home() || m.from == black_king_home()) && m.to.0 - m.from.0 == -2
}

/// The squares from which the square `sq` is attacked along direction
/// `delta`, walking on from `cur`: the empty squares walked and then the
/// attacker, or nothing when the first piece met is of `side` or cannot
/// attack along that line.
pub open spec fn ray_attack(
    board: Seq<Option<Piece>>,
    side: Color,
    sq: Square,
    cur: Square,
    delta: i8,
) -> Seq<Square>
    decreases
            (if delta > 0 {
                128 - cur.0
            } else {
                cur.0 as int
            }),
{
    if !cur.valid() || delta == 0 || board.len() != 128 {
        Seq::empty()
    } else {
        match cur.spec_add(delta as int) {
            Err(_) => Seq::empty(),
            Ok(to) => match board[to.0 as int] {
                None => {
                    let rest = ray_attack(board, side, sq, to, delta);
                    if rest.len() > 0 {
                        seq![to] + rest
                    } else {
                        rest
                    }
                },
                Some(piece) => if piece.color != side && attacks_along(
                    piece,
                    delta as int,
                    cur == sq,
                ) {
                    seq![to]
                } else {
                    Seq::empty()
                },
            },
        }
    }
}

/// The attacks on `sq` along the first `k` directions of a queen.
pub open spec fn line_attacks(board: Seq<Option<Piece>>, side: Color, sq: Square, k: int) -> Seq<
    Square,
>
    decreases k,
{
    if k <= 0 || k > 8 {
        Seq::empty()
    } else {
        line_attacks(board, side, sq, k - 1) + ray_attack(board, side, sq, sq, queen_deltas()[k - 1])
    }
}

/// The knight that attacks `sq` from the jump `delta`, if there is one.
pub open spec fn knight_attack(board: Seq<Option<Piece>>, side: Color, sq: Square, delta: i8) -> Seq<
    Square,
> {
    match sq.spec_add(delta as int) {
        Err(_) => Seq::empty(),
        Ok(to) => match board[to.0 as int] {
            Some(piece) => if piece.p_type == PType::KNIGHT && piece.color != side {
                seq![to]
            } else {
                Seq::empty()
            },
            None => Seq::empty(),
        },
    }
}

/// The knights that attack `sq` from the first `k` jumps.
pub open spec fn knight_attacks(board: Seq<Option<Piece>>, side: Color, sq: Square, k: int) -> Seq<
    Square,
>
    decreases k,
{
    if k <= 0 || k > 8 {
        Seq::empty()
    } else {
        knight_attacks(board, side, sq, k - 1) + knight_attack(
            board,
            side,
            sq,
            knight_deltas()[k - 1],
        )
    }
}

/// The attack geometry of `sq`, seen by `side`: for every line along which
/// a piece of the other side attacks the square, the squares between and the
/// attacker's square; then the squares of the attacking knights.
pub open spec fn attack_rays(board: Seq<Option<Piece>>, side: Color, sq: Square) -> Seq<Square> {
    line_attacks(board, side, sq, 8) + knight_attacks(board, side, sq, 8)
}

/// Whether a piece of the other side than `side` attacks `sq`.
pub open spec fn attacked(board: Seq<Option<Piece>>, side: Color, sq: Square) -> bool {
    attack_rays(board, side, sq).len() > 0
}

/// The rights after a move of `piece` along `m`, on the board as the move
/// left it: a right goes when its corner no longer holds the rook it
/// started with, when the king of its side moved, or when its rook moved
/// from its corner.
pub open spec fn updated_rights(
    board: Seq<Option<Piece>>,
    rights: CastlingRights,
    piece: Piece,
    m: Move,
) -> CastlingRights {
    let white_king = piece == king_of(Color::WHITE);
    let black_king = piece == king_of(Color::BLACK);
    let white_rook = piece == rook_of(Color::WHITE);
    let black_rook = piece == rook_of(Color::BLACK);
    CastlingRights {
        white_queenside: rights.white_queenside && board[0x00] == Some(rook_of(Color::WHITE))
            && !white_king && !(white_rook && m.from.0 == 0x00),
        white_kingside: rights.white_kingside && board[0x07] == Some(rook_of(Color::WHITE))
            && !white_king && !(white_rook && m.from.0 == 0x07),
        black_queenside: rights.black_queenside && board[0x70] == Some(rook_of(Color::BLACK))
            && !black_king && !(black_rook && m.from.0 == 0x70),
        black_kingside: rights.black_kingside && board[0x77] == Some(rook_of(Color::BLACK))
            && !black_king && !(black_rook && m.from.0 == 0x77),
    }
}

impl Position {
    /// What stands on `sq`.
    pub open spec fn piece_at(self, sq: Square) -> Option<Piece> {
        self.board[sq.0 as int]
    }

    /// The remembered square of the king of `color`.
    pub open spec fn king_sq(self, color: Color) -> Option<Square> {
        match color {
            Color::WHITE => self.white_king_square,
            Color::BLACK => self.black_king_square,
        }
    }

    /// The remembered square of the king of the side to move.
    pub open spec fn current_king_sq(self) -> Option<Square> {
        self.king_sq(self.side_to_move)
    }

    /// The two rights of the side to move: kingside, queenside.
    pub open spec fn current_rights(self) -> (bool, bool) {
        match self.side_to_move {
            Color::WHITE => (self.castling_rights.white_kingside, self.castling_rights.white_queenside),
            Color::BLACK => (self.castling_rights.black_kingside, self.castling_rights.black_queenside),
        }
    }

    /// The position with `piece` put on `sq`; a king is remembered there.
    pub open spec fn with_piece(self, piece: Piece, sq: Square) -> Position {
        let placed = Position { board: self.board.update(sq.0 as int, Some(piece)), ..self };
        if piece.p_type == PType::KING {
            match piece.color {
                Color::WHITE => Position { white_king_square: Some(sq), ..placed },
                Color::BLACK => Position { black_king_square: Some(sq), ..placed },
            }
        } else {
            placed
        }
    }

    /// The position with `sq` emptied.
    pub open spec fn without(self, sq: Square) -> Position {
        Position { board: self.board.update(sq.0 as int, None), ..self }
    }

    /// Whether `m` moves a pawn onto the en-passant target.
    pub open spec fn is_enpassant_capture(self, m: Move) -> bool {
        self.piece_at(m.from) is Some && self.piece_at(m.from)->Some_0.p_type == PType::PAWN
            && Some(m.to) == self.en_passant_sq
    }

    /// Whether `m` takes a piece: the destination holds a piece of the side
    /// that is not to move, or it is empty and `m` captures en passant.
    pub open spec fn is_capture(self, m: Move) -> bool {
        match self.piece_at(m.to) {
            Some(p) => p.color != self.side_to_move,
            None => self.is_enpassant_capture(m),
        }
    }

    /// Whether a pawn of the other side than `color` stands `d` files beside `sq`.
    pub open spec fn enemy_pawn_beside(self, sq: Square, color: Color, d: int) -> bool {
        sq.spec_add(d) is Ok && self.piece_at(sq.spec_add(d)->Ok_0) is Some && self.piece_at(
            sq.spec_add(d)->Ok_0,
        )->Some_0.p_type == PType::PAWN && self.piece_at(sq.spec_add(d)->Ok_0)->Some_0.color
            != color
    }

    /// Whether `m` is a double step of a pawn that lands beside a pawn of
    /// the other side, so that it can be taken en passant.
    pub open spec fn is_enpassant_move(self, m: Move) -> bool {
        let p = self.piece_at(m.from)->Some_0;
        self.piece_at(m.from) is Some && p.p_type == PType::PAWN && (m.to.0 - m.from.0 == 32 || m.to.0 - m.from.0 == -32) && (
        self.enemy_pawn_beside(m.to, p.color, 1) || self.enemy_pawn_beside(m.to, p.color, -1))
    }

    /// What a move must fulfil to be made: squares on the board, a piece on
    /// the origin, room in the counters, and, for a capture en passant, a
    /// square behind the destination.
    pub open spec fn can_make(self, m: Move) -> bool {
        &&& self.board.len() == 128
        &&& m.from.valid()
        &&& m.to.valid()
        &&& self.piece_at(m.from) is Some
        &&& self.half_moves < 255
        &&& self.full_moves < 255
        &&& forall|i: int|
            0 <= i < self.unique_positions.len() ==> (#[trigger] self.unique_positions[i]).1
                < 0xffff
        &&& self.piece_at(m.from)->Some_0.p_type == PType::PAWN && (m.to.0 - m.from.0 == 32
            || m.to.0 - m.from.0 == -32) ==> on_board(
            m.to.0 + backward(self.piece_at(m.from)->Some_0.color),
        )
        &&& self.is_capture(m) && self.is_enpassant_capture(m) ==> {
            &&& on_board(m.to.0 + backward(self.piece_at(m.from)->Some_0.color))
            &&& m.to.0 + backward(self.piece_at(m.from)->Some_0.color) != m.from.0
        }
    }

    /// What the last move made must fulfil to be taken back: its squares,
    /// those of its rook and that of the piece it took lie on the board.
    pub open spec fn can_unmake(self) -> bool {
        &&& self.board.len() == 128
        &&& self.history.len() > 0 ==> {
            let entry = self.history.last();
            &&& entry.m.from.valid()
            &&& entry.m.to.valid()
            &&& entry.is_kingside_castle || entry.is_queenside_castle ==> entry.m.from
                == white_king_home() || entry.m.from == black_king_home()
            &&& entry.is_capture && self.captures.len() > 0 ==> self.captures.last().sq.valid()
        }
    }

    /// The position after taking what `m` captures off the board and onto the
    /// list of captures.
    pub open spec fn after_capture(self, m: Move) -> Position {
        let piece = self.piece_at(m.from)->Some_0;
        if !self.is_capture(m) {
            self
        } else if self.is_enpassant_capture(m) {
            let behind = shifted(m.to, backward(piece.color));
            Position {
                captures: self.captures.push(
                    Capture { sq: behind, piece: pawn_of(piece.color.spec_opposite()) },
                ),
                ..self.without(behind)
            }
        } else {
            Position {
                captures: self.captures.push(
                    Capture { sq: m.to, piece: self.piece_at(m.to)->Some_0 },
                ),
                ..self
            }
        }
    }

    /// The position after moving the rook of a castling king.
    pub open spec fn after_rook_move(self, m: Move) -> Position {
        let piece = self.piece_at(m.from)->Some_0;
        if piece.p_type != PType::KING {
            self
        } else if castles_kingside(m) {
            self.without(shifted(m.to, 1)).with_piece(rook_of(piece.color), shifted(m.to, -1))
        } else if castles_queenside(m) {
            self.without(shifted(m.to, -2)).with_piece(rook_of(piece.color), shifted(m.to, 1))
        } else {
            self
        }
    }

    /// What is remembered of this position when `m` is made.
    pub open spec fn snapshot(self, m: Move) -> Snapshot {
        let piece = self.piece_at(m.from)->Some_0;
        let king = piece.p_type == PType::KING;
        Snapshot {
            m,
            piece,
            castling_rights: self.castling_rights,
            en_passant_sq: self.en_passant_sq,
            half_moves: self.half_moves,
            full_moves: self.full_moves,
            is_kingside_castle: king && castles_kingside(m),
            is_queenside_castle: king && !castles_kingside(m) && castles_queenside(m),
            has_moved: self.has_moved,
            unique_positions: self.unique_positions,
            side_to_move: self.side_to_move,
            is_capture: self.is_capture(m),
            check_rays: self.check_rays,
        }
    }

    /// The position with the books brought forward for the move `m` of
    /// `piece`: the snapshot on the history, the new en-passant target, and
    /// the counters, the half-move clock starting anew after a pawn move or
    /// a capture.
    pub open spec fn booked(self, entry: Snapshot, piece: Piece, m: Move) -> Position {
        Position {
            history: self.history.push(entry),
            en_passant_sq: if self.is_enpassant_move(m) {
                Some(shifted(m.to, backward(piece.color)))
            } else {
                None
            },
            has_moved: true,
            full_moves: (self.full_moves + 1) as u8,
            half_moves: if piece.p_type == PType::PAWN || entry.is_capture {
                0u8
            } else {
                (self.half_moves + 1) as u8
            },
            ..self
        }
    }

    /// The position with the piece moved: on the destination stands the
    /// piece, or what it was promoted to; the origin is empty.
    pub open spec fn settled(self, piece: Piece, m: Move) -> Position {
        let placed = match m.promotion_piece {
            Some(promoted) => promoted,
            None => piece,
        };
        self.with_piece(placed, m.to).without(m.from)
    }

    /// The position with the castling rights and the repetition table
    /// brought forward for the placement now on the board.
    pub open spec fn closed(self, piece: Piece, m: Move) -> Position {
        Position {
            castling_rights: updated_rights(self.board, self.castling_rights, piece, m),
            unique_positions: recorded(self.unique_positions, placement(self.board)),
            ..self
        }
    }

    /// The position after `m` is made. The side to move and the check status
    /// stay as they are: they belong to the caller.
    pub open spec fn make(self, m: Move) -> Position {
        let piece = self.piece_at(m.from)->Some_0;
        self.after_capture(m).after_rook_move(m).booked(self.snapshot(m), piece, m).settled(
            piece,
            m,
        ).closed(piece, m)
    }

    /// The position after the last move made is taken back; the position
    /// itself when no move was made.
    pub open spec fn unmake(self) -> Position {
        if self.history.len() == 0 {
            self
        } else {
            let entry = self.history.last();
            let back = self.with_piece(entry.piece, entry.m.from).without(entry.m.to);
            let rook = if entry.is_kingside_castle {
                back.without(shifted(entry.m.from, 1)).with_piece(
                    rook_of(entry.piece.color),
                    shifted(entry.m.from, 3),
                )
            } else if entry.is_queenside_castle {
                back.without(shifted(entry.m.from, -1)).with_piece(
                    rook_of(entry.piece.color),
                    shifted(entry.m.from, -4),
                )
            } else {
                back
            };
            let restored = Position {
                history: self.history.drop_last(),
                full_moves: entry.full_moves,
                half_moves: entry.half_moves,
                has_moved: entry.has_moved,
                unique_positions: entry.unique_positions,
                side_to_move: entry.side_to_move,
                castling_rights: entry.castling_rights,
                en_passant_sq: entry.en_passant_sq,
                check_rays: entry.check_rays,
                is_in_check: entry.check_rays.len() > 0,
                ..rook
            };
            if entry.is_capture && self.captures.len() > 0 {
                let c = self.captures.last();
                Position {
                    captures: self.captures.drop_last(),
                    board: restored.board.update(c.sq.0 as int, Some(c.piece)),
                    ..restored
                }
            } else {
                restored
            }
        }
    }

    /// Whether the half-move clock has reached a hundred.
    pub open spec fn fifty_moves(self) -> bool {
        self.half_moves >= 100
    }

    /// Whether some placement occurred three times.
    pub open spec fn threefold_repetition(self) -> bool {
        occurred_times(self.unique_positions, 3)
    }

    /// The position with the other side to move.
    pub open spec fn flipped(self) -> Position {
        Position { side_to_move: self.side_to_move.spec_opposite(), ..self }
    }

    /// The position with the check status of the side to move worked out anew.
    pub open spec fn with_check_status(self) -> Position {
        let rays = match self.current_king_sq() {
            Some(king) => attack_rays(self.board, self.side_to_move, king),
            None => Seq::empty(),
        };
        Position { check_rays: rays, is_in_check: rays.len() > 0, ..self }
    }

    /// The position after `m` is played: the move made, the turn passed on,
    /// the check status worked out anew.
    pub open spec fn played(self, m: Move) -> Position {
        self.make(m).flipped().with_check_status()
    }
}

} // verus!
