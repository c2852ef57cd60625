use crate::board::Board;
use crate::chess::GameState;
use crate::error::Error;
use crate::piece::{Color, Piece};
use crate::position::{CastlingRights, Position};
use crate::square::Square;
use crate::text::{decimal, digit_char};
use vstd::prelude::*;
use vstd::string::StrSliceExecFns;

verus! {

/// The text of rank `rank` from file `file` on, after a run of `run` empty
/// squares: a run is written as its length, a piece as its letter.
pub open spec fn rank_text(board: Seq<Option<Piece>>, rank: int, file: int, run: int) -> Seq<char>
    decreases 8 - file,
{
    let pending = if run > 0 {
        seq![digit_char(run)]
    } else {
        Seq::empty()
    };
    if file >= 8 || file < 0 {
        pending
    } else {
        match board[16 * rank + file] {
            None => rank_text(board, rank, file + 1, run + 1),
            Some(piece) => pending + seq![piece.spec_letter()] + rank_text(board, rank, file + 1, 0),
        }
    }
}

/// The text of the ranks from `rank` down to the first, separated by `/`.
pub open spec fn ranks_text(board: Seq<Option<Piece>>, rank: int) -> Seq<char>
    decreases rank,
{
    if rank <= 0 {
        rank_text(board, 0, 0, 0)
    } else {
        rank_text(board, rank, 0, 0) + seq!['/'] + ranks_text(board, rank - 1)
    }
}

/// The placement field of a position string: the eight ranks, the eighth first.
pub open spec fn placement(board: Seq<Option<Piece>>) -> Seq<char> {
    ranks_text(board, 7)
}

/// The castling field: the letters of the rights that stand, `-` for none.
pub open spec fn castling_text(rights: CastlingRights) -> Seq<char> {
    let letters = (if rights.white_kingside {
        seq!['K']
    } else {
        Seq::empty()
    }) + (if rights.white_queenside {
        seq!['Q']
    } else {
        Seq::empty()
    }) + (if rights.black_kingside {
        seq!['k']
    } else {
        Seq::empty()
    }) + (if rights.black_queenside {
        seq!['q']
    } else {
        Seq::empty()
    });
    if letters.len() == 0 {
        seq!['-']
    } else {
        letters
    }
}

/// The en-passant field: the target square, `-` for none.
pub open spec fn target_text(target: Option<Square>) -> Seq<char> {
    match target {
        Some(sq) => sq.spec_notation(),
        None => seq!['-'],
    }
}

/// The full-move number as it is written: the counter itself before any
/// move was made, and one less, but at least 1, after that.
pub open spec fn written_full_moves(full_moves: u8, has_moved: bool) -> nat {
    if !has_moved {
        full_moves as nat
    } else if full_moves >= 2 {
        (full_moves - 1) as nat
    } else {
        1
    }
}

/// The position string: placement, side to move, castling rights,
/// en-passant target, half-move clock and full-move number, separated by
/// single spaces.
pub open spec fn fen_text(p: Position) -> Seq<char> {
    placement(p.board) + seq![' ', p.side_to_move.spec_letter(), ' '] + castling_text(
        p.castling_rights,
    ) + seq![' '] + target_text(p.en_passant_sq) + seq![' '] + decimal(p.half_moves as nat)
        + seq![' '] + decimal(written_full_moves(p.full_moves, p.has_moved))
}

/// Writes the placement field of a board.
pub fn placement_string(board: &Board) -> (text: String)
    ensures
        text@ == placement(board@),
{
    broadcast use crate::board::Board::lemma_len;

    let mut text = String::new();
    let mut rank: u8 = 8;
    while rank > 0
        invariant
            rank <= 8,
            placement(board@) == text@ + (if rank > 0 {
                ranks_text(board@, rank - 1)
            } else {
                Seq::empty()
            }),
        decreases rank,
    {
        rank -= 1;
        let ghost start = text@;
        let mut file: u8 = 0;
        let mut run: u8 = 0;
        while file < 8
            invariant
                file <= 8,
                run <= file,
                rank < 8,
                start + rank_text(board@, rank as int, 0, 0) == text@ + rank_text(
                    board@,
                    rank as int,
                    file as int,
                    run as int,
                ),
            decreases 8 - file,
        {
            let ghost before = text@;
            let ghost run_before = run as int;
            match board.get(&(16 * rank + file)) {
                Some(piece) => {
                    if run != 0 {
                        text.push((run + 48) as char);
                        run = 0;
                    }
                    text.push(piece.letter());
                    assert(before + rank_text(board@, rank as int, file as int, run_before) =~= text@
                        + rank_text(board@, rank as int, file + 1, 0));
                },
                None => {
                    run += 1;
                },
            }
            file += 1;
        }
        let ghost before = text@;
        if run != 0 {
            text.push((run + 48) as char);
        }
        assert(text@ =~= before + rank_text(board@, rank as int, 8, run as int));
        if rank > 0 {
            text.push('/');
            assert(text@ + ranks_text(board@, rank - 1) =~= start + ranks_text(board@, rank as int));
        } else {
            assert(text@ =~= start + ranks_text(board@, 0));
        }
    }
    assert(text@ + Seq::<char>::empty() =~= text@);
    text
}

/// The place of the first space at or after `from`; the length of the text
/// if there is none.
pub open spec fn cut(s: Seq<char>, from: int) -> int
    decreases s.len() - from,
{
    if from < 0 || from >= s.len() {
        s.len() as int
    } else if s[from] == ' ' {
        from
    } else {
        cut(s, from + 1)
    }
}

/// The position after reading the placement field `f` from its `i`-th
/// character on, at `file` on `rank`: a digit skips that many files, a
/// letter puts its piece, a stroke starts the next rank below. Nothing when
/// a character is none of these or when a rank is overrun.
pub open spec fn placed(f: Seq<char>, i: int, rank: int, file: int, p: Position) -> Option<Position>
    decreases f.len() - i,
{
    if i < 0 || i >= f.len() {
        Some(p)
    } else if f[i] == '/' {
        if rank <= 0 {
            None
        } else {
            placed(f, i + 1, rank - 1, 0, p)
        }
    } else if '1' <= f[i] && f[i] <= '8' {
        if file + (f[i] as int - 48) > 8 {
            None
        } else {
            placed(f, i + 1, rank, file + (f[i] as int - 48), p)
        }
    } else {
        match Piece::spec_from_letter(f[i]) {
            Some(piece) => if file >= 8 {
                None
            } else {
                placed(f, i + 1, rank, file + 1, p.with_piece(piece, Square((16 * rank + file) as u8)))
            },
            None => None,
        }
    }
}

/// The rights after reading the castling field `f` from its `i`-th
/// character on: a letter grants its right, a dash takes all four away.
/// Nothing when a character is neither.
pub open spec fn granted(f: Seq<char>, i: int, rights: CastlingRights) -> Option<CastlingRights>
    decreases f.len() - i,
{
    if i < 0 || i >= f.len() {
        Some(rights)
    } else if f[i] == 'K' {
        granted(f, i + 1, CastlingRights { white_kingside: true, ..rights })
    } else if f[i] == 'Q' {
        granted(f, i + 1, CastlingRights { white_queenside: true, ..rights })
    } else if f[i] == 'k' {
        granted(f, i + 1, CastlingRights { black_kingside: true, ..rights })
    } else if f[i] == 'q' {
        granted(f, i + 1, CastlingRights { black_queenside: true, ..rights })
    } else if f[i] == '-' {
        granted(f, i + 1, CastlingRights::spec_none())
    } else {
        None
    }
}

/// The target that the en-passant field names: none for a dash, else the
/// square. Nothing when the field is neither.
pub open spec fn targeted(f: Seq<char>) -> Option<Option<Square>> {
    if f == seq!['-'] {
        Some(None)
    } else {
        match Square::spec_parse(f) {
            Ok(sq) => Some(Some(sq)),
            Err(_) => None,
        }
    }
}

/// The number that the first `n` characters of `f` spell, read as decimal digits.
pub open spec fn digits_value(f: Seq<char>, n: int) -> int
    decreases n,
{
    if n <= 0 {
        0
    } else {
        10 * digits_value(f, n - 1) + (f[n - 1] as int - 48)
    }
}

/// The counter that a field spells: one to three decimal digits, 255 at most.
pub open spec fn counted(f: Seq<char>) -> Option<u8> {
    if 1 <= f.len() <= 3 && (forall|i: int| 0 <= i < f.len() ==> '0' <= #[trigger] f[i] && f[i] <= '9')
        && digits_value(f, f.len() as int) <= 255 {
        Some(digits_value(f, f.len() as int) as u8)
    } else {
        None
    }
}

/// The six fields of a position string, if it has that many.
pub open spec fn fields(s: Seq<char>) -> Option<Seq<Seq<char>>> {
    let e0 = cut(s, 0);
    let e1 = cut(s, e0 + 1);
    let e2 = cut(s, e1 + 1);
    let e3 = cut(s, e2 + 1);
    let e4 = cut(s, e3 + 1);
    let e5 = cut(s, e4 + 1);
    if e4 >= s.len() {
        None
    } else {
        Some(
            seq![
                s.subrange(0, e0),
                s.subrange(e0 + 1, e1),
                s.subrange(e1 + 1, e2),
                s.subrange(e2 + 1, e3),
                s.subrange(e3 + 1, e4),
                s.subrange(e4 + 1, e5),
            ],
        )
    }
}

/// The position that a string spells out, field by field, on an empty
/// state; nothing when a field cannot be read.
pub open spec fn parsed(s: Seq<char>) -> Option<Position> {
    match fields(s) {
        None => None,
        Some(f) => {
            let board = placed(f[0], 0, 7, 0, GameState::spec_new());
            let side = Color::spec_parse(f[1]);
            let rights = granted(f[2], 0, CastlingRights::spec_none());
            let target = targeted(f[3]);
            let half = counted(f[4]);
            let full = counted(f[5]);
            if board is Some && side is Ok && rights is Some && target is Some && half is Some
                && full is Some {
                Some(
                    Position {
                        side_to_move: side->Ok_0,
                        castling_rights: rights->Some_0,
                        en_passant_sq: target->Some_0,
                        half_moves: half->Some_0,
                        full_moves: full->Some_0,
                        unique_positions: seq![(f[0], 1nat)],
                        ..board->Some_0
                    },
                )
            } else {
                None
            }
        },
    }
}

/// Whether each side has exactly one king on the board.
pub open spec fn one_king_each(p: Position) -> bool {
    &&& p.kings_remembered()
    &&& p.white_king_square is Some && p.white_king_square->Some_0.valid()
    &&& p.black_king_square is Some && p.black_king_square->Some_0.valid()
}

/// What loading a position string gives: the position that the string
/// spells out, with its check status, if the string is in canonical form
/// (it reads as the position is written), each side has exactly one king,
/// and the en-passant target and the castling rights agree with the board;
/// the error otherwise.
pub open spec fn loaded(s: Seq<char>) -> Result<Position, Error> {
    match parsed(s) {
        None => Err(Error::InvalidFen),
        Some(p) => if fen_text(p) != s {
            Err(Error::InvalidFen)
        } else if !one_king_each(p) {
            Err(Error::NoKingPresent)
        } else if !p.target_consistent() || !p.rights_consistent() {
            Err(Error::InvalidFen)
        } else {
            Ok(p.with_check_status())
        }
    }
}

/// Reading a placement only puts pieces: the books of the state stay as
/// they were.
pub proof fn lemma_placed_keeps_books(f: Seq<char>, i: int, rank: int, file: int, p: Position)
    requires
        placed(f, i, rank, file, p) is Some,
    ensures
        ({
            let q = placed(f, i, rank, file, p)->Some_0;
            &&& q.unique_positions == p.unique_positions
            &&& q.history == p.history
            &&& q.captures == p.captures
            &&& q.has_moved == p.has_moved
            &&& q.check_rays == p.check_rays
            &&& q.is_in_check == p.is_in_check
        }),
    decreases f.len() - i,
{
    if 0 <= i < f.len() {
        if f[i] == '/' {
            lemma_placed_keeps_books(f, i + 1, rank - 1, 0, p);
        } else if '1' <= f[i] && f[i] <= '8' {
            lemma_placed_keeps_books(f, i + 1, rank, file + (f[i] as int - 48), p);
        } else {
            let piece = Piece::spec_from_letter(f[i])->Some_0;
            lemma_placed_keeps_books(
                f,
                i + 1,
                rank,
                file + 1,
                p.with_piece(piece, Square((16 * rank + file) as u8)),
            );
        }
    }
}

/// Reading a placement leaves the board with its 128 slots.
pub proof fn lemma_placed_board_len(f: Seq<char>, i: int, rank: int, file: int, p: Position)
    requires
        placed(f, i, rank, file, p) is Some,
        p.board.len() == 128,
        0 <= rank <= 7,
        0 <= file <= 8,
    ensures
        placed(f, i, rank, file, p)->Some_0.board.len() == 128,
    decreases f.len() - i,
{
    if 0 <= i < f.len() {
        if f[i] == '/' {
            lemma_placed_board_len(f, i + 1, rank - 1, 0, p);
        } else if '1' <= f[i] && f[i] <= '8' {
            lemma_placed_board_len(f, i + 1, rank, file + (f[i] as int - 48), p);
        } else {
            let piece = Piece::spec_from_letter(f[i])->Some_0;
            lemma_placed_board_len(
                f,
                i + 1,
                rank,
                file + 1,
                p.with_piece(piece, Square((16 * rank + file) as u8)),
            );
        }
    }
}

/// Finds the first space at or after `from`.
pub fn find_space(s: &str, from: usize) -> (end: usize)
    ensures
        end == cut(s@, from as int),
        end <= s@.len(),
        from <= s@.len() ==> from <= end,
{
    let n = s.unicode_len();
    if from >= n {
        return n;
    }
    let mut i: usize = from;
    while i < n
        invariant
            from <= i <= n,
            n == s@.len(),
            cut(s@, from as int) == cut(s@, i as int),
        decreases n - i,
    {
        if s.get_char(i) == ' ' {
            return i;
        }
        i += 1;
    }
    n
}

/// Reads the placement field onto the empty state `state`.
pub fn place_pieces(state: &mut GameState, f: &str) -> (ok: bool)
    requires
        old(state)@ == GameState::spec_new(),
    ensures
        ok == placed(f@, 0, 7, 0, GameState::spec_new()) is Some,
        ok ==> final(state)@ == placed(f@, 0, 7, 0, GameState::spec_new())->Some_0,
        ok ==> final(state)@.board.len() == 128,
{
    broadcast use crate::board::Board::lemma_len;

    let n = f.unicode_len();
    let mut i: usize = 0;
    let mut rank: u8 = 7;
    let mut file: u8 = 0;
    while i < n
        invariant
            i <= n,
            n == f@.len(),
            rank <= 7,
            file <= 8,
            placed(f@, 0, 7, 0, GameState::spec_new()) == placed(
                f@,
                i as int,
                rank as int,
                file as int,
                state@,
            ),
        decreases n - i,
    {
        let c = f.get_char(i);
        if c == '/' {
            if rank == 0 {
                return false;
            }
            rank -= 1;
            file = 0;
        } else if c >= '1' && c <= '8' {
            let skip: u8 = c as u8 - 48;
            if file + skip > 8 {
                return false;
            }
            file += skip;
        } else {
            match Piece::from_letter(c) {
                Some(piece) => {
                    if file >= 8 {
                        return false;
                    }
                    state.set(piece, &Square(16 * rank + file));
                    file += 1;
                },
                None => {
                    return false;
                },
            }
        }
        i += 1;
    }
    true
}

/// Reads the castling field.
pub fn read_rights(f: &str) -> (r: Option<CastlingRights>)
    ensures
        r == granted(f@, 0, CastlingRights::spec_none()),
{
    let n = f.unicode_len();
    let mut rights = CastlingRights::default();
    let mut i: usize = 0;
    while i < n
        invariant
            i <= n,
            n == f@.len(),
            granted(f@, 0, CastlingRights::spec_none()) == granted(f@, i as int, rights),
        decreases n - i,
    {
        let c = f.get_char(i);
        if c == 'K' {
            rights.white_kingside = true;
        } else if c == 'Q' {
            rights.white_queenside = true;
        } else if c == 'k' {
            rights.black_kingside = true;
        } else if c == 'q' {
            rights.black_queenside = true;
        } else if c == '-' {
            rights = CastlingRights::default();
        } else {
            return None;
        }
        i += 1;
    }
    Some(rights)
}

/// Reads the en-passant field.
pub fn read_target(f: &str) -> (r: Option<Option<Square>>)
    ensures
        r == targeted(f@),
{
    if f.unicode_len() == 1 && f.get_char(0) == '-' {
        assert(f@ =~= seq!['-']);
        return Some(None);
    }
    assert(f@ != seq!['-']) by {
        if f@ == seq!['-'] {
            assert(f@[0] == '-');
        }
    }
    match Square::try_from(f) {
        Ok(sq) => Some(Some(sq)),
        Err(_) => None,
    }
}

/// Reads a counter field.
pub fn read_counter(f: &str) -> (r: Option<u8>)
    ensures
        r == counted(f@),
{
    let n = f.unicode_len();
    if n < 1 || n > 3 {
        return None;
    }
    let mut value: u16 = 0;
    let mut i: usize = 0;
    while i < n
        invariant
            i <= n,
            n == f@.len(),
            n <= 3,
            value == digits_value(f@, i as int),
            value <= 999,
            i < 3 ==> value <= 99,
            i < 2 ==> value <= 9,
            i < 1 ==> value == 0,
            forall|j: int| 0 <= j < i ==> '0' <= #[trigger] f@[j] && f@[j] <= '9',
        decreases n - i,
    {
        let c = f.get_char(i);
        if !(c >= '0' && c <= '9') {
            return None;
        }
        value = value * 10 + (c as u8 - 48) as u16;
        i += 1;
    }
    if value > 255 {
        return None;
    }
    Some(value as u8)
}

} // verus!
