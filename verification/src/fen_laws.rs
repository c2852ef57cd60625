use crate::chess::GameState;
use crate::fen::{
    castling_text, counted, cut, digits_value, fen_text, fields, granted, loaded, one_king_each, parsed,
    placed, placement, rank_text, ranks_text, target_text, targeted, written_full_moves,
};
use crate::piece::{lemma_piece_letter_round_trip, Color, PType, Piece};
use crate::position::{king_of, CastlingRights, Position};
use crate::square::{on_board, Square};
use crate::text::{decimal, digit_char};
use vstd::prelude::*;

verus! {

/// Whether a text holds no space.
pub open spec fn spaceless(a: Seq<char>) -> bool {
    forall|i: int| 0 <= i < a.len() ==> #[trigger] a[i] != ' '
}

/// A stretch without a space ends at the next cut.
pub proof fn lemma_cut(s: Seq<char>, from: int, end: int)
    requires
        0 <= from <= end <= s.len(),
        forall|j: int| from <= j < end ==> #[trigger] s[j] != ' ',
        end < s.len() ==> s[end] == ' ',
    ensures
        cut(s, from) == end,
    decreases end - from,
{
    if from < end {
        lemma_cut(s, from + 1, end);
    }
}

/// The numeral of a counter is one to three digits and spells the counter.
pub proof fn lemma_counter_read_back(n: u8)
    ensures
        counted(decimal(n as nat)) == Some(n),
        spaceless(decimal(n as nat)),
{
    reveal_with_fuel(decimal, 3);
    reveal_with_fuel(digits_value, 4);
    let d = decimal(n as nat);
    if n < 10 {
        assert(d =~= seq![digit_char(n as int)]);
    } else if n < 100 {
        assert(d =~= seq![digit_char(n as int / 10), digit_char(n as int % 10)]);
    } else {
        assert(d =~= seq![
            digit_char(n as int / 100),
            digit_char((n as int / 10) % 10),
            digit_char(n as int % 10),
        ]);
    }
}

/// The castling field reads back as the rights it was written for.
pub proof fn lemma_rights_read_back(rights: CastlingRights)
    ensures
        granted(castling_text(rights), 0, CastlingRights::spec_none()) == Some(rights),
        spaceless(castling_text(rights)),
{
    reveal_with_fuel(granted, 6);
    let none = Seq::<char>::empty();
    let a = if rights.white_kingside {
        seq!['K']
    } else {
        none
    };
    let b = if rights.white_queenside {
        seq!['Q']
    } else {
        none
    };
    let c = if rights.black_kingside {
        seq!['k']
    } else {
        none
    };
    let d = if rights.black_queenside {
        seq!['q']
    } else {
        none
    };
    let letters = a + b + c + d;
    assert(letters.len() == a.len() + b.len() + c.len() + d.len());
    let t = castling_text(rights);
    if letters.len() == 0 {
        assert(t =~= seq!['-']);
    } else {
        assert(t == letters);
        assert(forall|i: int|
            0 <= i < t.len() ==> #[trigger] t[i] == 'K' || t[i] == 'Q' || t[i] == 'k' || t[i] == 'q');
    }
}

/// The en-passant field reads back as the target it was written for.
pub proof fn lemma_target_read_back(target: Option<Square>)
    requires
        target is Some ==> target->Some_0.valid(),
    ensures
        targeted(target_text(target)) == Some(target),
        spaceless(target_text(target)),
{
    reveal_with_fuel(decimal, 2);
    match target {
        None => {},
        Some(sq) => {
            let t = target_text(target);
            let rank = sq.spec_rank();
            let file = sq.spec_file();
            assert(0 <= rank < 8 && 0 <= file < 8);
            assert(t =~= seq![((file + 97) as u8) as char, digit_char(rank + 1)]);
            assert(t != seq!['-']) by {
                assert(t.len() == 2);
            }
            assert(sq.0 == 16 * rank + file);
        },
    }
}

/// The position with the pieces of `board` put on `rank` from file `from` on.
pub open spec fn put_files(q: Position, board: Seq<Option<Piece>>, rank: int, from: int) -> Position
    decreases 8 - from,
{
    if from < 0 || from >= 8 {
        q
    } else {
        let next = match board[16 * rank + from] {
            Some(piece) => q.with_piece(piece, Square((16 * rank + from) as u8)),
            None => q,
        };
        put_files(next, board, rank, from + 1)
    }
}

/// The position with the pieces of `board` put on the ranks from `rank` down.
pub open spec fn put_ranks(q: Position, board: Seq<Option<Piece>>, rank: int) -> Position
    decreases rank + 1,
{
    if rank < 0 {
        q
    } else {
        put_ranks(put_files(q, board, rank, 0), board, rank - 1)
    }
}

/// Whether the slot `j` comes before file `file` of `rank` in the order in
/// which a placement is read.
pub open spec fn read_before(j: int, rank: int, file: int) -> bool {
    on_board(j) && (j / 16 > rank || (j / 16 == rank && j % 16 < file))
}

/// Whether `q` is what reading the placement of `board` gives up to file
/// `file` of `rank`: the pieces read so far and no others, each remembered
/// king a king of the board, each king read so far remembered, and the
/// books of an empty state.
pub open spec fn read_upto(q: Position, board: Seq<Option<Piece>>, rank: int, file: int) -> bool {
    &&& q.board.len() == 128
    &&& forall|j: int|
        0 <= j < 128 ==> #[trigger] q.board[j] == (if read_before(j, rank, file) {
            board[j]
        } else {
            None
        })
    &&& forall|c: Color|
        (#[trigger] q.king_sq(c)) is Some ==> q.king_sq(c)->Some_0.valid() && board[q.king_sq(
            c,
        )->Some_0.0 as int] == Some(king_of(c))
    &&& forall|j: int|
        0 <= j < 128 && read_before(j, rank, file) && (#[trigger] board[j]) is Some
            && board[j]->Some_0.p_type == PType::KING ==> q.king_sq(board[j]->Some_0.color)
            is Some
    &&& q == (Position {
        board: q.board,
        white_king_square: q.white_king_square,
        black_king_square: q.black_king_square,
        ..GameState::spec_new()
    })
}

/// Putting the rest of a rank reads the rank to its end.
pub proof fn lemma_put_files(q: Position, board: Seq<Option<Piece>>, rank: int, from: int)
    requires
        board.len() == 128,
        0 <= rank <= 7,
        0 <= from <= 8,
        read_upto(q, board, rank, from),
    ensures
        read_upto(put_files(q, board, rank, from), board, rank, 8),
    decreases 8 - from,
{
    if from < 8 {
        let at = 16 * rank + from;
        let next = match board[at] {
            Some(piece) => q.with_piece(piece, Square(at as u8)),
            None => q,
        };
        assert(read_upto(next, board, rank, from + 1)) by {
            assert forall|j: int| 0 <= j < 128 implies #[trigger] next.board[j] == (if read_before(
                j,
                rank,
                from + 1,
            ) {
                board[j]
            } else {
                None
            }) by {
                assert(q.board[j] == (if read_before(j, rank, from) {
                    board[j]
                } else {
                    None
                }));
            }
            assert forall|c: Color| (#[trigger] next.king_sq(c)) is Some implies next.king_sq(
                c,
            )->Some_0.valid() && board[next.king_sq(c)->Some_0.0 as int] == Some(king_of(c)) by {
                if next.king_sq(c) != q.king_sq(c) {
                    assert(board[at] is Some);
                    assert(next.king_sq(c) == Some(Square(at as u8)));
                    assert(board[at]->Some_0 == king_of(c));
                } else {
                    assert(q.king_sq(c) is Some);
                }
            }
            assert forall|j: int|
                0 <= j < 128 && read_before(j, rank, from + 1) && (#[trigger] board[j]) is Some
                    && board[j]->Some_0.p_type == PType::KING implies next.king_sq(
                board[j]->Some_0.color,
            ) is Some by {
                if j != at {
                    assert(read_before(j, rank, from));
                }
            }
        }
        lemma_put_files(next, board, rank, from + 1);
    }
}

/// Putting the ranks from `rank` down reads the board to its end.
pub proof fn lemma_put_ranks(q: Position, board: Seq<Option<Piece>>, rank: int)
    requires
        board.len() == 128,
        -1 <= rank <= 7,
        read_upto(q, board, rank, 0),
    ensures
        read_upto(put_ranks(q, board, rank), board, -1, 0),
    decreases rank + 1,
{
    if rank >= 0 {
        lemma_put_files(q, board, rank, 0);
        let next = put_files(q, board, rank, 0);
        assert(read_upto(next, board, rank - 1, 0)) by {
            assert forall|j: int| 0 <= j < 128 implies read_before(j, rank, 8) == read_before(
                j,
                rank - 1,
                0,
            ) by {}
        }
        lemma_put_ranks(next, board, rank - 1);
    }
}

/// Reading the text of the rest of a rank puts the pieces of that rest.
pub proof fn lemma_placed_rank(
    t: Seq<char>,
    i: int,
    board: Seq<Option<Piece>>,
    rank: int,
    file: int,
    run: int,
    q: Position,
)
    requires
        board.len() == 128,
        0 <= rank <= 7,
        0 <= run <= file <= 8,
        0 <= i,
        i + rank_text(board, rank, file, run).len() <= t.len(),
        t.subrange(i, i + rank_text(board, rank, file, run).len()) == rank_text(
            board,
            rank,
            file,
            run,
        ),
    ensures
        placed(t, i, rank, file - run, q) == placed(
            t,
            i + rank_text(board, rank, file, run).len(),
            rank,
            8,
            put_files(q, board, rank, file),
        ),
    decreases 8 - file,
{
    let text = rank_text(board, rank, file, run);
    let part = t.subrange(i, i + text.len());
    let pending = if run > 0 {
        seq![digit_char(run)]
    } else {
        Seq::<char>::empty()
    };
    if file >= 8 {
        if run > 0 {
            assert(part[0] == digit_char(run));
            assert(t[i] == digit_char(run));
        }
    } else {
        match board[16 * rank + file] {
            None => {
                lemma_placed_rank(t, i, board, rank, file + 1, run + 1, q);
            },
            Some(piece) => {
                let rest = rank_text(board, rank, file + 1, 0);
                assert(text == pending + seq![piece.spec_letter()] + rest);
                let k = pending.len() as int;
                lemma_piece_letter_round_trip(piece);
                if run > 0 {
                    assert(part[0] == digit_char(run));
                    assert(t[i] == digit_char(run));
                }
                assert(part[k] == piece.spec_letter());
                assert(t[i + k] == piece.spec_letter());
                assert(t.subrange(i + k + 1, i + k + 1 + rest.len()) =~= rest) by {
                    assert forall|j: int| 0 <= j < rest.len() implies t[i + k + 1 + j] == rest[j] by {
                        assert(part[k + 1 + j] == text[k + 1 + j]);
                    }
                }
                let next = q.with_piece(piece, Square((16 * rank + file) as u8));
                lemma_placed_rank(t, i + k + 1, board, rank, file + 1, 0, next);
                assert(placed(t, i + k, rank, file, q) == placed(t, i + k + 1, rank, file + 1, next));
            },
        }
    }
}

/// Reading the text of the ranks from `rank` down puts their pieces.
pub proof fn lemma_placed_ranks(t: Seq<char>, i: int, board: Seq<Option<Piece>>, rank: int, q: Position)
    requires
        board.len() == 128,
        0 <= rank <= 7,
        0 <= i <= t.len(),
        t.subrange(i, t.len() as int) == ranks_text(board, rank),
    ensures
        placed(t, i, rank, 0, q) == Some(put_ranks(q, board, rank)),
    decreases rank,
{
    let line = rank_text(board, rank, 0, 0);
    let tail = t.subrange(i, t.len() as int);
    reveal_with_fuel(put_ranks, 2);
    if rank <= 0 {
        assert(tail == line);
        assert(i + line.len() == t.len());
        lemma_placed_rank(t, i, board, rank, 0, 0, q);
    } else {
        let rest = ranks_text(board, rank - 1);
        assert(tail == line + seq!['/'] + rest);
        assert(t.subrange(i, i + line.len()) =~= line) by {
            assert forall|j: int| 0 <= j < line.len() implies t[i + j] == line[j] by {
                assert(tail[j] == line[j]);
            }
        }
        lemma_placed_rank(t, i, board, rank, 0, 0, q);
        let k = i + line.len();
        assert(t[k] == '/') by {
            assert(tail[line.len() as int] == '/');
        }
        assert(t.subrange(k + 1, t.len() as int) =~= rest) by {
            assert forall|j: int| 0 <= j < rest.len() implies t[k + 1 + j] == rest[j] by {
                assert(tail[line.len() + 1 + j] == rest[j]);
            }
        }
        let next = put_files(q, board, rank, 0);
        lemma_placed_ranks(t, k + 1, board, rank - 1, next);
        assert(placed(t, k, rank, 8, next) == placed(t, k + 1, rank - 1, 0, next));
    }
}

/// The text of a rank holds no space.
pub proof fn lemma_rank_text_spaceless(board: Seq<Option<Piece>>, rank: int, file: int, run: int)
    requires
        0 <= run <= file <= 8,
    ensures
        spaceless(rank_text(board, rank, file, run)),
    decreases 8 - file,
{
    if file < 8 {
        match board[16 * rank + file] {
            None => {
                lemma_rank_text_spaceless(board, rank, file + 1, run + 1);
            },
            Some(piece) => {
                lemma_rank_text_spaceless(board, rank, file + 1, 0);
                lemma_piece_letter_round_trip(piece);
            },
        }
    }
}

/// The text of the ranks holds no space.
pub proof fn lemma_ranks_text_spaceless(board: Seq<Option<Piece>>, rank: int)
    ensures
        spaceless(ranks_text(board, rank)),
    decreases rank,
{
    if rank <= 0 {
        lemma_rank_text_spaceless(board, 0, 0, 0);
    } else {
        lemma_rank_text_spaceless(board, rank, 0, 0);
        lemma_ranks_text_spaceless(board, rank - 1);
    }
}

/// Six spaceless texts joined by single spaces come apart as they were.
pub proof fn lemma_fields_of(
    a0: Seq<char>,
    a1: Seq<char>,
    a2: Seq<char>,
    a3: Seq<char>,
    a4: Seq<char>,
    a5: Seq<char>,
)
    requires
        spaceless(a0),
        spaceless(a1),
        spaceless(a2),
        spaceless(a3),
        spaceless(a4),
        spaceless(a5),
    ensures
        fields(
            a0 + seq![' '] + a1 + seq![' '] + a2 + seq![' '] + a3 + seq![' '] + a4 + seq![' '] + a5,
        ) == Some(seq![a0, a1, a2, a3, a4, a5]),
{
    let s = a0 + seq![' '] + a1 + seq![' '] + a2 + seq![' '] + a3 + seq![' '] + a4 + seq![' '] + a5;
    let e0 = a0.len() as int;
    let e1 = e0 + 1 + a1.len();
    let e2 = e1 + 1 + a2.len();
    let e3 = e2 + 1 + a3.len();
    let e4 = e3 + 1 + a4.len();
    let e5 = e4 + 1 + a5.len();
    assert(s.len() == e5);
    assert forall|j: int| 0 <= j < e0 implies #[trigger] s[j] != ' ' by {
        assert(s[j] == a0[j]);
    }
    assert forall|j: int| e0 + 1 <= j < e1 implies #[trigger] s[j] != ' ' by {
        assert(s[j] == a1[j - e0 - 1]);
    }
    assert forall|j: int| e1 + 1 <= j < e2 implies #[trigger] s[j] != ' ' by {
        assert(s[j] == a2[j - e1 - 1]);
    }
    assert forall|j: int| e2 + 1 <= j < e3 implies #[trigger] s[j] != ' ' by {
        assert(s[j] == a3[j - e2 - 1]);
    }
    assert forall|j: int| e3 + 1 <= j < e4 implies #[trigger] s[j] != ' ' by {
        assert(s[j] == a4[j - e3 - 1]);
    }
    assert forall|j: int| e4 + 1 <= j < e5 implies #[trigger] s[j] != ' ' by {
        assert(s[j] == a5[j - e4 - 1]);
    }
    assert(s[e0] == ' ' && s[e1] == ' ' && s[e2] == ' ' && s[e3] == ' ' && s[e4] == ' ');
    lemma_cut(s, 0, e0);
    lemma_cut(s, e0 + 1, e1);
    lemma_cut(s, e1 + 1, e2);
    lemma_cut(s, e2 + 1, e3);
    lemma_cut(s, e3 + 1, e4);
    lemma_cut(s, e4 + 1, e5);
    assert(s.subrange(0, e0) =~= a0);
    assert(s.subrange(e0 + 1, e1) =~= a1);
    assert(s.subrange(e1 + 1, e2) =~= a2);
    assert(s.subrange(e2 + 1, e3) =~= a3);
    assert(s.subrange(e3 + 1, e4) =~= a4);
    assert(s.subrange(e4 + 1, e5) =~= a5);
}

/// What a position must be for its position string to load: the board has
/// its 128 slots, those off the board empty; each side has exactly one king,
/// standing where it is remembered; and the en-passant target and the
/// castling rights agree with the board.
pub open spec fn presentable(p: Position) -> bool {
    &&& p.board.len() == 128
    &&& forall|j: int| 0 <= j < 128 && !on_board(j) ==> (#[trigger] p.board[j]) is None
    &&& one_king_each(p)
    &&& p.piece_at(p.white_king_square->Some_0) == Some(king_of(Color::WHITE))
    &&& p.piece_at(p.black_king_square->Some_0) == Some(king_of(Color::BLACK))
    &&& p.target_consistent()
    &&& p.rights_consistent()
}

/// The position that the position string of `p` spells out.
pub open spec fn reread(p: Position) -> Position {
    Position {
        board: p.board,
        white_king_square: p.white_king_square,
        black_king_square: p.black_king_square,
        side_to_move: p.side_to_move,
        castling_rights: p.castling_rights,
        en_passant_sq: p.en_passant_sq,
        half_moves: p.half_moves,
        full_moves: written_full_moves(p.full_moves, p.has_moved) as u8,
        unique_positions: seq![(placement(p.board), 1nat)],
        ..GameState::spec_new()
    }
}

/// The position string comes apart into the six fields it was joined from.
#[verifier::rlimit(30)]
pub proof fn lemma_fields_of_written(p: Position)
    requires
        p.en_passant_sq is Some ==> p.en_passant_sq->Some_0.valid(),
    ensures
        fields(fen_text(p)) == Some(
            seq![
                placement(p.board),
                seq![p.side_to_move.spec_letter()],
                castling_text(p.castling_rights),
                target_text(p.en_passant_sq),
                decimal(p.half_moves as nat),
                decimal(written_full_moves(p.full_moves, p.has_moved)),
            ],
        ),
{
    let a0 = placement(p.board);
    let a1 = seq![p.side_to_move.spec_letter()];
    let a2 = castling_text(p.castling_rights);
    let a3 = target_text(p.en_passant_sq);
    let a4 = decimal(p.half_moves as nat);
    let full = written_full_moves(p.full_moves, p.has_moved) as u8;
    let a5 = decimal(full as nat);
    lemma_ranks_text_spaceless(p.board, 7);
    lemma_rights_read_back(p.castling_rights);
    lemma_target_read_back(p.en_passant_sq);
    lemma_counter_read_back(p.half_moves);
    lemma_counter_read_back(full);
    lemma_fields_of(a0, a1, a2, a3, a4, a5);
    assert(fen_text(p) =~= a0 + seq![' '] + a1 + seq![' '] + a2 + seq![' '] + a3 + seq![' '] + a4
        + seq![' '] + a5);
}

/// The placement of a board with one king each reads back as that board,
/// with the kings remembered where they stand.
pub proof fn lemma_board_read_back(p: Position)
    requires
        presentable(p),
    ensures
        placed(placement(p.board), 0, 7, 0, GameState::spec_new()) == Some(
            Position {
                board: p.board,
                white_king_square: p.white_king_square,
                black_king_square: p.black_king_square,
                ..GameState::spec_new()
            },
        ),
{
    let board = p.board;
    let a0 = placement(board);
    let start = GameState::spec_new();
    assert(a0.subrange(0, a0.len() as int) =~= a0);
    lemma_placed_ranks(a0, 0, board, 7, start);
    let read = put_ranks(start, board, 7);
    assert(read_upto(start, board, 7, 0));
    lemma_put_ranks(start, board, 7);
    assert(read.board =~= board) by {
        assert forall|j: int| 0 <= j < 128 implies read.board[j] == board[j] by {
            if on_board(j) {
                assert(read_before(j, -1, 0));
            } else {
                assert(board[j] is None);
            }
        }
    }
    let white = p.white_king_square->Some_0;
    let black = p.black_king_square->Some_0;
    assert(read.white_king_square == p.white_king_square) by {
        assert(read_before(white.0 as int, -1, 0));
        assert(board[white.0 as int] is Some);
        assert(read.king_sq(Color::WHITE) is Some);
        let found = read.king_sq(Color::WHITE)->Some_0;
        assert(board[found.0 as int] is Some);
        assert(p.king_sq(Color::WHITE) == Some(Square(found.0)));
    }
    assert(read.black_king_square == p.black_king_square) by {
        assert(read_before(black.0 as int, -1, 0));
        assert(board[black.0 as int] is Some);
        assert(read.king_sq(Color::BLACK) is Some);
        let found = read.king_sq(Color::BLACK)->Some_0;
        assert(board[found.0 as int] is Some);
        assert(p.king_sq(Color::BLACK) == Some(Square(found.0)));
    }
}

/// The position string of a presentable position spells out that position.
pub proof fn lemma_written_parses(p: Position)
    requires
        presentable(p),
    ensures
        parsed(fen_text(p)) == Some(reread(p)),
{
    let full = written_full_moves(p.full_moves, p.has_moved) as u8;
    lemma_fields_of_written(p);
    lemma_board_read_back(p);
    lemma_rights_read_back(p.castling_rights);
    lemma_target_read_back(p.en_passant_sq);
    lemma_counter_read_back(p.half_moves);
    lemma_counter_read_back(full);
    let f = fields(fen_text(p))->Some_0;
    assert(f[0] == placement(p.board));
    assert(f[1] == seq![p.side_to_move.spec_letter()]);
    assert(Color::spec_parse(f[1]) == Ok::<Color, crate::error::Error>(p.side_to_move)) by {
        if p.side_to_move == Color::WHITE {
            assert(f[1] =~= seq!['w']);
        } else {
            assert(f[1] =~= seq!['b']);
            assert(f[1] != seq!['w']) by {
                assert(f[1][0] == 'b');
            }
        }
    }
}

/// What is written loads: the position string of a presentable position
/// loads, as the same board with the same side to move, rights, target and
/// half-move clock, the full-move number as it was written, the check status
/// worked out anew, one occurrence of the placement, and no history; and
/// what has loaded is written as the same string again.
pub proof fn law_written_positions_load(p: Position)
    requires
        presentable(p),
    ensures
        loaded(fen_text(p)) == Ok::<Position, crate::error::Error>(reread(p).with_check_status()),
        fen_text(reread(p).with_check_status()) == fen_text(p),
{
    lemma_written_parses(p);
    let q = reread(p);
    assert(fen_text(q) =~= fen_text(p));
    assert(one_king_each(q));
    assert(q.target_consistent());
    assert(q.rights_consistent());
}

} // verus!
