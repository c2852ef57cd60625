use hieu_chess::board::Board;
use hieu_chess::utils::{is_enemy, is_friendly, is_valid_idx};
use hieu_chess::{Chess, Color, Error, File, GameState, Move, MoveGen, PType, Piece, Rank, Square};

const START: &str = "rnbqkbnr/pppppppp/8/8/8/8/PPPPPPPP/RNBQKBNR w KQkq - 0 1";
const KIWIPETE: &str = "r3k2r/p1ppqpb1/bn2pnp1/3PN3/1p2P3/2N2Q1p/PPPBBPPP/R3K2R w KQkq - 0 1";

fn loaded(fen: &str) -> GameState {
    let mut state = GameState::new();
    state.load_fen(fen).unwrap();
    assert!(state.is_well_formed());
    state
}

fn sq(name: &str) -> Square {
    name.try_into().unwrap()
}

#[test]
fn round_trip_of_position_strings() {
    let fens = [
        START,
        KIWIPETE,
        "4k3/8/8/8/8/8/8/4K3 b - - 99 255",
        "r3k2r/8/8/8/8/8/8/R3K2R w Kq - 7 12",
        "rnbqkbnr/ppp1pppp/8/8/3pP3/8/PPPP1PPP/RNBQKBNR b KQkq e3 0 3",
        "8/8/3p4/KPp4r/R4p1k/8/4P1P1/8 w - c6 0 1",
    ];
    for fen in fens {
        let state = loaded(fen);
        assert_eq!(state.get_fen(), fen);
    }
}

#[test]
fn loading_rejects_what_is_not_canonical() {
    let bad = [
        "",
        "8/8/8/8/8/8/8/k6K",
        "8/8/8/8/8/8/8/k6K w - - 0",
        "8/8/8/8/8/8/8/k6K w - - 0 1 extra",
        "8/8/8/8/8/8/8/k6K  w - - 0 1",
        "44/8/8/8/8/8/8/k6K w - - 0 1",
        "9/8/8/8/8/8/8/k6K w - - 0 1",
        "8/8/8/8/8/8/8/k6Kp w - - 0 1",
        "8/8/8/8/8/8/8/8/k6K w - - 0 1",
        "8/8/8/8/8/8/k6K w - - 0 1",
        "8/8/8/8/8/8/8/k6X w - - 0 1",
        "8/8/8/8/8/8/8/k6K x - - 0 1",
        "8/8/8/8/8/8/8/k6K W - - 0 1",
        "r3k2r/8/8/8/8/8/8/R3K2R w kqKQ - 0 1",
        "r3k2r/8/8/8/8/8/8/R3K2R w KK - 0 1",
        "r3k2r/8/8/8/8/8/8/R3K2R w K- - 0 1",
        "8/8/8/8/8/8/8/k6K w - - 00 1",
        "8/8/8/8/8/8/8/k6K w - - 0 01",
        "8/8/8/8/8/8/8/k6K w - - 0 256",
        "8/8/8/8/8/8/8/k6K w - - +1 1",
        "8/8/8/8/8/8/8/k6K w - - -1 1",
        "8/8/8/8/8/8/8/k6K w - -- 0 1",
        "8/8/8/8/8/8/8/k6K w - E3 0 1",
        "8/8/8/8/8/8/8/k6K w - e9 0 1",
    ];
    for fen in bad {
        let mut state = GameState::new();
        assert_eq!(state.load_fen(fen), Err(Error::InvalidFen), "{}", fen);
        assert_eq!(state.get_fen(), "8/8/8/8/8/8/8/8 w - - 0 0");
    }
}

#[test]
fn loading_rejects_what_disagrees_with_the_board() {
    let bad = [
        // rights without their rook or with the king away from home
        "4k3/8/8/8/8/8/8/4K3 w K - 0 1",
        "4k3/8/8/8/8/8/8/R4K2 w Q - 0 1",
        "r3k3/8/8/8/8/8/8/4K3 w k - 0 1",
        "r2k4/8/8/8/8/8/8/4K3 w q - 0 1",
        // a target with no pawn in front of it, or on an occupied square
        "4k3/8/8/8/8/8/8/4K3 w - e6 0 1",
        "4k3/8/8/8/4P3/8/8/4K3 w - e3 0 1",
        "4k3/8/4n3/4p3/8/8/8/4K3 w - e6 0 1",
    ];
    for fen in bad {
        let mut state = GameState::new();
        assert_eq!(state.load_fen(fen), Err(Error::InvalidFen), "{}", fen);
    }
}

#[test]
fn loading_asks_for_one_king_each() {
    let bad = [
        "8/8/8/8/8/8/8/8 w - - 0 1",
        "8/8/8/8/8/8/8/7K w - - 0 1",
        "k7/8/8/8/8/8/8/8 w - - 0 1",
        "k7/8/8/8/8/8/8/K6K w - - 0 1",
        "kk6/8/8/8/8/8/8/7K w - - 0 1",
    ];
    for fen in bad {
        let mut state = GameState::new();
        assert_eq!(state.load_fen(fen), Err(Error::NoKingPresent), "{}", fen);
    }
}

#[test]
fn a_failed_load_leaves_the_state_alone() {
    let mut state = loaded(KIWIPETE);
    assert_eq!(state.load_fen("nonsense"), Err(Error::InvalidFen));
    assert_eq!(state.get_fen(), KIWIPETE);
}

#[test]
fn loading_replaces_the_state() {
    let mut state = loaded(KIWIPETE);
    assert!(state.play_move(Move::from_str("e5", "f7", None)).is_ok());
    assert_eq!(state.captures.len(), 1);
    state.load_fen("k7/8/8/8/8/8/8/7K w - - 0 1").unwrap();
    assert_eq!(state.get_fen(), "k7/8/8/8/8/8/8/7K w - - 0 1");
    assert!(state.captures.is_empty());
    state.undo();
    assert_eq!(state.get_fen(), "k7/8/8/8/8/8/8/7K w - - 0 1");
}

fn snapshot(state: &GameState) -> (String, Vec<Square>, bool, Option<Square>, Option<Square>, usize, (u8, u8)) {
    (
        state.get_fen(),
        state.get_check_rays(),
        state.is_in_check,
        state.white_king_square,
        state.black_king_square,
        state.captures.len(),
        state.get_counters(),
    )
}

#[test]
fn make_and_unmake_are_inverse() {
    let fens = [
        START,
        KIWIPETE,
        "r3k2r/8/2q5/1P6/6pP/8/8/R3K2R b KQkq h3 0 1",
        "r3k2r/5P2/2q5/1P6/6p1/7P/8/R3K2R w KQkq - 0 1",
        "8/2p5/3p4/KP5r/1R3p1k/8/4P1P1/8 w - - 0 1",
        "4k3/8/8/8/8/8/8/4K2R w K - 0 1",
    ];
    for fen in fens {
        let mut state = loaded(fen);
        let before = snapshot(&state);
        let side = state.side_to_move;
        let moves = MoveGen::moves(&mut state, side);
        assert!(!moves.is_empty());
        for m in moves {
            state.make_move(m);
            state.undo();
            assert_eq!(snapshot(&state), before, "{} {:?}", fen, m);
            assert!(state.play_move(m).is_ok());
            assert!(state.is_well_formed());
            state.undo();
            assert_eq!(snapshot(&state), before, "{} {:?}", fen, m);
            assert!(state.is_well_formed());
        }
    }
}

#[test]
fn legal_moves_keep_the_king_safe() {
    let fens = [
        KIWIPETE,
        "8/2bN4/8/2K3qk/8/8/3Q4/8 w - - 0 1",
        "rnb1kbnr/pppppppp/1q6/4Q2B/8/2N4B/P1PPP2P/R3K2R b KQkq - 0 1",
        "8/2p5/3p4/KP5r/1R3p1k/8/4P1P1/8 w - - 0 1",
    ];
    for fen in fens {
        let mut state = loaded(fen);
        let side = state.side_to_move;
        for m in MoveGen::moves(&mut state, side) {
            let pseudo = MoveGen::pseudo_legal(&state, m.from);
            assert!(pseudo.contains(&m));
            state.make_move(m);
            let king = state.get_current_king_sq().unwrap();
            assert!(!state.is_attacked(king), "{} {:?}", fen, m);
            state.undo();
        }
    }
}

#[test]
fn pinned_piece_has_no_move_off_the_line() {
    // the knight on e2 shields the king on e1 from the rook on e8
    let mut state = loaded("4r2k/8/8/8/8/8/4N3/4K3 w - - 0 1");
    assert_eq!(MoveGen::pseudo_legal(&state, sq("e2")).len(), 6);
    assert!(MoveGen::moves_for_square(&mut state, sq("e2")).is_empty());
}

#[test]
fn turns_alternate_on_success_only() {
    let mut state = loaded(START);
    assert_eq!(state.side_to_move, Color::WHITE);
    assert_eq!(state.play_move(Move::from_str("e2", "e5", None)), Err(Error::IllegalMove));
    assert_eq!(state.side_to_move, Color::WHITE);
    assert_eq!(state.play_move(Move::from_str("e4", "e5", None)), Err(Error::UnknownMove));
    assert_eq!(state.side_to_move, Color::WHITE);
    assert_eq!(state.play_move(Move::from_str("e7", "e5", None)), Err(Error::MustWaitForTurn));
    assert_eq!(state.side_to_move, Color::WHITE);
    assert_eq!(state.get_fen(), START);
    assert_eq!(state.play_move(Move::from_str("e2", "e4", None)), Ok(()));
    assert_eq!(state.side_to_move, Color::BLACK);
    assert_eq!(state.play_move(Move::from_str("e7", "e5", None)), Ok(()));
    assert_eq!(state.side_to_move, Color::WHITE);
    assert_eq!(
        state.get_fen(),
        "rnbqkbnr/pppp1ppp/8/4p3/4P3/8/PPPP1PPP/RNBQKBNR w KQkq - 0 2"
    );
}

#[test]
fn promotion_needs_its_piece() {
    let mut state = loaded("4k3/P7/8/8/8/8/8/4K3 w - - 0 1");
    assert_eq!(state.play_move(Move::from_str("a7", "a8", None)), Err(Error::IllegalMove));
    assert_eq!(
        state.play_move(Move::from_str("a7", "a8", Some(Piece::new(PType::KING, Color::WHITE)))),
        Err(Error::IllegalMove)
    );
    assert_eq!(
        state.play_move(Move::from_str("a7", "a8", Some(Piece::new(PType::QUEEN, Color::BLACK)))),
        Err(Error::IllegalMove)
    );
    assert_eq!(
        state.play_move(Move::from_str("a7", "a8", Some(Piece::new(PType::KNIGHT, Color::WHITE)))),
        Ok(())
    );
    assert_eq!(state.get_fen(), "N3k3/8/8/8/8/8/8/4K3 b - - 0 1");
}

#[test]
fn castling_kingside_moves_king_and_rook() {
    let mut state = loaded("rnbqkbnr/pppppppp/8/8/8/8/PPPPPPPP/R3K2R w KQkq - 0 1");
    assert!(state.play_move(Move::from_str("e1", "g1", None)).is_ok());
    assert_eq!(
        state.get_fen(),
        "rnbqkbnr/pppppppp/8/8/8/8/PPPPPPPP/R4RK1 b kq - 1 1"
    );
    assert_eq!(state.white_king_square, Some(sq("g1")));
    state.side_to_move = Color::WHITE;
    assert_eq!(state.get_castling_rights(), (false, false));
}

#[test]
fn castling_queenside_moves_king_and_rook() {
    let mut state = loaded("r3k2r/8/8/8/8/8/8/R3K2R b KQkq - 0 1");
    assert!(state.play_move(Move::from_str("e8", "c8", None)).is_ok());
    assert_eq!(state.get_fen(), "2kr3r/8/8/8/8/8/8/R3K2R w KQ - 1 1");
}

#[test]
fn castling_is_barred_through_attack_and_out_of_check() {
    // the bishop on a6 looks at f1
    let mut state = loaded("4k3/8/b7/8/8/8/8/R3K2R w KQ - 0 1");
    let mut to: Vec<String> = MoveGen::moves_for_square(&mut state, sq("e1"))
        .iter()
        .map(|m| m.to.get_notation())
        .collect();
    to.sort();
    assert_eq!(to, ["c1", "d1", "d2", "f2"]);
    // the rook on e8 gives check
    let mut state = loaded("4r1k1/8/8/8/8/8/8/R3K2R w KQ - 0 1");
    assert!(state.is_in_check);
    let mut to: Vec<String> = MoveGen::moves_for_square(&mut state, sq("e1"))
        .iter()
        .map(|m| m.to.get_notation())
        .collect();
    to.sort();
    assert_eq!(to, ["d1", "d2", "f1", "f2"]);
}

#[test]
fn rook_moves_and_captures_end_rights() {
    let mut state = loaded("r3k2r/8/8/8/8/8/8/R3K2R w KQkq - 0 1");
    assert!(state.play_move(Move::from_str("a1", "a8", None)).is_ok());
    assert_eq!(state.get_fen(), "R3k2r/8/8/8/8/8/8/4K2R b Kk - 0 1");
}

#[test]
fn en_passant_takes_the_pawn_behind() {
    let mut state = loaded("4k3/8/8/8/5p2/8/4P3/4K3 w - - 0 1");
    assert!(state.play_move(Move::from_str("e2", "e4", None)).is_ok());
    assert_eq!(state.en_passant_sq, Some(sq("e3")));
    assert!(state.play_move(Move::from_str("f4", "e3", None)).is_ok());
    assert_eq!(state.get_fen(), "4k3/8/8/8/8/4p3/8/4K3 w - - 0 2");
    assert_eq!(state.captures.len(), 1);
    assert_eq!(state.captures[0].sq, sq("e4"));
    assert_eq!(state.captures[0].piece, Piece::new(PType::PAWN, Color::WHITE));
    state.undo();
    assert_eq!(state.get_fen(), "4k3/8/8/8/4Pp2/8/8/4K3 b - e3 0 1");
    assert!(state.captures.is_empty());
}

#[test]
fn half_move_clock_counts_quiet_moves() {
    let mut state = loaded("4k3/8/8/8/8/8/4P3/4K2R w - - 5 10");
    assert!(state.play_move(Move::from_str("h1", "h2", None)).is_ok());
    assert_eq!(state.get_counters(), (6, 11));
    assert!(state.play_move(Move::from_str("e8", "d8", None)).is_ok());
    assert_eq!(state.get_counters(), (7, 12));
    assert!(state.play_move(Move::from_str("e2", "e3", None)).is_ok());
    assert_eq!(state.get_counters(), (0, 13));
    assert_eq!(state.get_fen(), "3k4/8/8/8/8/4P3/7R/4K3 b - - 0 12");
}

#[test]
fn written_full_move_number_is_at_least_one() {
    let mut state = loaded("4k3/8/8/8/8/8/8/4K3 w - - 0 0");
    assert_eq!(state.get_fen(), "4k3/8/8/8/8/8/8/4K3 w - - 0 0");
    assert!(state.play_move(Move::from_str("e1", "e2", None)).is_ok());
    assert_eq!(state.get_fen(), "4k3/8/8/8/8/8/4K3/8 b - - 1 1");
    assert!(state.play_move(Move::from_str("e8", "e7", None)).is_ok());
    assert_eq!(state.get_fen(), "8/4k3/8/8/8/8/4K3/8 w - - 2 1");
    assert!(state.play_move(Move::from_str("e2", "e3", None)).is_ok());
    assert_eq!(state.get_fen(), "8/4k3/8/8/8/4K3/8/8 b - - 3 2");
}

#[test]
fn fifty_move_rule_at_a_hundred_half_moves() {
    let state = loaded("4k3/8/8/8/8/8/8/4K2R w - - 99 80");
    assert!(!state.is_50_moves());
    let mut state = loaded("4k3/8/8/8/8/8/8/4K2R w - - 100 80");
    assert!(state.is_50_moves());
    assert!(state.is_draw());
}

#[test]
fn draw_is_any_of_its_four_reasons() {
    let mut state = loaded(START);
    assert!(!state.is_draw());
    let mut state = loaded("1R6/8/8/8/8/8/7R/k6K b - - 0 1");
    assert!(state.is_stalemate());
    assert!(state.is_draw());
    let mut state = loaded("8/8/8/8/8/8/8/k6K w - - 0 1");
    assert!(state.is_insufficient_material());
    assert!(state.is_draw());
    assert!(!state.is_checkmate());
}

#[test]
fn repetition_counts_placements() {
    let mut state = loaded("4k3/8/8/8/8/8/8/4K2R w - - 0 1");
    let there = ["h1", "e8", "h2", "d8"];
    let back = ["h2", "d8", "h1", "e8"];
    for round in 0..2 {
        for i in 0..4 {
            assert!(!state.is_threefold_repetition(), "round {}", round);
            assert!(state.play_move(Move::from_str(there[i], back[i], None)).is_ok());
        }
    }
    assert!(state.is_threefold_repetition());
    assert!(state.is_draw());
    state.undo();
    assert!(!state.is_threefold_repetition());
}

#[test]
fn insufficient_material_rule_of_thumb() {
    // a knight beside two bishops on squares of one shade is enough
    let state = loaded("8/b7/3B4/8/8/8/7N/k6K w - - 0 1");
    assert!(!state.is_insufficient_material());
    // two knights are enough by this rule
    let state = loaded("8/8/8/8/8/8/6NN/k6K w - - 0 1");
    assert!(!state.is_insufficient_material());
    // bishops on squares of both shades on one side only
    let state = loaded("8/8/8/8/8/8/6BB/k6K w - - 0 1");
    assert!(!state.is_insufficient_material());
    let state = loaded("8/8/8/8/8/8/6R1/k6K w - - 0 1");
    assert!(!state.is_insufficient_material());
    let state = loaded("8/8/8/8/8/8/6q1/k6K w - - 0 1");
    assert!(!state.is_insufficient_material());
}

#[test]
fn counting_the_ways_to_play() {
    let mut state = loaded(START);
    assert_eq!(state.perft(0), 1);
    assert_eq!(state.perft(1), 20);
    assert_eq!(state.perft(2), 400);
    assert_eq!(state.perft(3), 8902);
    assert_eq!(state.get_fen(), START);
    let mut state = loaded("8/2p5/3p4/KP5r/1R3p1k/8/4P1P1/8 w - - 0 1");
    assert_eq!(state.perft(1), 14);
    assert_eq!(state.perft(2), 191);
    assert_eq!(state.perft(3), 2812);
    let mut state = loaded(KIWIPETE);
    assert_eq!(state.perft(1), 48);
    assert_eq!(state.perft(2), 2039);
    let mut state = loaded("rnbq1k1r/pp1Pbppp/2p5/8/2B5/8/PPP1NnPP/RNBQK2R w KQ - 1 8");
    assert_eq!(state.perft(1), 44);
    assert_eq!(state.perft(2), 1486);
}

#[test]
fn undo_without_history_does_nothing() {
    let mut state = loaded(KIWIPETE);
    let before = snapshot(&state);
    state.undo();
    assert_eq!(snapshot(&state), before);
}

#[test]
fn well_formedness_notices_tampering() {
    let mut state = loaded(START);
    state.en_passant_sq = Some(sq("e5"));
    assert!(!state.is_well_formed());
    let mut state = loaded(START);
    state.board.set(Piece::new(PType::KING, Color::WHITE), &sq("e4").0);
    assert!(!state.is_well_formed());
    let mut state = loaded(START);
    state.board.remove(&sq("h1").0);
    assert!(!state.is_well_formed());
    let mut state = loaded(START);
    state.is_in_check = true;
    assert!(!state.is_well_formed());
    assert!(GameState::new().is_well_formed());
}

#[test]
fn room_in_the_counters() {
    let state = loaded("4k3/8/8/8/8/8/8/4K3 w - - 0 254");
    assert!(state.has_room());
    let state = loaded("4k3/8/8/8/8/8/8/4K3 w - - 0 255");
    assert!(!state.has_room());
    let state = loaded("4k3/8/8/8/8/8/8/4K3 w - - 255 1");
    assert!(!state.has_room());
}

#[test]
fn error_for_each_kind_of_bad_input() {
    assert_eq!(sq("a1").add(-1), Err(Error::IllegalIndex));
    assert_eq!(is_valid_idx(0x88), Err(Error::IllegalIndex));
    assert_eq!(is_valid_idx(0x08), Err(Error::IllegalIndex));
    assert_eq!(is_valid_idx(0x77), Ok(()));
    assert_eq!(Piece::try_from("x"), Err(Error::InvalidPiece));
    assert_eq!(Piece::try_from(""), Err(Error::InvalidPiece));
    assert_eq!(Piece::try_from("pawns"), Err(Error::InvalidPiece));
    assert_eq!(Square::try_from("z9"), Err(Error::InvalidSquareString));
    assert_eq!(Color::try_from("x"), Err(Error::InvalidColor));
    assert_eq!(Color::try_from("W"), Err(Error::InvalidColor));
    assert_eq!(Color::try_from("white"), Err(Error::InvalidColor));
    assert_eq!(Color::try_from(""), Err(Error::InvalidColor));
}

#[test]
fn error_messages() {
    assert_eq!(Error::IllegalMove.message(), "the move is illegal");
    assert_eq!(Error::UnknownMove.message(), "no piece to move");
    assert_eq!(Error::MustWaitForTurn.message(), "not your turn to move");
    assert_eq!(Error::IllegalIndex.message(), "invalid square index");
    assert_eq!(Error::InvalidPiece.message(), "invalid piece string");
    assert_eq!(Error::InvalidSquareString.message(), "invalid square string");
    assert_eq!(Error::InvalidColor.message(), "invalid color");
    assert_eq!(Error::InvalidFen.message(), "invalid position string");
    assert_eq!(Error::NoKingPresent.message(), "each side needs exactly one king");
}

#[test]
fn pieces_and_colours_from_text() {
    assert_eq!(Piece::try_from("p"), Ok(Piece::new(PType::PAWN, Color::BLACK)));
    assert_eq!(Piece::try_from("P"), Ok(Piece::new(PType::PAWN, Color::WHITE)));
    assert_eq!(Piece::try_from("n"), Ok(Piece::new(PType::KNIGHT, Color::BLACK)));
    assert_eq!(Piece::try_from("B"), Ok(Piece::new(PType::BISHOP, Color::WHITE)));
    assert_eq!(Piece::try_from("r"), Ok(Piece::new(PType::ROOK, Color::BLACK)));
    assert_eq!(Piece::try_from("Q"), Ok(Piece::new(PType::QUEEN, Color::WHITE)));
    assert_eq!(Piece::try_from("k"), Ok(Piece::new(PType::KING, Color::BLACK)));
    assert_eq!(Piece::try_from("knight"), Ok(Piece::new(PType::KNIGHT, Color::BLACK)));
    assert_eq!(Piece::try_from("QUEEN"), Ok(Piece::new(PType::QUEEN, Color::WHITE)));
    assert_eq!(Piece::try_from("Rook"), Ok(Piece::new(PType::ROOK, Color::BLACK)));
    assert_eq!(Piece::try_from("bishop"), Ok(Piece::new(PType::BISHOP, Color::BLACK)));
    assert_eq!(Piece::try_from("KING"), Ok(Piece::new(PType::KING, Color::WHITE)));
    assert_eq!(Piece::try_from("PAWN"), Ok(Piece::new(PType::PAWN, Color::WHITE)));
    assert_eq!(Color::try_from("w"), Ok(Color::WHITE));
    assert_eq!(Color::try_from("b"), Ok(Color::BLACK));
    assert_eq!(Color::WHITE.as_str(), "w");
    assert_eq!(Color::BLACK.as_str(), "b");
    assert_eq!(Color::WHITE.opposite(), Color::BLACK);
    assert_eq!(Color::BLACK.opposite(), Color::WHITE);
}

#[test]
fn letters_of_pieces() {
    let kinds = [
        (PType::PAWN, 'p'),
        (PType::KNIGHT, 'n'),
        (PType::BISHOP, 'b'),
        (PType::ROOK, 'r'),
        (PType::QUEEN, 'q'),
        (PType::KING, 'k'),
    ];
    for (kind, letter) in kinds {
        let black = Piece::new(kind, Color::BLACK);
        let white = Piece::new(kind, Color::WHITE);
        assert_eq!(black.letter(), letter);
        assert_eq!(white.letter(), letter.to_ascii_uppercase());
        assert_eq!(Piece::from_letter(letter), Some(black));
        assert_eq!(Piece::from_letter(letter.to_ascii_uppercase()), Some(white));
        assert_eq!(white.to_text(), letter.to_ascii_uppercase().to_string());
    }
    assert_eq!(Piece::from_letter('x'), None);
    assert_eq!(Piece::from_letter('1'), None);
}

#[test]
fn friends_and_enemies() {
    let pawn = Piece::new(PType::PAWN, Color::WHITE);
    assert!(is_friendly(&pawn, Color::WHITE));
    assert!(!is_friendly(&pawn, Color::BLACK));
    assert!(is_enemy(&pawn, Color::BLACK));
    assert!(!is_enemy(&pawn, Color::WHITE));
}

#[test]
fn board_is_plain_storage() {
    let mut board = Board::new();
    let rook = Piece::new(PType::ROOK, Color::BLACK);
    assert!(board.get(&0x34).is_none());
    board.set(rook, &0x34);
    assert_eq!(board.get(&0x34), Some(&rook));
    if let Some(piece) = board.get_mut(&0x34) {
        piece.color = Color::WHITE;
    }
    assert_eq!(board.get(&0x34), Some(&Piece::new(PType::ROOK, Color::WHITE)));
    assert!(board.get_mut(&0x35).is_none());
    assert_eq!(board.get_internal_board()[0x34], Some(Piece::new(PType::ROOK, Color::WHITE)));
    board.remove(&0x34);
    assert!(board.get(&0x34).is_none());
    board.set(rook, &0x00);
    board.set(rook, &0x7f);
    board.clear();
    assert!(board.get_internal_board().iter().all(|slot| slot.is_none()));
}

#[test]
fn moves_compare_field_by_field() {
    let a = Move::new(sq("e2"), sq("e4"), None);
    assert!(a.same(&Move::from_str("e2", "e4", None)));
    assert!(!a.same(&Move::from_str("e2", "e3", None)));
    assert!(!a.same(&Move::from_str("d2", "e4", None)));
    assert!(!a.same(&Move::new(sq("e2"), sq("e4"), Some(Piece::new(PType::QUEEN, Color::WHITE)))));
    assert_eq!(a, Move::from_str("E2", "E4", None));
}

#[test]
fn square_from_rank_and_file_numbers() {
    for rank in 0..8u8 {
        for file in 0..8u8 {
            let square = Square::new(rank.into(), file.into());
            assert_eq!(square.0, 16 * rank + file);
            assert_eq!(square.rank(), rank);
            assert_eq!(square.file(), file);
            assert_eq!(
                square.color(),
                if (rank + file) % 2 == 0 { Color::BLACK } else { Color::WHITE }
            );
            assert_eq!(Rank::from(rank).index(), rank);
            assert_eq!(File::from(file).index(), file);
        }
    }
    assert_eq!(Square(0x08).color(), Color::WHITE);
    assert_eq!(Square(0x1f).color(), Color::WHITE);
}

#[test]
fn a_game_through_its_front_door() {
    let mut chess = Chess::new();
    assert_eq!(chess.get_fen(), START);
    assert_eq!(chess.get_turn(), Color::WHITE);
    assert!(chess.is_well_formed());
    assert!(chess.has_room());
    assert_eq!(chess.moves_for_square(sq("b1")).len(), 2);
    assert_eq!(chess.moves_for_square(sq("a1")).len(), 0);
    assert_eq!(chess.moves_for_square(sq("e4")).len(), 0);
    assert!(chess.play_move(Move::from_str("e2", "e4", None)).is_ok());
    assert!(chess.play_move(Move::from_str("d7", "d5", None)).is_ok());
    assert!(chess.play_move(Move::from_str("e4", "d5", None)).is_ok());
    assert!(chess.play_move(Move::from_str("d8", "d5", None)).is_ok());
    let (white, black) = chess.get_captures();
    assert_eq!(white.len(), 1);
    assert_eq!(white[0].piece, Piece::new(PType::PAWN, Color::BLACK));
    assert_eq!(white[0].sq, sq("d5"));
    assert_eq!(black.len(), 1);
    assert_eq!(black[0].piece, Piece::new(PType::PAWN, Color::WHITE));
    assert_eq!(
        chess.get_fen(),
        "rnb1kbnr/ppp1pppp/8/3q4/8/8/PPPP1PPP/RNBQKBNR w KQkq - 0 4"
    );
    assert!(!chess.is_checkmate());
    assert!(!chess.is_stalemate());
    assert!(!chess.is_draw());
    assert!(!chess.is_50_moves());
    assert!(!chess.is_threefold_repetition());
    assert!(!chess.is_insufficient_material());
    assert!(chess.board().get(&sq("d5").0).is_some());
    chess.set_turn(Color::BLACK);
    assert_eq!(chess.get_turn(), Color::BLACK);
    chess.reset();
    assert_eq!(chess.get_fen(), "8/8/8/8/8/8/8/8 w - - 0 0");
    assert!(chess.load_fen(KIWIPETE).is_ok());
    assert_eq!(chess.get_fen(), KIWIPETE);
    assert_eq!(chess.load_fen("x"), Err(Error::InvalidFen));
}

#[test]
fn fools_mate() {
    let mut chess = Chess::new();
    for (from, to) in [("f2", "f3"), ("e7", "e5"), ("g2", "g4"), ("d8", "h4")] {
        assert!(!chess.is_checkmate());
        assert!(chess.play_move(Move::from_str(from, to, None)).is_ok());
    }
    assert!(chess.is_checkmate());
    assert!(!chess.is_stalemate());
    assert!(!chess.is_draw());
}

#[test]
fn kinds_and_sides_are_single_bit_flags() {
    let kinds = [
        PType::PAWN,
        PType::KNIGHT,
        PType::BISHOP,
        PType::ROOK,
        PType::QUEEN,
        PType::KING,
    ];
    let mut seen: u8 = 0;
    for kind in kinds {
        assert_eq!(kind.flag().count_ones(), 1);
        assert_eq!(seen & kind.flag(), 0);
        seen |= kind.flag();
    }
    assert_eq!(seen, 63);
    assert_eq!(Color::WHITE.flag(), 0);
    assert_eq!(Color::BLACK.flag(), 128);
}

#[test]
fn a_square_stands_for_its_address() {
    let e4 = sq("e4");
    assert_eq!(*e4, 0x34);
    let mut board = Board::new();
    board.set(Piece::new(PType::QUEEN, Color::WHITE), &e4);
    assert!(board.get(&e4).is_some());
}

#[test]
fn what_is_written_loads() {
    let mut state = loaded(KIWIPETE);
    let line = [
        ("e5", "f7"),
        ("e8", "g8"),
        ("f7", "h8"),
        ("g8", "h8"),
        ("a2", "a4"),
        ("b4", "a3"),
        ("e1", "c1"),
    ];
    for (from, to) in line {
        assert!(state.play_move(Move::from_str(from, to, None)).is_ok(), "{}{}", from, to);
        let written = state.get_fen();
        let mut other = GameState::new();
        assert_eq!(other.load_fen(&written), Ok(()), "{}", written);
        assert_eq!(other.get_fen(), written);
        assert_eq!(other.board.get_internal_board(), state.board.get_internal_board());
        assert_eq!(other.get_check_rays(), state.get_check_rays());
        assert_eq!(other.is_in_check, state.is_in_check);
        assert_eq!(other.white_king_square, state.white_king_square);
        assert_eq!(other.black_king_square, state.black_king_square);
    }
    assert_eq!(
        state.get_fen(),
        "r4r1k/p1ppq1b1/bn2pnp1/3P4/4P3/p1N2Q1p/1PPBBPPP/2KR3R b - - 1 7"
    );
}
