use hieu_chess::{Color, File, GameState, Move, PType, Piece, Rank, Square};

#[test]
fn in_check() {
    let mut state = GameState::new();
    let white_king_sq = Square::new(Rank::Five, File::C);
    let attacker_sq = Square::new(Rank::Three, File::E);
    let attacker2_sq = Square::new(Rank::Eight, File::F);

    let king = Piece::new(PType::KING, Color::WHITE);
    let attacker = Piece::new(PType::QUEEN, Color::BLACK);
    let attacker2 = Piece::new(PType::BISHOP, Color::BLACK);

    state.set(king, &white_king_sq);
    state.set(attacker, &attacker_sq);
    state.set(attacker2, &attacker2_sq);
    state.set(
        Piece::new(PType::PAWN, Color::BLACK),
        &Square::new(Rank::Six, File::B),
    );

    state.update_king_attacks();

    assert!(state.is_in_check);

    let mut squares: Vec<String> = state
        .get_check_rays()
        .iter()
        .map(|m| m.get_notation())
        .collect();

    squares.sort();
    let mut expected = ["d6", "e7", "f8", "b6", "d4", "e3"];
    expected.sort();

    assert_eq!(squares, expected);

    let blocker = Piece::new(PType::PAWN, Color::WHITE);
    let blocker_sq = Square::new(Rank::Six, File::D);
    state.board.set(blocker, &blocker_sq.0);

    state.update_king_attacks();

    assert!(state.is_in_check);

    let mut squares: Vec<String> = state
        .get_check_rays()
        .iter()
        .map(|m| m.get_notation())
        .collect();

    squares.sort();
    let mut expected = ["d4", "e3", "b6"];
    expected.sort();

    assert_eq!(squares, expected);
}

#[test]
fn load_fen() {
    let mut state = GameState::new();

    state.load_fen("8/2b5/1N6/2K3qk/8/8/8/8 w - - 0 1").unwrap();

    assert_eq!(
        state
            .board
            .get(&Square::new(Rank::Five, File::C).0)
            .expect("piece must exist here")
            .p_type,
        PType::KING
    );

    assert_eq!(
        state
            .board
            .get(&Square::new(Rank::Five, File::G).0)
            .expect("piece must exist here")
            .p_type,
        PType::QUEEN
    );
}

#[test]
fn get_fen() {
    let mut state = GameState::new();
    let fens = [
        "8/2b5/1N6/2K3qk/8/8/8/8 w - - 0 1",
        "rnbqkbnr/pppppppp/8/8/8/8/PPPPPPPP/RNBQKBNR w KQkq - 0 1",
        "rn1qkb1r/p1b1pppp/4n3/1p1p2B1/Q1N5/3B1N2/PPPPPPPP/R3K2R w KQkq - 0 1",
        "k7/8/8/8/8/8/8/7K w - - 0 1",
        "rnbqkbnr/pppppppp/8/8/8/8/PPPPPPPP/RNBQKBNR w KQkq - 0 1",
        "rnbqkbnr/pppppppp/8/8/4P3/8/PPPP1PPP/RNBQKBNR b KQkq - 0 1",
        "1nbqkbn1/pppp1ppp/8/4p3/4P3/8/PPPP1PPP/1NBQKBN1 b - - 1 2",
    ];

    for fen in fens {
        state.load_fen(fen).unwrap();

        assert_eq!(fen, state.get_fen());

        state.reset();
    }

    let mut state = GameState::new();
    state.load_fen("4k3/8/8/8/5p2/8/4P3/4K3 w - - 0 1").unwrap();
    assert!(state.play_move(Move::from_str("e2", "e4", None)).is_ok());
    assert_eq!(state.get_fen(), "4k3/8/8/8/4Pp2/8/8/4K3 b - e3 0 1");
}

struct PlayCase {
    fen: String,
    moves: Vec<Move>,
    expected: String,
}

impl PlayCase {
    fn new(fen: &str, moves: Vec<Move>, expected: &str) -> Self {
        Self {
            fen: fen.to_string(),
            moves,
            expected: expected.to_string(),
        }
    }
}

#[test]
fn undo() {
    let tests = vec![
        PlayCase::new(
            "r3k2r/8/8/8/6pP/8/8/R3K2R w KQkq - 0 1",
            vec![Move::from_str("e1", "g1", None)],
            "r3k2r/8/8/8/6pP/8/8/R3K2R w KQkq - 0 1",
        ),
        PlayCase::new(
            "r3k2r/8/8/8/6pP/8/8/R3K2R w KQkq - 0 1",
            vec![Move::from_str("e1", "c1", None)],
            "r3k2r/8/8/8/6pP/8/8/R3K2R w KQkq - 0 1",
        ),
        PlayCase::new(
            "r3k2r/8/8/8/6pP/8/8/R3K2R b KQkq - 0 1",
            vec![Move::from_str("e8", "g8", None)],
            "r3k2r/8/8/8/6pP/8/8/R3K2R b KQkq - 0 1",
        ),
        PlayCase::new(
            "r3k2r/8/2q5/1P6/6p1/8/7P/R3K2R w KQkq - 0 1",
            vec![Move::from_str("h2", "h4", None)],
            "r3k2r/8/2q5/1P6/6p1/8/7P/R3K2R w KQkq - 0 1",
        ),
        PlayCase::new(
            "r3k2r/8/2q5/1P6/6p1/8/7P/R3K2R w KQkq - 0 1",
            vec![Move::from_str("b5", "c6", None)],
            "r3k2r/8/2q5/1P6/6p1/8/7P/R3K2R w KQkq - 0 1",
        ),
        // en passant
        PlayCase::new(
            "r3k2r/8/2q5/1P6/6pP/8/8/R3K2R b KQkq h3 0 1",
            vec![Move::from_str("g4", "h3", None)],
            "r3k2r/8/2q5/1P6/6pP/8/8/R3K2R b KQkq h3 0 1",
        ),
        // promotion
        PlayCase::new(
            "r3k2r/5P2/2q5/1P6/6p1/7P/8/R3K2R w KQkq - 0 1",
            vec![Move::from_str(
                "f7",
                "f8",
                Some(Piece::new(PType::QUEEN, Color::WHITE)),
            )],
            "r3k2r/5P2/2q5/1P6/6p1/7P/8/R3K2R w KQkq - 0 1",
        ),
    ];

    let mut state = GameState::new();

    for test in tests {
        state.reset();
        state.load_fen(&test.fen).unwrap();

        for m in test.moves {
            assert!(state.play_move(m).is_ok());
            state.undo();
        }

        assert_eq!(state.get_fen(), test.expected);
        assert!(state.captures.is_empty());
    }
}

#[test]
fn play_move() {
    let tests = vec![
        PlayCase::new(
            "rnb1kbnr/pppppppp/1q6/4Q2B/8/2N4B/P1PPP2P/R3K2R w KQkq - 0 1",
            vec![
                Move::from_str("e1", "f1", None),
                Move::from_str("e8", "d8", None),
            ],
            "rnbk1bnr/pppppppp/1q6/4Q2B/8/2N4B/P1PPP2P/R4K1R w - - 2 2",
        ),
        PlayCase::new(
            "r1bk1b1r/1ppppp1p/1q1n3n/p3Q1pB/8/2NP3B/P1PKP2P/1R4R1 w - - 0 1",
            vec![
                Move::from_str("e5", "e7", None),
                Move::from_str("d8", "e7", None),
            ],
            "r1b2b1r/1pppkp1p/1q1n3n/p5pB/8/2NP3B/P1PKP2P/1R4R1 w - - 0 2",
        ),
    ];

    let mut state = GameState::new();

    for test in tests {
        state.reset();
        state.load_fen(&test.fen).unwrap();

        for m in test.moves {
            assert!(state.play_move(m).is_ok());
        }

        assert_eq!(state.get_fen(), test.expected);
    }
}

#[test]
fn enpassant() {
    let tests = vec![
        PlayCase::new(
            "1k6/8/8/8/5p2/8/4P3/4KR2 w - - 0 1",
            vec![Move::from_str("e2", "e4", None)],
            "1k6/8/8/8/4Pp2/8/8/4KR2 b - e3 0 1",
        ),
        PlayCase::new(
            "1k6/8/2p5/8/8/8/4P3/4KR2 w - - 0 1",
            vec![Move::from_str("e2", "e4", None)],
            "1k6/8/2p5/8/4P3/8/8/4KR2 b - - 0 1",
        ),
        PlayCase::new(
            "1k6/8/8/8/6p1/8/7P/4KR2 w - - 0 1",
            vec![Move::from_str("h2", "h4", None)],
            "1k6/8/8/8/6pP/8/8/4KR2 b - h3 0 1",
        ),
    ];

    let mut state = GameState::new();

    for test in tests {
        state.reset();
        state.load_fen(&test.fen).unwrap();

        for m in test.moves {
            assert!(state.play_move(m).is_ok());
        }

        assert_eq!(state.get_fen(), test.expected);
    }
}

#[test]
fn checkmate() {
    let fens = vec![
        "8/5r2/4K1q1/4p3/3k4/8/8/8 w - - 0 7",
        "4r2r/p6p/1pnN2p1/kQp5/3pPq2/3P4/PPP3PP/R5K1 b - - 0 2",
        "r3k2r/ppp2p1p/2n1p1p1/8/2B2P1q/2NPb1n1/PP4PP/R2Q3K w kq - 0 8",
        "8/6R1/pp1r3p/6p1/P3R1Pk/1P4P1/7K/8 b - - 0 4",
    ];

    for fen in fens {
        let mut state = GameState::new();
        state.load_fen(fen).unwrap();

        assert!(state.is_checkmate());
    }
}

#[test]
fn insufficient_material() {
    let fens = vec![
        "8/8/8/8/8/8/8/k6K w - - 0 1",
        "8/2N5/8/8/8/8/8/k6K w - - 0 1",
        "8/2b5/8/8/8/8/8/k6K w - - 0 1",
        "8/b7/3B4/8/8/8/8/k6K w - - 0 1",
        "8/b1B1b1B1/1b1B1b1B/8/8/8/8/1k5K w - - 0 1",
    ];

    for fen in fens {
        let mut state = GameState::new();
        state.load_fen(fen).unwrap();

        assert!(state.is_insufficient_material());
    }

    let fens = vec![
        "8/2p5/8/8/8/8/8/k6K w - - 0 1",
        "5k1K/7B/8/6b1/8/8/8/8 b - - 0 1",
        "7K/5k1N/8/6b1/8/8/8/8 b - - 0 1",
        "7K/5k1N/8/4n3/8/8/8/8 b - - 0 1",
    ];

    for fen in fens {
        let mut state = GameState::new();
        state.load_fen(fen).unwrap();

        assert!(!state.is_insufficient_material());
    }
}

#[test]
fn stalemate() {
    let fens = vec![
        "1R6/8/8/8/8/8/7R/k6K b - - 0 1",
        "8/8/5k2/p4p1p/P4K1P/1r6/8/8 w - - 0 2",
    ];

    for fen in fens {
        let mut state = GameState::new();
        state.load_fen(fen).unwrap();

        assert!(state.is_stalemate());
    }

    let mut state = GameState::new();
    state.load_fen("R3k3/8/4K3/8/8/8/8/8 b - - 0 1").unwrap();

    assert!(!state.is_stalemate());
}

#[test]
fn threefold_repetition() {
    let mut state = GameState::new();
    state
        .load_fen("8/pp3p1k/2p2q1p/3r1P2/5R2/7P/P1P1QP2/7K b - - 2 30")
        .unwrap();
    let moves = vec![
        Move::from_str("f6", "e5", None),
        Move::from_str("e2", "h5", None),
        Move::from_str("e5", "f6", None),
        Move::from_str("h5", "e2", None),
        Move::from_str("d5", "e5", None),
        Move::from_str("e2", "d3", None),
        Move::from_str("e5", "d5", None),
        Move::from_str("d3", "e2", None),
    ];

    for m in moves {
        assert!(state.play_move(m).is_ok());
    }

    assert!(state.is_threefold_repetition());
}
