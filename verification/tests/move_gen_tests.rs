use hieu_chess::{Color, File, GameState, MoveGen, PType, Piece, Rank, Square};

#[test]
fn get_queen_moves_without_blockers() {
    let mut state = GameState::new();

    let sq = Square::new(Rank::Five, File::C);
    let p = Piece::new(PType::QUEEN, Color::WHITE);

    state.board.set(p, &sq.0);

    let mut moves: Vec<String> = MoveGen::moves_for_square(&mut state, sq)
        .iter()
        .map(|m| m.to.get_notation())
        .collect();

    let mut expected = [
        "b6", "a7", "c6", "c7", "c8", "d6", "e7", "f8", "d5", "e5", "f5", "g5", "h5", "d4", "e3",
        "f2", "g1", "c4", "c3", "c2", "c1", "b4", "a3", "b5", "a5",
    ];

    expected.sort();
    moves.sort();

    assert!(moves.len() == expected.len());
    assert_eq!(expected.to_vec(), moves);
}

#[test]
fn get_queen_moves_with_blockers() {
    let mut state = GameState::new();
    let sq = Square::new(Rank::Five, File::C);

    let p = Piece::new(PType::QUEEN, Color::WHITE);
    let friendly_blocker = Piece::new(PType::PAWN, Color::WHITE);
    let enemy_blocker = Piece::new(PType::KNIGHT, Color::BLACK);

    state.board.set(p, &sq.0);
    state
        .board
        .set(friendly_blocker, &Square::new(Rank::Five, File::D).0);
    state
        .board
        .set(enemy_blocker, &Square::new(Rank::Four, File::C).0);

    let mut moves: Vec<String> = MoveGen::moves_for_square(&mut state, sq)
        .iter()
        .map(|m| m.to.get_notation())
        .collect();

    let mut expected = [
        "b6", "a7", "c6", "c7", "c8", "d6", "e7", "f8", "d4", "e3", "f2", "g1", "c4", "b4", "a3",
        "b5", "a5",
    ];

    expected.sort();
    moves.sort();

    assert!(moves.len() == expected.len());
    assert_eq!(expected.to_vec(), moves);
}

#[test]
fn forward_white_pawn_moves() {
    let mut state = GameState::new();

    let pawn = Piece::new(PType::PAWN, Color::WHITE);
    let blocking_piece = Piece::new(PType::ROOK, Color::WHITE);
    let sq = Square::new(Rank::Two, File::E);

    state.board.set(pawn, &sq.0);

    let mut moves: Vec<String> = MoveGen::moves_for_square(&mut state, sq)
        .iter()
        .map(|m| m.to.get_notation())
        .collect();

    let mut expected = ["e3", "e4"];

    expected.sort();
    moves.sort();

    assert_eq!(expected.to_vec(), moves);
    state.en_passant_sq = None;

    state
        .board
        .set(blocking_piece, &Square::new(Rank::Four, File::E).0);
    let mut moves: Vec<String> = MoveGen::moves_for_square(&mut state, sq)
        .iter()
        .map(|m| m.to.get_notation())
        .collect();

    let mut expected = ["e3"];

    expected.sort();
    moves.sort();

    assert_eq!(expected.to_vec(), moves);
}

#[test]
fn forward_black_pawn_moves() {
    let mut state = GameState::new();

    let pawn = Piece::new(PType::PAWN, Color::BLACK);
    let blocking_piece = Piece::new(PType::ROOK, Color::WHITE);
    let sq = Square::new(Rank::Seven, File::D);

    state.board.set(pawn, &sq.0);

    let mut moves: Vec<String> = MoveGen::moves_for_square(&mut state, sq)
        .iter()
        .map(|m| m.to.get_notation())
        .collect();

    let mut expected = ["d6", "d5"];

    expected.sort();
    moves.sort();

    assert_eq!(expected.to_vec(), moves);

    state
        .board
        .set(blocking_piece, &Square::new(Rank::Six, File::D).0);
    let mut moves: Vec<String> = MoveGen::moves_for_square(&mut state, sq)
        .iter()
        .map(|m| m.to.get_notation())
        .collect();

    let mut expected: Vec<&str> = vec![];

    expected.sort();
    moves.sort();

    assert_eq!(expected.to_vec(), moves);
}

#[test]
fn pawn_captures() {
    let mut state = GameState::new();
    let white_pawn = Piece::new(PType::PAWN, Color::WHITE);
    let black_pawn = Piece::new(PType::PAWN, Color::BLACK);
    let white_sq = Square::new(Rank::Three, File::E);
    let black_sq = Square::new(Rank::Four, File::F);

    state.board.set(white_pawn, &white_sq.0);
    state.board.set(black_pawn, &black_sq.0);

    let mut moves_for_white: Vec<String> = MoveGen::moves_for_square(&mut state, white_sq)
        .iter()
        .map(|m| m.to.get_notation())
        .collect();
    state.side_to_move = Color::BLACK;
    let mut moves_for_black: Vec<String> = MoveGen::moves_for_square(&mut state, black_sq)
        .iter()
        .map(|m| m.to.get_notation())
        .collect();

    let mut expected_moves_for_white = ["e4", "f4"];
    let mut expected_moves_for_black = ["e3", "f3"];

    moves_for_white.sort();
    expected_moves_for_white.sort();
    moves_for_black.sort();
    expected_moves_for_black.sort();

    assert_eq!(moves_for_white, expected_moves_for_white);
    assert_eq!(moves_for_black, expected_moves_for_black);
}

#[test]
fn pawn_promotion() {
    let mut state = GameState::new();
    let white_pawn = Piece::new(PType::PAWN, Color::WHITE);
    let black_pawn = Piece::new(PType::PAWN, Color::BLACK);
    let white_sq = Square::new(Rank::Seven, File::E);
    let black_sq = Square::new(Rank::Two, File::F);

    state.board.set(white_pawn, &white_sq.0);
    state.board.set(black_pawn, &black_sq.0);

    let moves_for_white: Vec<String> = MoveGen::moves_for_square(&mut state, white_sq)
        .iter()
        .map(|m| m.to.get_notation())
        .collect();
    state.side_to_move = Color::BLACK;
    let moves_for_black: Vec<String> = MoveGen::moves_for_square(&mut state, black_sq)
        .iter()
        .map(|m| m.to.get_notation())
        .collect();

    let expected_moves_for_white = ["e8"; 4];
    let expected_moves_for_black = ["f1"; 4];

    assert_eq!(moves_for_white, expected_moves_for_white);
    assert_eq!(moves_for_black, expected_moves_for_black);
}

#[test]
fn moves_in_check() {
    let mut state = GameState::new();
    state.load_fen("8/2bN4/8/2K3qk/8/8/3Q4/8 w - - 0 1").unwrap();
    let sq = Square::new(Rank::Two, File::D);

    let moves: Vec<String> = MoveGen::moves_for_square(&mut state, sq)
        .iter()
        .map(|m| m.to.get_notation())
        .collect();

    assert_eq!(moves, ["d5", "g5"]);
    assert!(state.captures.is_empty());
}

struct SquareCase {
    fen: String,
    expected: Vec<&'static str>,
}

impl SquareCase {
    fn new(fen: &str, mut expected: Vec<&'static str>) -> Self {
        expected.sort();

        Self {
            fen: fen.to_string(),
            expected,
        }
    }

    fn match_case(&self, result: &mut Vec<String>) -> bool {
        result.sort();

        let matching = self
            .expected
            .iter()
            .zip(result.iter())
            .filter(|&(a, b)| a == b)
            .count();

        matching == result.len() && matching == self.expected.len()
    }
}

#[test]
fn king_moves() {
    let mut state = GameState::new();

    let tests = [
        SquareCase::new(
            "rnb1kbnr/pppppppp/1q6/4Q2B/8/2N4B/P1PPP2P/R3K2R b KQkq - 0 1",
            vec!["d8"],
        ),
        SquareCase::new("1r6/2k4q/8/n7/2p5/5B2/3R1K2/8 b - - 0 1", vec!["b6", "c8"]),
        SquareCase::new(
            "1r6/2k4q/8/n7/2p5/5B2/3R1K2/8 w - - 0 1",
            vec!["e3", "e2", "e1", "f1", "g1", "g2", "g3"],
        ),
        SquareCase::new(
            "1r4r1/2k4q/8/n7/2p5/5B2/3R1K2/8 w - - 0 1",
            vec!["e3", "e2", "e1", "f1"],
        ),
        SquareCase::new(
            "rnb1kbnr/pppppppp/5q2/8/3P4/8/PPPPP1PP/R3K2R w KQkq - 0 1",
            vec!["d1", "c1"],
        ),
        SquareCase::new(
            "rnbqkbnr/pppppppp/8/8/8/8/PPPPPPPP/R3K2R w KQkq - 0 1",
            vec!["d1", "c1", "f1", "g1"],
        ),
        SquareCase::new(
            "rnb1kbnr/pppppppp/1q6/4Q2B/8/2N4B/P1PPP2P/R3K2R w KQkq - 0 1",
            vec!["d1", "f1", "c1"],
        ),
        SquareCase::new(
            "r3k2r/8/7q/n7/2p5/5B2/3R1K2/8 b kq - 1 1",
            vec!["g8", "f8", "f7", "e7"],
        ),
        SquareCase::new(
            "r3k2r/p1ppqpb1/bn1Ppnp1/4N3/1p2P3/2N2Q1p/PPPBBPPP/R3K2R b KQkq - 0 1",
            vec!["f8", "g8", "d8", "c8"],
        ),
    ];

    for test in tests {
        state.reset();
        state.load_fen(&test.fen).unwrap();

        let sq = if state.side_to_move == Color::WHITE {
            state.white_king_square.unwrap()
        } else {
            state.black_king_square.unwrap()
        };

        let mut moves: Vec<String> = MoveGen::moves_for_square(&mut state, sq)
            .iter()
            .map(|m| m.to.get_notation())
            .collect();

        assert!(
            test.match_case(&mut moves),
            "fen: {} moves: {:?}",
            test.fen,
            moves
        );
    }
}

#[test]
fn enpassant_moves() {
    let mut state = GameState::new();

    let tests = [
        SquareCase::new(
            "r3k2r/8/4p2q/n1pP4/8/5B2/3R1K2/8 w kq c6 1 1",
            vec!["d6", "e6", "c6"],
        ),
        SquareCase::new(
            "r3k2r/3n4/7q/1Pp5/8/5B2/3R1K2/8 w kq c6 1 1",
            vec!["b6", "c6"],
        ),
        SquareCase::new(
            "r3k2r/3n4/7q/8/1Pp5/5B2/3R1K2/8 b kq b3 1 1",
            vec!["b3", "c3"],
        ),
    ];
    let squares: Vec<&str> = vec!["d5", "b5", "c4"];

    for (i, test) in tests.iter().enumerate() {
        state.reset();
        state.load_fen(&test.fen).unwrap();

        let sq: Square = squares[i].try_into().unwrap();

        let mut moves: Vec<String> = MoveGen::moves_for_square(&mut state, sq)
            .iter()
            .map(|m| m.to.get_notation())
            .collect();

        assert!(
            test.match_case(&mut moves),
            "fen: {} moves: {:?}",
            test.fen,
            moves
        );
    }
}

#[test]
fn moves() {
    let mut state = GameState::new();
    state
        .load_fen("8/8/3p4/KPp4r/R4p1k/8/4P1P1/8 w - c6 0 1")
        .unwrap();
    let a: Vec<(String, String)> = MoveGen::moves_for_square(&mut state, "b5".try_into().unwrap())
        .iter()
        .map(|m| (m.from.get_notation(), m.to.get_notation()))
        .collect();
    println!("{:?}", a);
}
