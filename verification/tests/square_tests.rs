use hieu_chess::{Color, Error, File, Rank, Square};

#[test]
fn square_from_rank_and_file() {
    assert_eq!(Square::new(Rank::Eight, File::B).0, 0x71);
    assert_eq!(Square::new(Rank::One, File::A).0, 0x00);
    assert_eq!(Square::new(Rank::Eight, File::H).0, 0x77);
    assert_eq!(Square::new(Rank::Five, File::C).0, 0x42);
}

#[test]
fn square_from_arbitrary_idx() {
    assert!(Square::try_from(0x78).is_err());
    assert!(Square::try_from(0x7F).is_err());
    assert!(Square::try_from(0x4D).is_err());

    assert!(Square::try_from(0x70).is_ok());
    assert!(Square::try_from(0x34).is_ok());
    assert!(Square::try_from(0x00).is_ok());
}

#[test]
fn file_and_rank() {
    assert_eq!(Square::new(Rank::One, File::A).file(), File::A as u8);
    assert_eq!(Square::new(Rank::One, File::B).file(), File::B as u8);
    assert_eq!(Square::new(Rank::One, File::C).file(), File::C as u8);
    assert_eq!(Square::new(Rank::One, File::D).file(), File::D as u8);
    assert_eq!(Square::new(Rank::One, File::E).file(), File::E as u8);
    assert_eq!(Square::new(Rank::One, File::F).file(), File::F as u8);
    assert_eq!(Square::new(Rank::One, File::G).file(), File::G as u8);
    assert_eq!(Square::new(Rank::One, File::H).file(), File::H as u8);

    assert_eq!(Square::new(Rank::One, File::A).rank(), Rank::One as u8);
    assert_eq!(Square::new(Rank::Two, File::B).rank(), Rank::Two as u8);
    assert_eq!(Square::new(Rank::Three, File::C).rank(), Rank::Three as u8);
    assert_eq!(Square::new(Rank::Four, File::D).rank(), Rank::Four as u8);
    assert_eq!(Square::new(Rank::Five, File::E).rank(), Rank::Five as u8);
    assert_eq!(Square::new(Rank::Six, File::F).rank(), Rank::Six as u8);
    assert_eq!(Square::new(Rank::Seven, File::G).rank(), Rank::Seven as u8);
    assert_eq!(Square::new(Rank::Eight, File::H).rank(), Rank::Eight as u8);

    let sq = Square::try_from(0x70).unwrap();
    assert_eq!(sq.rank(), Rank::Eight as u8);
    assert_eq!(sq.file(), File::A as u8);

    let sq = Square::try_from(0x34).unwrap();
    assert_eq!(sq.rank(), Rank::Four as u8);
    assert_eq!(sq.file(), File::E as u8);
}

#[test]
fn u8_to_rank_and_file() {
    let one: Rank = 0.into();
    let eight: Rank = 7.into();
    let one1: Rank = 8.into(); // should wrap to 1

    let a: File = 0.into();
    let h: File = 7.into();
    let a1: File = 8.into();

    assert_eq!(one, Rank::One);
    assert_eq!(eight, Rank::Eight);
    assert_eq!(one1, Rank::One);

    assert_eq!(a, File::A);
    assert_eq!(h, File::H);
    assert_eq!(a1, File::A);
}

#[test]
fn string_to_square() {
    let a4: Square = "a4".try_into().unwrap();
    let d1: Square = "d1".try_into().unwrap();
    let h1: Square = "h1".try_into().unwrap();
    let e8: Square = "e8".try_into().unwrap();
    assert_eq!(a4, Square::new(Rank::Four, File::A));
    assert_eq!(h1, Square::new(Rank::One, File::H));
    assert_eq!(d1, Square::new(Rank::One, File::D));
    assert_eq!(e8, Square::new(Rank::Eight, File::E));

    assert!(TryInto::<Square>::try_into("j9").is_err());
    assert!(TryInto::<Square>::try_into("k2").is_err());
    assert!(TryInto::<Square>::try_into("n3").is_err());
    assert!(TryInto::<Square>::try_into("h0").is_err());
    assert!(TryInto::<Square>::try_into("h23").is_err());
}

#[test]
fn square_notation() {
    assert_eq!(Square::new(Rank::Eight, File::B).get_notation(), "b8");
    assert_eq!(Square::new(Rank::One, File::A).get_notation(), "a1");
    assert_eq!(Square::new(Rank::Eight, File::H).get_notation(), "h8");
    assert_eq!(Square::new(Rank::Five, File::C).get_notation(), "c5");
}

struct ShadeCase {
    sq: &'static str,
    color: Color,
}

#[test]
fn square_color() {
    let tests = vec![
        ShadeCase { sq: "a1", color: Color::BLACK },
        ShadeCase { sq: "a8", color: Color::WHITE },
        ShadeCase { sq: "h1", color: Color::WHITE },
        ShadeCase { sq: "h8", color: Color::BLACK },
        ShadeCase { sq: "a7", color: Color::BLACK },
        ShadeCase { sq: "h7", color: Color::WHITE },
        ShadeCase { sq: "f5", color: Color::WHITE },
        ShadeCase { sq: "c3", color: Color::BLACK },
    ];

    for test in tests {
        let sq: Square = test.sq.try_into().unwrap();
        assert_eq!(sq.color(), test.color);
    }
}

#[test]
fn square_add_steps_and_leaves_the_board() {
    let e4: Square = "e4".try_into().unwrap();
    assert_eq!(e4.add(16), Ok(Square::new(Rank::Five, File::E)));
    assert_eq!(e4.add(-17), Ok(Square::new(Rank::Three, File::D)));
    let h1: Square = "h1".try_into().unwrap();
    assert_eq!(h1.add(1), Err(Error::IllegalIndex));
    assert_eq!(h1.add(-16), Err(Error::IllegalIndex));
    let h8: Square = "h8".try_into().unwrap();
    assert_eq!(h8.add(16), Err(Error::IllegalIndex));
    assert_eq!(h8.add(17), Err(Error::IllegalIndex));
}

#[test]
fn square_text_edge_cases() {
    let upper: Square = "E2".try_into().unwrap();
    assert_eq!(upper, Square::new(Rank::Two, File::E));
    assert_eq!(TryInto::<Square>::try_into(""), Err(Error::InvalidSquareString));
    assert_eq!(TryInto::<Square>::try_into("e"), Err(Error::InvalidSquareString));
    assert_eq!(TryInto::<Square>::try_into("ee"), Err(Error::InvalidSquareString));
    assert_eq!(TryInto::<Square>::try_into("i1"), Err(Error::InvalidSquareString));
    let ninth: Square = "a9".try_into().unwrap();
    assert_eq!(ninth, Square::new(Rank::One, File::A));
}
