use crate::error::Error;
use crate::piece::Color;
use crate::text::{decimal, push_decimal};
use crate::utils::is_valid_idx;
use vstd::prelude::*;
use vstd::std_specs::convert::FromSpecImpl;
use vstd::std_specs::convert::TryFromSpecImpl;
use vstd::string::StrSliceExecFns;

verus! {

/// Whether `idx` addresses a square of the board. The address space has 128
/// slots, sixteen to a rank; the upper eight of each sixteen lie off the board.
pub open spec fn on_board(idx: int) -> bool {
    0 <= idx < 128 && idx % 16 < 8
}

/// A rank of the board, first to eighth.
#[derive(Clone, Copy, PartialEq, Eq, Debug, Structural)]
pub enum Rank {
    One,
    Two,
    Three,
    Four,
    Five,
    Six,
    Seven,
    Eight,
}

impl Rank {
    /// The rank's number, counted from zero.
    pub open spec fn spec_index(self) -> int {
        match self {
            Rank::One => 0,
            Rank::Two => 1,
            Rank::Three => 2,
            Rank::Four => 3,
            Rank::Five => 4,
            Rank::Six => 5,
            Rank::Seven => 6,
            Rank::Eight => 7,
        }
    }

    /// The rank with the given number, counted from zero and taken modulo eight.
    pub open spec fn spec_from_index(value: int) -> Rank {
        let v = value % 8;
        if v == 0 {
            Rank::One
        } else if v == 1 {
            Rank::Two
        } else if v == 2 {
            Rank::Three
        } else if v == 3 {
            Rank::Four
        } else if v == 4 {
            Rank::Five
        } else if v == 5 {
            Rank::Six
        } else if v == 6 {
            Rank::Seven
        } else {
            Rank::Eight
        }
    }

    /// The rank's number, counted from zero.
    pub fn index(self) -> (r: u8)
        ensures
            r == self.spec_index(),
    {
        match self {
            Rank::One => 0,
            Rank::Two => 1,
            Rank::Three => 2,
            Rank::Four => 3,
            Rank::Five => 4,
            Rank::Six => 5,
            Rank::Seven => 6,
            Rank::Eight => 7,
        }
    }
}

impl From<u8> for Rank {
    fn from(value: u8) -> (r: Rank) {
        match value % 8 {
            0 => Rank::One,
            1 => Rank::Two,
            2 => Rank::Three,
            3 => Rank::Four,
            4 => Rank::Five,
            5 => Rank::Six,
            6 => Rank::Seven,
            _ => Rank::Eight,
        }
    }
}

impl FromSpecImpl<u8> for Rank {
    open spec fn obeys_from_spec() -> bool {
        true
    }

    open spec fn from_spec(value: u8) -> Rank {
        Rank::spec_from_index(value as int)
    }
}

/// A file of the board, `a` to `h`.
#[derive(Clone, Copy, PartialEq, Eq, Debug, Structural)]
pub enum File {
    A,
    B,
    C,
    D,
    E,
    F,
    G,
    H,
}

impl File {
    /// The file's number, counted from zero.
    pub open spec fn spec_index(self) -> int {
        match self {
            File::A => 0,
            File::B => 1,
            File::C => 2,
            File::D => 3,
            File::E => 4,
            File::F => 5,
            File::G => 6,
            File::H => 7,
        }
    }

    /// The file with the given number, counted from zero and taken modulo eight.
    pub open spec fn spec_from_index(value: int) -> File {
        let v = value % 8;
        if v == 0 {
            File::A
        } else if v == 1 {
            File::B
        } else if v == 2 {
            File::C
        } else if v == 3 {
            File::D
        } else if v == 4 {
            File::E
        } else if v == 5 {
            File::F
        } else if v == 6 {
            File::G
        } else {
            File::H
        }
    }

    /// The file's number, counted from zero.
    pub fn index(self) -> (r: u8)
        ensures
            r == self.spec_index(),
    {
        match self {
            File::A => 0,
            File::B => 1,
            File::C => 2,
            File::D => 3,
            File::E => 4,
            File::F => 5,
            File::G => 6,
            File::H => 7,
        }
    }
}

impl From<u8> for File {
    fn from(value: u8) -> (r: File) {
        match value % 8 {
            0 => File::A,
            1 => File::B,
            2 => File::C,
            3 => File::D,
            4 => File::E,
            5 => File::F,
            6 => File::G,
            _ => File::H,
        }
    }
}

impl FromSpecImpl<u8> for File {
    open spec fn obeys_from_spec() -> bool {
        true
    }

    open spec fn from_spec(value: u8) -> File {
        File::spec_from_index(value as int)
    }
}

/// A coordinate of the board: sixteen times the rank plus the file.
#[derive(Clone, Copy, PartialEq, Eq, Debug, Hash, Structural)]
pub struct Square(pub u8);

impl Square {
    /// Whether the coordinate lies on the board.
    pub open spec fn valid(self) -> bool {
        on_board(self.0 as int)
    }

    /// The coordinate as a mathematical integer.
    pub open spec fn idx(self) -> int {
        self.0 as int
    }

    /// The coordinate reached by `delta`, computed modulo 256 as the address
    /// arithmetic does, or the error when that address is off the board.
    pub open spec fn spec_add(self, delta: int) -> Result<Square, Error> {
        let t = (self.0 + delta) % 256;
        if on_board(t) {
            Ok(Square(t as u8))
        } else {
            Err(Error::IllegalIndex)
        }
    }

    /// The file's number, counted from zero.
    pub open spec fn spec_file(self) -> int {
        self.0 as int % 8
    }

    /// The rank's number, counted from zero.
    pub open spec fn spec_rank(self) -> int {
        self.0 as int / 16
    }

    /// The square in algebraic notation: the file's letter, then the rank's number.
    pub open spec fn spec_notation(self) -> Seq<char> {
        seq![((self.spec_file() + 97) as u8) as char] + decimal((self.spec_rank() + 1) as nat)
    }

    /// The colour of the square: dark (`BLACK`) where file and rank add up to
    /// an even number, light (`WHITE`) elsewhere, and light off the board.
    pub open spec fn spec_color(self) -> Color {
        if self.0 as int % 16 < 8 && (self.spec_file() + self.spec_rank()) % 2 == 0 {
            Color::BLACK
        } else {
            Color::WHITE
        }
    }

    /// What a two-character text names: a file letter of either case, then a
    /// rank digit from 1 to 9, the ninth rank wrapping to the first.
    pub open spec fn spec_parse(text: Seq<char>) -> Result<Square, Error> {
        if text.len() != 2 {
            Err(Error::InvalidSquareString)
        } else {
            let f = crate::text::lower(text[0]);
            let r = text[1];
            if 'a' <= f && f <= 'h' && '1' <= r && r <= '9' {
                Ok(
                    Square(
                        (16 * ((r as int - 49) % 8) + (f as int - 97)) as u8,
                    ),
                )
            } else {
                Err(Error::InvalidSquareString)
            }
        }
    }

    /// The square on `rank` and `file`.
    pub fn new(rank: Rank, file: File) -> (sq: Square)
        ensures
            sq.0 == 16 * rank.spec_index() + file.spec_index(),
            sq.valid(),
    {
        Square(16 * rank.index() + file.index())
    }

    /// Steps by a signed delta; fails when the step leaves the board.
    pub fn add(&self, delta: i8) -> (r: Result<Square, Error>)
        ensures
            r == self.spec_add(delta as int),
            self.valid() ==> (r is Ok <==> on_board(self.0 + delta)),
            self.valid() && r is Ok ==> r->Ok_0.0 == self.0 + delta,
    {
        let sum: i16 = self.0 as i16 + delta as i16;
        let wrapped: i16 = if sum < 0 {
            sum + 256
        } else if sum >= 256 {
            sum - 256
        } else {
            sum
        };
        let new_idx: u8 = wrapped as u8;
        match is_valid_idx(new_idx) {
            Ok(()) => Ok(Square(new_idx)),
            Err(e) => Err(e),
        }
    }

    /// The file's number, counted from zero.
    pub fn file(&self) -> (f: u8)
        ensures
            f == self.spec_file(),
            f < 8,
    {
        let idx: u8 = self.0;
        assert(idx & 7 == idx % 8) by (bit_vector);
        idx & 7
    }

    /// The rank's number, counted from zero.
    pub fn rank(&self) -> (r: u8)
        ensures
            r == self.spec_rank(),
            r < 16,
    {
        let idx: u8 = self.0;
        assert(idx >> 4 == idx / 16) by (bit_vector);
        idx >> 4
    }

    /// The square in algebraic notation.
    pub fn get_notation(&self) -> (text: String)
        ensures
            text@ == self.spec_notation(),
    {
        let mut text = String::new();
        text.push((self.file() + 97) as char);
        push_decimal(&mut text, self.rank() + 1);
        assert(text@ =~= self.spec_notation());
        text
    }

    /// The colour of the square, read off a periodic bit pattern.
    pub fn color(self) -> (c: Color)
        ensures
            c == self.spec_color(),
    {
        let idx: u32 = self.0 as u32;
        let pattern: u32 = 0x00AA0055;
        let bit: u32 = (pattern >> (idx % 32)) & 1;
        assert((bit == 1) == (idx % 16 < 8 && (idx % 8 + idx / 16) % 2 == 0)) by (bit_vector)
            requires
                idx < 256,
                bit == (0x00AA0055u32 >> (idx % 32)) & 1,
        ;
        if bit == 1 {
            Color::BLACK
        } else {
            Color::WHITE
        }
    }
}

impl TryFrom<u8> for Square {
    type Error = Error;

    fn try_from(idx: u8) -> (r: Result<Square, Error>) {
        match is_valid_idx(idx) {
            Ok(()) => Ok(Square(idx)),
            Err(e) => Err(e),
        }
    }
}

impl TryFromSpecImpl<u8> for Square {
    open spec fn obeys_try_from_spec() -> bool {
        true
    }

    open spec fn try_from_spec(idx: u8) -> Result<Square, Error> {
        if on_board(idx as int) {
            Ok(Square(idx))
        } else {
            Err(Error::IllegalIndex)
        }
    }
}

impl TryFrom<&str> for Square {
    type Error = Error;

    fn try_from(value: &str) -> (r: Result<Square, Error>) {
        if value.unicode_len() != 2 {
            return Err(Error::InvalidSquareString);
        }
        let f = crate::text::to_lower(value.get_char(0));
        let r = value.get_char(1);
        if f >= 'a' && f <= 'h' && r >= '1' && r <= '9' {
            let file: u8 = f as u8 - 97;
            let rank: u8 = r as u8 - 49;
            Ok(Square::new(rank.into(), file.into()))
        } else {
            Err(Error::InvalidSquareString)
        }
    }
}

impl TryFromSpecImpl<&str> for Square {
    open spec fn obeys_try_from_spec() -> bool {
        true
    }

    open spec fn try_from_spec(value: &str) -> Result<Square, Error> {
        Square::spec_parse(value@)
    }
}

impl core::ops::Deref for Square {
    type Target = u8;

    fn deref(&self) -> (idx: &u8)
        ensures
            *idx == self.0,
    {
        &self.0
    }
}

} // verus!
