use crate::error::Error;
use crate::text::{has_no_lower_case, lower_text, matches_ignoring_case, no_lower_case};
use vstd::prelude::*;
use vstd::std_specs::convert::TryFromSpecImpl;

verus! {

/// The two sides.
#[derive(Clone, Copy, PartialEq, Eq, Debug, Structural)]
pub enum Color {
    WHITE,
    BLACK,
}

impl Color {
    /// The other side.
    pub open spec fn spec_opposite(self) -> Color {
        match self {
            Color::WHITE => Color::BLACK,
            Color::BLACK => Color::WHITE,
        }
    }

    /// The letter that stands for the side in a position string.
    pub open spec fn spec_letter(self) -> char {
        match self {
            Color::WHITE => 'w',
            Color::BLACK => 'b',
        }
    }

    /// The side that a text names: `w` or `b`, nothing else.
    pub open spec fn spec_parse(text: Seq<char>) -> Result<Color, Error> {
        if text == seq!['w'] {
            Ok(Color::WHITE)
        } else if text == seq!['b'] {
            Ok(Color::BLACK)
        } else {
            Err(Error::InvalidColor)
        }
    }

    /// The side as a flag of its own bit: none for white, the highest for black.
    pub open spec fn spec_flag(self) -> u8 {
        match self {
            Color::WHITE => 0,
            Color::BLACK => 128,
        }
    }

    /// The side as a flag of its own bit.
    pub fn flag(self) -> (bits: u8)
        ensures
            bits == self.spec_flag(),
    {
        match self {
            Color::WHITE => 0,
            Color::BLACK => 128,
        }
    }

    /// The other side.
    pub fn opposite(self) -> (c: Color)
        ensures
            c == self.spec_opposite(),
    {
        match self {
            Color::WHITE => Color::BLACK,
            Color::BLACK => Color::WHITE,
        }
    }

    /// The letter that stands for the side in a position string.
    pub fn letter(self) -> (c: char)
        ensures
            c == self.spec_letter(),
    {
        match self {
            Color::WHITE => 'w',
            Color::BLACK => 'b',
        }
    }

    /// The side's letter as a text of its own.
    pub fn as_str(self) -> (text: &'static str)
        ensures
            text@ == seq![self.spec_letter()],
    {
        proof {
            reveal_strlit("w");
            reveal_strlit("b");
            assert("w"@ =~= seq!['w']);
            assert("b"@ =~= seq!['b']);
        }
        match self {
            Color::WHITE => "w",
            Color::BLACK => "b",
        }
    }
}

impl TryFrom<&str> for Color {
    type Error = Error;

    fn try_from(value: &str) -> (r: Result<Color, Error>) {
        proof {
            reveal_strlit("w");
            reveal_strlit("b");
            assert("w"@ =~= seq!['w']);
            assert("b"@ =~= seq!['b']);
            assert(lower_text(seq!['w']) =~= seq!['w']);
            assert(lower_text(seq!['b']) =~= seq!['b']);
        }
        if value.unicode_len() == 1 && value.get_char(0) == 'w' {
            assert(value@ =~= seq!['w']);
            Ok(Color::WHITE)
        } else if value.unicode_len() == 1 && value.get_char(0) == 'b' {
            assert(value@ =~= seq!['b']);
            Ok(Color::BLACK)
        } else {
            assert(value@ != seq!['w']) by {
                if value@ == seq!['w'] {
                    assert(value@[0] == 'w');
                }
            }
            assert(value@ != seq!['b']) by {
                if value@ == seq!['b'] {
                    assert(value@[0] == 'b');
                }
            }
            Err(Error::InvalidColor)
        }
    }
}

impl TryFromSpecImpl<&str> for Color {
    open spec fn obeys_try_from_spec() -> bool {
        true
    }

    open spec fn try_from_spec(value: &str) -> Result<Color, Error> {
        Color::spec_parse(value@)
    }
}

/// The six kinds of piece.
#[derive(Clone, Copy, PartialEq, Eq, Debug, Structural)]
pub enum PType {
    PAWN,
    KNIGHT,
    BISHOP,
    ROOK,
    QUEEN,
    KING,
}

impl PType {
    /// The kind's lower-case letter.
    pub open spec fn spec_letter(self) -> char {
        match self {
            PType::PAWN => 'p',
            PType::KNIGHT => 'n',
            PType::BISHOP => 'b',
            PType::ROOK => 'r',
            PType::QUEEN => 'q',
            PType::KING => 'k',
        }
    }

    /// The kind that a lower-case text names, by its letter or in full.
    pub open spec fn spec_named(word: Seq<char>) -> Option<PType> {
        if word == "p"@ || word == "pawn"@ {
            Some(PType::PAWN)
        } else if word == "n"@ || word == "knight"@ {
            Some(PType::KNIGHT)
        } else if word == "b"@ || word == "bishop"@ {
            Some(PType::BISHOP)
        } else if word == "r"@ || word == "rook"@ {
            Some(PType::ROOK)
        } else if word == "q"@ || word == "queen"@ {
            Some(PType::QUEEN)
        } else if word == "k"@ || word == "king"@ {
            Some(PType::KING)
        } else {
            None
        }
    }

    /// The kind as a flag of its own bit, so that a set of kinds is a mask.
    pub open spec fn spec_flag(self) -> u8 {
        match self {
            PType::PAWN => 1,
            PType::KNIGHT => 2,
            PType::BISHOP => 4,
            PType::ROOK => 8,
            PType::QUEEN => 16,
            PType::KING => 32,
        }
    }

    /// The kind as a flag of its own bit.
    pub fn flag(self) -> (bits: u8)
        ensures
            bits == self.spec_flag(),
    {
        match self {
            PType::PAWN => 1,
            PType::KNIGHT => 2,
            PType::BISHOP => 4,
            PType::ROOK => 8,
            PType::QUEEN => 16,
            PType::KING => 32,
        }
    }

    /// The kind's lower-case letter.
    pub fn letter(self) -> (c: char)
        ensures
            c == self.spec_letter(),
    {
        match self {
            PType::PAWN => 'p',
            PType::KNIGHT => 'n',
            PType::BISHOP => 'b',
            PType::ROOK => 'r',
            PType::QUEEN => 'q',
            PType::KING => 'k',
        }
    }
}

/// A piece: its kind and its side.
#[derive(Clone, Copy, PartialEq, Eq, Debug, Structural)]
pub struct Piece {
    pub p_type: PType,
    pub color: Color,
}

impl Piece {
    /// The letter of the piece in a position string: upper case for white,
    /// lower case for black.
    pub open spec fn spec_letter(self) -> char {
        match self.color {
            Color::BLACK => self.p_type.spec_letter(),
            Color::WHITE => ((self.p_type.spec_letter() as u8 - 32) as u8) as char,
        }
    }

    /// The piece that a letter of a position string stands for.
    pub open spec fn spec_from_letter(c: char) -> Option<Piece> {
        if c == 'p' {
            Some(Piece { p_type: PType::PAWN, color: Color::BLACK })
        } else if c == 'n' {
            Some(Piece { p_type: PType::KNIGHT, color: Color::BLACK })
        } else if c == 'b' {
            Some(Piece { p_type: PType::BISHOP, color: Color::BLACK })
        } else if c == 'r' {
            Some(Piece { p_type: PType::ROOK, color: Color::BLACK })
        } else if c == 'q' {
            Some(Piece { p_type: PType::QUEEN, color: Color::BLACK })
        } else if c == 'k' {
            Some(Piece { p_type: PType::KING, color: Color::BLACK })
        } else if c == 'P' {
            Some(Piece { p_type: PType::PAWN, color: Color::WHITE })
        } else if c == 'N' {
            Some(Piece { p_type: PType::KNIGHT, color: Color::WHITE })
        } else if c == 'B' {
            Some(Piece { p_type: PType::BISHOP, color: Color::WHITE })
        } else if c == 'R' {
            Some(Piece { p_type: PType::ROOK, color: Color::WHITE })
        } else if c == 'Q' {
            Some(Piece { p_type: PType::QUEEN, color: Color::WHITE })
        } else if c == 'K' {
            Some(Piece { p_type: PType::KING, color: Color::WHITE })
        } else {
            None
        }
    }

    /// The piece that a text names. The kind is named by its letter or in
    /// full, in either case; the piece is white when the text holds no
    /// lower-case letter and black otherwise.
    pub open spec fn spec_parse(text: Seq<char>) -> Result<Piece, Error> {
        match PType::spec_named(lower_text(text)) {
            Some(t) => Ok(
                Piece { p_type: t, color: if no_lower_case(text) { Color::WHITE } else { Color::BLACK } },
            ),
            None => Err(Error::InvalidPiece),
        }
    }

    /// A piece of the given kind and side.
    pub fn new(p_type: PType, color: Color) -> (p: Piece)
        ensures
            p == (Piece { p_type, color }),
    {
        Piece { p_type, color }
    }

    /// The letter of the piece in a position string.
    pub fn letter(&self) -> (c: char)
        ensures
            c == self.spec_letter(),
    {
        let lower = self.p_type.letter();
        match self.color {
            Color::BLACK => lower,
            Color::WHITE => (lower as u8 - 32) as char,
        }
    }

    /// The letter of the piece as a text of its own.
    pub fn to_text(&self) -> (text: String)
        ensures
            text@ == seq![self.spec_letter()],
    {
        let mut text = String::new();
        text.push(self.letter());
        assert(text@ =~= seq![self.spec_letter()]);
        text
    }

    /// The piece that a letter of a position string stands for, if any.
    pub fn from_letter(c: char) -> (r: Option<Piece>)
        ensures
            r == Piece::spec_from_letter(c),
    {
        match c {
            'p' => Some(Piece::new(PType::PAWN, Color::BLACK)),
            'n' => Some(Piece::new(PType::KNIGHT, Color::BLACK)),
            'b' => Some(Piece::new(PType::BISHOP, Color::BLACK)),
            'r' => Some(Piece::new(PType::ROOK, Color::BLACK)),
            'q' => Some(Piece::new(PType::QUEEN, Color::BLACK)),
            'k' => Some(Piece::new(PType::KING, Color::BLACK)),
            'P' => Some(Piece::new(PType::PAWN, Color::WHITE)),
            'N' => Some(Piece::new(PType::KNIGHT, Color::WHITE)),
            'B' => Some(Piece::new(PType::BISHOP, Color::WHITE)),
            'R' => Some(Piece::new(PType::ROOK, Color::WHITE)),
            'Q' => Some(Piece::new(PType::QUEEN, Color::WHITE)),
            'K' => Some(Piece::new(PType::KING, Color::WHITE)),
            _ => None,
        }
    }
}

/// Reading the letter of a piece gives the piece back, and no other letter
/// stands for it.
pub proof fn lemma_piece_letter_round_trip(p: Piece)
    ensures
        Piece::spec_from_letter(p.spec_letter()) == Some(p),
        !('1' <= p.spec_letter() && p.spec_letter() <= '8'),
        p.spec_letter() != '/',
        p.spec_letter() != ' ',
{
}

/// A letter that stands for a piece is the letter of that piece.
pub proof fn lemma_letter_piece_round_trip(c: char)
    requires
        Piece::spec_from_letter(c) is Some,
    ensures
        Piece::spec_from_letter(c)->Some_0.spec_letter() == c,
{
}

impl TryFrom<&str> for Piece {
    type Error = Error;

    fn try_from(value: &str) -> (r: Result<Piece, Error>) {
        let color = if has_no_lower_case(value) {
            Color::WHITE
        } else {
            Color::BLACK
        };
        let t = if matches_ignoring_case(value, "p") || matches_ignoring_case(value, "pawn") {
            PType::PAWN
        } else if matches_ignoring_case(value, "n") || matches_ignoring_case(value, "knight") {
            PType::KNIGHT
        } else if matches_ignoring_case(value, "b") || matches_ignoring_case(value, "bishop") {
            PType::BISHOP
        } else if matches_ignoring_case(value, "r") || matches_ignoring_case(value, "rook") {
            PType::ROOK
        } else if matches_ignoring_case(value, "q") || matches_ignoring_case(value, "queen") {
            PType::QUEEN
        } else if matches_ignoring_case(value, "k") || matches_ignoring_case(value, "king") {
            PType::KING
        } else {
            return Err(Error::InvalidPiece);
        };
        Ok(Piece::new(t, color))
    }
}

impl TryFromSpecImpl<&str> for Piece {
    open spec fn obeys_try_from_spec() -> bool {
        true
    }

    open spec fn try_from_spec(value: &str) -> Result<Piece, Error> {
        Piece::spec_parse(value@)
    }
}

} // verus!
