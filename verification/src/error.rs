use vstd::prelude::*;

verus! {

/// Everything that can go wrong when the engine is handed a move, a square,
/// a piece letter, a colour letter or a position string.
#[derive(Clone, Copy, PartialEq, Eq, Debug, Structural)]
pub enum Error {
    /// The move is not among the legal moves of its origin square.
    IllegalMove,
    /// There is no piece on the origin square.
    UnknownMove,
    /// The piece on the origin square belongs to the side that is not to move.
    MustWaitForTurn,
    /// Coordinate arithmetic left the board.
    IllegalIndex,
    /// The text names no piece.
    InvalidPiece,
    /// The text names no square.
    InvalidSquareString,
    /// The text names no colour.
    InvalidColor,
    /// The text is not a position in canonical Forsyth-Edwards notation.
    InvalidFen,
    /// The position lacks a king of one colour, or holds several.
    NoKingPresent,
}

impl Error {
    /// The text of the message, as a sequence of characters.
    pub open spec fn spec_message(self) -> Seq<char> {
        match self {
            Error::IllegalMove => "the move is illegal"@,
            Error::UnknownMove => "no piece to move"@,
            Error::MustWaitForTurn => "not your turn to move"@,
            Error::IllegalIndex => "invalid square index"@,
            Error::InvalidPiece => "invalid piece string"@,
            Error::InvalidSquareString => "invalid square string"@,
            Error::InvalidColor => "invalid color"@,
            Error::InvalidFen => "invalid position string"@,
            Error::NoKingPresent => "each side needs exactly one king"@,
        }
    }

    /// A human-readable description of the error.
    pub fn message(&self) -> (text: String)
        ensures
            text@ == self.spec_message(),
    {
        match self {
            Error::IllegalMove => "the move is illegal".to_owned(),
            Error::UnknownMove => "no piece to move".to_owned(),
            Error::MustWaitForTurn => "not your turn to move".to_owned(),
            Error::IllegalIndex => "invalid square index".to_owned(),
            Error::InvalidPiece => "invalid piece string".to_owned(),
            Error::InvalidSquareString => "invalid square string".to_owned(),
            Error::InvalidColor => "invalid color".to_owned(),
            Error::InvalidFen => "invalid position string".to_owned(),
            Error::NoKingPresent => "each side needs exactly one king".to_owned(),
        }
    }
}

} // verus!
