use crate::piece::Piece;
use vstd::prelude::*;

verus! {

/// The number of slots in the address space of the board.
pub const SIZE_0X88: usize = 128;

/// The board: one slot for each address, each empty or holding a piece.
/// Pure storage; the rules of the game live elsewhere.
#[derive(Clone, Copy)]
pub struct Board {
    _board: [Option<Piece>; 128],
}

impl Board {
    /// The slots of the board, by address.
    pub closed spec fn view(&self) -> Seq<Option<Piece>> {
        self._board@
    }

    /// A board always has 128 slots.
    pub broadcast proof fn lemma_len(&self)
        ensures
            #[trigger] self@.len() == 128,
    {
    }

    /// The empty position of the slots.
    pub open spec fn empty_slots() -> Seq<Option<Piece>> {
        Seq::new(128, |i: int| None::<Piece>)
    }

    /// An empty board.
    pub fn new() -> (b: Board)
        ensures
            b@ == Board::empty_slots(),
    {
        let b = Board { _board: [None; 128] };
        assert(b@ =~= Board::empty_slots());
        b
    }

    /// Puts `piece` on the slot `idx`, replacing what was there.
    pub fn set(&mut self, piece: Piece, idx: &u8)
        requires
            *idx < 128,
        ensures
            final(self)@ == old(self)@.update(*idx as int, Some(piece)),
    {
        self._board[*idx as usize] = Some(piece);
    }

    /// Empties the slot `idx`.
    pub fn remove(&mut self, idx: &u8)
        requires
            *idx < 128,
        ensures
            final(self)@ == old(self)@.update(*idx as int, None),
    {
        self._board[*idx as usize] = None;
    }

    /// The piece on the slot `idx`, if any.
    pub fn get(&self, idx: &u8) -> (r: Option<&Piece>)
        requires
            *idx < 128,
        ensures
            r is Some == self@[*idx as int] is Some,
            r is Some ==> *r->Some_0 == self@[*idx as int]->Some_0,
    {
        self._board[*idx as usize].as_ref()
    }

    /// The piece on the slot `idx`, if any, to be changed in place.
    pub fn get_mut(&mut self, idx: &u8) -> (r: Option<&mut Piece>)
        requires
            *idx < 128,
        ensures
            r is Some == old(self)@[*idx as int] is Some,
            r is Some ==> *r->Some_0 == old(self)@[*idx as int]->Some_0,
            r is Some ==> final(self)@ == old(self)@.update(*idx as int, Some(*final(r->Some_0))),
            r is None ==> final(self)@ == old(self)@,
    {
        self._board[*idx as usize].as_mut()
    }

    /// Empties every slot.
    pub fn clear(&mut self)
        ensures
            final(self)@ == Board::empty_slots(),
    {
        self._board = [None; 128];
        assert(self@ =~= Board::empty_slots());
    }

    /// The slots themselves.
    pub fn get_internal_board(&self) -> (slots: &[Option<Piece>; 128])
        ensures
            slots@ == self@,
    {
        &self._board
    }
}

} // verus!
