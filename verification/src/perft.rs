use crate::chess::GameState;
use crate::laws::{lemma_filter_member, lemma_make_unmake, lemma_plausible_can_make, lemma_played_wf, lemma_pseudo_legal_plausible};
use crate::move_gen::{all_legal_moves, king_safety, legal_moves, legal_moves_below, pseudo_legal_moves, MoveGen};
use crate::position::{Move, Position};
use crate::square::Square;
use vstd::prelude::*;

verus! {

/// The number of ways to play `depth` half-moves on from the position `p`.
pub open spec fn perft_nodes(p: Position, depth: nat) -> nat
    decreases depth, 0nat,
{
    if depth == 0 {
        1
    } else {
        let moves = all_legal_moves(p, p.side_to_move);
        perft_sum(p, moves, (depth - 1) as nat, moves.len())
    }
}

/// The number of ways to play one of the first `n` moves of `moves` and
/// then `depth` half-moves more.
pub open spec fn perft_sum(p: Position, moves: Seq<Move>, depth: nat, n: nat) -> nat
    decreases depth, n + 1,
{
    if n == 0 {
        0
    } else {
        perft_sum(p, moves, depth, (n - 1) as nat) + perft_nodes(
            p.played(moves[n - 1]),
            depth,
        )
    }
}

proof fn lemma_perft_sum_grows(p: Position, moves: Seq<Move>, depth: nat, i: nat, j: nat)
    requires
        i <= j,
    ensures
        perft_sum(p, moves, depth, i) <= perft_sum(p, moves, depth, j),
    decreases j,
{
    if i < j {
        lemma_perft_sum_grows(p, moves, depth, i, (j - 1) as nat);
    }
}

/// Every legal move of a piece of the side to move is plausible.
pub proof fn lemma_legal_plausible(p: Position, sq: Square)
    requires
        p.board.len() == 128,
        sq.valid(),
        p.piece_at(sq) is Some ==> p.piece_at(sq)->Some_0.color == p.side_to_move,
    ensures
        p.all_plausible(legal_moves(p, sq)),
{
    lemma_pseudo_legal_plausible(p, sq);
    let legal = legal_moves(p, sq);
    assert forall|i: int| 0 <= i < legal.len() implies p.plausible(#[trigger] legal[i]) by {
        let m = legal[i];
        assert(legal.contains(m));
        lemma_filter_member(pseudo_legal_moves(p, sq), king_safety(p), m);
        let j = choose|j: int|
            0 <= j < pseudo_legal_moves(p, sq).len() && pseudo_legal_moves(p, sq)[j] == m;
        assert(p.plausible(pseudo_legal_moves(p, sq)[j]));
    }
}

/// Every legal move of the side to move is plausible.
pub proof fn lemma_all_legal_plausible(p: Position, n: int)
    requires
        p.board.len() == 128,
    ensures
        p.all_plausible(legal_moves_below(p, p.side_to_move, n)),
    decreases n,
{
    if 0 < n <= 128 {
        lemma_all_legal_plausible(p, n - 1);
        let sq = Square((n - 1) as u8);
        let head = legal_moves_below(p, p.side_to_move, n - 1);
        if sq.valid() && p.piece_at(sq) is Some && p.piece_at(sq)->Some_0.color == p.side_to_move {
            lemma_legal_plausible(p, sq);
            let tail = legal_moves(p, sq);
            assert forall|i: int| 0 <= i < (head + tail).len() implies p.plausible(
                #[trigger] (head + tail)[i],
            ) by {
                if i < head.len() {
                    assert((head + tail)[i] == head[i]);
                } else {
                    assert((head + tail)[i] == tail[i - head.len()]);
                }
            }
        } else {
            assert(head + Seq::<Move>::empty() =~= head);
        }
    }
}

/// Taking back a plausible move that was played in a well-formed position
/// gives the position back.
pub proof fn lemma_played_unmake(p: Position, m: Move)
    requires
        p.wf(),
        p.has_room(),
        p.plausible(m),
    ensures
        p.played(m).can_unmake(),
        p.played(m).unmake() == p,
{
    lemma_make_unmake(p, m);
    let q = p.make(m);
    let r = p.played(m);
    assert(r.history == q.history);
    assert(r.captures == q.captures);
    assert(r.unmake() == q.unmake());
}

impl GameState {
    /// Counts the ways to play `depth` half-moves on from the state, which
    /// comes back as it was.
    pub fn perft(&mut self, depth: u8) -> (nodes: usize)
        requires
            old(self)@.wf(),
            old(self)@.full_moves + depth <= 255,
            old(self)@.half_moves + depth <= 255,
            perft_nodes(old(self)@, depth as nat) <= usize::MAX,
        ensures
            final(self)@ == old(self)@,
            nodes == perft_nodes(old(self)@, depth as nat),
        decreases depth,
    {
        if depth == 0 {
            return 1;
        }
        let ghost start = self@;
        let color = self.side_to_move;
        let moves = MoveGen::moves(self, color);
        let mut nodes: usize = 0;
        let mut i: usize = 0;
        proof {
            lemma_all_legal_plausible(start, 128);
        }
        while i < moves.len()
            invariant
                i <= moves.len(),
                depth > 0,
                self@ == start,
                start.wf(),
                start.full_moves + depth <= 255,
                start.half_moves + depth <= 255,
                moves@ == all_legal_moves(start, start.side_to_move),
                start.all_plausible(moves@),
                perft_nodes(start, depth as nat) <= usize::MAX,
                nodes == perft_sum(start, moves@, (depth - 1) as nat, i as nat),
            decreases moves.len() - i,
        {
            let m = moves[i];
            proof {
                lemma_plausible_can_make(start, m);
                lemma_played_wf(start, m);
                lemma_played_unmake(start, m);
                lemma_perft_sum_grows(
                    start,
                    moves@,
                    (depth - 1) as nat,
                    (i + 1) as nat,
                    moves@.len(),
                );
            }
            self.make_move(m);
            self.change_turn();
            self.update_king_attacks();
            let count = self.perft(depth - 1);
            nodes += count;
            self.undo();
            i += 1;
        }
        nodes
    }
}

} // verus!
