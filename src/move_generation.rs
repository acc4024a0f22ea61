use vstd::prelude::*;

use crate::board::{opposite, BoardState, PieceColor};

verus! {

/// What a legal move does to the bookkeeping of a board: the result is well
/// formed, the other side moves next, and the full-move clock advances after
/// each move of Black.
pub open spec fn valid_successor(b: BoardState, s: BoardState) -> bool {
    &&& s.wf()
    &&& s.to_move == opposite(b.to_move)
    &&& b.full_move_clock < 255 ==> s.full_move_clock == b.full_move_clock + if b.to_move
        == PieceColor::Black {
        1int
    } else {
        0int
    }
}

/// The rules of the game as the search sees them: the legal successors of a
/// board and whether a side is in check. Both are pure functions of the board.
pub trait MoveGenerator {
    /// The boards that the side to move can reach in one legal move.
    spec fn successors(&self, b: BoardState) -> Seq<BoardState>;

    /// Whether the king of `color` is attacked on `b`.
    spec fn in_check(&self, b: BoardState, color: PieceColor) -> bool;

    /// Every successor of a well-formed board is a valid successor of it.
    proof fn lemma_successors_valid(&self, b: BoardState)
        requires
            b.wf(),
        ensures
            forall|i: int|
                0 <= i < self.successors(b).len() ==> valid_successor(
                    b,
                    #[trigger] self.successors(b)[i],
                ),
    ;

    fn generate_moves(&self, b: &BoardState) -> (r: Vec<BoardState>)
        requires
            b.wf(),
        ensures
            r@ == self.successors(*b),
    ;

    fn is_check(&self, b: &BoardState, color: PieceColor) -> (r: bool)
        requires
            b.wf(),
        ensures
            r == self.in_check(*b, color),
    ;
}

} // verus!
