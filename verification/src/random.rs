//! The uniform-random strategy, used for the opening moves.

use rand::Rng;
use vstd::prelude::*;
use vstd::string::StringExecFns;

use crate::board::Board;
use crate::error::ErrorGame;
use crate::minmax_tree::{candidates, get_moves};
use crate::moves::Move;
use crate::piece::Piece;

verus! {

/// Relies on `rand::Rng::gen_range` over the half-open range `0..n`: it
/// returns a value of that range, and panics only when the range is empty.
#[verifier::external_body]
fn random_index_below(n: usize) -> (r: usize)
    requires
        n > 0,
    ensures
        r < n,
{
    rand::thread_rng().gen_range(0..n)
}

/// The strategy that picks a uniformly random legal move or piece.
pub struct RandomAI {}

impl RandomAI {
    /// A fresh random strategy.
    pub fn new() -> (r: RandomAI)
        ensures
            r == (RandomAI {  }),
    {
        RandomAI::default()
    }

    /// The display name of this strategy.
    pub fn name() -> (r: String)
        ensures
            r@ == "random"@,
    {
        String::from_str("random")
    }

    /// A uniformly random candidate move: the fixed piece into a random
    /// empty cell when a piece is given, otherwise a random available piece
    /// into a random empty cell.
    pub fn calc_move(&self, board: &Board, piece: Option<Piece>) -> (r: Result<Move, ErrorGame>)
        requires
            board.wf(),
            candidates(board@, piece).len() > 0,
        ensures
            r matches Ok(mv) && candidates(board@, piece).contains(mv),
            piece matches Some(p) ==> r matches Ok(mv) && mv.piece == p,
    {
        let moves = get_moves(board, piece);
        let index = random_index_below(moves.len());
        let mv = moves[index];
        proof {
            assert(candidates(board@, piece)[index as int] == mv);
            assert(candidates(board@, piece).contains(mv));
        }
        Ok(mv)
    }

    /// A uniformly random piece from the available pool.
    pub fn choose_piece_for_opponent(&self, board: &Board) -> (p: Piece)
        requires
            board.wf(),
            board@.pool.len() > 0,
        ensures
            board@.pool.contains(p),
    {
        let index = random_index_below(board.available_pieces.len());
        let p = board.available_pieces[index];
        proof {
            assert(board@.pool[index as int] == p);
        }
        p
    }
}

impl Default for RandomAI {
    /// The default random strategy.
    fn default() -> (r: Self)
        ensures
            r == (RandomAI {  }),
    {
        RandomAI {  }
    }
}

} // verus!
