//! Choosing a strategy for the current state of the game.
//!
//! While the board is nearly empty the heuristic score is uninformative, so
//! a uniformly random strategy plays the opening; afterwards the minimax
//! search takes over, with a depth picked from the number of pieces already
//! removed from play.

use vstd::prelude::*;

use crate::board::{empties, lemma_pool_len, Board, BoardModel, HEIGHT_BOARD, WIDTH_BOARD};
use crate::error::ErrorGame;
use crate::minmax_tree::{
    adequat_depth, candidates, effective_constraint, init_score, search_selected_move,
    MinMaxTree,
};
use crate::moves::Move;
use crate::piece::Piece;
use crate::random::RandomAI;

verus! {

/// How many opening plies are left to the random strategy.
pub const NB_PLAY_WITH_RANDOM_STRATEGY: usize = 2;

/// One of the two decision algorithms, ready to run.
pub enum Strategy {
    /// The uniformly random baseline, for the opening.
    Random(RandomAI),
    /// The depth-bounded minimax search.
    MinMaxTree(MinMaxTree),
}

impl Strategy {
    /// Whether this strategy can compute a move for the given board and
    /// optional piece constraint.
    pub open spec fn can_calc_move(self, m: BoardModel, piece: Option<Piece>) -> bool {
        match self {
            Strategy::Random(_) => candidates(m, piece).len() > 0,
            Strategy::MinMaxTree(t) => {
                &&& t.depth >= 1
                &&& empties(m).len() > 0
                &&& match effective_constraint(t, piece) {
                    Some(p) => m.pool.contains(p),
                    None => m.pool.len() > 0,
                }
                &&& (t.children@.len() > 0 || (t.selected_move is None && t.score == init_score(
                    t.maximise,
                )))
            },
        }
    }

    /// Whether this strategy can choose a piece for the opponent.
    pub open spec fn can_choose_piece(self, m: BoardModel) -> bool {
        match self {
            Strategy::Random(_) => m.pool.len() > 0,
            Strategy::MinMaxTree(t) => {
                &&& t.depth >= 1
                &&& m.pool.len() > 0
                &&& empties(m).len() > 0
                &&& t.piece is None
                &&& (t.children@.len() > 0 || (t.selected_move is None && t.score == init_score(
                    t.maximise,
                )))
            },
        }
    }

    /// The display name of the strategy.
    pub fn name(&self) -> (r: String)
        ensures
            self is Random ==> r@ == "random"@,
            self is MinMaxTree ==> r@ == "MinMaxTree"@,
    {
        match self {
            Strategy::Random(_) => RandomAI::name(),
            Strategy::MinMaxTree(_) => MinMaxTree::name(),
        }
    }

    /// The move to play, from the board and an optional piece constraint:
    /// random for the opening strategy, the search's selection otherwise.
    pub fn calc_move(&mut self, board: &Board, piece: Option<Piece>) -> (r: Result<
        Move,
        ErrorGame,
    >)
        requires
            board.wf(),
            old(self).can_calc_move(board@, piece),
        ensures
            r is Ok,
            r matches Ok(mv) ==> candidates(
                board@,
                match *old(self) {
                    Strategy::Random(_) => piece,
                    Strategy::MinMaxTree(t) => effective_constraint(t, piece),
                },
            ).contains(mv),
            piece matches Some(p) ==> (r matches Ok(mv) && mv.piece == p),
            *old(self) matches Strategy::MinMaxTree(t) ==> r == Ok::<Move, ErrorGame>(
                search_selected_move(
                    board@,
                    t.depth as nat,
                    t.maximise,
                    effective_constraint(t, piece),
                )->0,
            ),
    {
        match self {
            Strategy::Random(ai) => ai.calc_move(board, piece),
            Strategy::MinMaxTree(t) => t.calc_move(board, piece),
        }
    }

    /// The piece to hand the opponent: random for the opening strategy, the
    /// piece minimising the opponent's best reply otherwise.
    pub fn choose_piece_for_opponent(&mut self, board: &Board) -> (p: Piece)
        requires
            board.wf(),
            old(self).can_choose_piece(board@),
        ensures
            board@.pool.contains(p),
            *old(self) matches Strategy::MinMaxTree(t) ==> p
                == crate::minmax_tree::choose_piece_spec(board@, t.depth as nat, t.maximise),
    {
        match self {
            Strategy::Random(ai) => ai.choose_piece_for_opponent(board),
            Strategy::MinMaxTree(t) => t.choose_piece_for_opponent(board),
        }
    }
}

/// The strategy adequate to the board: random while more than 14 cells are
/// empty, otherwise a fresh maximising search whose depth grows as pieces
/// leave the pool.
pub fn adequat_strategy(board: &Board) -> (s: Strategy)
    requires
        board.wf(),
    ensures
        empties(board@).len() > 14 ==> s is Random,
        empties(board@).len() <= 14 ==> (s matches Strategy::MinMaxTree(t) && t.depth
            == adequat_depth(16 - board@.pool.len()) && t.maximise == true && t.piece is None
            && t.selected_move is None && t.score == init_score(true) && t.children@.len() == 0),
{
    let empty_cells = board.get_empty_cells();
    if empty_cells.len() > WIDTH_BOARD * HEIGHT_BOARD - NB_PLAY_WITH_RANDOM_STRATEGY {
        return Strategy::Random(RandomAI::new());
    }
    proof {
        lemma_pool_len(board@);
    }
    let nb_piece_left = WIDTH_BOARD * HEIGHT_BOARD - board.available_pieces.len();
    let minmax = MinMaxTree::new(MinMaxTree::calc_adequat_depth(nb_piece_left), true);
    Strategy::MinMaxTree(minmax)
}

} // verus!
