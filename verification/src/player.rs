//! The two kinds of players: a human, whose decisions come from outside,
//! and the computer, which asks the adequate strategy.

use vstd::prelude::*;
use vstd::string::StringExecFns;

use crate::board::{empties, Board};
use crate::error::ErrorGame;
use crate::minmax_tree::adequat_depth;
use crate::moves::Move;
use crate::piece::Piece;
use crate::strategy::{adequat_strategy, Strategy};

verus! {

/// Whether a player is a human or the computer.
pub enum PlayerType {
    /// A human player.
    HUMAN,
    /// A computer player.
    AI,
}

/// A human player: decisions are made outside the library.
pub struct Human {
    pub name: String,
}

impl Human {
    /// A human player with the given name.
    pub fn new(name: &str) -> (h: Human)
        ensures
            h.name@ == name@,
    {
        Human { name: name.to_owned() }
    }
}

/// A computer player.
pub struct AI {
    pub name: String,
}

impl AI {
    /// A computer player under the default name.
    pub fn new() -> (a: AI)
        ensures
            a.name@ == "AI"@,
    {
        AI { name: AI::default_name() }
    }

    /// The name computer players carry.
    pub fn default_name() -> (r: String)
        ensures
            r@ == "AI"@,
    {
        String::from_str("AI")
    }
}

/// A player of the game: a human or the computer.
pub enum Player {
    Human(Human),
    Ai(AI),
}

impl Player {
    /// The player's name.
    pub fn name(&self) -> (r: String)
        ensures
            match self {
                Player::Human(h) => r@ == h.name@,
                Player::Ai(a) => r@ == a.name@,
            },
    {
        match self {
            Player::Human(h) => h.name.clone(),
            Player::Ai(a) => a.name.clone(),
        }
    }

    /// Whether the player is a human or the computer.
    pub fn player_type(&self) -> (t: PlayerType)
        ensures
            match self {
                Player::Human(_) => t is HUMAN,
                Player::Ai(_) => t is AI,
            },
    {
        match self {
            Player::Human(_) => PlayerType::HUMAN,
            Player::Ai(_) => PlayerType::AI,
        }
    }

    /// Ask the computer for the move that plays the given piece.  Humans
    /// choose their moves outside the library.
    pub fn choose_move(&self, piece: Piece, board: &Board) -> (r: Result<Move, ErrorGame>)
        requires
            *self is Ai,
            board.wf(),
            empties(board@).len() > 0,
            board@.pool.contains(piece),
        ensures
            r matches Ok(mv) && mv.piece == piece,
            r matches Ok(mv) ==> crate::minmax_tree::candidates(board@, Some(piece)).contains(mv),
    {
        match self {
            Player::Ai(_) => {
                proof {
                    crate::board::lemma_pool_len(board@);
                    if board@.pool.len() == 0 {
                        assert(false);
                    }
                }
                let mut strategy = adequat_strategy(board);
                strategy.calc_move(board, Some(piece))
            },
            Player::Human(_) => {
                proof {
                    assert(false);
                }
                vstd::pervasive::unreached()
            },
        }
    }

    /// Ask the computer which piece to hand the opponent.  Humans choose
    /// outside the library.
    pub fn choose_piece_for_opponent(&self, board: &Board) -> (p: Piece)
        requires
            *self is Ai,
            board.wf(),
            board@.pool.len() > 0,
            empties(board@).len() > 0,
        ensures
            board@.pool.contains(p),
    {
        match self {
            Player::Ai(_) => {
                proof {
                    crate::board::lemma_pool_len(board@);
                }
                let mut strategy = adequat_strategy(board);
                strategy.choose_piece_for_opponent(board)
            },
            Player::Human(_) => {
                proof {
                    assert(false);
                }
                vstd::pervasive::unreached()
            },
        }
    }
}

} // verus!
