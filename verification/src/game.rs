//! A game: the board and the two players taking turns.

use vstd::prelude::*;

use crate::board::{model_after, Board, Cell};
use crate::error::ErrorGame;
use crate::moves::Move;
use crate::piece::Piece;
use crate::player::{Human, Player, AI};

verus! {

/// A running game: the board, the two players, and whose turn it is.
pub struct Game {
    /// The Quarto board.
    pub board: Board,
    /// The two players of the game.
    pub players: [Player; 2],
    /// The index of the player currently playing.
    pub current_index_player: usize,
}

impl Game {
    /// A well-formed game: a well-formed board and a current index of 0
    /// or 1.
    pub open spec fn wf(self) -> bool {
        self.board.wf() && self.current_index_player < 2
    }

    /// Start a new game between the two given players.
    pub fn start(p1: Player, p2: Player) -> (g: Game)
        ensures
            g.wf(),
            g.players@[0] == p1,
            g.players@[1] == p2,
            g.current_index_player == 0,
            g.board@.pool.len() == 16,
            forall|i: int| 0 <= i < 16 ==> g.board@.cells[i].piece is None,
    {
        Game { board: Board::create(), players: [p1, p2], current_index_player: 0 }
    }

    /// Start a game between two humans.
    pub fn pvp(p1_name: &str, p2_name: &str) -> (g: Game)
        ensures
            g.wf(),
            g.players@[0] matches Player::Human(h) && h.name@ == p1_name@,
            g.players@[1] matches Player::Human(h) && h.name@ == p2_name@,
            g.current_index_player == 0,
            g.board@.pool.len() == 16,
            forall|i: int| 0 <= i < 16 ==> g.board@.cells[i].piece is None,
    {
        Game::start(Player::Human(Human::new(p1_name)), Player::Human(Human::new(p2_name)))
    }

    /// Start a game of one human against the computer.
    pub fn pve(p1_name: &str) -> (g: Game)
        ensures
            g.wf(),
            g.players@[0] matches Player::Human(h) && h.name@ == p1_name@,
            g.players@[1] is Ai,
            g.current_index_player == 0,
            g.board@.pool.len() == 16,
            forall|i: int| 0 <= i < 16 ==> g.board@.cells[i].piece is None,
    {
        Game::start(Player::Human(Human::new(p1_name)), Player::Ai(AI::new()))
    }

    /// Borrow the board.
    pub fn get_board(&self) -> (b: &Board)
        ensures
            b == &self.board,
    {
        &self.board
    }

    /// Get a player by index.
    pub fn get_player(&self, index: usize) -> (p: &Player)
        requires
            index < 2,
        ensures
            p == &self.players[index as int],
    {
        &self.players[index]
    }

    /// The player currently playing.
    pub fn current_player(&self) -> (p: &Player)
        requires
            self.wf(),
        ensures
            p == &self.players[self.current_index_player as int],
    {
        &self.players[self.current_index_player]
    }

    /// The player waiting for their turn.
    pub fn opponent_player(&self) -> (p: &Player)
        requires
            self.wf(),
        ensures
            p == &self.players[1 - self.current_index_player as int],
    {
        &self.players[1 - self.current_index_player]
    }

    /// Hand the turn to the other player.
    pub fn switch_current_player(&mut self)
        requires
            old(self).wf(),
        ensures
            final(self).wf(),
            final(self).current_index_player == 1 - old(self).current_index_player,
            final(self).board == old(self).board,
            final(self).players == old(self).players,
    {
        self.current_index_player = 1 - self.current_index_player;
    }

    /// Play one turn: place the piece into the cell and remove it from the
    /// pool, exactly as [`Board::play_and_remove_piece`] does.
    pub fn play(&mut self, piece: Piece, cell: Cell) -> (r: Result<Piece, ErrorGame>)
        requires
            old(self).wf(),
            cell.wf(),
        ensures
            final(self).wf(),
            final(self).players == old(self).players,
            final(self).current_index_player == old(self).current_index_player,
            match old(self).board@.cells[cell.index_spec()].piece {
                Some(q) => r == Err::<Piece, ErrorGame>(
                    ErrorGame::CellIsNotEmpty(old(self).board@.cells[cell.index_spec()], q),
                ) && final(self).board == old(self).board,
                None => if old(self).board@.pool.contains(piece) {
                    r == Ok::<Piece, ErrorGame>(piece) && final(self).board@ == model_after(
                        old(self).board@,
                        Move { piece, cell },
                    )
                } else {
                    &&& r == Err::<Piece, ErrorGame>(ErrorGame::PieceDoesNotBelongPlayable)
                    &&& final(self).board@.pool == old(self).board@.pool
                    &&& final(self).board@.cells == model_after(
                        old(self).board@,
                        Move { piece, cell },
                    ).cells
                },
            },
    {
        self.board.play_and_remove_piece(&Move::new(piece, cell))
    }
}

} // verus!
