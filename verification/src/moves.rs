//! A move: one piece placed into one cell.

use vstd::prelude::*;

use crate::board::{Board, Cell};
use crate::error::ErrorGame;
use crate::piece::Piece;

verus! {

/// An immutable (piece, cell) pair: a candidate ply, or the ply to apply.
#[derive(Debug, Clone, Copy, PartialEq)]
pub struct Move {
    pub piece: Piece,
    pub cell: Cell,
}

impl Move {
    /// Pair a piece with the cell it is to be played in.
    pub fn new(piece: Piece, cell: Cell) -> (m: Move)
        ensures
            m == (Move { piece, cell }),
    {
        Move { piece, cell }
    }

    /// Build a move from a piece index (within the available pool) and a
    /// cell index.
    pub fn from_index(index_piece: usize, index_cell: usize, board: &Board) -> (r: Result<
        Move,
        ErrorGame,
    >)
        requires
            board.wf(),
            exists|k: int|
                0 <= k < board@.pool.len() && (#[trigger] board@.pool[k]).index_spec()
                    == index_piece,
            index_cell < 16,
        ensures
            r matches Ok(m) && m.cell == board@.cells[index_cell as int] && m.piece.index_spec()
                == index_piece && board@.pool.contains(m.piece),
    {
        let piece = match Piece::from_index(board, index_piece) {
            Ok(p) => p,
            Err(_) => {
                proof {
                    assert(false);
                }
                vstd::pervasive::unreached()
            },
        };
        let cell = match Cell::from_index(board, index_cell) {
            Ok(c) => c,
            Err(_) => {
                proof {
                    assert(false);
                }
                vstd::pervasive::unreached()
            },
        };
        Ok(Move::new(piece, cell))
    }

    /// The indexes of the move: the piece's canonical index and the cell's
    /// linear index.
    pub fn to_tuple(&self, board: &Board) -> (t: (usize, usize))
        requires
            board.wf(),
            board@.pool.contains(self.piece),
            self.cell.wf(),
        ensures
            t.0 == self.piece.index_spec(),
            t.1 == self.cell.index_spec(),
    {
        let index = match self.piece.to_index(board) {
            Ok(i) => i,
            Err(_) => {
                proof {
                    assert(false);
                }
                vstd::pervasive::unreached()
            },
        };
        (index, self.cell.to_index())
    }

    /// The piece of the move.
    pub fn piece(&self) -> (p: Piece)
        ensures
            p == self.piece,
    {
        self.piece
    }

    /// The cell of the move.
    pub fn cell(&self) -> (c: Cell)
        ensures
            c == self.cell,
    {
        self.cell
    }
}

} // verus!
