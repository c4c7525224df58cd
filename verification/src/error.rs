//! The errors a game operation can report.

use vstd::prelude::*;
use vstd::string::{StrSliceExecFns, StringExecFns};

use crate::board::Cell;
use crate::piece::Piece;

verus! {

/// The different errors that can happen during a game.
#[derive(Debug, PartialEq)]
pub enum ErrorGame {
    /// A coordinate or linear index outside the board.
    IndexOutOfBound,
    /// The piece does not exist (defensive; should never be reported).
    PieceDoesNotExists,
    /// The piece is not in the pool of playable pieces any more.
    PieceDoesNotBelongPlayable,
    /// The target cell already holds a piece; carries the occupied cell and
    /// its piece for diagnostics.
    CellIsNotEmpty(Cell, Piece),
    /// The search produced no candidate move.
    NoBestMove,
}

/// The text of each error message.
pub open spec fn message_spec(e: ErrorGame) -> Seq<char> {
    match e {
        ErrorGame::IndexOutOfBound => "The index is out of bound"@,
        ErrorGame::PieceDoesNotExists => "This piece does not exists"@,
        ErrorGame::PieceDoesNotBelongPlayable => "This piece has already been played"@,
        ErrorGame::CellIsNotEmpty(_, piece) => "The cell is not empty and already has the piece "@
            + piece.text_spec(),
        ErrorGame::NoBestMove => "No best move has been found by the ai"@,
    }
}

impl ErrorGame {
    /// A human-readable message for this error.
    pub fn message(&self) -> (r: String)
        ensures
            r@ == message_spec(*self),
    {
        match self {
            ErrorGame::IndexOutOfBound => String::from_str("The index is out of bound"),
            ErrorGame::PieceDoesNotExists => String::from_str("This piece does not exists"),
            ErrorGame::PieceDoesNotBelongPlayable => String::from_str(
                "This piece has already been played",
            ),
            ErrorGame::CellIsNotEmpty(_, piece) => {
                let text = piece.as_text();
                String::from_str("The cell is not empty and already has the piece ").concat(
                    text.as_str(),
                )
            },
            ErrorGame::NoBestMove => String::from_str("No best move has been found by the ai"),
        }
    }
}

} // verus!
