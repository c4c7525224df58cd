//! A verified engine for the board game Quarto.
//!
//! Two players alternately hand each other a piece and place it on a 4x4
//! board; a side wins by completing a row, column or diagonal of four pieces
//! that share one of the four binary attributes.  The crate provides the
//! board and piece model, the heuristic scorer and the depth-bounded minimax
//! search that decides both which move to play and which piece to hand the
//! opponent.

pub mod board;
pub mod error;
pub mod game;
pub mod minmax_tree;
pub mod moves;
pub mod piece;
pub mod player;
pub mod random;
pub mod score;
pub mod strategy;

pub use board::{Board, BoardState, Cell};
pub use error::ErrorGame;
pub use game::Game;
pub use moves::Move;
pub use piece::{Color, Height, Hole, Piece, Shape};
pub use score::Score;
