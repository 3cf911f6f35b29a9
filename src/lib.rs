//! A chess position with pawn move generation, move application and a
//! history of board snapshots.

pub mod piece;
pub mod model;
pub mod board;
pub mod laws;

pub use piece::{Epilogue, Move, MoveGenError, Piece, PieceType, Square};
pub use board::{Board, Snapshot};
pub use model::{BoardModel, Position};
