//! A rules engine for shogi (Japanese chess): board state, legal
//! destinations, moves with optional promotion, captures into the
//! mover's hand, and drops from the hand.
//!
//! Every rule is stated over the model in `state`, and the executable
//! board in `board`, `movegen` and `rules` is proved against it. The laws
//! in `laws` are proved over the same model.

pub mod piece;
pub mod position;
pub mod state;
pub mod board;
pub mod movegen;
pub mod rules;
pub mod laws;

pub use board::{Board, PieceInfo};
pub use piece::{Piece, Player};
pub use position::Position;
pub use rules::DropRefusals;
