//! A chess board kept as bitboards: piece placement, move tables, move
//! generation for each kind of piece, and the execution of moves.
pub mod bitboard;
pub mod board;
pub mod game;
pub mod notation;

pub use board::{Board, Color, Piece};
pub use game::{Game, GameState};
