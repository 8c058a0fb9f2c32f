//! A falling-block puzzle game without its window: the seven shapes and
//! their rotation templates, the piece, the board with its rules of
//! placement and of clearing rows, the game that a tick of the clock and
//! the keys drive, and the screens the program goes through. Each function
//! states what it computes. What is taken on trust of the random number
//! generator stands in [`random`].

pub mod board;
pub mod engine;
pub mod laws;
pub mod layout;
pub mod piece;
pub mod random;
pub mod shape;
pub mod state;
