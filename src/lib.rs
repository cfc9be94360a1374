//! A Reversi (Othello) rules engine on the classic 8x8 board: legal-move
//! detection, capture execution, turn and end-of-game management, and an
//! automated opponent with a tunable error rate.

pub mod ai;
pub mod board;
pub mod cell;
pub mod game;

pub use cell::{Cell, PlayerTurn};
