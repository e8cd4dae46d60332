//! A verified rules engine for tic-tac-toe: the board, the win and draw
//! rules, and the turn controller of a game between a human and a computer
//! that moves at random.

pub mod board;
pub mod render;
pub mod game;
pub mod input;
