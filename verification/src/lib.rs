//! A two-player game of noughts and crosses on a 3×3 board, with an
//! automated opponent that follows the classic win / block / fork strategy.
//!
//! - [`board`] holds the board, its model as a grid of marks, and the
//!   placement of a mark.
//! - [`win_condition`] decides whether a board is won, full or drawn.
//! - [`strategy`] states what the automated player chooses, [`robot_player`]
//!   computes it, and [`move_lemmas`] proves what holds of the choice.
//! - [`user_input`] reads a coordinate from a line of text.
//! - [`players`] and [`game`] hold the players and the state of a game.
//! - [`render`] draws a board as text.

pub mod board;
pub mod game;
pub mod move_lemmas;
pub mod players;
pub mod render;
pub mod robot_player;
pub mod strategy;
pub mod user_input;
pub mod win_condition;
