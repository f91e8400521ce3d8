//! A two-player tic-tac-toe game on a 3x3 board: the board and its lines,
//! the reading of a player's cell number, and the turn-by-turn state machine
//! that a console front end drives.

pub mod board;
pub mod input;
pub mod game;

pub use game::game_loop;
