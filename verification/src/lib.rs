//! A verified two-player tic-tac-toe core: a 3x3 board with bounds- and
//! occupancy-checked placement, a pure win detector, a line parser for move
//! and restart input, and a turn-taking game state machine.
//!
//! Terminal input and output live outside this library; every rule of the
//! game itself is stated in a contract and proved.

pub mod board;
pub mod game;
pub mod parser;
pub mod winner;
