//! A tic-tac-toe engine: the 3x3 board with its tactical metadata, the
//! players that read it, the game between a human and a computer player,
//! and the state behind the menus of the program.
//!
//! `grid` holds the mathematical model that the contracts speak of,
//! `theorems` what holds of the engine as a whole, and `random` the calls
//! into the `rand` crate whose contracts are taken on trust.

pub mod board;
pub mod common;
pub mod game;
pub mod grid;
pub mod lemmas;
pub mod menu;
pub mod player;
pub mod random;
pub mod theorems;
pub mod ui;
