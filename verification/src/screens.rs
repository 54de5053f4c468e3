//! The screens of the game.

pub mod game;
