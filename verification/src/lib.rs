//! Turn-interaction core of a grid-based tactics game.
//!
//! The crate decides, from pointer and keyboard input and a roster of units
//! on a tile grid, what the player is currently doing, and moves the units
//! accordingly. Rendering, windowing and file access live outside of it:
//! every entry point takes and returns plain values.

pub mod character;
pub mod geom;
pub mod grid;
pub mod input;
pub mod panel;
pub mod screens;

pub use geom::grid_pos_to_rectangle;
