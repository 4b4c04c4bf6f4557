//! A terminal snake game, split into its decision logic.
//!
//! The library holds the rules of the game: how a heading changes, how the
//! head moves and wraps, how the body grows, where fruit may be placed and
//! which glyphs make up a frame. Reading keys and writing to the terminal are
//! left to the program that drives it.

pub mod snake;
pub mod placement;
pub mod input;
pub mod ansi;
pub mod render;
pub mod game;
pub mod options;
