//! Core of a grid-based snake game: a bounded board with wrap-around
//! movement, a growing snake, weighted random food, scoring and levelling,
//! and a text encoding of the whole game state for saving and resuming.

pub mod entity;
pub mod game;
pub mod menu;
pub mod savegame;
pub mod sound;
