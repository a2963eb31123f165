//! The board engine of a small tile-sliding puzzle: a 5x5 grid of pieces,
//! row and column slides, clear counting, random refills and input debouncing.
//!
//! Everything here works on plain values. Windows, sprites, key polling and
//! animation belong to the program around this library, which feeds it key
//! snapshots and elapsed time and carries out the visual commands it returns.

pub mod board;
pub mod clears;
pub mod cursor;
pub mod fill;
pub mod game;
pub mod input;
pub mod piece;
pub mod slide;
