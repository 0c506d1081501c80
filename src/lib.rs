//! A grid cursor and turn state machine for a two-player mark-placing game on
//! an N×N board, with the geometry of the board and of the two glyphs.

pub mod input;
pub mod grid;
pub mod symbol;
pub mod cursor;
pub mod ledger;
pub mod game;
