//! The screen of the game of noughts and crosses on the three by three
//! board.

pub mod display;
