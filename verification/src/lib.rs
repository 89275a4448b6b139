//! The rules of a small game: the stack of screens that the player moves
//! between, and the detection of the characters that the player is near.

pub mod dialog;
pub mod movement;
pub mod navigation;
pub mod nearest;
pub mod proximity;
pub mod resolution;
pub mod screen;
pub mod session;
pub mod window;
