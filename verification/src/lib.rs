//! Verified core of a keyboard-driven game kiosk: the launcher menu, the
//! charades and pictionary prompt games, and the trivia game.
pub mod charades;
pub mod display;
pub mod launcher;
pub mod pictionary;
pub mod random;
pub mod text;
pub mod trivia;
