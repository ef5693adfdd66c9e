//! The logic of a small 2D platformer with quizzes: which screen the game is
//! in and which objects belong to it, how sprites are animated, and how a
//! player opens a quiz, answers it, and goes on or fails.
//!
//! The library decides and the engine carries out: every function here
//! takes what a frame's input and the world say, as plain values, and
//! returns what is to change.

pub mod animations;
pub mod commands;
pub mod error;
pub mod interactable;
pub mod player;
pub mod system;
