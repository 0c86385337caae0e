//! A game of Breakout: a paddle, balls, and a grid of blocks to clear.
//!
//! The library holds the world of a session and advances it tick by tick:
//! it moves the paddle and the balls, lets the balls bounce off the paddle
//! and the blocks, counts score and lives, and steps through the phases of
//! the game. It neither draws nor reads the keyboard: a program around it
//! hands in the viewport, the elapsed time and the player's input for each
//! tick, and draws what the world then holds.
//!
//! All quantities are integers in fixed point (see `fixed`), so that every
//! rule can be stated exactly.

pub mod chance;
pub mod collision;
pub mod entities;
pub mod fixed;
pub mod game;
pub mod geometry;
pub mod level;
pub mod rules;
