//! A verified core for a grid-based snake game.
//!
//! The library models the whole simulation over plain integers: positions are
//! held in sub-pixel units (1000 units per pixel), the playing field is a
//! fixed 35 x 20 grid of 64-pixel tiles, and every state transition (movement,
//! growth, eating, fruit spawning, reset) carries a contract that pins the
//! next state down.  Randomness for fruit placement comes from the `rand`
//! crate behind trusted wrappers; window handling and timing stay outside.

pub mod units;
pub mod direction;
pub mod fruit;
pub mod shade;
pub mod pixels;
pub mod rng;
pub mod snake;
pub mod grid;
