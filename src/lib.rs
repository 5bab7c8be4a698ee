//! The simulation core of a grid snake game: the game state and its tick,
//! a linear-congruential generator that places fruit, and a fixed-rate tick
//! gate driven by a caller's clock.

pub mod interval;
pub mod rng;
pub mod vector;
pub mod world;
