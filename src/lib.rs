//! A bounded-grid snake simulation: occupancy tracking, direction queueing,
//! per-tick movement with wall and self collision, randomized food placement
//! with a bounded retry, growth, and reset on game over.

pub mod grid;
pub mod food;
pub mod game;
pub mod laws;
