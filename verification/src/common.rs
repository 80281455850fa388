//! Helpers shared between the renderer and its tools: slice search, timing
//! wrappers and random numbers.

pub mod random;
pub mod util;
