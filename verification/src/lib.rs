//! Integer geometry, search and sampling logic of a spectral ray tracer,
//! and the text format of its RGB-to-spectrum coefficient tables.

pub mod bounds;
pub mod cli;
pub mod coefficients;
pub mod common;
pub mod film;
pub mod integrator;
pub mod math;
pub mod sample;
pub mod shape;
pub mod spectrum;
pub mod util;
pub mod vec;
