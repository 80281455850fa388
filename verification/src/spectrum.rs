//! Spectral distributions.

use vstd::prelude::*;

verus! {

/// A spectrum that emits light of a given RGB color in a color space.
pub struct RgbIlluminant {}

} // verus!
