//! What an integrator finds along a ray.

use vstd::prelude::*;

verus! {

/// The record of a ray hitting the scene.
#[derive(Debug)]
pub struct Intersection {}

} // verus!
