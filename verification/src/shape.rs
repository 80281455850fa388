//! What a shape reports about a ray hit and about a point sampled on it.

pub mod triangle_mesh;

use vstd::prelude::*;

verus! {

/// The record of a ray hitting a shape.
#[derive(Debug)]
pub struct ShapeIntersection {}

/// A point sampled on the surface of a shape.
#[derive(Debug)]
pub struct ShapeSample {}

/// The local surface geometry at a point where a ray hits a shape.
#[derive(Debug)]
pub struct SurfaceInteraction {}

} // verus!
