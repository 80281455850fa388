//! The command-line options of the renderer.

use vstd::prelude::*;

verus! {

/// The options the renderer is started with.
#[derive(Debug)]
pub struct Args {
    /// Render without the bounding volume hierarchy.
    pub bvh_disabled: bool,
    /// Log at debug level.
    pub debug: bool,
    /// Width of the image in pixels.
    pub width: u32,
    /// Height of the image in pixels.
    pub height: u32,
    /// The maximal number of bounces of a ray.
    pub max_depth: u32,
    /// The number of samples taken in each pixel.
    pub samples_per_pixel: u32,
    /// The index of the camera to render through.
    pub camera: usize,
    /// The path of the scene to render.
    pub input: String,
    /// The path of the image to write.
    pub output: String,
}

} // verus!
