//! A low-poly mosaic renderer: it concentrates a sparse point set along
//! detected edges of a source image, triangulates that set, and fills each
//! triangle with a single flat color sampled at the triangle's centroid.
//!
//! The pipeline runs strictly left to right: a per-pixel edge-density field
//! is thresholded into candidate points, a capped random subset of those is
//! augmented with boundary points, the resulting point set is triangulated,
//! and every triangle is rasterized into the output buffer with a gap-free
//! scanline fill.

use vstd::prelude::*;

pub mod buffer;
pub mod raster;
pub mod density;
pub mod colorpick;
pub mod mesh;
pub mod randsrc;
pub mod sampler;
pub mod compose;

verus! {

/// Cap on the number of interior points drawn from the candidate list.
pub const MAX_POINTS: usize = 1200;

/// The desired interior sample size is `width * height / SAMPLE_RATE_DIVISOR`
/// (one tenth of the pixel count), before the `MAX_POINTS` cap.
pub const SAMPLE_RATE_DIVISOR: u64 = 10;

/// Densities are fixed-point values: `DENSITY_SCALE` units stand for 1.0 of
/// normalized gradient magnitude.
pub const DENSITY_SCALE: u32 = 65536;

/// A pixel becomes a candidate point iff its density strictly exceeds this
/// threshold (0.04 in `DENSITY_SCALE` units).
pub const EDGE_THRESHOLD: u32 = 2621;

/// Number of equal subdivisions along each image edge used by boundary
/// augmentation; each edge contributes `BORDER_SEGMENTS - 1` points besides
/// the corners.
pub const BORDER_SEGMENTS: usize = 12;

/// Largest accepted image dimension; keeps pixel counts and all raster
/// arithmetic comfortably inside the fixed-width integer types.
pub const MAX_DIM: usize = 32768;

/// Largest accepted magnitude of a vertex coordinate handed to the
/// rasterizer; keeps every edge-function value inside `i64`.
pub const MAX_COORD: i32 = 1048576;

/// An integer pixel position. Geometry points in this crate are pixel
/// positions as well: candidates and boundary points lie on the integer
/// grid, so one type serves both rasterization and triangulation input.
#[derive(Clone, Copy, PartialEq, Eq, Structural, Debug)]
pub struct Point {
    pub x: i32,
    pub y: i32,
}

impl Point {
    pub fn new(x: i32, y: i32) -> (p: Point)
        ensures
            p.x == x,
            p.y == y,
    {
        Point { x: x, y: y }
    }
}

} // verus!
