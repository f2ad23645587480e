//! Centroid color sampling: a triangle's single flat color is the source
//! image's pixel at the truncated mean of its three vertices, clamped into
//! the image so the read never leaves bounds.

use vstd::prelude::*;
use crate::Point;
use crate::buffer::{Color, PixelBuffer};
use crate::raster::coord_ok;

verus! {

/// Clamp a coordinate into `[0, n - 1]`.
pub open spec fn clamp_idx(v: int, n: int) -> int {
    if v < 0 {
        0
    } else if v > n - 1 {
        n - 1
    } else {
        v
    }
}

/// The clamped x coordinate of a triangle's centroid in a grid `w` wide.
pub open spec fn centroid_cx(p0: Point, p1: Point, p2: Point, w: int) -> int {
    clamp_idx((p0.x + p1.x + p2.x) / 3, w)
}

/// The clamped y coordinate of a triangle's centroid in a grid `h` tall.
pub open spec fn centroid_cy(p0: Point, p1: Point, p2: Point, h: int) -> int {
    clamp_idx((p0.y + p1.y + p2.y) / 3, h)
}

/// One axis of the centroid: mean of three coordinates, truncated, then
/// clamped into `[0, n - 1]`.
fn centroid_axis(c0: i32, c1: i32, c2: i32, n: usize) -> (r: usize)
    requires
        1 <= n <= crate::MAX_DIM,
        -crate::MAX_COORD <= c0 <= crate::MAX_COORD,
        -crate::MAX_COORD <= c1 <= crate::MAX_COORD,
        -crate::MAX_COORD <= c2 <= crate::MAX_COORD,
    ensures
        r as int == clamp_idx((c0 + c1 + c2) / 3, n as int),
        r < n,
{
    let s: i64 = c0 as i64 + c1 as i64 + c2 as i64;
    if s < 0 {
        0
    } else {
        let q: u64 = (s as u64) / 3;
        if q > (n - 1) as u64 {
            n - 1
        } else {
            q as usize
        }
    }
}

/// The flat fill color for a triangle: the source pixel at the clamped,
/// truncated centroid of its three vertices. The clamp keeps the read in
/// bounds even when the centroid lands on the last row or column.
pub fn compute_color(p0: Point, p1: Point, p2: Point, src: &PixelBuffer) -> (col: Color)
    requires
        src.wf(),
        coord_ok(p0),
        coord_ok(p1),
        coord_ok(p2),
    ensures
        col == src.at(
            centroid_cx(p0, p1, p2, src.width as int),
            centroid_cy(p0, p1, p2, src.height as int),
        ),
{
    let cx: usize = centroid_axis(p0.x, p1.x, p2.x, src.width);
    let cy: usize = centroid_axis(p0.y, p1.y, p2.y, src.height);
    src.get(cx, cy)
}

} // verus!
