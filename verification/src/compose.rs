//! The compositor: initialize the output buffer to a background color, then
//! for each triangle in mesh order sample its centroid color and rasterize
//! it. Later triangles overwrite earlier ones on overlap — last writer in
//! mesh order wins — so the final color of every pixel is pinned exactly.

use vstd::prelude::*;
use crate::Point;
use crate::buffer::{Color, PixelBuffer, lemma_index_bound};
use crate::colorpick::{centroid_cx, centroid_cy, compute_color};
use crate::mesh::{Triangle, tri_valid};
use crate::raster::{coord_ok, fill_triangle, fills};

verus! {

/// The flat color assigned to a triangle: the source pixel at the clamped,
/// truncated centroid of its three vertices.
pub open spec fn spec_tri_color(points: Seq<Point>, t: Triangle, src: &PixelBuffer) -> Color {
    src.at(
        centroid_cx(points[t.v0 as int], points[t.v1 as int], points[t.v2 as int], src.width as int),
        centroid_cy(points[t.v0 as int], points[t.v1 as int], points[t.v2 as int], src.height as int),
    )
}

/// The color of pixel `(x, y)` after the first `n` triangles have been
/// drawn over the background: the color of the last of them that claims the
/// pixel, or the background if none does.
pub open spec fn rendered_color(
    points: Seq<Point>,
    tris: Seq<Triangle>,
    n: int,
    src: &PixelBuffer,
    bg: Color,
    x: int,
    y: int,
) -> Color
    decreases n,
{
    if n <= 0 {
        bg
    } else {
        let t = tris[n - 1];
        if fills(points[t.v0 as int], points[t.v1 as int], points[t.v2 as int], x, y) {
            spec_tri_color(points, t, src)
        } else {
            rendered_color(points, tris, n - 1, src, bg, x, y)
        }
    }
}

/// Render the mesh over the source image: an output buffer of the source's
/// dimensions, initialized to `bg`, with every triangle drawn once in mesh
/// order in its centroid color. The result is a function of the point set,
/// the mesh, the source and the background alone: every pixel's final color
/// is `rendered_color` of the full mesh.
#[verifier::loop_isolation(false)]
pub fn compute_image(
    points: &Vec<Point>,
    tris: &Vec<Triangle>,
    src: &PixelBuffer,
    bg: Color,
) -> (out: PixelBuffer)
    requires
        src.wf(),
        forall|i: int| 0 <= i < tris@.len() ==> tri_valid(#[trigger] tris@[i], points@.len() as int),
        forall|i: int| 0 <= i < points@.len() ==> coord_ok(#[trigger] points@[i]),
    ensures
        out.wf(),
        out.width == src.width,
        out.height == src.height,
        forall|x: int, y: int|
            #![trigger rendered_color(points@, tris@, tris@.len() as int, src, bg, x, y)]
            0 <= x < src.width && 0 <= y < src.height ==> out.at(x, y) == rendered_color(
                points@, tris@, tris@.len() as int, src, bg, x, y,
            ),
{
    let w: usize = src.width;
    let h: usize = src.height;
    let mut out = PixelBuffer::new_filled(w, h, bg);
    assert forall|x: int, y: int| 0 <= x < w && 0 <= y < h implies out.at(x, y)
        == rendered_color(points@, tris@, 0, src, bg, x, y) by {
        lemma_index_bound(x, y, w as int, h as int);
    }
    let mut k: usize = 0;
    while k < tris.len()
        invariant
            k <= tris@.len(),
            out.wf(),
            out.width == w,
            out.height == h,
            forall|x: int, y: int|
                #![trigger rendered_color(points@, tris@, k as int, src, bg, x, y)]
                0 <= x < w && 0 <= y < h ==> out.at(x, y) == rendered_color(
                    points@, tris@, k as int, src, bg, x, y,
                ),
        decreases tris@.len() - k,
    {
        let t: Triangle = tris[k];
        let p0: Point = points[t.v0];
        let p1: Point = points[t.v1];
        let p2: Point = points[t.v2];
        let col: Color = compute_color(p0, p1, p2, src);
        fill_triangle(&mut out, p0, p1, p2, col);
        assert forall|x: int, y: int| 0 <= x < w && 0 <= y < h implies out.at(x, y)
            == rendered_color(points@, tris@, k + 1, src, bg, x, y) by {
            assert(p0 == points@[tris@[k as int].v0 as int]);
            assert(p1 == points@[tris@[k as int].v1 as int]);
            assert(p2 == points@[tris@[k as int].v2 as int]);
            if fills(p0, p1, p2, x, y) {
                assert(out.at(x, y) == col);
            } else {
                assert(out.at(x, y) == rendered_color(points@, tris@, k as int, src, bg, x, y));
            }
        }
        k = k + 1;
    }
    out
}

/// Full-coverage law: over a uniform source, every pixel that some triangle
/// of the mesh claims is rendered in the source's uniform color — no
/// background shows through where the triangulation covers the frame.
pub proof fn lemma_uniform_cover(
    points: Seq<Point>,
    tris: Seq<Triangle>,
    n: int,
    src: &PixelBuffer,
    bg: Color,
    c: Color,
    x: int,
    y: int,
)
    requires
        src.wf(),
        forall|i: int, j: int|
            0 <= i < src.width && 0 <= j < src.height ==> #[trigger] src.at(i, j) == c,
        0 <= n <= tris.len(),
        exists|k: int|
            0 <= k < n && #[trigger] fills(
                points[tris[k].v0 as int],
                points[tris[k].v1 as int],
                points[tris[k].v2 as int],
                x,
                y,
            ),
    ensures
        rendered_color(points, tris, n, src, bg, x, y) == c,
    decreases n,
{
    let k = choose|k: int|
        0 <= k < n && #[trigger] fills(
            points[tris[k].v0 as int],
            points[tris[k].v1 as int],
            points[tris[k].v2 as int],
            x,
            y,
        );
    let t = tris[n - 1];
    if fills(points[t.v0 as int], points[t.v1 as int], points[t.v2 as int], x, y) {
        let cx = centroid_cx(
            points[t.v0 as int], points[t.v1 as int], points[t.v2 as int], src.width as int,
        );
        let cy = centroid_cy(
            points[t.v0 as int], points[t.v1 as int], points[t.v2 as int], src.height as int,
        );
        assert(0 <= cx < src.width);
        assert(0 <= cy < src.height);
        assert(src.at(cx, cy) == c);
    } else {
        assert(k < n - 1);
        lemma_uniform_cover(points, tris, n - 1, src, bg, c, x, y);
    }
}

} // verus!
