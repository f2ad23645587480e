//! Triangle rasterization: an edge-function scanline fill that paints every
//! pixel claimed by a triangle with one flat color, correct for either vertex
//! winding, and a silent no-op on degenerate (collinear) triangles.

use vstd::prelude::*;
use crate::{Point, MAX_COORD, MAX_DIM};
use crate::buffer::{Color, PixelBuffer};

verus! {

/// The edge function of the directed edge `p -> q` at the query point
/// `(x, y)`: positive on one side of the line through `p` and `q`, negative
/// on the other, zero on the line.
pub open spec fn edge_fn(p: Point, q: Point, x: int, y: int) -> int {
    (q.x - p.x) * (y - p.y) - (q.y - p.y) * (x - p.x)
}

/// Twice the signed area of the triangle `(a, b, c)`; zero exactly when the
/// vertices are collinear.
pub open spec fn tri_area2(a: Point, b: Point, c: Point) -> int {
    edge_fn(a, b, c.x as int, c.y as int)
}

/// The rasterizer's fill rule: a pixel is claimed by the triangle iff all
/// three edge functions share the sign of the signed area, with zero counted
/// as inside; a degenerate triangle claims nothing.
pub open spec fn fills(a: Point, b: Point, c: Point, x: int, y: int) -> bool {
    let area = tri_area2(a, b, c);
    if area > 0 {
        edge_fn(a, b, x, y) >= 0 && edge_fn(b, c, x, y) >= 0 && edge_fn(c, a, x, y) >= 0
    } else if area < 0 {
        edge_fn(a, b, x, y) <= 0 && edge_fn(b, c, x, y) <= 0 && edge_fn(c, a, x, y) <= 0
    } else {
        false
    }
}

/// A vertex the rasterizer accepts: coordinates small enough that every
/// edge-function value fits comfortably in `i64`.
pub open spec fn coord_ok(p: Point) -> bool {
    -MAX_COORD <= p.x <= MAX_COORD && -MAX_COORD <= p.y <= MAX_COORD
}

pub open spec fn min3(a: int, b: int, c: int) -> int {
    if a <= b && a <= c {
        a
    } else if b <= c {
        b
    } else {
        c
    }
}

pub open spec fn max3(a: int, b: int, c: int) -> int {
    if a >= b && a >= c {
        a
    } else if b >= c {
        b
    } else {
        c
    }
}

/// The three barycentric identities of a triangle and a query point: the
/// three edge functions sum to the signed area, and weighting each vertex
/// coordinate by the edge function of its opposite edge reproduces
/// `area * x` and `area * y`.
proof fn lemma_bary_identities(a: Point, b: Point, c: Point, x: int, y: int)
    ensures
        edge_fn(b, c, x, y) + edge_fn(c, a, x, y) + edge_fn(a, b, x, y) == tri_area2(a, b, c),
        edge_fn(b, c, x, y) * a.x + edge_fn(c, a, x, y) * b.x + edge_fn(a, b, x, y) * c.x
            == tri_area2(a, b, c) * x,
        edge_fn(b, c, x, y) * a.y + edge_fn(c, a, x, y) * b.y + edge_fn(a, b, x, y) * c.y
            == tri_area2(a, b, c) * y,
{
    let xa = a.x as int;
    let ya = a.y as int;
    let xb = b.x as int;
    let yb = b.y as int;
    let xc = c.x as int;
    let yc = c.y as int;
    let ux = xb - xa;
    let uy = yb - ya;
    let vx = xc - xa;
    let vy = yc - ya;
    let px = x - xa;
    let py = y - ya;
    let area = tri_area2(a, b, c);
    let wa = edge_fn(b, c, x, y);
    let wb = edge_fn(c, a, x, y);
    let wc = edge_fn(a, b, x, y);
    assert(area == ux * vy - uy * vx);
    assert(wc == ux * py - uy * px);
    assert(wa == (vx - ux) * (py - uy) - (vy - uy) * (px - ux));
    assert(wb == vy * px - vx * py) by (nonlinear_arith)
        requires
            wb == (xa - xc) * (y - yc) - (ya - yc) * (x - xc),
            vx == xc - xa,
            vy == yc - ya,
            px == x - xa,
            py == y - ya,
    ;
    assert(wa == vx * py - uy * vx - ux * py + ux * uy - vy * px + ux * vy + uy * px
        - ux * uy) by (nonlinear_arith)
        requires
            wa == (vx - ux) * (py - uy) - (vy - uy) * (px - ux),
    ;
    assert(wa + wb + wc == area);
    assert(wb * ux + wc * vx == area * px) by (nonlinear_arith)
        requires
            wb == vy * px - vx * py,
            wc == ux * py - uy * px,
            area == ux * vy - uy * vx,
    ;
    assert(wb * uy + wc * vy == area * py) by (nonlinear_arith)
        requires
            wb == vy * px - vx * py,
            wc == ux * py - uy * px,
            area == ux * vy - uy * vx,
    ;
    assert(wa * xa + wb * xb + wc * xc == area * x) by (nonlinear_arith)
        requires
            wa + wb + wc == area,
            wb * ux + wc * vx == area * px,
            xb == xa + ux,
            xc == xa + vx,
            x == xa + px,
    ;
    assert(wa * ya + wb * yb + wc * yc == area * y) by (nonlinear_arith)
        requires
            wa + wb + wc == area,
            wb * uy + wc * vy == area * py,
            yb == ya + uy,
            yc == ya + vy,
            y == ya + py,
    ;
}

/// A value reproduced by non-negative weights summing to a positive total is
/// bounded above by the largest weighted value.
proof fn lemma_convex_upper(
    w1: int, w2: int, w3: int, v1: int, v2: int, v3: int, s: int, t: int, m: int,
)
    by (nonlinear_arith)
    requires
        w1 >= 0,
        w2 >= 0,
        w3 >= 0,
        w1 + w2 + w3 == s,
        s >= 1,
        w1 * v1 + w2 * v2 + w3 * v3 == s * t,
        v1 <= m,
        v2 <= m,
        v3 <= m,
    ensures
        t <= m,
{
}

/// Counterpart of `lemma_convex_upper` for the lower bound.
proof fn lemma_convex_lower(
    w1: int, w2: int, w3: int, v1: int, v2: int, v3: int, s: int, t: int, m: int,
)
    by (nonlinear_arith)
    requires
        w1 >= 0,
        w2 >= 0,
        w3 >= 0,
        w1 + w2 + w3 == s,
        s >= 1,
        w1 * v1 + w2 * v2 + w3 * v3 == s * t,
        m <= v1,
        m <= v2,
        m <= v3,
    ensures
        m <= t,
{
}

/// Any pixel the fill rule claims lies within the axis-aligned bounding box
/// of the triangle's vertices.
pub proof fn lemma_fills_in_bbox(a: Point, b: Point, c: Point, x: int, y: int)
    requires
        fills(a, b, c, x, y),
    ensures
        min3(a.x as int, b.x as int, c.x as int) <= x <= max3(a.x as int, b.x as int, c.x as int),
        min3(a.y as int, b.y as int, c.y as int) <= y <= max3(a.y as int, b.y as int, c.y as int),
{
    let area = tri_area2(a, b, c);
    let wa = edge_fn(b, c, x, y);
    let wb = edge_fn(c, a, x, y);
    let wc = edge_fn(a, b, x, y);
    lemma_bary_identities(a, b, c, x, y);
    assert(wa + wb + wc == area);
    assert(wa * (a.x as int) + wb * (b.x as int) + wc * (c.x as int) == area * x);
    assert(wa * (a.y as int) + wb * (b.y as int) + wc * (c.y as int) == area * y);
    if area > 0 {
        lemma_convex_upper(wa, wb, wc, a.x as int, b.x as int, c.x as int, area, x,
            max3(a.x as int, b.x as int, c.x as int));
        lemma_convex_lower(wa, wb, wc, a.x as int, b.x as int, c.x as int, area, x,
            min3(a.x as int, b.x as int, c.x as int));
        lemma_convex_upper(wa, wb, wc, a.y as int, b.y as int, c.y as int, area, y,
            max3(a.y as int, b.y as int, c.y as int));
        lemma_convex_lower(wa, wb, wc, a.y as int, b.y as int, c.y as int, area, y,
            min3(a.y as int, b.y as int, c.y as int));
    } else {
        assert(area < 0);
        assert((-wa) * (a.x as int) + (-wb) * (b.x as int) + (-wc) * (c.x as int) == (-area) * x)
            by (nonlinear_arith)
            requires
                wa * (a.x as int) + wb * (b.x as int) + wc * (c.x as int) == area * x,
        ;
        assert((-wa) * (a.y as int) + (-wb) * (b.y as int) + (-wc) * (c.y as int) == (-area) * y)
            by (nonlinear_arith)
            requires
                wa * (a.y as int) + wb * (b.y as int) + wc * (c.y as int) == area * y,
        ;
        lemma_convex_upper(-wa, -wb, -wc, a.x as int, b.x as int, c.x as int, -area, x,
            max3(a.x as int, b.x as int, c.x as int));
        lemma_convex_lower(-wa, -wb, -wc, a.x as int, b.x as int, c.x as int, -area, x,
            min3(a.x as int, b.x as int, c.x as int));
        lemma_convex_upper(-wa, -wb, -wc, a.y as int, b.y as int, c.y as int, -area, y,
            max3(a.y as int, b.y as int, c.y as int));
        lemma_convex_lower(-wa, -wb, -wc, a.y as int, b.y as int, c.y as int, -area, y,
            min3(a.y as int, b.y as int, c.y as int));
    }
}

/// A degenerate triangle — three collinear vertices — claims no pixel at all.
pub proof fn lemma_degenerate_fills_nothing(a: Point, b: Point, c: Point)
    requires
        tri_area2(a, b, c) == 0,
    ensures
        forall|x: int, y: int| !fills(a, b, c, x, y),
{
}

/// Product of values bounded in magnitude is bounded by the product of the
/// bounds.
pub(crate) proof fn lemma_mul_bound(u: int, v: int, m: int, n: int)
    by (nonlinear_arith)
    requires
        -m <= u <= m,
        -n <= v <= n,
        0 <= m,
        0 <= n,
    ensures
        -(m * n) <= u * v <= m * n,
{
}

/// Every edge-function value over in-range vertices and query coordinates
/// fits well inside `i64`.
proof fn lemma_edge_bound(p: Point, q: Point, x: int, y: int)
    requires
        coord_ok(p),
        coord_ok(q),
        -2 * (MAX_COORD as int) <= x <= 2 * (MAX_COORD as int),
        -2 * (MAX_COORD as int) <= y <= 2 * (MAX_COORD as int),
    ensures
        -0xc00_0000_0000 <= edge_fn(p, q, x, y) <= 0xc00_0000_0000,
{
    assert(MAX_COORD == 0x100000);
    lemma_mul_bound(q.x - p.x, y - p.y, 0x200000, 0x300000);
    lemma_mul_bound(q.y - p.y, x - p.x, 0x200000, 0x300000);
}

/// Stepping the query point one pixel right changes an edge function by a
/// fixed per-pixel delta.
proof fn lemma_edge_step_x(p: Point, q: Point, x: int, y: int)
    ensures
        edge_fn(p, q, x + 1, y) == edge_fn(p, q, x, y) - (q.y - p.y),
{
    assert((q.y - p.y) * (x + 1 - p.x) == (q.y - p.y) * (x - p.x) + (q.y - p.y))
        by (nonlinear_arith);
}

/// Stepping the query point one row down changes an edge function by a fixed
/// per-row delta.
proof fn lemma_edge_step_y(p: Point, q: Point, x: int, y: int)
    ensures
        edge_fn(p, q, x, y + 1) == edge_fn(p, q, x, y) + (q.x - p.x),
{
    assert((q.x - p.x) * (y + 1 - p.y) == (q.x - p.x) * (y - p.y) + (q.x - p.x))
        by (nonlinear_arith);
}

/// Distinct pixel positions occupy distinct row-major indices.
proof fn lemma_rowmajor_injective(x1: int, y1: int, x2: int, y2: int, w: int)
    by (nonlinear_arith)
    requires
        0 <= x1 < w,
        0 <= x2 < w,
        y1 * w + x1 == y2 * w + x2,
    ensures
        x1 == x2,
        y1 == y2,
{
}

/// Evaluate the edge function of `p -> q` at `(x, y)` exactly, in `i64`.
fn edge_eval(p: Point, q: Point, x: i64, y: i64) -> (e: i64)
    requires
        coord_ok(p),
        coord_ok(q),
        -2 * (MAX_COORD as int) <= x <= 2 * (MAX_COORD as int),
        -2 * (MAX_COORD as int) <= y <= 2 * (MAX_COORD as int),
    ensures
        e as int == edge_fn(p, q, x as int, y as int),
{
    proof {
        assert(MAX_COORD == 0x100000);
        lemma_mul_bound(q.x - p.x, y - p.y, 0x200000, 0x300000);
        lemma_mul_bound(q.y - p.y, x - p.x, 0x200000, 0x300000);
    }
    let dqx: i64 = q.x as i64 - p.x as i64;
    let dqy: i64 = q.y as i64 - p.y as i64;
    let rx: i64 = x - p.x as i64;
    let ry: i64 = y - p.y as i64;
    dqx * ry - dqy * rx
}

/// The smallest of three coordinates.
fn min3_i32(a: i32, b: i32, c: i32) -> (r: i32)
    ensures
        r as int == min3(a as int, b as int, c as int),
{
    if a <= b && a <= c {
        a
    } else if b <= c {
        b
    } else {
        c
    }
}

/// The largest of three coordinates.
fn max3_i32(a: i32, b: i32, c: i32) -> (r: i32)
    ensures
        r as int == max3(a as int, b as int, c as int),
{
    if a >= b && a >= c {
        a
    } else if b >= c {
        b
    } else {
        c
    }
}

/// Relates a row-major index to its pixel coordinates.
pub(crate) proof fn lemma_flat_coords(k: int, w: int, h: int)
    requires
        1 <= w,
        0 <= k < w * h,
    ensures
        0 <= k % w < w,
        0 <= k / w < h,
        k == (k / w) * w + (k % w),
{
    vstd::arithmetic::div_mod::lemma_fundamental_div_mod(k, w);
    vstd::arithmetic::div_mod::lemma_mod_bound(k, w);
    assert(0 <= k / w && k / w < h && k == (k / w) * w + (k % w)) by (nonlinear_arith)
        requires
            k == w * (k / w) + (k % w),
            0 <= k % w < w,
            0 <= k < w * h,
            1 <= w,
    ;
}

/// Relates pixel coordinates to their row-major index.
pub(crate) proof fn lemma_coords_flat(x: int, y: int, w: int)
    requires
        1 <= w,
        0 <= x < w,
    ensures
        (y * w + x) % w == x,
        (y * w + x) / w == y,
{
    vstd::arithmetic::div_mod::lemma_fundamental_div_mod_converse_mod(y * w + x, w, y, x);
    vstd::arithmetic::div_mod::lemma_fundamental_div_mod_converse_div(y * w + x, w, y, x);
}

/// Fill one triangle into the buffer with a single flat color.
///
/// Exactly the pixels claimed by the fill rule `fills` change, and each of
/// them becomes `color`; every other pixel keeps its previous value. The
/// bounding box of the vertices is clipped to the buffer, and a degenerate
/// (collinear) triangle changes nothing — silently, as an expected outcome
/// of triangulation rather than an error. The three edge functions are
/// evaluated incrementally: once at the clipped box's top-left corner, then
/// stepped by fixed per-pixel and per-row deltas.
#[verifier::loop_isolation(false)]
#[verifier::rlimit(60)]
pub fn fill_triangle(buf: &mut PixelBuffer, a: Point, b: Point, c: Point, color: Color)
    requires
        old(buf).wf(),
        coord_ok(a),
        coord_ok(b),
        coord_ok(c),
    ensures
        final(buf).wf(),
        final(buf).width == old(buf).width,
        final(buf).height == old(buf).height,
        forall|x: int, y: int|
            #![trigger fills(a, b, c, x, y)]
            0 <= x < old(buf).width && 0 <= y < old(buf).height ==> final(buf).at(x, y) == (
            if fills(a, b, c, x, y) {
                color
            } else {
                old(buf).at(x, y)
            }),
{
    let w: usize = buf.width;
    let h: usize = buf.height;
    let ghost wi: int = w as int;
    let ghost orig: Seq<Color> = buf.pixels@;

    let area: i64 = edge_eval(a, b, x_of(c), y_of(c));
    assert(area as int == tri_area2(a, b, c));
    if area == 0 {
        return;
    }

    let min_x: i32 = min3_i32(a.x, b.x, c.x);
    let max_x: i32 = max3_i32(a.x, b.x, c.x);
    let min_y: i32 = min3_i32(a.y, b.y, c.y);
    let max_y: i32 = max3_i32(a.y, b.y, c.y);
    let wm1: i32 = (w as i32) - 1;
    let hm1: i32 = (h as i32) - 1;
    let x_lo: i32 = if min_x < 0 { 0 } else { min_x };
    let x_hi: i32 = if max_x > wm1 { wm1 } else { max_x };
    let y_lo: i32 = if min_y < 0 { 0 } else { min_y };
    let y_hi: i32 = if max_y > hm1 { hm1 } else { max_y };
    if x_lo > x_hi || y_lo > y_hi {
        assert forall|x2: int, y2: int|
            0 <= x2 < w && 0 <= y2 < h implies !(#[trigger] fills(a, b, c, x2, y2)) by {
            if fills(a, b, c, x2, y2) {
                lemma_fills_in_bbox(a, b, c, x2, y2);
            }
        }
        return;
    }

    let dab_x: i64 = a.y as i64 - b.y as i64;
    let dab_y: i64 = b.x as i64 - a.x as i64;
    let dbc_x: i64 = b.y as i64 - c.y as i64;
    let dbc_y: i64 = c.x as i64 - b.x as i64;
    let dca_x: i64 = c.y as i64 - a.y as i64;
    let dca_y: i64 = a.x as i64 - c.x as i64;

    let mut e_ab_row: i64 = edge_eval(a, b, x_lo as i64, y_lo as i64);
    let mut e_bc_row: i64 = edge_eval(b, c, x_lo as i64, y_lo as i64);
    let mut e_ca_row: i64 = edge_eval(c, a, x_lo as i64, y_lo as i64);

    let mut y: i32 = y_lo;
    while y <= y_hi
        invariant
            y_lo <= y <= y_hi + 1,
            e_ab_row as int == edge_fn(a, b, x_lo as int, y as int),
            e_bc_row as int == edge_fn(b, c, x_lo as int, y as int),
            e_ca_row as int == edge_fn(c, a, x_lo as int, y as int),
            buf.wf(),
            buf.width == w,
            buf.height == h,
            forall|k: int|
                0 <= k < orig.len() ==> #[trigger] buf.pixels@[k] == (
                if fills(a, b, c, k % wi, k / wi) && y_lo <= k / wi < y {
                    color
                } else {
                    orig[k]
                }),
        decreases y_hi + 1 - y,
    {
        let mut e_ab: i64 = e_ab_row;
        let mut e_bc: i64 = e_bc_row;
        let mut e_ca: i64 = e_ca_row;
        let mut x: i32 = x_lo;
        while x <= x_hi
            invariant
                x_lo <= x <= x_hi + 1,
                e_ab as int == edge_fn(a, b, x as int, y as int),
                e_bc as int == edge_fn(b, c, x as int, y as int),
                e_ca as int == edge_fn(c, a, x as int, y as int),
                buf.wf(),
                buf.width == w,
                buf.height == h,
                forall|k: int|
                    0 <= k < orig.len() ==> #[trigger] buf.pixels@[k] == (
                    if fills(a, b, c, k % wi, k / wi) && (y_lo <= k / wi < y || (k / wi == y
                        && x_lo <= k % wi < x)) {
                        color
                    } else {
                        orig[k]
                    }),
            decreases x_hi + 1 - x,
        {
            let inside: bool = if area > 0 {
                e_ab >= 0 && e_bc >= 0 && e_ca >= 0
            } else {
                e_ab <= 0 && e_bc <= 0 && e_ca <= 0
            };
            if inside {
                assert(fills(a, b, c, x as int, y as int));
                let ghost before: Seq<Color> = buf.pixels@;
                let ghost idx: int = (y as int) * wi + (x as int);
                buf.set(x as usize, y as usize, color);
                assert(buf.pixels@ == before.update(idx, color));
                assert forall|k: int| 0 <= k < orig.len() implies #[trigger] buf.pixels@[k]
                    == (
                if fills(a, b, c, k % wi, k / wi) && (y_lo <= k / wi < y || (k / wi == y
                    && x_lo <= k % wi < x + 1)) {
                    color
                } else {
                    orig[k]
                }) by {
                    lemma_coords_flat(x as int, y as int, wi);
                    lemma_flat_coords(k, wi, h as int);
                    crate::buffer::lemma_index_bound(x as int, y as int, wi, h as int);
                    if k == idx {
                        assert(k % wi == x as int);
                        assert(k / wi == y as int);
                        assert(buf.pixels@[k] == color);
                    } else {
                        assert(before.update(idx, color)[k] == before[k]);
                        assert(buf.pixels@[k] == before[k]);
                        assert(!(k / wi == y && k % wi == x));
                    }
                }
            } else {
                assert(!fills(a, b, c, x as int, y as int));
                assert forall|k: int| 0 <= k < orig.len() implies #[trigger] buf.pixels@[k]
                    == (
                if fills(a, b, c, k % wi, k / wi) && (y_lo <= k / wi < y || (k / wi == y
                    && x_lo <= k % wi < x + 1)) {
                    color
                } else {
                    orig[k]
                }) by {
                    lemma_coords_flat(x as int, y as int, wi);
                    lemma_flat_coords(k, wi, h as int);
                }
            }
            proof {
                lemma_edge_step_x(a, b, x as int, y as int);
                lemma_edge_step_x(b, c, x as int, y as int);
                lemma_edge_step_x(c, a, x as int, y as int);
                lemma_edge_bound(a, b, x as int, y as int);
                lemma_edge_bound(b, c, x as int, y as int);
                lemma_edge_bound(c, a, x as int, y as int);
            }
            e_ab = e_ab + dab_x;
            e_bc = e_bc + dbc_x;
            e_ca = e_ca + dca_x;
            x = x + 1;
        }
        assert forall|k: int| 0 <= k < orig.len() implies #[trigger] buf.pixels@[k] == (
        if fills(a, b, c, k % wi, k / wi) && y_lo <= k / wi < y + 1 {
            color
        } else {
            orig[k]
        }) by {
            lemma_flat_coords(k, wi, h as int);
            if fills(a, b, c, k % wi, k / wi) && k / wi == y {
                lemma_fills_in_bbox(a, b, c, k % wi, k / wi);
            }
        }
        proof {
            lemma_edge_step_y(a, b, x_lo as int, y as int);
            lemma_edge_step_y(b, c, x_lo as int, y as int);
            lemma_edge_step_y(c, a, x_lo as int, y as int);
            lemma_edge_bound(a, b, x_lo as int, y as int);
            lemma_edge_bound(b, c, x_lo as int, y as int);
            lemma_edge_bound(c, a, x_lo as int, y as int);
        }
        e_ab_row = e_ab_row + dab_y;
        e_bc_row = e_bc_row + dbc_y;
        e_ca_row = e_ca_row + dca_y;
        y = y + 1;
    }
    assert forall|x2: int, y2: int|
        0 <= x2 < w && 0 <= y2 < h implies buf.at(x2, y2) == (
    if #[trigger] fills(a, b, c, x2, y2) {
        color
    } else {
        orig[y2 * wi + x2]
    }) by {
        lemma_coords_flat(x2, y2, wi);
        crate::buffer::lemma_index_bound(x2, y2, wi, h as int);
        assert(buf.pixels@[y2 * wi + x2] == (
        if fills(a, b, c, (y2 * wi + x2) % wi, (y2 * wi + x2) / wi) && y_lo <= (y2 * wi
            + x2) / wi < y {
            color
        } else {
            orig[y2 * wi + x2]
        }));
        if fills(a, b, c, x2, y2) {
            lemma_fills_in_bbox(a, b, c, x2, y2);
        }
    }
}

/// The x coordinate of a point, widened for edge-function evaluation.
fn x_of(p: Point) -> (r: i64)
    ensures
        r as int == p.x as int,
{
    p.x as i64
}

/// The y coordinate of a point, widened for edge-function evaluation.
fn y_of(p: Point) -> (r: i64)
    ensures
        r as int == p.y as int,
{
    p.y as i64
}

/// The query point and `(x2, y2)` lie strictly on the same side of the line
/// through `p` and `q`.
pub open spec fn same_side_strict(p: Point, q: Point, x1: int, y1: int, x2: int, y2: int) -> bool {
    ||| (edge_fn(p, q, x1, y1) > 0 && edge_fn(p, q, x2, y2) > 0)
    ||| (edge_fn(p, q, x1, y1) < 0 && edge_fn(p, q, x2, y2) < 0)
}

/// The classical same-side reference test for a point strictly inside a
/// triangle: for each edge, the point lies strictly on the same side as the
/// opposite vertex.
pub open spec fn strictly_inside(a: Point, b: Point, c: Point, x: int, y: int) -> bool {
    &&& same_side_strict(a, b, x, y, c.x as int, c.y as int)
    &&& same_side_strict(b, c, x, y, a.x as int, a.y as int)
    &&& same_side_strict(c, a, x, y, b.x as int, b.y as int)
}

/// The same-side reference test for a point strictly outside a triangle:
/// for some edge, the point lies strictly on the opposite side from the
/// opposite vertex.
pub open spec fn strictly_outside(a: Point, b: Point, c: Point, x: int, y: int) -> bool {
    ||| (edge_fn(a, b, x, y) > 0 && tri_area2(a, b, c) < 0)
    ||| (edge_fn(a, b, x, y) < 0 && tri_area2(a, b, c) > 0)
    ||| (edge_fn(b, c, x, y) > 0 && edge_fn(b, c, a.x as int, a.y as int) < 0)
    ||| (edge_fn(b, c, x, y) < 0 && edge_fn(b, c, a.x as int, a.y as int) > 0)
    ||| (edge_fn(c, a, x, y) > 0 && edge_fn(c, a, b.x as int, b.y as int) < 0)
    ||| (edge_fn(c, a, x, y) < 0 && edge_fn(c, a, b.x as int, b.y as int) > 0)
}

/// Each edge function evaluated at the opposite vertex equals the signed
/// area; by definition it already does for the edge `a -> b` at `c`.
proof fn lemma_cyclic_area(a: Point, b: Point, c: Point)
    ensures
        edge_fn(b, c, a.x as int, a.y as int) == tri_area2(a, b, c),
        edge_fn(c, a, b.x as int, b.y as int) == tri_area2(a, b, c),
{
    lemma_bary_identities(a, b, c, a.x as int, a.y as int);
    lemma_bary_identities(a, b, c, b.x as int, b.y as int);
}

/// Every pixel strictly inside a triangle — by the independent same-side
/// reference test — is claimed by the fill rule.
pub proof fn lemma_strictly_inside_filled(a: Point, b: Point, c: Point, x: int, y: int)
    requires
        strictly_inside(a, b, c, x, y),
    ensures
        fills(a, b, c, x, y),
{
    lemma_cyclic_area(a, b, c);
}

/// No pixel strictly outside a triangle — by the independent same-side
/// reference test — is claimed by the fill rule.
pub proof fn lemma_strictly_outside_not_filled(a: Point, b: Point, c: Point, x: int, y: int)
    requires
        strictly_outside(a, b, c, x, y),
    ensures
        !fills(a, b, c, x, y),
{
    lemma_cyclic_area(a, b, c);
}

} // verus!
