//! Candidate selection: threshold the density field in scan order, draw a
//! capped random subset, then append the deterministic boundary points
//! (corners plus evenly spaced edge subdivisions) so the convex hull of the
//! final point set is the full image rectangle.

use vstd::prelude::*;
use crate::{Point, BORDER_SEGMENTS, EDGE_THRESHOLD, MAX_DIM, MAX_POINTS, SAMPLE_RATE_DIVISOR};
use crate::density::DensityField;
use crate::randsrc::gen_below;
use crate::raster::{lemma_coords_flat, lemma_flat_coords, lemma_mul_bound};

verus! {

/// The candidate points among the first `k` density cells in scan order
/// (column-major: cell `(a, b)` is step `a * height + b`): every cell whose
/// density strictly exceeds `thr`, as the pixel position `(a + 1, b + 1)`.
pub open spec fn cand_seq(f: &DensityField, thr: int, k: int) -> Seq<Point>
    decreases k,
{
    if k <= 0 {
        Seq::empty()
    } else {
        let a = (k - 1) / f.height as int;
        let b = (k - 1) % f.height as int;
        let rest = cand_seq(f, thr, k - 1);
        if f.at(a, b) > thr {
            rest.push(Point { x: (a + 1) as i32, y: (b + 1) as i32 })
        } else {
            rest
        }
    }
}

/// Every candidate is an interior pixel position of the source image, and
/// there are no more candidates than cells.
pub proof fn lemma_cand_seq_bounds(f: &DensityField, thr: int, k: int)
    requires
        f.wf(),
        0 <= k <= f.width * f.height,
    ensures
        cand_seq(f, thr, k).len() <= k,
        forall|i: int|
            0 <= i < cand_seq(f, thr, k).len() ==> {
                &&& 1 <= (#[trigger] cand_seq(f, thr, k)[i]).x <= f.width
                &&& 1 <= cand_seq(f, thr, k)[i].y <= f.height
            },
    decreases k,
{
    if k > 0 {
        lemma_cand_seq_bounds(f, thr, k - 1);
        vstd::arithmetic::mul::lemma_mul_is_commutative(f.width as int, f.height as int);
        lemma_flat_coords(k - 1, f.height as int, f.width as int);
    }
}

/// Collect the candidate points of a density field in scan order: a cell
/// becomes a candidate iff its density strictly exceeds the threshold.
#[verifier::loop_isolation(false)]
pub fn collect_candidates(f: &DensityField, threshold: u32) -> (r: Vec<Point>)
    requires
        f.wf(),
    ensures
        r@ == cand_seq(f, threshold as int, (f.width * f.height) as int),
{
    let fw: usize = f.width;
    let fh: usize = f.height;
    let ghost fhi: int = fh as int;
    let mut r: Vec<Point> = Vec::new();
    let mut i: usize = 0;
    if fh == 0 {
        assert(r@ =~= cand_seq(f, threshold as int, (f.width * f.height) as int)) by {
            vstd::arithmetic::mul::lemma_mul_basics(f.width as int);
        };
        return r;
    }
    while i < fw
        invariant
            i <= fw,
            fh >= 1,
            r@ == cand_seq(f, threshold as int, (i * fh) as int),
        decreases fw - i,
    {
        let mut j: usize = 0;
        while j < fh
            invariant
                j <= fh,
                i < fw,
                r@ == cand_seq(f, threshold as int, (i * fh + j) as int),
            decreases fh - j,
        {
            proof {
                lemma_coords_flat(j as int, i as int, fhi);
                lemma_mul_bound(i as int, fhi, MAX_DIM as int, MAX_DIM as int);
            }
            if f.get(i, j) > threshold {
                r.push(Point { x: (i + 1) as i32, y: (j + 1) as i32 });
            }
            j = j + 1;
        }
        assert((i + 1) * fh == i * fh + fh) by (nonlinear_arith);
        i = i + 1;
    }
    r
}

/// Draw `n` points from the candidates without replacement (all of them if
/// fewer exist): each draw removes a uniformly chosen remaining candidate.
/// Every drawn point is one of the candidates, and the count is exact; which
/// points are drawn depends on the random source.
#[verifier::loop_isolation(false)]
pub fn sample_points(cands: Vec<Point>, n: usize, rng: &mut rand::rngs::StdRng) -> (r: Vec<Point>)
    ensures
        r@.len() == if n <= cands@.len() {
            n as int
        } else {
            cands@.len() as int
        },
        forall|i: int| 0 <= i < r@.len() ==> cands@.contains(#[trigger] r@[i]),
{
    let total: usize = cands.len();
    let take_n: usize = if n <= total {
        n
    } else {
        total
    };
    let ghost cands0: Seq<Point> = cands@;
    let mut v = cands;
    let mut out: Vec<Point> = Vec::new();
    while out.len() < take_n
        invariant
            out@.len() + v@.len() == total,
            out@.len() <= take_n,
            forall|i: int| 0 <= i < v@.len() ==> cands0.contains(#[trigger] v@[i]),
            forall|i: int| 0 <= i < out@.len() ==> cands0.contains(#[trigger] out@[i]),
        decreases take_n - out@.len(),
    {
        let j: usize = gen_below(rng, v.len());
        let ghost vold: Seq<Point> = v@;
        let p: Point = v.swap_remove(j);
        assert forall|i: int| 0 <= i < v@.len() implies cands0.contains(#[trigger] v@[i]) by {
            if i == j {
                assert(v@[i] == vold[vold.len() - 1]);
                assert(cands0.contains(vold[vold.len() - 1]));
            } else {
                assert(v@[i] == vold[i]);
                assert(cands0.contains(vold[i]));
            }
        }
        assert(cands0.contains(vold[j as int]));
        out.push(p);
    }
    out
}

/// The rounded position of subdivision `k` along an edge of length `len`:
/// `k * len / BORDER_SEGMENTS`, rounded half up.
pub open spec fn round_frac(k: int, len: int) -> int {
    (2 * k * len + BORDER_SEGMENTS as int) / (2 * BORDER_SEGMENTS as int)
}

/// The deterministic boundary points of a `w` by `h` image: the four exact
/// corners first, then for each subdivision step one rounded point on each
/// of the four edges. Their convex hull is the full image rectangle.
#[verifier::loop_isolation(false)]
pub fn boundary_points(w: usize, h: usize) -> (r: Vec<Point>)
    requires
        1 <= w <= MAX_DIM,
        1 <= h <= MAX_DIM,
    ensures
        r@.len() == 4 + 4 * (BORDER_SEGMENTS - 1),
        r@[0] == (Point { x: 0, y: 0 }),
        r@[1] == (Point { x: (w - 1) as i32, y: 0 }),
        r@[2] == (Point { x: 0, y: (h - 1) as i32 }),
        r@[3] == (Point { x: (w - 1) as i32, y: (h - 1) as i32 }),
        forall|k: int|
            #![trigger round_frac(k, w - 1)]
            1 <= k < BORDER_SEGMENTS ==> {
                &&& r@[4 * k] == (Point { x: round_frac(k, w - 1) as i32, y: 0 })
                &&& r@[4 * k + 1] == (Point {
                    x: round_frac(k, w - 1) as i32,
                    y: (h - 1) as i32,
                })
                &&& r@[4 * k + 2] == (Point { x: 0, y: round_frac(k, h - 1) as i32 })
                &&& r@[4 * k + 3] == (Point {
                    x: (w - 1) as i32,
                    y: round_frac(k, h - 1) as i32,
                })
            },
        forall|i: int|
            0 <= i < r@.len() ==> {
                &&& 0 <= (#[trigger] r@[i]).x <= w - 1
                &&& 0 <= r@[i].y <= h - 1
            },
{
    let mut r: Vec<Point> = Vec::new();
    r.push(Point { x: 0, y: 0 });
    r.push(Point { x: (w - 1) as i32, y: 0 });
    r.push(Point { x: 0, y: (h - 1) as i32 });
    r.push(Point { x: (w - 1) as i32, y: (h - 1) as i32 });
    let mut k: usize = 1;
    while k < BORDER_SEGMENTS
        invariant
            1 <= k <= BORDER_SEGMENTS,
            r@.len() == 4 * k,
            r@[0] == (Point { x: 0, y: 0 }),
            r@[1] == (Point { x: (w - 1) as i32, y: 0 }),
            r@[2] == (Point { x: 0, y: (h - 1) as i32 }),
            r@[3] == (Point { x: (w - 1) as i32, y: (h - 1) as i32 }),
            forall|k2: int|
                #![trigger round_frac(k2, w - 1)]
                1 <= k2 < k ==> {
                    &&& r@[4 * k2] == (Point { x: round_frac(k2, w - 1) as i32, y: 0 })
                    &&& r@[4 * k2 + 1] == (Point {
                        x: round_frac(k2, w - 1) as i32,
                        y: (h - 1) as i32,
                    })
                    &&& r@[4 * k2 + 2] == (Point { x: 0, y: round_frac(k2, h - 1) as i32 })
                    &&& r@[4 * k2 + 3] == (Point {
                        x: (w - 1) as i32,
                        y: round_frac(k2, h - 1) as i32,
                    })
                },
            forall|i: int|
                0 <= i < r@.len() ==> {
                    &&& 0 <= (#[trigger] r@[i]).x <= w - 1
                    &&& 0 <= r@[i].y <= h - 1
                },
        decreases BORDER_SEGMENTS - k,
    {
        let ex: usize = edge_offset(k, w - 1);
        let ey: usize = edge_offset(k, h - 1);
        r.push(Point { x: ex as i32, y: 0 });
        r.push(Point { x: ex as i32, y: (h - 1) as i32 });
        r.push(Point { x: 0, y: ey as i32 });
        r.push(Point { x: (w - 1) as i32, y: ey as i32 });
        k = k + 1;
    }
    r
}

/// The rounded interpolated offset of subdivision `k` along an edge of
/// length `len`.
fn edge_offset(k: usize, len: usize) -> (r: usize)
    requires
        1 <= k < BORDER_SEGMENTS,
        len <= MAX_DIM,
    ensures
        r as int == round_frac(k as int, len as int),
        r <= len,
{
    proof {
        lemma_mul_bound(2 * k as int, len as int, 24, MAX_DIM as int);
    }
    let num: usize = 2 * k * len + BORDER_SEGMENTS;
    let q: usize = num / (2 * BORDER_SEGMENTS);
    assert(q as int == round_frac(k as int, len as int));
    assert(num < 24 * (len + 1)) by (nonlinear_arith)
        requires
            num == 2 * k * len + BORDER_SEGMENTS,
            k < BORDER_SEGMENTS,
            BORDER_SEGMENTS == 12,
    ;
    assert(q <= len) by (nonlinear_arith)
        requires
            q == num as int / 24,
            num < 24 * (len + 1),
            0 <= num,
    ;
    q
}

/// The desired interior sample size for a `w` by `h` image: a tenth of the
/// pixel count, capped at `MAX_POINTS`.
pub open spec fn desired_samples(w: int, h: int) -> int {
    let by_rate = (w * h) / SAMPLE_RATE_DIVISOR as int;
    if MAX_POINTS as int <= by_rate {
        MAX_POINTS as int
    } else {
        by_rate
    }
}

/// How many interior points selection yields: the desired sample size, or
/// every candidate if there are fewer.
pub open spec fn spec_interior_count(f: &DensityField, w: int, h: int) -> int {
    let cands = cand_seq(f, EDGE_THRESHOLD as int, f.width * f.height);
    if desired_samples(w, h) <= cands.len() {
        desired_samples(w, h)
    } else {
        cands.len() as int
    }
}

/// Build the full sampled point set for an image of dimensions `w` by `h`
/// from its density field: a capped random subset of the threshold
/// candidates, followed by the four exact corners and the rounded edge
/// subdivision points. The boundary suffix is deterministic; only the
/// interior prefix depends on the random source.
pub fn select_points(f: &DensityField, w: usize, h: usize, rng: &mut rand::rngs::StdRng) -> (r:
    Vec<Point>)
    requires
        f.wf(),
        1 <= w <= MAX_DIM,
        1 <= h <= MAX_DIM,
    ensures
        r@.len() == spec_interior_count(f, w as int, h as int) + 4 + 4 * (BORDER_SEGMENTS - 1),
        r@.contains(Point { x: 0, y: 0 }),
        r@.contains(Point { x: (w - 1) as i32, y: 0 }),
        r@.contains(Point { x: 0, y: (h - 1) as i32 }),
        r@.contains(Point { x: (w - 1) as i32, y: (h - 1) as i32 }),
        forall|i: int|
            0 <= i < spec_interior_count(f, w as int, h as int) ==> cand_seq(
                f, EDGE_THRESHOLD as int, f.width * f.height,
            ).contains(#[trigger] r@[i]),
        forall|i: int| 0 <= i < r@.len() ==> crate::raster::coord_ok(#[trigger] r@[i]),
{
    proof {
        lemma_mul_bound(w as int, h as int, MAX_DIM as int, MAX_DIM as int);
    }
    let size: u64 = (w as u64) * (h as u64);
    let by_rate: u64 = size / SAMPLE_RATE_DIVISOR;
    let ncap: usize = if (MAX_POINTS as u64) <= by_rate {
        MAX_POINTS
    } else {
        by_rate as usize
    };
    let cands = collect_candidates(f, EDGE_THRESHOLD);
    proof {
        lemma_cand_seq_bounds(f, EDGE_THRESHOLD as int, (f.width * f.height) as int);
    }
    let mut r = sample_points(cands, ncap, rng);
    let ghost sampled: Seq<Point> = r@;
    let mut b = boundary_points(w, h);
    let ghost bseq: Seq<Point> = b@;
    r.append(&mut b);
    assert(r@ == sampled + bseq);
    let ghost slen: int = sampled.len() as int;
    assert(r@[slen + 0] == (Point { x: 0, y: 0 }));
    assert(r@[slen + 1] == (Point { x: (w - 1) as i32, y: 0 }));
    assert(r@[slen + 2] == (Point { x: 0, y: (h - 1) as i32 }));
    assert(r@[slen + 3] == (Point { x: (w - 1) as i32, y: (h - 1) as i32 }));
    assert forall|i: int| 0 <= i < r@.len() implies crate::raster::coord_ok(
        #[trigger] r@[i],
    ) by {
        if i < slen {
            assert(cand_seq(f, EDGE_THRESHOLD as int, f.width * f.height).contains(sampled[i]));
        } else {
            assert(r@[i] == bseq[i - slen]);
        }
    }
    r
}

} // verus!
