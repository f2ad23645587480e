//! The edge-density field: for each interior pixel, the mean gradient
//! magnitude over its full 3x3 neighborhood. Magnitudes are fixed-point
//! values (`DENSITY_SCALE` units per 1.0 of normalized magnitude).

use vstd::prelude::*;
use crate::MAX_DIM;
use crate::buffer::lemma_index_bound;

verus! {

/// A grid of gradient magnitudes at integer pixel positions, row-major:
/// the magnitude at column `x`, row `y` sits at index `y * width + x`.
pub struct GradientGrid {
    pub width: usize,
    pub height: usize,
    pub mags: Vec<u32>,
}

impl GradientGrid {
    pub open spec fn wf(&self) -> bool {
        &&& self.mags@.len() == self.width * self.height
        &&& self.width <= MAX_DIM
        &&& self.height <= MAX_DIM
    }

    pub open spec fn mag_at(&self, x: int, y: int) -> int {
        self.mags@[y * self.width + x] as int
    }

    /// Read the magnitude at `(x, y)`.
    pub fn get(&self, x: usize, y: usize) -> (m: u32)
        requires
            self.wf(),
            x < self.width,
            y < self.height,
        ensures
            m as int == self.mag_at(x as int, y as int),
    {
        proof {
            lemma_index_bound(x as int, y as int, self.width as int, self.height as int);
        }
        self.mags[y * self.width + x]
    }
}

/// The per-interior-pixel density grid, column-major in scan order: the
/// density of interior pixel `(i + 1, j + 1)` of the source sits at index
/// `i * height + j`.
pub struct DensityField {
    pub width: usize,
    pub height: usize,
    pub values: Vec<u32>,
}

impl DensityField {
    pub open spec fn wf(&self) -> bool {
        &&& self.values@.len() == self.width * self.height
        &&& self.width <= MAX_DIM
        &&& self.height <= MAX_DIM
    }

    pub open spec fn at(&self, i: int, j: int) -> int {
        self.values@[i * self.height + j] as int
    }

    /// Read the density of cell `(i, j)`, which stands for source pixel
    /// `(i + 1, j + 1)`.
    pub fn get(&self, i: usize, j: usize) -> (d: u32)
        requires
            self.wf(),
            i < self.width,
            j < self.height,
        ensures
            d as int == self.at(i as int, j as int),
    {
        proof {
            lemma_index_bound(j as int, i as int, self.height as int, self.width as int);
        }
        self.values[i * self.height + j]
    }
}

/// Sum of the nine magnitudes in the 3x3 neighborhood centered on `(x, y)`.
pub open spec fn spec_neighborhood_sum(g: &GradientGrid, x: int, y: int) -> int {
    g.mag_at(x - 1, y - 1) + g.mag_at(x, y - 1) + g.mag_at(x + 1, y - 1) + g.mag_at(x - 1, y)
        + g.mag_at(x, y) + g.mag_at(x + 1, y) + g.mag_at(x - 1, y + 1) + g.mag_at(x, y + 1)
        + g.mag_at(x + 1, y + 1)
}

/// The density at pixel `(x, y)`: the mean of the 3x3 neighborhood.
pub open spec fn spec_density(g: &GradientGrid, x: int, y: int) -> int {
    spec_neighborhood_sum(g, x, y) / 9
}

/// Compute the density field of a gradient grid: one value per interior
/// pixel (a one-pixel margin is excluded on all sides, since each cell needs
/// a full 3x3 neighborhood), each the mean magnitude over that neighborhood.
/// A grid narrower or shorter than three pixels yields an empty field.
#[verifier::loop_isolation(false)]
pub fn calculate_density(g: &GradientGrid) -> (d: DensityField)
    requires
        g.wf(),
    ensures
        d.wf(),
        d.width == if g.width >= 3 { (g.width - 2) as int } else { 0int },
        d.height == if g.height >= 3 { (g.height - 2) as int } else { 0int },
        forall|i: int, j: int|
            0 <= i < d.width && 0 <= j < d.height ==> d.at(i, j) == spec_density(g, i + 1, j + 1),
{
    let fw: usize = if g.width >= 3 { g.width - 2 } else { 0 };
    let fh: usize = if g.height >= 3 { g.height - 2 } else { 0 };
    let ghost fhi: int = fh as int;
    let mut values: Vec<u32> = Vec::new();
    let mut i: usize = 0;
    while i < fw
        invariant
            i <= fw,
            values@.len() == i * fh,
            forall|k: int|
                0 <= k < values@.len() ==> #[trigger] values@[k] as int == spec_density(
                    g, k / fhi + 1, k % fhi + 1,
                ),
        decreases fw - i,
    {
        let mut j: usize = 0;
        while j < fh
            invariant
                j <= fh,
                values@.len() == i * fh + j,
                forall|k: int|
                    0 <= k < values@.len() ==> #[trigger] values@[k] as int == spec_density(
                        g, k / fhi + 1, k % fhi + 1,
                    ),
            decreases fh - j,
        {
            let mut sum: u64 = 0;
            sum = sum + g.get(i, j) as u64 + g.get(i + 1, j) as u64 + g.get(i + 2, j) as u64;
            sum = sum + g.get(i, j + 1) as u64 + g.get(i + 1, j + 1) as u64 + g.get(
                i + 2, j + 1,
            ) as u64;
            sum = sum + g.get(i, j + 2) as u64 + g.get(i + 1, j + 2) as u64 + g.get(
                i + 2, j + 2,
            ) as u64;
            assert(sum as int == spec_neighborhood_sum(g, i as int + 1, j as int + 1));
            let dens: u32 = (sum / 9) as u32;
            assert(dens as int == spec_density(g, i as int + 1, j as int + 1));
            values.push(dens);
            proof {
                crate::raster::lemma_coords_flat(j as int, i as int, fhi);
                lemma_index_bound(j as int, i as int, fhi, fw as int);
            }
            j = j + 1;
        }
        assert((i + 1) * fh == i * fh + fh) by (nonlinear_arith);
        i = i + 1;
    }
    let d = DensityField { width: fw, height: fh, values };
    assert forall|i2: int, j2: int|
        0 <= i2 < d.width && 0 <= j2 < d.height implies d.at(i2, j2) == spec_density(
        g, i2 + 1, j2 + 1,
    ) by {
        crate::raster::lemma_coords_flat(j2, i2, fhi);
        lemma_index_bound(j2, i2, fhi, fw as int);
        vstd::arithmetic::mul::lemma_mul_is_commutative(fw as int, fh as int);
    }
    d
}

} // verus!
