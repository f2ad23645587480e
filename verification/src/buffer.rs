//! The 2D color grid used both for the decoded source image and for the
//! output buffer that the rasterizer paints, stored row-major.

use vstd::prelude::*;
use crate::MAX_DIM;

verus! {

/// An RGB color; immutable once sampled, assigned to exactly one triangle.
#[derive(Clone, Copy, PartialEq, Eq, Structural, Debug)]
pub struct Color {
    pub r: u8,
    pub g: u8,
    pub b: u8,
}

/// A mutable 2D grid of `Color`, row-major: the pixel at column `x`, row `y`
/// sits at index `y * width + x`.
pub struct PixelBuffer {
    pub width: usize,
    pub height: usize,
    pub pixels: Vec<Color>,
}

/// Bounds under which a row-major index stays inside the grid.
pub proof fn lemma_index_bound(x: int, y: int, w: int, h: int)
    by (nonlinear_arith)
    requires
        0 <= x < w,
        0 <= y < h,
        w <= MAX_DIM as int,
        h <= MAX_DIM as int,
    ensures
        0 <= y * w + x < w * h,
        w * h <= (MAX_DIM as int) * (MAX_DIM as int),
{
}

impl PixelBuffer {
    /// A buffer is well formed when it holds exactly one color per pixel and
    /// its dimensions are non-degenerate and within the supported range.
    pub open spec fn wf(&self) -> bool {
        &&& self.pixels@.len() == self.width * self.height
        &&& 1 <= self.width <= MAX_DIM
        &&& 1 <= self.height <= MAX_DIM
    }

    /// The color of the pixel at column `x`, row `y`.
    pub open spec fn at(&self, x: int, y: int) -> Color {
        self.pixels@[y * self.width + x]
    }

    /// A fresh buffer of the given dimensions with every pixel set to
    /// `background`.
    pub fn new_filled(width: usize, height: usize, background: Color) -> (buf: PixelBuffer)
        requires
            1 <= width <= MAX_DIM,
            1 <= height <= MAX_DIM,
        ensures
            buf.wf(),
            buf.width == width,
            buf.height == height,
            forall|k: int| 0 <= k < buf.pixels@.len() ==> buf.pixels@[k] == background,
    {
        proof {
            lemma_index_bound(0, 0, width as int, height as int);
        }
        let total: usize = width * height;
        let mut pixels: Vec<Color> = Vec::new();
        let mut k: usize = 0;
        while k < total
            invariant
                k <= total,
                pixels@.len() == k,
                forall|i: int| 0 <= i < k ==> pixels@[i] == background,
            decreases total - k,
        {
            pixels.push(background);
            k = k + 1;
        }
        PixelBuffer { width, height, pixels }
    }

    /// Read the pixel at `(x, y)`.
    pub fn get(&self, x: usize, y: usize) -> (c: Color)
        requires
            self.wf(),
            x < self.width,
            y < self.height,
        ensures
            c == self.at(x as int, y as int),
    {
        proof {
            lemma_index_bound(x as int, y as int, self.width as int, self.height as int);
        }
        self.pixels[y * self.width + x]
    }

    /// Overwrite the pixel at `(x, y)`, leaving every other pixel as it was.
    pub fn set(&mut self, x: usize, y: usize, c: Color)
        requires
            old(self).wf(),
            x < old(self).width,
            y < old(self).height,
        ensures
            final(self).wf(),
            final(self).width == old(self).width,
            final(self).height == old(self).height,
            final(self).pixels@ == old(self).pixels@.update(
                y as int * old(self).width as int + x as int,
                c,
            ),
    {
        proof {
            lemma_index_bound(x as int, y as int, self.width as int, self.height as int);
        }
        let idx: usize = y * self.width + x;
        self.pixels[idx] = c;
    }
}

} // verus!
