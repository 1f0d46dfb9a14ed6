//! A plain RGBA raster: the in-memory image that rendering and
//! compositing produce.  Pixels are stored row-major, top to bottom and
//! left to right, exactly `width * height` of them.

use crate::palette::Rgba;
use crate::palette::spec_transparent;
use vstd::prelude::*;

verus! {

/// A width x height grid of [`Rgba`] pixels, row-major.
#[derive(Debug)]
pub struct Raster {
    pub width: usize,
    pub height: usize,
    pub pixels: Vec<Rgba>,
}

impl Raster {
    /// A raster is well formed when it holds exactly one pixel per cell.
    pub open spec fn wf(&self) -> bool {
        self.pixels@.len() == self.width * self.height
    }

    /// The flat index of pixel `(x, y)`.
    pub open spec fn spec_index(&self, x: int, y: int) -> int {
        y * self.width + x
    }

    /// The pixel at `(x, y)`.
    pub open spec fn spec_pixel(&self, x: int, y: int) -> Rgba {
        self.pixels@[self.spec_index(x, y)]
    }

    /// A fully transparent canvas of the given size.
    pub fn new(width: usize, height: usize) -> (r: Raster)
        requires
            width * height <= usize::MAX,
        ensures
            r.wf(),
            r.width == width,
            r.height == height,
            forall|k: int| 0 <= k < r.pixels@.len() ==> r.pixels@[k] == spec_transparent(),
    {
        let count = width * height;
        let mut pixels: Vec<Rgba> = Vec::new();
        let mut k: usize = 0;
        while k < count
            invariant
                k <= count,
                pixels@.len() == k,
                forall|j: int| 0 <= j < k ==> pixels@[j] == spec_transparent(),
            decreases count - k,
        {
            pixels.push(Rgba::transparent());
            k = k + 1;
        }
        Raster { width, height, pixels }
    }

    pub fn get_pixel(&self, x: usize, y: usize) -> (p: Rgba)
        requires
            self.wf(),
            x < self.width,
            y < self.height,
        ensures
            p == self.spec_pixel(x as int, y as int),
    {
        let n = self.pixels.len();
        proof {
            lemma_row_major_index(self.width as int, self.height as int, x as int, y as int);
            assert(y * self.width + x < n);
        }
        self.pixels[y * self.width + x]
    }

    pub fn put_pixel(&mut self, x: usize, y: usize, p: Rgba)
        requires
            old(self).wf(),
            x < old(self).width,
            y < old(self).height,
        ensures
            final(self).wf(),
            final(self).width == old(self).width,
            final(self).height == old(self).height,
            final(self).pixels@ == old(self).pixels@.update(
                old(self).spec_index(x as int, y as int),
                p,
            ),
    {
        let n = self.pixels.len();
        proof {
            lemma_row_major_index(self.width as int, self.height as int, x as int, y as int);
            assert(y * self.width + x < n);
        }
        let i = y * self.width + x;
        self.pixels[i] = p;
    }
}

/// A row-major index is in bounds: `y * w + x < w * h` whenever `x < w` and
/// `y < h`.
pub proof fn lemma_row_major_index(w: int, h: int, x: int, y: int)
    requires
        0 <= x < w,
        0 <= y < h,
    ensures
        0 <= y * w + x < w * h,
{
    assert(y * w + x < w * h) by (nonlinear_arith)
        requires
            0 <= x < w,
            0 <= y < h,
    ;
    assert(y * w >= 0) by (nonlinear_arith)
        requires
            y >= 0,
            w > 0,
    ;
}

} // verus!
