//! The output image: a `pixel_width x pixel_height` grid of colors, stored
//! row-major and written one cell at a time while the grid is evaluated.

use vstd::prelude::*;
use crate::color::{gray_spec, PixelColor};

verus! {

/// A pixel buffer of fixed dimensions. Each cell holds one color; the
/// evaluator fills the buffer cell by cell and then hands it, complete, to
/// the encoder.
#[derive(Debug)]
pub struct Raster {
    width: u32,
    height: u32,
    pixels: Vec<PixelColor>,
}

impl Raster {
    /// The buffer holds exactly one cell per pixel coordinate (so the grid
    /// fits in memory).
    pub closed spec fn wf(self) -> bool {
        self.pixels@.len() == self.width as int * self.height as int
            && self.width as int * self.height as int <= usize::MAX as int
    }

    pub closed spec fn spec_width(self) -> u32 {
        self.width
    }

    pub closed spec fn spec_height(self) -> u32 {
        self.height
    }

    /// The color stored for the cell `(x, y)`.
    pub closed spec fn at(self, x: int, y: int) -> PixelColor {
        self.pixels@[y * self.width as int + x]
    }

    /// A fresh all-black buffer of the given dimensions.
    pub fn new(width: u32, height: u32) -> (r: Raster)
        requires
            width as int * height as int <= usize::MAX as int,
        ensures
            r.wf(),
            r.spec_width() == width,
            r.spec_height() == height,
            forall|x: int, y: int|
                0 <= x < width && 0 <= y < height ==> r.at(x, y) == gray_spec(0),
    {
        let total: usize = (width as u64 * height as u64) as usize;
        let mut pixels: Vec<PixelColor> = Vec::new();
        let mut i: usize = 0;
        while i < total
            invariant
                i <= total,
                pixels@.len() == i,
                forall|k: int| 0 <= k < i ==> pixels@[k] == gray_spec(0),
            decreases total - i,
        {
            pixels.push(PixelColor { r: 0, g: 0, b: 0 });
            i = i + 1;
        }
        proof {
            lemma_cell_index_bounds(width as int, height as int);
        }
        Raster { width, height, pixels }
    }

    pub fn width(&self) -> (w: u32)
        ensures
            w == self.spec_width(),
    {
        self.width
    }

    pub fn height(&self) -> (h: u32)
        ensures
            h == self.spec_height(),
    {
        self.height
    }

    /// Writes the color of one cell; every other cell keeps its color.
    pub fn put(&mut self, x: u32, y: u32, c: PixelColor)
        requires
            old(self).wf(),
            x < old(self).spec_width(),
            y < old(self).spec_height(),
        ensures
            final(self).wf(),
            final(self).spec_width() == old(self).spec_width(),
            final(self).spec_height() == old(self).spec_height(),
            final(self).at(x as int, y as int) == c,
            forall|i: int, j: int|
                0 <= i < old(self).spec_width() && 0 <= j < old(self).spec_height() && !(i == x
                    && j == y) ==> final(self).at(i, j) == old(self).at(i, j),
    {
        proof {
            lemma_cell_index_bounds(self.width as int, self.height as int);
            let yw = y as int * self.width as int + x as int;
            assert(0 <= yw && yw < self.width as int * self.height as int);
        }
        let idx: usize = (y as u64 * self.width as u64 + x as u64) as usize;
        self.pixels[idx] = c;
        proof {
            lemma_cell_index_distinct(self.width as int, self.height as int, x as int, y as int);
        }
    }

    /// Reads the color of one cell.
    pub fn get(&self, x: u32, y: u32) -> (c: PixelColor)
        requires
            self.wf(),
            x < self.spec_width(),
            y < self.spec_height(),
        ensures
            c == self.at(x as int, y as int),
    {
        proof {
            lemma_cell_index_bounds(self.width as int, self.height as int);
            let yw = y as int * self.width as int + x as int;
            assert(0 <= yw && yw < self.width as int * self.height as int);
        }
        let idx: usize = (y as u64 * self.width as u64 + x as u64) as usize;
        self.pixels[idx]
    }
}

/// Every in-range coordinate has its row-major cell index inside the buffer.
proof fn lemma_cell_index_bounds(w: int, h: int)
    ensures
        forall|x: int, y: int| 0 <= x < w && 0 <= y < h ==> 0 <= #[trigger] (y * w + x) < w * h,
{
    assert forall|x: int, y: int| 0 <= x < w && 0 <= y < h implies 0 <= #[trigger] (y * w + x)
        < w * h by {
        assert(y * w + x < w * h) by (nonlinear_arith)
            requires
                0 <= x < w,
                0 <= y < h,
        ;
        assert(0 <= y * w) by (nonlinear_arith)
            requires
                0 <= y,
                0 <= w,
        ;
    }
}

/// Distinct in-range coordinates have distinct row-major cell indices.
proof fn lemma_cell_index_distinct(w: int, h: int, x: int, y: int)
    requires
        0 <= x < w,
        0 <= y < h,
    ensures
        forall|i: int, j: int|
            0 <= i < w && 0 <= j < h && !(i == x && j == y) ==> #[trigger] (j * w + i) != y * w
                + x,
{
    assert forall|i: int, j: int|
        0 <= i < w && 0 <= j < h && !(i == x && j == y) implies #[trigger] (j * w + i) != y * w
        + x by {
        assert(j * w + i != y * w + x) by (nonlinear_arith)
            requires
                0 <= i < w,
                0 <= j < h,
                0 <= x < w,
                0 <= y < h,
                !(i == x && j == y),
        ;
    }
}

} // verus!
