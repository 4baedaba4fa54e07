//! The pixel buffer shared by every stage of the pipeline.
use vstd::arithmetic::div_mod::{lemma_fundamental_div_mod_converse, lemma_multiply_divide_lt, lemma_mod_pos_bound};
use vstd::prelude::*;

verus! {

/// One RGB pixel, eight bits per channel.
pub type Rgb = [u8; 3];

/// Mathematical model of a pixel buffer: dimensions and the row-major pixels.
pub struct Raster {
    pub width: nat,
    pub height: nat,
    pub pixels: Seq<Rgb>,
}

impl Raster {
    /// The pixel store holds exactly one pixel per grid cell.
    pub open spec fn wf(self) -> bool {
        self.pixels.len() == self.width * self.height
    }

    /// Pixel in column `x` of row `y`.
    pub open spec fn at(self, x: int, y: int) -> Rgb {
        self.pixels[y * self.width + x]
    }
}

/// A decoded 8-bit RGB image, stored row by row.
#[derive(Debug)]
pub struct PixelBuffer {
    pub width: u32,
    pub height: u32,
    pub pixels: Vec<Rgb>,
}

impl View for PixelBuffer {
    type V = Raster;

    open spec fn view(&self) -> Raster {
        Raster { width: self.width as nat, height: self.height as nat, pixels: self.pixels@ }
    }
}

impl PixelBuffer {
    pub open spec fn wf(&self) -> bool {
        self@.wf()
    }

    /// Builds a buffer from its parts; `None` when the store does not hold
    /// exactly `width * height` pixels.
    pub fn from_pixels(width: u32, height: u32, pixels: Vec<Rgb>) -> (r: Option<PixelBuffer>)
        ensures
            r is Some <==> pixels@.len() == width as int * height as int,
            r is Some ==> r->Some_0.wf() && r->Some_0.width == width && r->Some_0.height
                == height && r->Some_0.pixels@ == pixels@,
    {
        let w = width as u64;
        let h = height as u64;
        assert(w * h <= 0xffff_ffff_ffff_ffff) by (nonlinear_arith)
            requires w <= 0xffff_ffff, h <= 0xffff_ffff;
        if pixels.len() as u64 == w * h {
            Some(PixelBuffer { width, height, pixels })
        } else {
            None
        }
    }

    /// Pixel in column `x` of row `y`.
    pub fn pixel(&self, x: u32, y: u32) -> (r: Rgb)
        requires
            self.wf(),
            x < self.width,
            y < self.height,
        ensures
            r == self@.at(x as int, y as int),
    {
        let n = self.pixels.len();
        proof { lemma_cell_in_grid(x as int, y as int, self.width as int, self.height as int); }
        self.pixels[y as usize * self.width as usize + x as usize]
    }
}

/// A cell of a `w` by `h` grid has a row-major index inside the grid.
pub proof fn lemma_cell_in_grid(x: int, y: int, w: int, h: int)
    requires
        0 <= x < w,
        0 <= y < h,
    ensures
        0 <= y * w + x < w * h,
        y * w <= y * w + x,
{
    assert(0 <= y * w + x < w * h) by (nonlinear_arith)
        requires 0 <= x < w, 0 <= y < h;
}

/// Column and row of a row-major index `k` into a grid of width `w` and height `h`.
pub proof fn lemma_index_to_cell(k: int, w: int, h: int)
    requires
        0 <= k < w * h,
        0 < w,
    ensures
        0 <= k % w < w,
        0 <= k / w < h,
        k == (k / w) * w + k % w,
{
    lemma_mod_pos_bound(k, w);
    lemma_multiply_divide_lt(k, w, h);
    assert(0 <= k / w) by (nonlinear_arith)
        requires 0 <= k, 0 < w;
    vstd::arithmetic::div_mod::lemma_fundamental_div_mod(k, w);
    assert(k == (k / w) * w + k % w) by (nonlinear_arith)
        requires k == w * (k / w) + k % w;
}

/// The row-major index of cell (`x`, `y`) gives back that cell.
pub proof fn lemma_cell_to_index(x: int, y: int, w: int)
    requires
        0 <= x < w,
        0 <= y,
    ensures
        (y * w + x) % w == x,
        (y * w + x) / w == y,
{
    lemma_fundamental_div_mod_converse(y * w + x, w, y, x);
}

/// A positive grid area has a positive width.
pub proof fn lemma_area_positive(k: int, w: int, h: int)
    requires
        0 <= k < w * h,
        0 <= w,
        0 <= h,
    ensures
        0 < w,
        0 < h,
{
    assert(0 < w && 0 < h) by (nonlinear_arith)
        requires 0 <= k < w * h, 0 <= w, 0 <= h;
}

} // verus!
