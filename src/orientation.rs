//! EXIF orientation codes and the geometric correction they call for.
use crate::raster::{
    lemma_area_positive, lemma_cell_in_grid, lemma_cell_to_index, lemma_index_to_cell,
    PixelBuffer, Raster, Rgb,
};
use vstd::prelude::*;

verus! {

/// How the stored pixel grid must be transformed to appear upright.
#[derive(Clone, Copy, Debug, PartialEq, Eq, Structural)]
pub enum Orientation {
    /// No valid orientation tag was found.
    Unspecified,
    /// Code 1: already upright.
    Upright,
    /// Code 2: mirrored horizontally.
    MirrorHorizontal,
    /// Code 3: upside down.
    Rotate180,
    /// Code 4: mirrored vertically.
    MirrorVertical,
    /// Code 5: mirrored and rotated; corrected by a transpose.
    Transpose,
    /// Code 6: corrected by rotating 90 degrees clockwise.
    Rotate90,
    /// Code 7: mirrored and rotated; corrected by a transverse.
    Transverse,
    /// Code 8: corrected by rotating 270 degrees clockwise.
    Rotate270,
}

/// The orientation named by a tag value: codes 1 to 8, anything else unspecified.
pub open spec fn orientation_of_value(v: Option<u32>) -> Orientation {
    match v {
        Some(c) => if c == 1 {
            Orientation::Upright
        } else if c == 2 {
            Orientation::MirrorHorizontal
        } else if c == 3 {
            Orientation::Rotate180
        } else if c == 4 {
            Orientation::MirrorVertical
        } else if c == 5 {
            Orientation::Transpose
        } else if c == 6 {
            Orientation::Rotate90
        } else if c == 7 {
            Orientation::Transverse
        } else if c == 8 {
            Orientation::Rotate270
        } else {
            Orientation::Unspecified
        },
        None => Orientation::Unspecified,
    }
}

impl Orientation {
    /// The numeric code; 0 stands for `Unspecified`.
    pub open spec fn code_spec(self) -> u8 {
        match self {
            Orientation::Unspecified => 0,
            Orientation::Upright => 1,
            Orientation::MirrorHorizontal => 2,
            Orientation::Rotate180 => 3,
            Orientation::MirrorVertical => 4,
            Orientation::Transpose => 5,
            Orientation::Rotate90 => 6,
            Orientation::Transverse => 7,
            Orientation::Rotate270 => 8,
        }
    }

    /// Whether the correction exchanges width and height.
    pub open spec fn swaps_spec(self) -> bool {
        self is Transpose || self is Rotate90 || self is Transverse || self is Rotate270
    }

    /// The transform that undoes this one.
    pub open spec fn inverse_spec(self) -> Orientation {
        match self {
            Orientation::Rotate90 => Orientation::Rotate270,
            Orientation::Rotate270 => Orientation::Rotate90,
            other => other,
        }
    }

    /// Validates a tag value into an orientation.
    pub fn from_tag_value(v: Option<u32>) -> (r: Orientation)
        ensures
            r == orientation_of_value(v),
    {
        match v {
            Some(1) => Orientation::Upright,
            Some(2) => Orientation::MirrorHorizontal,
            Some(3) => Orientation::Rotate180,
            Some(4) => Orientation::MirrorVertical,
            Some(5) => Orientation::Transpose,
            Some(6) => Orientation::Rotate90,
            Some(7) => Orientation::Transverse,
            Some(8) => Orientation::Rotate270,
            _ => Orientation::Unspecified,
        }
    }

    /// The numeric code; 0 stands for `Unspecified`.
    pub fn code(&self) -> (r: u8)
        ensures
            r == self.code_spec(),
    {
        match self {
            Orientation::Unspecified => 0,
            Orientation::Upright => 1,
            Orientation::MirrorHorizontal => 2,
            Orientation::Rotate180 => 3,
            Orientation::MirrorVertical => 4,
            Orientation::Transpose => 5,
            Orientation::Rotate90 => 6,
            Orientation::Transverse => 7,
            Orientation::Rotate270 => 8,
        }
    }

    /// Whether the correction exchanges width and height.
    pub fn swaps_axes(&self) -> (r: bool)
        ensures
            r == self.swaps_spec(),
    {
        match self {
            Orientation::Transpose | Orientation::Rotate90 | Orientation::Transverse
            | Orientation::Rotate270 => true,
            _ => false,
        }
    }

    /// The transform that undoes this one.
    pub fn inverse(&self) -> (r: Orientation)
        ensures
            r == self.inverse_spec(),
    {
        match self {
            Orientation::Rotate90 => Orientation::Rotate270,
            Orientation::Rotate270 => Orientation::Rotate90,
            other => *other,
        }
    }
}

/// Width and height of the corrected image.
pub open spec fn corrected_dims(o: Orientation, w: nat, h: nat) -> (nat, nat) {
    if o.swaps_spec() {
        (h, w)
    } else {
        (w, h)
    }
}

/// The stored cell that lands at column `x`, row `y` of the corrected image,
/// for a stored grid of width `w` and height `h`.
pub open spec fn source_cell(o: Orientation, w: int, h: int, x: int, y: int) -> (int, int) {
    match o {
        Orientation::MirrorHorizontal => (w - 1 - x, y),
        Orientation::Rotate180 => (w - 1 - x, h - 1 - y),
        Orientation::MirrorVertical => (x, h - 1 - y),
        Orientation::Transpose => (y, x),
        Orientation::Rotate90 => (y, h - 1 - x),
        Orientation::Transverse => (w - 1 - y, h - 1 - x),
        Orientation::Rotate270 => (w - 1 - y, x),
        _ => (x, y),
    }
}

/// The image `r` with orientation `o` corrected.
pub open spec fn corrected(r: Raster, o: Orientation) -> Raster {
    let (nw, nh) = corrected_dims(o, r.width, r.height);
    Raster {
        width: nw,
        height: nh,
        pixels: Seq::new(
            nw * nh,
            |k: int|
                {
                    let c = source_cell(o, r.width as int, r.height as int, k % (nw as int), k / (nw as int));
                    r.at(c.0, c.1)
                },
        ),
    }
}

proof fn lemma_source_in_grid(o: Orientation, w: int, h: int, x: int, y: int)
    requires
        0 <= x < corrected_dims(o, w as nat, h as nat).0,
        0 <= y < corrected_dims(o, w as nat, h as nat).1,
        0 <= w,
        0 <= h,
    ensures
        0 <= source_cell(o, w, h, x, y).0 < w,
        0 <= source_cell(o, w, h, x, y).1 < h,
{
}

fn source_cell_exec(o: Orientation, w: u32, h: u32, x: u32, y: u32) -> (r: (u32, u32))
    requires
        x < corrected_dims(o, w as nat, h as nat).0,
        y < corrected_dims(o, w as nat, h as nat).1,
    ensures
        r.0 as int == source_cell(o, w as int, h as int, x as int, y as int).0,
        r.1 as int == source_cell(o, w as int, h as int, x as int, y as int).1,
{
    match o {
        Orientation::MirrorHorizontal => (w - 1 - x, y),
        Orientation::Rotate180 => (w - 1 - x, h - 1 - y),
        Orientation::MirrorVertical => (x, h - 1 - y),
        Orientation::Transpose => (y, x),
        Orientation::Rotate90 => (y, h - 1 - x),
        Orientation::Transverse => (w - 1 - y, h - 1 - x),
        Orientation::Rotate270 => (w - 1 - y, x),
        _ => (x, y),
    }
}

/// Applies the correction for `o` to `buf`, into a fresh buffer.
pub fn normalize(buf: &PixelBuffer, o: Orientation) -> (r: PixelBuffer)
    requires
        buf.wf(),
    ensures
        r.wf(),
        r@ == corrected(buf@, o),
{
    let (nw, nh) = if o.swaps_axes() {
        (buf.height, buf.width)
    } else {
        (buf.width, buf.height)
    };
    let total = buf.pixels.len();
    let ghost target = corrected(buf@, o);
    assert(total == nw as int * nh as int) by (nonlinear_arith)
        requires
            total == buf.width as int * buf.height as int,
            (nw == buf.width && nh == buf.height) || (nw == buf.height && nh == buf.width);
    let mut out: Vec<Rgb> = Vec::with_capacity(total);
    let mut k: usize = 0;
    while k < total
        invariant
            buf.wf(),
            total == buf.pixels@.len(),
            total == nw as int * nh as int,
            nw as nat == target.width,
            nh as nat == target.height,
            target == corrected(buf@, o),
            k <= total,
            out@ == target.pixels.take(k as int),
        decreases total - k,
    {
        proof {
            lemma_area_positive(k as int, nw as int, nh as int);
            lemma_index_to_cell(k as int, nw as int, nh as int);
        }
        let x = (k % (nw as usize)) as u32;
        let y = (k / (nw as usize)) as u32;
        let (sx, sy) = source_cell_exec(o, buf.width, buf.height, x, y);
        proof {
            lemma_source_in_grid(o, buf.width as int, buf.height as int, x as int, y as int);
        }
        let p = buf.pixel(sx, sy);
        out.push(p);
        proof {
            assert(out@ =~= target.pixels.take(k as int + 1));
        }
        k = k + 1;
    }
    assert(out@ =~= target.pixels);
    PixelBuffer { width: nw, height: nh, pixels: out }
}

/// `Unspecified` and `Upright` both leave an image as it is.
pub proof fn lemma_no_correction_is_identity(r: Raster)
    requires
        r.wf(),
    ensures
        corrected(r, Orientation::Unspecified) == r,
        corrected(r, Orientation::Upright) == r,
{
    let w = r.width as int;
    let h = r.height as int;
    assert forall|k: int| 0 <= k < r.pixels.len() implies #[trigger] r.pixels[k] == r.at(k % w, k / w) by {
        lemma_area_positive(k, w, h);
        lemma_index_to_cell(k, w, h);
    }
    assert(corrected(r, Orientation::Unspecified).pixels =~= r.pixels);
    assert(corrected(r, Orientation::Upright).pixels =~= r.pixels);
}

/// Correcting an image for `o` and then for the inverse transform gives back
/// the starting image, pixel for pixel.
pub proof fn lemma_correction_round_trip(r: Raster, o: Orientation)
    requires
        r.wf(),
    ensures
        corrected(corrected(r, o), o.inverse_spec()) == r,
{
    let a = corrected(r, o);
    let inv = o.inverse_spec();
    let b = corrected(a, inv);
    let w = r.width as int;
    let h = r.height as int;
    assert(b.width == r.width && b.height == r.height);
    assert forall|k: int| 0 <= k < b.pixels.len() implies b.pixels[k] == r.pixels[k] by {
        lemma_area_positive(k, w, h);
        lemma_index_to_cell(k, w, h);
        let x = k % w;
        let y = k / w;
        let c = source_cell(inv, a.width as int, a.height as int, x, y);
        lemma_source_in_grid(inv, a.width as int, a.height as int, x, y);
        lemma_cell_in_grid(c.0, c.1, a.width as int, a.height as int);
        lemma_cell_to_index(c.0, c.1, a.width as int);
        assert(b.pixels[k] == a.pixels[c.1 * a.width + c.0]);
        assert(source_cell(o, w, h, c.0, c.1) == (x, y));
    }
    assert(b.pixels =~= r.pixels);
}

} // verus!
