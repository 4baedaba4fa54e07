//! Target dimensions, cover-and-crop geometry and resampling.
use crate::error::PipelineError;
use crate::raster::{lemma_area_positive, lemma_index_to_cell, PixelBuffer, Raster, Rgb};
use vstd::prelude::*;

verus! {

/// How the output size is chosen.
#[derive(Clone, Copy, Debug, PartialEq, Eq, Structural)]
pub enum ResizeMode {
    /// Both sides are multiplied by `numerator / denominator` and rounded down;
    /// the aspect ratio is kept.
    Scale { numerator: u32, denominator: u32 },
    /// The output is exactly `width` by `height`: the image is scaled to cover
    /// the box and the overflow is cut away evenly from both sides.
    FixedBox { width: u32, height: u32 },
}

/// The resampling kernel.
#[derive(Clone, Copy, Debug, PartialEq, Eq, Structural)]
pub enum Filter {
    Nearest,
    Lanczos3,
}

/// The pixels that resampling `src` to `width` by `height` with `filter` produces.
pub uninterp spec fn resampled(src: Raster, width: nat, height: nat, filter: Filter) -> Seq<Rgb>;

/// Whether resampling a `w` by `h` image to `nw` by `nh` keeps every buffer
/// involved (at most four channels per pixel) addressable.
pub open spec fn fits_resample(w: nat, h: nat, nw: nat, nh: nat) -> bool {
    w * nh * 4 <= usize::MAX && nw * nh * 4 <= usize::MAX
}

/// Relies on image::imageops::resize: the result has exactly the requested
/// dimensions, depends on the arguments alone, and is a plain copy when the
/// dimensions do not change.
#[verifier::external_body]
fn resample(buf: &PixelBuffer, width: u32, height: u32, filter: Filter) -> (r: PixelBuffer)
    requires
        buf.wf(),
        buf.width > 0,
        buf.height > 0,
        width > 0,
        height > 0,
        fits_resample(buf.width as nat, buf.height as nat, width as nat, height as nat),
    ensures
        r.wf(),
        r.width == width,
        r.height == height,
        r.pixels@ == resampled(buf@, width as nat, height as nat, filter),
        width == buf.width && height == buf.height ==> r.pixels@ == buf.pixels@,
{
    let src = image::RgbImage::from_raw(buf.width, buf.height, buf.pixels.concat()).unwrap();
    let kernel = match filter {
        Filter::Nearest => image::imageops::FilterType::Nearest,
        Filter::Lanczos3 => image::imageops::FilterType::Lanczos3,
    };
    let out = image::imageops::resize(&src, width, height, kernel);
    PixelBuffer { width: out.width(), height: out.height(), pixels: out.pixels().map(|p| p.0).collect() }
}

fn fits_resample_exec(w: u32, h: u32, nw: u32, nh: u32) -> (r: bool)
    ensures
        r == fits_resample(w as nat, h as nat, nw as nat, nh as nat),
{
    let quarter = usize::MAX / 4;
    let a = match (w as usize).checked_mul(nh as usize) {
        Some(p) => p <= quarter,
        None => false,
    };
    let b = match (nw as usize).checked_mul(nh as usize) {
        Some(p) => p <= quarter,
        None => false,
    };
    proof {
        assert(usize::MAX / 4 * 4 <= usize::MAX);
        if a {
            assert((w as nat) * (nh as nat) * 4 <= usize::MAX) by (nonlinear_arith)
                requires (w as nat) * (nh as nat) <= usize::MAX / 4;
        } else {
            assert(!((w as nat) * (nh as nat) * 4 <= usize::MAX)) by (nonlinear_arith)
                requires (w as nat) * (nh as nat) > usize::MAX / 4;
        }
        if b {
            assert((nw as nat) * (nh as nat) * 4 <= usize::MAX) by (nonlinear_arith)
                requires (nw as nat) * (nh as nat) <= usize::MAX / 4;
        } else {
            assert(!((nw as nat) * (nh as nat) * 4 <= usize::MAX)) by (nonlinear_arith)
                requires (nw as nat) * (nh as nat) > usize::MAX / 4;
        }
    }
    a && b
}

/// The largest value a dimension can take.
pub const MAX_DIM: u32 = 0xffff_ffff;

/// `d` scaled by `numerator / denominator`, rounded down.
pub open spec fn scaled_dim(d: nat, numerator: nat, denominator: nat) -> nat {
    d * numerator / denominator
}

/// `a / b` rounded up, capped at the largest dimension.
pub open spec fn capped_ceil_div(a: nat, b: nat) -> nat {
    let q = (a + b - 1) / b as int;
    if q > MAX_DIM {
        MAX_DIM as nat
    } else {
        q as nat
    }
}

/// The smallest size with the aspect ratio of `w` by `h` that covers a `bw`
/// by `bh` box (one side matches the box exactly).
pub open spec fn cover_dims(w: nat, h: nat, bw: nat, bh: nat) -> (nat, nat) {
    if bw * h >= bh * w {
        (bw, capped_ceil_div(h * bw, w))
    } else {
        (capped_ceil_div(w * bh, h), bh)
    }
}

/// The `cw` by `ch` window of `r` whose top-left cell is (`x0`, `y0`).
pub open spec fn cropped(r: Raster, x0: int, y0: int, cw: nat, ch: nat) -> Raster {
    Raster {
        width: cw,
        height: ch,
        pixels: Seq::new(cw * ch, |k: int| r.at(x0 + k % (cw as int), y0 + k / (cw as int))),
    }
}

/// The result of resizing `r` as `mode` asks, with `filter`.
pub open spec fn resized(r: Raster, mode: ResizeMode, filter: Filter) -> Result<Raster, PipelineError> {
    match mode {
        ResizeMode::Scale { numerator, denominator } => {
            if denominator == 0 {
                Err(PipelineError::InvalidDimensions)
            } else {
                let nw = scaled_dim(r.width, numerator as nat, denominator as nat);
                let nh = scaled_dim(r.height, numerator as nat, denominator as nat);
                if nw == 0 || nh == 0 || nw > MAX_DIM || nh > MAX_DIM || !fits_resample(
                    r.width,
                    r.height,
                    nw,
                    nh,
                ) {
                    Err(PipelineError::InvalidDimensions)
                } else {
                    Ok(Raster { width: nw, height: nh, pixels: resampled(r, nw, nh, filter) })
                }
            }
        },
        ResizeMode::FixedBox { width, height } => {
            if width == 0 || height == 0 || r.width == 0 || r.height == 0 {
                Err(PipelineError::InvalidDimensions)
            } else {
                let (iw, ih) = cover_dims(r.width, r.height, width as nat, height as nat);
                if !fits_resample(r.width, r.height, iw, ih) {
                    Err(PipelineError::InvalidDimensions)
                } else {
                    let big = Raster { width: iw, height: ih, pixels: resampled(r, iw, ih, filter) };
                    Ok(
                        cropped(
                            big,
                            (iw - width) / 2,
                            (ih - height) / 2,
                            width as nat,
                            height as nat,
                        ),
                    )
                }
            }
        },
    }
}

fn capped_ceil_div_exec(a: u64, b: u64) -> (r: u32)
    requires
        0 < b,
        a + b <= u64::MAX,
    ensures
        r as nat == capped_ceil_div(a as nat, b as nat),
{
    let q = (a + b - 1) / b;
    if q > MAX_DIM as u64 {
        MAX_DIM
    } else {
        q as u32
    }
}

proof fn lemma_ceil_covers(num: nat, den: nat, target: nat)
    requires
        0 < den,
        num >= target * den,
        target <= MAX_DIM,
    ensures
        capped_ceil_div(num, den) >= target,
{
    vstd::arithmetic::div_mod::lemma_div_is_ordered((target * den) as int, (num + den - 1) as int, den as int);
    vstd::arithmetic::div_mod::lemma_div_multiples_vanish(target as int, den as int);
    assert(target * den == den * target) by (nonlinear_arith);
}

/// Size that covers a `bw` by `bh` box with the aspect ratio of `w` by `h`.
pub fn cover_box(w: u32, h: u32, bw: u32, bh: u32) -> (r: (u32, u32))
    requires
        w > 0,
        h > 0,
    ensures
        r.0 as nat == cover_dims(w as nat, h as nat, bw as nat, bh as nat).0,
        r.1 as nat == cover_dims(w as nat, h as nat, bw as nat, bh as nat).1,
        r.0 >= bw,
        r.1 >= bh,
{
    let (w64, h64, bw64, bh64) = (w as u64, h as u64, bw as u64, bh as u64);
    assert(bw64 * h64 <= 0xffff_fffe_0000_0001 && bh64 * w64 <= 0xffff_fffe_0000_0001)
        by (nonlinear_arith)
        requires w64 <= 0xffff_ffff, h64 <= 0xffff_ffff, bw64 <= 0xffff_ffff, bh64 <= 0xffff_ffff;
    if bw64 * h64 >= bh64 * w64 {
        let ih = capped_ceil_div_exec(h64 * bw64, w64);
        proof {
            assert(h64 * bw64 == bw64 * h64) by (nonlinear_arith);
            lemma_ceil_covers((h64 * bw64) as nat, w64 as nat, bh64 as nat);
        }
        (bw, ih)
    } else {
        let iw = capped_ceil_div_exec(w64 * bh64, h64);
        proof {
            assert(w64 * bh64 == bh64 * w64) by (nonlinear_arith);
            assert(bh64 * w64 >= bw64 * h64);
            lemma_ceil_covers((w64 * bh64) as nat, h64 as nat, bw64 as nat);
        }
        (iw, bh)
    }
}

/// The `cw` by `ch` window of `buf` whose top-left cell is (`x0`, `y0`).
pub fn crop(buf: &PixelBuffer, x0: u32, y0: u32, cw: u32, ch: u32) -> (r: PixelBuffer)
    requires
        buf.wf(),
        x0 + cw <= buf.width,
        y0 + ch <= buf.height,
    ensures
        r.wf(),
        r@ == cropped(buf@, x0 as int, y0 as int, cw as nat, ch as nat),
{
    let ghost target = cropped(buf@, x0 as int, y0 as int, cw as nat, ch as nat);
    let n = buf.pixels.len();
    proof {
        assert((cw as int) * (ch as int) <= (buf.width as int) * (buf.height as int)) by (nonlinear_arith)
            requires cw <= buf.width, ch <= buf.height;
    }
    let total = (cw as usize) * (ch as usize);
    let mut out: Vec<Rgb> = Vec::with_capacity(total);
    let mut k: usize = 0;
    while k < total
        invariant
            buf.wf(),
            x0 + cw <= buf.width,
            y0 + ch <= buf.height,
            total == cw as int * ch as int,
            target == cropped(buf@, x0 as int, y0 as int, cw as nat, ch as nat),
            k <= total,
            out@ == target.pixels.take(k as int),
        decreases total - k,
    {
        proof {
            lemma_area_positive(k as int, cw as int, ch as int);
            lemma_index_to_cell(k as int, cw as int, ch as int);
        }
        let x = (k % (cw as usize)) as u32;
        let y = (k / (cw as usize)) as u32;
        let p = buf.pixel(x0 + x, y0 + y);
        out.push(p);
        proof {
            assert(out@ =~= target.pixels.take(k as int + 1));
        }
        k = k + 1;
    }
    assert(out@ =~= target.pixels);
    PixelBuffer { width: cw, height: ch, pixels: out }
}

/// Resizes `buf` as `mode` asks, with `filter`, into a fresh buffer.
pub fn resize(buf: &PixelBuffer, mode: ResizeMode, filter: Filter) -> (r: Result<PixelBuffer, PipelineError>)
    requires
        buf.wf(),
    ensures
        r is Ok ==> r->Ok_0.wf(),
        resized(buf@, mode, filter) == match r {
            Ok(b) => Ok::<Raster, PipelineError>(b@),
            Err(e) => Err::<Raster, PipelineError>(e),
        },
{
    match mode {
        ResizeMode::Scale { numerator, denominator } => {
            if denominator == 0 {
                return Err(PipelineError::InvalidDimensions);
            }
            let (w64, h64, n64) = (buf.width as u64, buf.height as u64, numerator as u64);
            assert(w64 * n64 <= 0xffff_fffe_0000_0001 && h64 * n64 <= 0xffff_fffe_0000_0001)
                by (nonlinear_arith)
                requires w64 <= 0xffff_ffff, h64 <= 0xffff_ffff, n64 <= 0xffff_ffff;
            let nw64 = (buf.width as u64) * (numerator as u64) / (denominator as u64);
            let nh64 = (buf.height as u64) * (numerator as u64) / (denominator as u64);
            if nw64 == 0 || nh64 == 0 || nw64 > MAX_DIM as u64 || nh64 > MAX_DIM as u64 {
                return Err(PipelineError::InvalidDimensions);
            }
            let (nw, nh) = (nw64 as u32, nh64 as u32);
            if !fits_resample_exec(buf.width, buf.height, nw, nh) {
                return Err(PipelineError::InvalidDimensions);
            }
            proof {
                if buf.width == 0 {
                    assert(0 * (numerator as int) == 0);
                }
                if buf.height == 0 {
                    assert(0 * (numerator as int) == 0);
                }
            }
            Ok(resample(buf, nw, nh, filter))
        },
        ResizeMode::FixedBox { width, height } => {
            if width == 0 || height == 0 || buf.width == 0 || buf.height == 0 {
                return Err(PipelineError::InvalidDimensions);
            }
            let (iw, ih) = cover_box(buf.width, buf.height, width, height);
            if !fits_resample_exec(buf.width, buf.height, iw, ih) {
                return Err(PipelineError::InvalidDimensions);
            }
            let big = resample(buf, iw, ih, filter);
            Ok(crop(&big, (iw - width) / 2, (ih - height) / 2, width, height))
        },
    }
}

/// The resampled image that covers a `width` by `height` box, before cropping.
pub open spec fn cover_image(r: Raster, width: nat, height: nat, filter: Filter) -> Raster {
    let (iw, ih) = cover_dims(r.width, r.height, width, height);
    Raster { width: iw, height: ih, pixels: resampled(r, iw, ih, filter) }
}

/// A fixed-box resize, when it succeeds, is exactly the box's size, and it is
/// the centred window of the resampled cover image: the window lies inside that
/// image and every output pixel is taken from it, so nothing is padded.
pub proof fn lemma_fixed_box_is_filled(r: Raster, width: u32, height: u32, filter: Filter)
    requires
        r.wf(),
        resized(r, ResizeMode::FixedBox { width, height }, filter) is Ok,
    ensures
        resized(r, ResizeMode::FixedBox { width, height }, filter)->Ok_0.width == width,
        resized(r, ResizeMode::FixedBox { width, height }, filter)->Ok_0.height == height,
        resized(r, ResizeMode::FixedBox { width, height }, filter)->Ok_0.wf(),
        ({
            let big = cover_image(r, width as nat, height as nat, filter);
            let out = resized(r, ResizeMode::FixedBox { width, height }, filter)->Ok_0;
            let x0 = (big.width - width) / 2;
            let y0 = (big.height - height) / 2;
            &&& 0 <= x0
            &&& x0 + width <= big.width
            &&& 0 <= y0
            &&& y0 + height <= big.height
            &&& forall|k: int|
                0 <= k < out.pixels.len() ==> #[trigger] out.pixels[k] == big.at(
                    x0 + k % (width as int),
                    y0 + k / (width as int),
                )
        }),
{
    let out = resized(r, ResizeMode::FixedBox { width, height }, filter)->Ok_0;
    let (iw, ih) = cover_dims(r.width, r.height, width as nat, height as nat);
    let big = cover_image(r, width as nat, height as nat, filter);
    assert(r.height * width as nat == width as nat * r.height) by (nonlinear_arith);
    assert(r.width * height as nat == height as nat * r.width) by (nonlinear_arith);
    if width as nat * r.height >= height as nat * r.width {
        lemma_ceil_covers(r.height * width as nat, r.width, height as nat);
    } else {
        lemma_ceil_covers(r.width * height as nat, r.height, width as nat);
    }
    assert(out == cropped(big, (iw - width) / 2, (ih - height) / 2, width as nat, height as nat));
    let x0 = (iw - width) / 2;
    let y0 = (ih - height) / 2;
    assert forall|k: int| 0 <= k < out.pixels.len() implies #[trigger] out.pixels[k] == big.at(
        x0 + k % (width as int),
        y0 + k / (width as int),
    ) by {}
}

} // verus!
