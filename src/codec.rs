//! Conversion between encoded bytes and pixel buffers.
use crate::raster::{PixelBuffer, Raster};
use vstd::prelude::*;

verus! {

/// The error type of the image codecs.
#[verifier::external_type_specification]
#[verifier::external_body]
pub struct ExImageError(image::ImageError);

/// The format the pipeline writes.
#[derive(Clone, Copy, Debug, PartialEq, Eq, Structural)]
pub enum OutputFormat {
    /// Lossless.
    Png,
    /// Lossy; `quality` is taken in 1..=100 (values outside are clamped).
    Jpeg { quality: u8 },
}

/// The RGB image that `bytes` decode to, if their format is recognised and
/// their content intact.
pub uninterp spec fn decoded_rgb8(bytes: Seq<u8>) -> Option<Raster>;

/// The bytes that encoding `img` in `format` gives, unless the encoder fails.
pub uninterp spec fn encoded(img: Raster, format: OutputFormat) -> Option<Seq<u8>>;

/// Relies on image::load_from_memory, which recognises the format by its magic
/// bytes and decodes (an empty buffer matches no format), followed by
/// DynamicImage::into_rgb8, which yields one RGB pixel per cell.
#[verifier::external_body]
pub(crate) fn decode_rgb8(bytes: &[u8]) -> (r: Result<PixelBuffer, image::ImageError>)
    ensures
        match r {
            Ok(b) => b.wf() && decoded_rgb8(bytes@) == Some(b@),
            Err(_) => decoded_rgb8(bytes@) is None,
        },
        bytes@.len() == 0 ==> r is Err,
{
    match image::load_from_memory(bytes) {
        Ok(img) => {
            let rgb = img.into_rgb8();
            Ok(PixelBuffer { width: rgb.width(), height: rgb.height(), pixels: rgb.pixels().map(|p| p.0).collect() })
        },
        Err(e) => Err(e),
    }
}

/// Relies on DynamicImage::write_to with ImageOutputFormat::Png or
/// ImageOutputFormat::Jpeg: on success the written bytes depend on the image
/// and the format alone.
#[verifier::external_body]
pub(crate) fn encode_rgb8(buf: &PixelBuffer, format: OutputFormat) -> (r: Result<Vec<u8>, image::ImageError>)
    requires
        buf.wf(),
    ensures
        match r {
            Ok(v) => encoded(buf@, format) == Some(v@),
            Err(_) => encoded(buf@, format) is None,
        },
{
    let img = image::RgbImage::from_raw(buf.width, buf.height, buf.pixels.concat()).unwrap();
    let target = match format {
        OutputFormat::Png => image::ImageOutputFormat::Png,
        OutputFormat::Jpeg { quality } => image::ImageOutputFormat::Jpeg(quality),
    };
    let mut out = std::io::Cursor::new(Vec::new());
    match image::DynamicImage::ImageRgb8(img).write_to(&mut out, target) {
        Ok(()) => Ok(out.into_inner()),
        Err(e) => Err(e),
    }
}

/// Decodes `bytes` into an RGB buffer.
pub fn decode(bytes: &[u8]) -> (r: Result<PixelBuffer, crate::error::PipelineError>)
    ensures
        match r {
            Ok(b) => b.wf() && decoded_rgb8(bytes@) == Some(b@),
            Err(e) => e is Decode && decoded_rgb8(bytes@) is None,
        },
{
    match decode_rgb8(bytes) {
        Ok(b) => Ok(b),
        Err(_) => Err(crate::error::PipelineError::Decode),
    }
}

/// Encodes `buf` in `format`.
pub fn encode(buf: &PixelBuffer, format: OutputFormat) -> (r: Result<Vec<u8>, crate::error::PipelineError>)
    requires
        buf.wf(),
    ensures
        match r {
            Ok(v) => encoded(buf@, format) == Some(v@),
            Err(e) => e is Encode && encoded(buf@, format) is None,
        },
{
    match encode_rgb8(buf, format) {
        Ok(v) => Ok(v),
        Err(_) => Err(crate::error::PipelineError::Encode),
    }
}

} // verus!
