//! The two entry points: normalise-and-resize, and metadata listing (see
//! `metadata::get_exif_data`).
use crate::codec::{decode, decoded_rgb8, encode, encoded, OutputFormat};
use crate::error::PipelineError;
use crate::metadata::{exif_orientation_tag, orientation_of};
use crate::orientation::{corrected, normalize, orientation_of_value};
use crate::resize::{resize, resized, Filter, ResizeMode};
use vstd::prelude::*;

verus! {

/// What running the whole pipeline on `bytes` gives: decode, turn upright by
/// the recorded orientation, resize, encode.
pub open spec fn pipeline_result(
    bytes: Seq<u8>,
    mode: ResizeMode,
    filter: Filter,
    format: OutputFormat,
) -> Result<Seq<u8>, PipelineError> {
    match decoded_rgb8(bytes) {
        None => Err(PipelineError::Decode),
        Some(img) => {
            let upright = corrected(img, orientation_of_value(exif_orientation_tag(bytes)));
            match resized(upright, mode, filter) {
                Err(e) => Err(e),
                Ok(out) => match encoded(out, format) {
                    Some(b) => Ok(b),
                    None => Err(PipelineError::Encode),
                },
            }
        },
    }
}

/// Decodes `bytes`, corrects the orientation recorded in their metadata,
/// resizes as `mode` asks with `filter`, and encodes the result in `format`.
/// Unreadable metadata counts as no orientation; a decode, resize or encode
/// failure is returned.
pub fn normalize_and_resize(bytes: &[u8], mode: ResizeMode, filter: Filter, format: OutputFormat) -> (r:
    Result<Vec<u8>, PipelineError>)
    ensures
        pipeline_result(bytes@, mode, filter, format) == match r {
            Ok(v) => Ok::<Seq<u8>, PipelineError>(v@),
            Err(e) => Err::<Seq<u8>, PipelineError>(e),
        },
        decoded_rgb8(bytes@) is None ==> r == Err::<Vec<u8>, PipelineError>(PipelineError::Decode),
{
    let orientation = orientation_of(bytes);
    let img = match decode(bytes) {
        Ok(b) => b,
        Err(e) => return Err(e),
    };
    let upright = normalize(&img, orientation);
    let out = match resize(&upright, mode, filter) {
        Ok(b) => b,
        Err(e) => return Err(e),
    };
    encode(&out, format)
}

/// Scales the image in `image_data` by `numerator / denominator` after
/// correcting its orientation, with nearest-neighbour sampling, as PNG.
pub fn resize_image(image_data: Vec<u8>, numerator: u32, denominator: u32) -> (r: Result<
    Vec<u8>,
    PipelineError,
>)
    ensures
        pipeline_result(
            image_data@,
            ResizeMode::Scale { numerator, denominator },
            Filter::Nearest,
            OutputFormat::Png,
        ) == match r {
            Ok(v) => Ok::<Seq<u8>, PipelineError>(v@),
            Err(e) => Err::<Seq<u8>, PipelineError>(e),
        },
{
    normalize_and_resize(
        image_data.as_slice(),
        ResizeMode::Scale { numerator, denominator },
        Filter::Nearest,
        OutputFormat::Png,
    )
}

} // verus!
