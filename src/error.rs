//! Failures that the pipeline surfaces to its caller.
use vstd::prelude::*;

verus! {

/// Why a pipeline run produced no image.
#[derive(Clone, Copy, Debug, PartialEq, Eq, Structural)]
pub enum PipelineError {
    /// The bytes are not an image in a supported, intact container.
    Decode,
    /// The encoder failed while writing the output.
    Encode,
    /// The resize request yields an empty target, or one too large to hold.
    InvalidDimensions,
}

} // verus!
