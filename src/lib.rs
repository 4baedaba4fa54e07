//! Orientation-aware image normalisation and resizing.
//!
//! Raw encoded bytes are decoded to an RGB raster, turned upright according to
//! the EXIF orientation tag, resized and encoded again. Independently, the EXIF
//! fields of the primary image can be listed as name / display-string pairs.

pub mod raster;
pub mod orientation;
pub mod error;
pub mod resize;
pub mod codec;
pub mod metadata;
pub mod pipeline;
