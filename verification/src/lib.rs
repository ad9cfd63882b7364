//! Verified raster transforms for preparing panel images as video frames:
//! trimming to content, reshaping into a wide strip, padding, and composing
//! the reveal sequence.

pub mod color;
pub mod picture;
pub mod raster;
pub mod trim;
pub mod reshape;
pub mod pad;
pub mod pipeline;
pub mod frames;
