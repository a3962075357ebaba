//! Renders placed, scaled and rotated source images through a fixed-size
//! viewport and packs the resulting rasters into an archive.
//!
//! Scales are exact ratios of integers, so every coordinate that the library
//! computes is an integer function of its inputs.

pub mod archive;
pub mod batch;
pub mod codec;
pub mod error;
pub mod geometry;
pub mod raster;
pub mod render;
