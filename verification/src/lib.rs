//! Extraction core for square matrix barcodes: given the three finder-pattern
//! corners and the version of a located symbol, derives a per-module sampling
//! lattice over a binarized grayscale raster and reads the module values into
//! a flat, row-major sample buffer.

pub mod extract;
pub mod geometry;
pub mod raster;
