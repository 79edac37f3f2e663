//! Ordered (Bayer) dithering of decoded images to binary-valued grayscale,
//! with the surrounding run configuration, file selection and batch
//! bookkeeping, all stated and proved over mathematical models.

pub mod batch;
pub mod config;
pub mod discovery;
pub mod dither;
pub mod geometry;
pub mod matrix;
pub mod raster;
pub mod resample;
