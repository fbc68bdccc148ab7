//! Composition of equally sized raster images into one grid image.

pub mod error;
pub mod grid;
pub mod job;
pub mod laws;
pub mod raster;

pub use error::StitcherError;
pub use grid::{compose, stitch_images, validate_uniform_size};
pub use job::{grid_job, select_corner_job, stitch, GridJob};
pub use raster::{Pixel, Raster};
