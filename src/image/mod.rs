//! Pixel-level building blocks: colours and palettes, rasters, compression.

pub mod bitmap;
pub mod compression;
pub mod palette;
pub mod palette_data;
pub mod pixel;
pub mod raster;

pub use bitmap::MImage;
pub use palette::Color;
pub use pixel::{convert_16bit_to_32bit, convert_16bit_to_32bit_with_alpha, skip_bytes, width_bytes};
