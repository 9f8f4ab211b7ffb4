//! Reader for the legacy binary image-archive container format used by some
//! 1990s city-building games.
//!
//! The container holds a fixed-layout header, a table of album records (groups
//! of sprites sharing one physical pixel file) and a table of image records.
//! Pixel payloads live in separate companion files and are decoded per image
//! into a flat RGBA raster through a pluggable image-builder sink.
//!
//! All parsing and decoding works over an in-memory byte cursor; opening
//! files and feeding their bytes in is left to the caller.

pub mod error;
pub mod image_builder;
pub mod laws;
pub mod pixel;
pub mod sg_album;
pub mod sg_file;
pub mod sg_image_metadata;
pub mod utils;

pub use error::SgImageError;
pub use image_builder::{ImageBuilder, ImageBuilderFactory, VecImageBuilder, VecImageBuilderFactory};
pub use sg_album::SgAlbum;
pub use sg_file::SgFile;
pub use sg_image_metadata::SgImageMetadata;
pub use utils::{ByteReader, ReadHelper};
