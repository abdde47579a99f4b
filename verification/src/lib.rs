//! In-memory raster images, the transforms that reshape and recolour them,
//! and a search for the best JPEG quality under a byte budget.

pub mod compression;
pub mod error;
pub mod hex;
pub mod history;
pub mod image;
pub mod transforms;
