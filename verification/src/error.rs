//! What can go wrong between loading an image and writing it out.

use vstd::prelude::*;

verus! {

/// The error of the `image` crate, carried as it came.
#[verifier::external_type_specification]
#[verifier::external_body]
pub struct ExImageError(::image::ImageError);

#[derive(Debug)]
pub enum ProcessError {
    /// The image at `path` could not be read or decoded; `source` is the
    /// cause in words.
    ImageLoad { path: String, source: String },
    /// The file at `path` could not be written; `source` is the cause in
    /// words.
    FileWrite { path: String, source: String },
    /// An operation reached outside the image.
    OutOfBounds { operation: String, details: String },
    /// The JPEG encoder refused the image.
    JpegEncoding(::image::ImageError),
    /// No quality gives a file of at most `target_bytes` bytes; at quality 10
    /// the file has `min_bytes` bytes.
    CompressionTargetTooSmall { target_kb: usize, target_bytes: usize, min_kb: usize, min_bytes: usize },
}

} // verus!
