//! Transforms of raster images.
//!
//! A transform never changes the image it is given: it returns a new one.

use vstd::prelude::*;
use crate::image::{Image, Raster};

pub mod any;
pub mod color;
pub mod convolution;
pub mod filters;
pub mod geometry;

pub use any::Transform;
pub use color::{
    colorized, colorized_pixel, gray_pixel, grayed, inverted, inverted_pixel, luma, recolored,
    Colorize, Grayscale, Invert,
};
pub use convolution::{
    channel, channel_value, clamped, convolve, convolved, convolved_pixel, sampled, weight_total,
    weighted_sum, Kernel, KernelView, KernelWindow,
};
pub use filters::{
    box_kernel, edge_kernel, emboss_kernel, gaussian_kernel, sharpen_kernel, BoxBlur, EdgeDetect,
    Emboss, GaussianBlur, Sharpen,
};
pub use geometry::{
    cropped, fit_size, fitted, flipped, rotated, scaled, Crop, Fit, Flip, FlipAxis, Rotate,
    RotateAngle,
};

verus! {

/// Why a transform could not be applied.
#[derive(Debug, Clone, Copy, PartialEq, Eq, Structural)]
pub enum TransformError {
    /// The requested region does not lie inside the image.
    OutOfBounds,
}

impl TransformError {
    /// The message shown for this error.
    pub fn message(&self) -> (text: &'static str)
        ensures
            text@ == "Region is out of bounds"@,
    {
        "Region is out of bounds"
    }
}

/// Something that makes a new image out of a given one.
pub trait Transformation {
    /// The raster that the transform makes of `r`, or `None` where it cannot
    /// be applied to `r`.
    spec fn outcome(&self, r: Raster) -> Option<Raster>;

    /// Applies the transform: a new image, or `OutOfBounds`. The image given
    /// stays as it is.
    fn apply(&self, image: &Image) -> (result: Result<Image, TransformError>)
        ensures
            match self.outcome(image@) {
                Some(raster) => result matches Ok(out) && out@ == raster,
                None => result == Err::<Image, TransformError>(TransformError::OutOfBounds),
            },
    ;
}

} // verus!
