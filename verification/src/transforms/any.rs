//! One type for all the transforms, and one way to apply them.

use vstd::prelude::*;
use crate::image::{Image, Raster};
use crate::transforms::color::{colorized, grayed, inverted, Colorize, Grayscale, Invert};
use crate::transforms::convolution::convolved;
use crate::transforms::filters::{
    box_kernel, edge_kernel, emboss_kernel, gaussian_kernel, sharpen_kernel, BoxBlur, EdgeDetect,
    Emboss, GaussianBlur, Sharpen,
};
use crate::transforms::geometry::{Crop, Fit, Flip, Rotate};
use crate::transforms::{TransformError, Transformation};

verus! {

/// Any of the transforms, with its parameters.
pub enum Transform {
    Crop(Crop),
    Flip(Flip),
    Rotate(Rotate),
    Fit(Fit),
    Invert,
    Grayscale,
    Colorize(Colorize),
    GaussianBlur,
    BoxBlur,
    Sharpen,
    EdgeDetect,
    Emboss,
}

impl Transformation for Transform {
    open spec fn outcome(&self, r: Raster) -> Option<Raster> {
        match *self {
            Transform::Crop(crop) => crop.outcome(r),
            Transform::Flip(flip) => flip.outcome(r),
            Transform::Rotate(rotate) => rotate.outcome(r),
            Transform::Fit(fit) => fit.outcome(r),
            Transform::Invert => Some(inverted(r)),
            Transform::Grayscale => Some(grayed(r)),
            Transform::Colorize(colorize) => colorize.outcome(r),
            Transform::GaussianBlur => Some(convolved(r, gaussian_kernel())),
            Transform::BoxBlur => Some(convolved(r, box_kernel())),
            Transform::Sharpen => Some(convolved(r, sharpen_kernel())),
            Transform::EdgeDetect => Some(convolved(r, edge_kernel())),
            Transform::Emboss => Some(convolved(r, emboss_kernel())),
        }
    }

    fn apply(&self, image: &Image) -> (result: Result<Image, TransformError>) {
        match self {
            Transform::Crop(crop) => crop.apply(image),
            Transform::Flip(flip) => flip.apply(image),
            Transform::Rotate(rotate) => rotate.apply(image),
            Transform::Fit(fit) => fit.apply(image),
            Transform::Invert => Invert::new().apply(image),
            Transform::Grayscale => Grayscale::new().apply(image),
            Transform::Colorize(colorize) => colorize.apply(image),
            Transform::GaussianBlur => GaussianBlur::new().apply(image),
            Transform::BoxBlur => BoxBlur::new().apply(image),
            Transform::Sharpen => Sharpen::new().apply(image),
            Transform::EdgeDetect => EdgeDetect::new().apply(image),
            Transform::Emboss => Emboss::new().apply(image),
        }
    }
}

} // verus!
