//! Transforms that recolour each pixel by itself. The size of the image and
//! the place of each pixel stay as they are.

use vstd::prelude::*;
use crate::image::{Image, Pixel, Raster};
use crate::transforms::{TransformError, Transformation};

verus! {

/// `r` with every pixel replaced by its image under `f`.
pub open spec fn recolored(r: Raster, f: spec_fn(Pixel) -> Pixel) -> Raster {
    Raster { width: r.width, height: r.height, pixels: Seq::new(r.pixels.len(), |i: int| f(r.pixels[i])) }
}

/// Each channel `c` becomes `255 - c`.
pub open spec fn inverted_pixel(p: Pixel) -> Pixel {
    Pixel { r: (255 - p.r) as u8, g: (255 - p.g) as u8, b: (255 - p.b) as u8 }
}

/// The unweighted average of the three channels, rounded down.
pub open spec fn luma(p: Pixel) -> int {
    (p.r + p.g + p.b) / 3
}

/// Each channel becomes the luma of the pixel.
pub open spec fn gray_pixel(p: Pixel) -> Pixel {
    Pixel { r: luma(p) as u8, g: luma(p) as u8, b: luma(p) as u8 }
}

/// Each channel of `color` multiplied by `luma / 255` and rounded down: white
/// becomes `color`, black stays black.
pub open spec fn colorized_pixel(color: Pixel, p: Pixel) -> Pixel {
    Pixel {
        r: (color.r * luma(p) / 255) as u8,
        g: (color.g * luma(p) / 255) as u8,
        b: (color.b * luma(p) / 255) as u8,
    }
}

pub open spec fn inverted(r: Raster) -> Raster {
    recolored(r, |p: Pixel| inverted_pixel(p))
}

pub open spec fn grayed(r: Raster) -> Raster {
    recolored(r, |p: Pixel| gray_pixel(p))
}

pub open spec fn colorized(r: Raster, color: Pixel) -> Raster {
    recolored(r, |p: Pixel| colorized_pixel(color, p))
}

/// Replaces each colour by its complement.
pub struct Invert;

impl Invert {
    pub fn new() -> (invert: Invert) {
        Invert
    }

    /// The complement of one pixel.
    pub fn invert_pixel(p: Pixel) -> (q: Pixel)
        ensures
            q == inverted_pixel(p),
    {
        Pixel { r: 255 - p.r, g: 255 - p.g, b: 255 - p.b }
    }
}

impl Transformation for Invert {
    open spec fn outcome(&self, r: Raster) -> Option<Raster> {
        Some(inverted(r))
    }

    /// Always succeeds.
    fn apply(&self, image: &Image) -> (result: Result<Image, TransformError>) {
        let source = image.pixels();
        let ghost goal = inverted(image@);
        let mut pixels: Vec<Pixel> = Vec::new();
        let mut i: usize = 0;
        while i < source.len()
            invariant
                source@ == image@.pixels,
                goal == inverted(image@),
                0 <= i <= source.len(),
                pixels@.len() == i,
                forall|j: int| 0 <= j < i ==> pixels@[j] == goal.pixels[j],
            decreases source.len() - i,
        {
            pixels.push(Invert::invert_pixel(source[i]));
            i = i + 1;
        }
        assert(pixels@ =~= goal.pixels);
        Ok(Image::assemble(image.width(), image.height(), pixels))
    }
}

/// Replaces each colour by the grey of the same luma.
pub struct Grayscale;

impl Grayscale {
    pub fn new() -> (grayscale: Grayscale) {
        Grayscale
    }

    /// The grey of one pixel.
    pub fn gray(p: Pixel) -> (q: Pixel)
        ensures
            q == gray_pixel(p),
            q.r == q.g == q.b,
    {
        let sum: u16 = p.r as u16 + p.g as u16 + p.b as u16;
        let level: u8 = (sum / 3) as u8;
        Pixel { r: level, g: level, b: level }
    }
}

impl Transformation for Grayscale {
    open spec fn outcome(&self, r: Raster) -> Option<Raster> {
        Some(grayed(r))
    }

    /// Always succeeds. In the new image the three channels of every pixel
    /// are equal.
    fn apply(&self, image: &Image) -> (result: Result<Image, TransformError>)
        ensures
            result matches Ok(out) && forall|i: int|
                0 <= i < out@.pixels.len() ==> (#[trigger] out@.pixels[i]).r == out@.pixels[i].g
                    && out@.pixels[i].g == out@.pixels[i].b,
    {
        let source = image.pixels();
        let ghost goal = grayed(image@);
        let mut pixels: Vec<Pixel> = Vec::new();
        let mut i: usize = 0;
        while i < source.len()
            invariant
                source@ == image@.pixels,
                goal == grayed(image@),
                0 <= i <= source.len(),
                pixels@.len() == i,
                forall|j: int| 0 <= j < i ==> pixels@[j] == goal.pixels[j],
            decreases source.len() - i,
        {
            pixels.push(Grayscale::gray(source[i]));
            i = i + 1;
        }
        assert(pixels@ =~= goal.pixels);
        Ok(Image::assemble(image.width(), image.height(), pixels))
    }
}

/// Paints an image in the shades of one colour: the brighter a pixel, the
/// closer it comes to that colour.
pub struct Colorize {
    pub color: Pixel,
}

impl Colorize {
    pub fn new(color: Pixel) -> (colorize: Colorize)
        ensures
            colorize == (Colorize { color }),
    {
        Colorize { color }
    }

    /// One channel of the colour at the given luma.
    fn shade(channel: u8, level: u16) -> (c: u8)
        requires
            level <= 255,
        ensures
            c == channel * level / 255,
    {
        assert(0 <= channel * level <= 255 * 255) by (nonlinear_arith)
            requires
                0 <= channel <= 255,
                0 <= level <= 255,
        ;
        ((channel as u32 * level as u32) / 255) as u8
    }

    /// The shade of the colour for one pixel.
    pub fn colorize_pixel(&self, p: Pixel) -> (q: Pixel)
        ensures
            q == colorized_pixel(self.color, p),
    {
        let level: u16 = (p.r as u16 + p.g as u16 + p.b as u16) / 3;
        assert(0 <= self.color.r * luma(p) <= 255 * 255 && 0 <= self.color.g * luma(p) <= 255 * 255
            && 0 <= self.color.b * luma(p) <= 255 * 255) by (nonlinear_arith)
            requires
                0 <= luma(p) <= 255,
                0 <= self.color.r <= 255,
                0 <= self.color.g <= 255,
                0 <= self.color.b <= 255,
        ;
        Pixel {
            r: Colorize::shade(self.color.r, level),
            g: Colorize::shade(self.color.g, level),
            b: Colorize::shade(self.color.b, level),
        }
    }
}

impl Transformation for Colorize {
    open spec fn outcome(&self, r: Raster) -> Option<Raster> {
        Some(colorized(r, self.color))
    }

    /// Always succeeds.
    fn apply(&self, image: &Image) -> (result: Result<Image, TransformError>) {
        let source = image.pixels();
        let ghost goal = colorized(image@, self.color);
        let mut pixels: Vec<Pixel> = Vec::new();
        let mut i: usize = 0;
        while i < source.len()
            invariant
                source@ == image@.pixels,
                goal == colorized(image@, self.color),
                0 <= i <= source.len(),
                pixels@.len() == i,
                forall|j: int| 0 <= j < i ==> pixels@[j] == goal.pixels[j],
            decreases source.len() - i,
        {
            pixels.push(self.colorize_pixel(source[i]));
            i = i + 1;
        }
        assert(pixels@ =~= goal.pixels);
        Ok(Image::assemble(image.width(), image.height(), pixels))
    }
}

/// Inverting twice gives the raster back, whatever the channels hold.
pub proof fn lemma_invert_twice(r: Raster)
    ensures
        inverted(inverted(r)) == r,
{
    assert(inverted(inverted(r)).pixels =~= r.pixels);
}

/// Every pixel of a grey raster has three equal channels.
pub proof fn lemma_gray_channels_equal(r: Raster, i: int)
    requires
        0 <= i < r.pixels.len(),
    ensures
        grayed(r).pixels.len() == r.pixels.len(),
        grayed(r).pixels[i].r == grayed(r).pixels[i].g,
        grayed(r).pixels[i].g == grayed(r).pixels[i].b,
{
}

} // verus!
