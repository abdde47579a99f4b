//! Transforms that move pixels: crop, flip, rotate and scale-to-fit.
//!
//! Each result is stated as a [`tabulate`]d raster: the size of the new image
//! and, for every cell of it, the cell of the source that it shows.

use vstd::prelude::*;
use crate::image::{
    lemma_cell_of_index, lemma_raster_ext, lemma_row_major, tabulate, Image, Pixel, Raster,
};
use crate::transforms::{TransformError, Transformation};

verus! {

/// The `width` by `height` rectangle of `r` whose top-left corner is `(x, y)`.
pub open spec fn cropped(r: Raster, x: int, y: int, width: int, height: int) -> Raster {
    tabulate(width, height, |dx: int, dy: int| r.at(x + dx, y + dy))
}

/// Cuts a rectangle out of an image.
pub struct Crop {
    pub x: i32,
    pub y: i32,
    pub width: i32,
    pub height: i32,
}

impl Crop {
    pub fn new(x: i32, y: i32, width: i32, height: i32) -> (crop: Crop)
        ensures
            crop == (Crop { x, y, width, height }),
    {
        Crop { x, y, width, height }
    }

    /// The rectangle has no negative coordinate or side and lies inside `r`.
    pub open spec fn fits(&self, r: Raster) -> bool {
        &&& 0 <= self.x
        &&& 0 <= self.y
        &&& 0 <= self.width
        &&& 0 <= self.height
        &&& self.x + self.width <= r.width
        &&& self.y + self.height <= r.height
    }
}

impl Transformation for Crop {
    open spec fn outcome(&self, r: Raster) -> Option<Raster> {
        if self.fits(r) {
            Some(cropped(r, self.x as int, self.y as int, self.width as int, self.height as int))
        } else {
            None
        }
    }

    /// Copies the rectangle into a new image, or fails with `OutOfBounds`
    /// where it does not lie inside the image. A rectangle with a side of
    /// zero gives an image without pixels.
    fn apply(&self, image: &Image) -> (result: Result<Image, TransformError>)
        ensures
            self.x + self.width > image@.width || self.y + self.height > image@.height ==> result
                == Err::<Image, TransformError>(TransformError::OutOfBounds),
    {
        let src_width: i32 = image.width();
        let src_height: i32 = image.height();
        if self.x < 0 || self.y < 0 || self.width < 0 || self.height < 0 {
            return Err(TransformError::OutOfBounds);
        }
        if self.x as i64 + self.width as i64 > src_width as i64 || self.y as i64
            + self.height as i64 > src_height as i64 {
            return Err(TransformError::OutOfBounds);
        }
        let ghost goal = cropped(
            image@,
            self.x as int,
            self.y as int,
            self.width as int,
            self.height as int,
        );
        assert(0 <= self.width * self.height) by (nonlinear_arith)
            requires
                0 <= self.width,
                0 <= self.height,
        ;
        let mut pixels: Vec<Pixel> = Vec::new();
        let mut dy: i32 = 0;
        while dy < self.height
            invariant
                self.fits(image@),
                image@.wf(),
                image@.width == src_width,
                image@.height == src_height,
                goal.pixels.len() == self.width * self.height,
                goal == cropped(
                    image@,
                    self.x as int,
                    self.y as int,
                    self.width as int,
                    self.height as int,
                ),
                0 <= dy <= self.height,
                pixels@.len() == dy * self.width,
                forall|j: int| 0 <= j < pixels@.len() ==> pixels@[j] == goal.pixels[j],
            decreases self.height - dy,
        {
            let mut dx: i32 = 0;
            while dx < self.width
                invariant
                    self.fits(image@),
                    image@.wf(),
                    image@.width == src_width,
                    image@.height == src_height,
                    goal.pixels.len() == self.width * self.height,
                    goal == cropped(
                        image@,
                        self.x as int,
                        self.y as int,
                        self.width as int,
                        self.height as int,
                    ),
                    0 <= dy < self.height,
                    0 <= dx <= self.width,
                    pixels@.len() == dy * self.width + dx,
                    forall|j: int| 0 <= j < pixels@.len() ==> pixels@[j] == goal.pixels[j],
                decreases self.width - dx,
            {
                proof {
                    lemma_row_major(self.width as int, self.height as int, dx as int, dy as int);
                }
                pixels.push(image.get(self.x + dx, self.y + dy));
                dx = dx + 1;
            }
            assert(dy * self.width + self.width == (dy + 1) * self.width) by (nonlinear_arith);
            dy = dy + 1;
        }
        assert(self.height * self.width == self.width * self.height) by (nonlinear_arith);
        assert(pixels@ =~= goal.pixels);
        Ok(Image::assemble(self.width, self.height, pixels))
    }
}

/// The line in which a flip mirrors the image.
#[derive(Debug, Clone, Copy, PartialEq, Eq, Structural)]
pub enum FlipAxis {
    /// Left and right change places.
    Horizontal,
    /// Top and bottom change places.
    Vertical,
}

/// `r` mirrored: the pixel at `(x, y)` moves to `(width - 1 - x, y)` for a
/// horizontal flip and to `(x, height - 1 - y)` for a vertical one.
pub open spec fn flipped(r: Raster, axis: FlipAxis) -> Raster {
    match axis {
        FlipAxis::Horizontal => tabulate(
            r.width,
            r.height,
            |x: int, y: int| r.at(r.width - 1 - x, y),
        ),
        FlipAxis::Vertical => tabulate(
            r.width,
            r.height,
            |x: int, y: int| r.at(x, r.height - 1 - y),
        ),
    }
}

/// Mirrors an image.
pub struct Flip {
    pub axis: FlipAxis,
}

impl Flip {
    pub fn new(axis: FlipAxis) -> (flip: Flip)
        ensures
            flip == (Flip { axis }),
    {
        Flip { axis }
    }
}

impl Transformation for Flip {
    open spec fn outcome(&self, r: Raster) -> Option<Raster> {
        Some(flipped(r, self.axis))
    }

    /// Always succeeds; the new image has the size of the given one.
    fn apply(&self, image: &Image) -> (result: Result<Image, TransformError>) {
        let width: i32 = image.width();
        let height: i32 = image.height();
        let ghost goal = flipped(image@, self.axis);
        assert(0 <= width * height) by (nonlinear_arith)
            requires
                0 <= width,
                0 <= height,
        ;
        let mut pixels: Vec<Pixel> = Vec::new();
        let mut y: i32 = 0;
        while y < height
            invariant
                image@.wf(),
                image@.width == width,
                image@.height == height,
                goal == flipped(image@, self.axis),
                goal.pixels.len() == width * height,
                0 <= y <= height,
                pixels@.len() == y * width,
                forall|j: int| 0 <= j < pixels@.len() ==> pixels@[j] == goal.pixels[j],
            decreases height - y,
        {
            let mut x: i32 = 0;
            while x < width
                invariant
                    image@.wf(),
                    image@.width == width,
                    image@.height == height,
                    goal == flipped(image@, self.axis),
                    goal.pixels.len() == width * height,
                    0 <= y < height,
                    0 <= x <= width,
                    pixels@.len() == y * width + x,
                    forall|j: int| 0 <= j < pixels@.len() ==> pixels@[j] == goal.pixels[j],
                decreases width - x,
            {
                proof {
                    lemma_row_major(width as int, height as int, x as int, y as int);
                }
                let source = match self.axis {
                    FlipAxis::Horizontal => image.get(width - 1 - x, y),
                    FlipAxis::Vertical => image.get(x, height - 1 - y),
                };
                pixels.push(source);
                x = x + 1;
            }
            assert(y * width + width == (y + 1) * width) by (nonlinear_arith);
            y = y + 1;
        }
        assert(height * width == width * height) by (nonlinear_arith);
        assert(pixels@ =~= goal.pixels);
        Ok(Image::assemble(width, height, pixels))
    }
}

/// A clockwise turn by a multiple of a right angle.
#[derive(Debug, Clone, Copy, PartialEq, Eq, Structural)]
pub enum RotateAngle {
    Deg90,
    Deg180,
    Deg270,
}

/// `r` turned clockwise. A quarter turn swaps width and height and moves the
/// pixel at `(x, y)` to `(height - 1 - y, x)`; a half turn moves it to
/// `(width - 1 - x, height - 1 - y)`; a three-quarter turn swaps width and
/// height and moves it to `(y, width - 1 - x)`.
pub open spec fn rotated(r: Raster, angle: RotateAngle) -> Raster {
    match angle {
        RotateAngle::Deg90 => tabulate(
            r.height,
            r.width,
            |x: int, y: int| r.at(y, r.height - 1 - x),
        ),
        RotateAngle::Deg180 => tabulate(
            r.width,
            r.height,
            |x: int, y: int| r.at(r.width - 1 - x, r.height - 1 - y),
        ),
        RotateAngle::Deg270 => tabulate(
            r.height,
            r.width,
            |x: int, y: int| r.at(r.width - 1 - y, x),
        ),
    }
}

/// Turns an image clockwise.
pub struct Rotate {
    pub angle: RotateAngle,
}

impl Rotate {
    pub fn new(angle: RotateAngle) -> (rotate: Rotate)
        ensures
            rotate == (Rotate { angle }),
    {
        Rotate { angle }
    }
}

impl Transformation for Rotate {
    open spec fn outcome(&self, r: Raster) -> Option<Raster> {
        Some(rotated(r, self.angle))
    }

    /// Always succeeds.
    fn apply(&self, image: &Image) -> (result: Result<Image, TransformError>) {
        let src_width: i32 = image.width();
        let src_height: i32 = image.height();
        let (width, height) = match self.angle {
            RotateAngle::Deg90 | RotateAngle::Deg270 => (src_height, src_width),
            RotateAngle::Deg180 => (src_width, src_height),
        };
        let ghost goal = rotated(image@, self.angle);
        assert(0 <= width * height == src_width * src_height) by (nonlinear_arith)
            requires
                0 <= width,
                0 <= height,
                (width == src_width && height == src_height) || (width == src_height && height
                    == src_width),
        ;
        let mut pixels: Vec<Pixel> = Vec::new();
        let mut y: i32 = 0;
        while y < height
            invariant
                image@.wf(),
                image@.width == src_width,
                image@.height == src_height,
                self.angle == RotateAngle::Deg180 ==> width == src_width && height == src_height,
                self.angle != RotateAngle::Deg180 ==> width == src_height && height == src_width,
                goal == rotated(image@, self.angle),
                goal.width == width,
                goal.height == height,
                goal.pixels.len() == width * height,
                0 <= y <= height,
                pixels@.len() == y * width,
                forall|j: int| 0 <= j < pixels@.len() ==> pixels@[j] == goal.pixels[j],
            decreases height - y,
        {
            let mut x: i32 = 0;
            while x < width
                invariant
                    image@.wf(),
                    image@.width == src_width,
                    image@.height == src_height,
                    self.angle == RotateAngle::Deg180 ==> width == src_width && height
                        == src_height,
                    self.angle != RotateAngle::Deg180 ==> width == src_height && height
                        == src_width,
                    goal == rotated(image@, self.angle),
                    goal.width == width,
                    goal.height == height,
                    goal.pixels.len() == width * height,
                    0 <= y < height,
                    0 <= x <= width,
                    pixels@.len() == y * width + x,
                    forall|j: int| 0 <= j < pixels@.len() ==> pixels@[j] == goal.pixels[j],
                decreases width - x,
            {
                proof {
                    lemma_row_major(width as int, height as int, x as int, y as int);
                }
                let source = match self.angle {
                    RotateAngle::Deg90 => image.get(y, src_height - 1 - x),
                    RotateAngle::Deg180 => image.get(src_width - 1 - x, src_height - 1 - y),
                    RotateAngle::Deg270 => image.get(src_width - 1 - y, x),
                };
                pixels.push(source);
                x = x + 1;
            }
            assert(y * width + width == (y + 1) * width) by (nonlinear_arith);
            y = y + 1;
        }
        assert(height * width == width * height) by (nonlinear_arith);
        assert(pixels@ =~= goal.pixels);
        Ok(Image::assemble(width, height, pixels))
    }
}

/// A length multiplied by the scale `num / den` and rounded down, but never
/// less than one.
pub open spec fn scaled(len: int, num: int, den: int) -> int {
    if len * num / den < 1 {
        1
    } else {
        len * num / den
    }
}

/// The size to which a `width` by `height` image shrinks to fit a box of
/// `max_width` by `max_height`. The scale is the smallest of
/// `max_width / width`, `max_height / height` and one, so nothing grows and
/// the proportions stay; each side is rounded down, but not below one.
pub open spec fn fit_size(width: int, height: int, max_width: int, max_height: int) -> (int, int) {
    if max_width >= width && max_height >= height {
        (width, height)
    } else if max_width * height <= max_height * width {
        (scaled(width, max_width, width), scaled(height, max_width, width))
    } else {
        (scaled(width, max_height, height), scaled(height, max_height, height))
    }
}

/// `r` resampled to the size that fits the box: the new pixel at `(x, y)` is
/// the nearest neighbour above and to the left, the pixel of `r` at
/// `(x * width / new_width, y * height / new_height)`, rounded down.
pub open spec fn fitted(r: Raster, max_width: int, max_height: int) -> Raster {
    let size = fit_size(r.width, r.height, max_width, max_height);
    tabulate(size.0, size.1, |x: int, y: int| r.at(x * r.width / size.0, y * r.height / size.1))
}

/// A scaled length lies between one and the length itself.
pub proof fn lemma_scaled_bounds(len: int, num: int, den: int)
    requires
        0 < len,
        0 < num <= den,
    ensures
        1 <= scaled(len, num, den) <= len,
{
    vstd::arithmetic::mul::lemma_mul_inequality(num, den, len);
    assert(num * len == len * num) by (nonlinear_arith);
    vstd::arithmetic::div_mod::lemma_div_is_ordered(len * num, den * len, den);
    vstd::arithmetic::div_mod::lemma_div_multiples_vanish(len, den);
}

/// The fitted size is at least one by one, and neither side grows.
pub proof fn lemma_fit_size_bounds(width: int, height: int, max_width: int, max_height: int)
    requires
        0 < width,
        0 < height,
        0 < max_width,
        0 < max_height,
    ensures
        1 <= fit_size(width, height, max_width, max_height).0 <= width,
        1 <= fit_size(width, height, max_width, max_height).1 <= height,
{
    if max_width >= width && max_height >= height {
    } else if max_width * height <= max_height * width {
        assert(max_width <= width) by (nonlinear_arith)
            requires
                max_width * height <= max_height * width,
                !(max_width >= width && max_height >= height),
                0 < width,
                0 < height,
                0 < max_width,
                0 < max_height,
        ;
        lemma_scaled_bounds(width, max_width, width);
        lemma_scaled_bounds(height, max_width, width);
    } else {
        assert(max_height <= height) by (nonlinear_arith)
            requires
                max_width * height > max_height * width,
                !(max_width >= width && max_height >= height),
                0 < width,
                0 < height,
                0 < max_width,
                0 < max_height,
        ;
        lemma_scaled_bounds(width, max_height, height);
        lemma_scaled_bounds(height, max_height, height);
    }
}

/// The nearest-neighbour source of a new coordinate is a coordinate of the
/// source.
pub proof fn lemma_sample_bounds(d: int, len: int, new_len: int)
    requires
        0 <= d < new_len,
        0 < len,
    ensures
        0 <= d * len / new_len < len,
{
    vstd::arithmetic::mul::lemma_mul_strict_inequality(d, new_len, len);
    assert(0 <= d * len) by (nonlinear_arith)
        requires
            0 <= d,
            0 < len,
    ;
    vstd::arithmetic::div_mod::lemma_multiply_divide_lt(d * len, new_len, len);
    vstd::arithmetic::div_mod::lemma_div_pos_is_pos(d * len, new_len);
}

/// Fitting an image of a single colour gives an image of that colour.
pub proof fn lemma_fit_keeps_uniform_colour(r: Raster, max_width: int, max_height: int, colour: Pixel)
    requires
        r.wf(),
        0 < r.width,
        0 < r.height,
        0 < max_width,
        0 < max_height,
        forall|i: int| 0 <= i < r.pixels.len() ==> r.pixels[i] == colour,
    ensures
        fitted(r, max_width, max_height).wf(),
        forall|i: int|
            0 <= i < fitted(r, max_width, max_height).pixels.len() ==> fitted(
                r,
                max_width,
                max_height,
            ).pixels[i] == colour,
{
    let out = fitted(r, max_width, max_height);
    lemma_fit_size_bounds(r.width, r.height, max_width, max_height);
    assert(0 < out.width * out.height) by (nonlinear_arith)
        requires
            0 < out.width,
            0 < out.height,
    ;
    assert forall|i: int| 0 <= i < out.pixels.len() implies out.pixels[i] == colour by {
        lemma_cell_of_index(out.width, out.height, i);
        let x = i % out.width;
        let y = i / out.width;
        lemma_sample_bounds(x, r.width, out.width);
        lemma_sample_bounds(y, r.height, out.height);
        lemma_row_major(r.width, r.height, x * r.width / out.width, y * r.height / out.height);
    }
}

/// `len * num / den`, rounded down and raised to one.
fn scale_length(len: i32, num: i32, den: i32) -> (s: i32)
    requires
        0 < len,
        0 < num <= den,
    ensures
        s == scaled(len as int, num as int, den as int),
        1 <= s <= len,
{
    proof {
        lemma_scaled_bounds(len as int, num as int, den as int);
        assert(0 <= (len as int) * (num as int) <= 0x7fff_ffff * 0x7fff_ffff) by (nonlinear_arith)
            requires
                0 < len <= 0x7fff_ffff,
                0 < num <= 0x7fff_ffff,
        ;
    }
    let product: u64 = (len as u64) * (num as u64);
    let quotient: u64 = product / (den as u64);
    if quotient < 1 {
        1
    } else {
        quotient as i32
    }
}

/// The source coordinate that the new coordinate `d` shows.
fn sample(d: i32, len: i32, new_len: i32) -> (s: i32)
    requires
        0 <= d < new_len,
        0 < len,
    ensures
        s == (d as int) * (len as int) / (new_len as int),
        0 <= s < len,
{
    proof {
        lemma_sample_bounds(d as int, len as int, new_len as int);
        assert(0 <= (d as int) * (len as int) <= 0x7fff_ffff * 0x7fff_ffff) by (nonlinear_arith)
            requires
                0 <= d <= 0x7fff_ffff,
                0 < len <= 0x7fff_ffff,
        ;
    }
    let product: u64 = (d as u64) * (len as u64);
    (product / (new_len as u64)) as i32
}

/// Shrinks an image, if it must, until it fits a box.
pub struct Fit {
    pub max_width: i32,
    pub max_height: i32,
}

impl Fit {
    pub fn new(max_width: i32, max_height: i32) -> (fit: Fit)
        ensures
            fit == (Fit { max_width, max_height }),
    {
        Fit { max_width, max_height }
    }

    /// The box and the raster both have a positive width and height.
    pub open spec fn scales(&self, r: Raster) -> bool {
        &&& 0 < self.max_width
        &&& 0 < self.max_height
        &&& 0 < r.width
        &&& 0 < r.height
    }
}

impl Transformation for Fit {
    open spec fn outcome(&self, r: Raster) -> Option<Raster> {
        if self.scales(r) {
            Some(fitted(r, self.max_width as int, self.max_height as int))
        } else {
            None
        }
    }

    /// Resamples the image to the fitted size. Fails with `OutOfBounds` where
    /// the box or the image has no positive width and height: there is no
    /// scale for them.
    fn apply(&self, image: &Image) -> (result: Result<Image, TransformError>) {
        let src_width: i32 = image.width();
        let src_height: i32 = image.height();
        if self.max_width <= 0 || self.max_height <= 0 || src_width <= 0 || src_height <= 0 {
            return Err(TransformError::OutOfBounds);
        }
        proof {
            lemma_fit_size_bounds(
                src_width as int,
                src_height as int,
                self.max_width as int,
                self.max_height as int,
            );
            assert(0 <= (self.max_width as int) * (src_height as int) <= 0x7fff_ffff * 0x7fff_ffff)
                by (nonlinear_arith)
                requires
                    0 < self.max_width <= 0x7fff_ffff,
                    0 < src_height <= 0x7fff_ffff,
            ;
            assert(0 <= (self.max_height as int) * (src_width as int) <= 0x7fff_ffff * 0x7fff_ffff)
                by (nonlinear_arith)
                requires
                    0 < self.max_height <= 0x7fff_ffff,
                    0 < src_width <= 0x7fff_ffff,
            ;
        }
        let (width, height) = if self.max_width >= src_width && self.max_height >= src_height {
            (src_width, src_height)
        } else if (self.max_width as u64) * (src_height as u64) <= (self.max_height as u64) * (
        src_width as u64) {
            assert(self.max_width <= src_width) by (nonlinear_arith)
                requires
                    self.max_width * src_height <= self.max_height * src_width,
                    !(self.max_width >= src_width && self.max_height >= src_height),
                    0 < src_width,
                    0 < src_height,
                    0 < self.max_width,
                    0 < self.max_height,
            ;
            (
                scale_length(src_width, self.max_width, src_width),
                scale_length(src_height, self.max_width, src_width),
            )
        } else {
            assert(self.max_height <= src_height) by (nonlinear_arith)
                requires
                    self.max_width * src_height > self.max_height * src_width,
                    !(self.max_width >= src_width && self.max_height >= src_height),
                    0 < src_width,
                    0 < src_height,
                    0 < self.max_width,
                    0 < self.max_height,
            ;
            (
                scale_length(src_width, self.max_height, src_height),
                scale_length(src_height, self.max_height, src_height),
            )
        };
        let ghost goal = fitted(image@, self.max_width as int, self.max_height as int);
        assert(goal.width == width && goal.height == height);
        assert(0 <= width * height <= src_width * src_height) by (nonlinear_arith)
            requires
                0 < width <= src_width,
                0 < height <= src_height,
        ;
        let mut pixels: Vec<Pixel> = Vec::new();
        let mut y: i32 = 0;
        while y < height
            invariant
                image@.wf(),
                image@.width == src_width,
                image@.height == src_height,
                0 < width <= src_width,
                0 < height <= src_height,
                goal == fitted(image@, self.max_width as int, self.max_height as int),
                goal.width == width,
                goal.height == height,
                goal.pixels.len() == width * height,
                0 <= y <= height,
                pixels@.len() == y * width,
                forall|j: int| 0 <= j < pixels@.len() ==> pixels@[j] == goal.pixels[j],
            decreases height - y,
        {
            let source_y: i32 = sample(y, src_height, height);
            let mut x: i32 = 0;
            while x < width
                invariant
                    image@.wf(),
                    image@.width == src_width,
                    image@.height == src_height,
                    0 < width <= src_width,
                    0 < height <= src_height,
                    goal == fitted(image@, self.max_width as int, self.max_height as int),
                    goal.width == width,
                    goal.height == height,
                    goal.pixels.len() == width * height,
                    0 <= y < height,
                    0 <= x <= width,
                    source_y == (y as int) * (src_height as int) / (height as int),
                    0 <= source_y < src_height,
                    pixels@.len() == y * width + x,
                    forall|j: int| 0 <= j < pixels@.len() ==> pixels@[j] == goal.pixels[j],
                decreases width - x,
            {
                proof {
                    lemma_row_major(width as int, height as int, x as int, y as int);
                }
                let source_x: i32 = sample(x, src_width, width);
                pixels.push(image.get(source_x, source_y));
                x = x + 1;
            }
            assert(y * width + width == (y + 1) * width) by (nonlinear_arith);
            y = y + 1;
        }
        assert(height * width == width * height) by (nonlinear_arith);
        assert(pixels@ =~= goal.pixels);
        Ok(Image::assemble(width, height, pixels))
    }
}

/// What a flipped raster holds, cell by cell.
pub proof fn lemma_flipped_at(r: Raster, axis: FlipAxis, x: int, y: int)
    requires
        r.wf(),
        r.contains(x, y),
    ensures
        flipped(r, axis).wf(),
        flipped(r, axis).width == r.width,
        flipped(r, axis).height == r.height,
        axis == FlipAxis::Horizontal ==> flipped(r, axis).at(x, y) == r.at(r.width - 1 - x, y),
        axis == FlipAxis::Vertical ==> flipped(r, axis).at(x, y) == r.at(x, r.height - 1 - y),
{
    lemma_row_major(r.width, r.height, x, y);
}

/// Mirroring twice in the same line gives the raster back.
pub proof fn lemma_flip_twice(r: Raster, axis: FlipAxis)
    requires
        r.wf(),
    ensures
        flipped(flipped(r, axis), axis) == r,
{
    let once = flipped(r, axis);
    let twice = flipped(once, axis);
    assert(0 <= r.width * r.height) by (nonlinear_arith)
        requires
            0 <= r.width,
            0 <= r.height,
    ;
    assert forall|x: int, y: int| twice.contains(x, y) implies #[trigger] twice.at(x, y) == r.at(
        x,
        y,
    ) by {
        lemma_flipped_at(once, axis, x, y);
        match axis {
            FlipAxis::Horizontal => lemma_flipped_at(r, axis, r.width - 1 - x, y),
            FlipAxis::Vertical => lemma_flipped_at(r, axis, x, r.height - 1 - y),
        }
    }
    lemma_raster_ext(twice, r);
}

/// The size of a rotated raster.
pub proof fn lemma_rotated_size(r: Raster, angle: RotateAngle)
    requires
        r.wf(),
    ensures
        rotated(r, angle).wf(),
        angle == RotateAngle::Deg180 ==> rotated(r, angle).width == r.width && rotated(
            r,
            angle,
        ).height == r.height,
        angle != RotateAngle::Deg180 ==> rotated(r, angle).width == r.height && rotated(
            r,
            angle,
        ).height == r.width,
{
    assert(0 <= r.width * r.height == r.height * r.width) by (nonlinear_arith)
        requires
            0 <= r.width,
            0 <= r.height,
    ;
}

/// What a rotated raster holds, cell by cell: `(x, y)` is a cell of the
/// rotated raster.
pub proof fn lemma_rotated_at(r: Raster, angle: RotateAngle, x: int, y: int)
    requires
        r.wf(),
        rotated(r, angle).contains(x, y),
    ensures
        angle == RotateAngle::Deg90 ==> rotated(r, angle).at(x, y) == r.at(y, r.height - 1 - x)
            && r.contains(y, r.height - 1 - x),
        angle == RotateAngle::Deg180 ==> rotated(r, angle).at(x, y) == r.at(
            r.width - 1 - x,
            r.height - 1 - y,
        ) && r.contains(r.width - 1 - x, r.height - 1 - y),
        angle == RotateAngle::Deg270 ==> rotated(r, angle).at(x, y) == r.at(r.width - 1 - y, x)
            && r.contains(r.width - 1 - y, x),
{
    lemma_rotated_size(r, angle);
    let t = rotated(r, angle);
    lemma_row_major(t.width, t.height, x, y);
}

/// Four quarter turns give the raster back, size and pixels.
pub proof fn lemma_rotate_quarter_four_times(r: Raster)
    requires
        r.wf(),
    ensures
        rotated(
            rotated(rotated(rotated(r, RotateAngle::Deg90), RotateAngle::Deg90), RotateAngle::Deg90),
            RotateAngle::Deg90,
        ) == r,
{
    let q = RotateAngle::Deg90;
    let r1 = rotated(r, q);
    let r2 = rotated(r1, q);
    let r3 = rotated(r2, q);
    let r4 = rotated(r3, q);
    lemma_rotated_size(r, q);
    lemma_rotated_size(r1, q);
    lemma_rotated_size(r2, q);
    lemma_rotated_size(r3, q);
    assert forall|x: int, y: int| r4.contains(x, y) implies #[trigger] r4.at(x, y) == r.at(x, y) by {
        lemma_rotated_at(r3, q, x, y);
        lemma_rotated_at(r2, q, y, r.width - 1 - x);
        lemma_rotated_at(r1, q, r.width - 1 - x, r.height - 1 - y);
        lemma_rotated_at(r, q, r.height - 1 - y, x);
    }
    lemma_raster_ext(r4, r);
}

/// Two half turns give the raster back.
pub proof fn lemma_rotate_half_twice(r: Raster)
    requires
        r.wf(),
    ensures
        rotated(rotated(r, RotateAngle::Deg180), RotateAngle::Deg180) == r,
{
    let h = RotateAngle::Deg180;
    let r1 = rotated(r, h);
    let r2 = rotated(r1, h);
    lemma_rotated_size(r, h);
    lemma_rotated_size(r1, h);
    assert forall|x: int, y: int| r2.contains(x, y) implies #[trigger] r2.at(x, y) == r.at(x, y) by {
        lemma_rotated_at(r1, h, x, y);
        lemma_rotated_at(r, h, r.width - 1 - x, r.height - 1 - y);
    }
    lemma_raster_ext(r2, r);
}

/// Cropping to the whole raster changes nothing.
pub proof fn lemma_crop_whole(r: Raster)
    requires
        r.wf(),
    ensures
        cropped(r, 0, 0, r.width, r.height) == r,
{
    let c = cropped(r, 0, 0, r.width, r.height);
    assert(0 <= r.width * r.height) by (nonlinear_arith)
        requires
            0 <= r.width,
            0 <= r.height,
    ;
    assert forall|x: int, y: int| c.contains(x, y) implies #[trigger] c.at(x, y) == r.at(x, y) by {
        lemma_row_major(r.width, r.height, x, y);
    }
    lemma_raster_ext(c, r);
}

} // verus!
