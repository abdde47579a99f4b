//! Pixels and raster images.
//!
//! An [`Image`] stores its pixels row by row: the pixel at `(x, y)` is at
//! index `y * width + x`. Every image that exists has exactly
//! `width * height` pixels; contracts speak of an image through its view, a
//! [`Raster`].

use vstd::prelude::*;

verus! {

/// A colour with three 8-bit channels.
#[derive(Debug, Clone, Copy, PartialEq, Eq, Structural)]
pub struct Pixel {
    pub r: u8,
    pub g: u8,
    pub b: u8,
}

/// The channels that a packed `0xRRGGBB` value holds; higher bits are ignored.
pub open spec fn unpacked(hex: u32) -> Pixel {
    Pixel {
        r: ((hex as int / 65536) % 256) as u8,
        g: ((hex as int / 256) % 256) as u8,
        b: (hex as int % 256) as u8,
    }
}

impl Pixel {
    pub fn new(r: u8, g: u8, b: u8) -> (p: Pixel)
        ensures
            p == (Pixel { r, g, b }),
    {
        Pixel { r, g, b }
    }

    /// Unpacks `0xRRGGBB`.
    pub fn from_hex(hex: u32) -> (p: Pixel)
        ensures
            p == unpacked(hex),
    {
        assert(((hex >> 16) & 0xFF) == (hex / 65536) % 256) by (bit_vector);
        assert(((hex >> 8) & 0xFF) == (hex / 256) % 256) by (bit_vector);
        assert((hex & 0xFF) == hex % 256) by (bit_vector);
        Pixel {
            r: ((hex >> 16) & 0xFF) as u8,
            g: ((hex >> 8) & 0xFF) as u8,
            b: (hex & 0xFF) as u8,
        }
    }
}

/// The mathematical content of an image.
pub struct Raster {
    pub width: int,
    pub height: int,
    pub pixels: Seq<Pixel>,
}

impl Raster {
    /// Both dimensions are non-negative and there is one pixel per cell.
    pub open spec fn wf(self) -> bool {
        &&& 0 <= self.width
        &&& 0 <= self.height
        &&& self.pixels.len() == self.width * self.height
    }

    /// The pixel in column `x` of row `y`.
    pub open spec fn at(self, x: int, y: int) -> Pixel {
        self.pixels[y * self.width + x]
    }

    pub open spec fn contains(self, x: int, y: int) -> bool {
        0 <= x < self.width && 0 <= y < self.height
    }
}

/// The raster of the given size whose pixel at `(x, y)` is `f(x, y)`.
pub open spec fn tabulate(width: int, height: int, f: spec_fn(int, int) -> Pixel) -> Raster {
    Raster {
        width,
        height,
        pixels: Seq::new((width * height) as nat, |i: int| f(i % width, i / width)),
    }
}

/// Row-major indexing is a bijection between cells and indices.
pub proof fn lemma_row_major(width: int, height: int, x: int, y: int)
    requires
        0 <= x < width,
        0 <= y < height,
    ensures
        0 <= y * width + x < width * height,
        (y * width + x) % width == x,
        (y * width + x) / width == y,
{
    assert(y * width + x < width * height) by (nonlinear_arith)
        requires
            0 <= x < width,
            0 <= y < height,
    {
        assert(y * width + width <= height * width);
    }
    assert(0 <= y * width + x) by (nonlinear_arith)
        requires
            0 <= x < width,
            0 <= y,
    ;
    vstd::arithmetic::div_mod::lemma_fundamental_div_mod_converse(y * width + x, width, y, x);
}

/// Every index below `width * height` names a cell of the raster.
pub proof fn lemma_cell_of_index(width: int, height: int, i: int)
    requires
        0 <= i < width * height,
        0 <= width,
        0 <= height,
    ensures
        0 <= i % width < width,
        0 <= i / width < height,
        i == (i / width) * width + i % width,
{
    assert(width > 0) by (nonlinear_arith)
        requires
            0 <= i < width * height,
            0 <= width,
    ;
    vstd::arithmetic::div_mod::lemma_fundamental_div_mod(i, width);
    vstd::arithmetic::div_mod::lemma_mod_bound(i, width);
    let q = i / width;
    assert(i == width * q + i % width);
    assert(0 <= q < height) by (nonlinear_arith)
        requires
            0 <= i < width * height,
            i == width * q + i % width,
            0 <= i % width < width,
            0 < width,
    ;
    assert(width * q == q * width) by (nonlinear_arith);
}

/// Two well-formed rasters of one size that agree at every cell are equal.
pub proof fn lemma_raster_ext(a: Raster, b: Raster)
    requires
        a.wf(),
        b.wf(),
        a.width == b.width,
        a.height == b.height,
        forall|x: int, y: int| a.contains(x, y) ==> #[trigger] a.at(x, y) == b.at(x, y),
    ensures
        a == b,
{
    assert forall|i: int| 0 <= i < a.pixels.len() implies a.pixels[i] == b.pixels[i] by {
        lemma_cell_of_index(a.width, a.height, i);
        assert(a.contains(i % a.width, i / a.width));
        assert(a.at(i % a.width, i / a.width) == b.at(i % a.width, i / a.width));
    }
    assert(a.pixels =~= b.pixels);
}

/// A raster image. Immutable once made: every transform returns a new image.
pub struct Image {
    pub(crate) width: i32,
    pub(crate) height: i32,
    pub(crate) pixels: Vec<Pixel>,
}

impl View for Image {
    type V = Raster;

    closed spec fn view(&self) -> Raster {
        Raster { width: self.width as int, height: self.height as int, pixels: self.pixels@ }
    }
}

impl Image {
    #[verifier::type_invariant]
    spec fn well_formed(&self) -> bool {
        self@.wf()
    }

    /// Builds an image from its pixels in row-major order, or `None` where a
    /// dimension is negative or the number of pixels is not `width * height`.
    pub fn from_pixels(width: i32, height: i32, pixels: Vec<Pixel>) -> (made: Option<Image>)
        ensures
            made is Some <==> (Raster { width: width as int, height: height as int, pixels: pixels@ }).wf(),
            made matches Some(image) ==> image@ == (Raster {
                width: width as int,
                height: height as int,
                pixels: pixels@,
            }),
    {
        if width < 0 || height < 0 {
            return None;
        }
        assert(0 <= (width as int) * (height as int) <= 0x7fff_ffff * 0x7fff_ffff) by (nonlinear_arith)
            requires
                0 <= width <= 0x7fff_ffff,
                0 <= height <= 0x7fff_ffff,
        ;
        let cells: i64 = (width as i64) * (height as i64);
        if pixels.len() as u64 != cells as u64 {
            return None;
        }
        Some(Image { width, height, pixels })
    }

    /// As [`Image::from_pixels`], for parts already known to fit together.
    pub(crate) fn assemble(width: i32, height: i32, pixels: Vec<Pixel>) -> (image: Image)
        requires
            (Raster { width: width as int, height: height as int, pixels: pixels@ }).wf(),
        ensures
            image@ == (Raster { width: width as int, height: height as int, pixels: pixels@ }),
    {
        Image { width, height, pixels }
    }

    pub fn width(&self) -> (w: i32)
        ensures
            w == self@.width,
            self@.wf(),
    {
        proof {
            use_type_invariant(self);
        }
        self.width
    }

    pub fn height(&self) -> (h: i32)
        ensures
            h == self@.height,
            self@.wf(),
    {
        proof {
            use_type_invariant(self);
        }
        self.height
    }

    /// The pixels, row by row.
    pub fn pixels(&self) -> (pixels: &Vec<Pixel>)
        ensures
            pixels@ == self@.pixels,
            self@.wf(),
    {
        proof {
            use_type_invariant(self);
        }
        &self.pixels
    }

    /// The pixel at `(x, y)`, or `None` where the image has no such cell.
    pub fn pixel_at(&self, x: i32, y: i32) -> (found: Option<Pixel>)
        ensures
            found == if self@.contains(x as int, y as int) {
                Some(self@.at(x as int, y as int))
            } else {
                None
            },
    {
        if x < 0 || y < 0 || x >= self.width() || y >= self.height() {
            None
        } else {
            Some(self.get(x, y))
        }
    }

    /// The pixel at a cell of the image.
    pub(crate) fn get(&self, x: i32, y: i32) -> (p: Pixel)
        requires
            self@.contains(x as int, y as int),
        ensures
            p == self@.at(x as int, y as int),
    {
        proof {
            use_type_invariant(self);
            lemma_row_major(self.width as int, self.height as int, x as int, y as int);
            assert(0 <= (y as int) * (self.width as int)) by (nonlinear_arith)
                requires
                    0 <= y,
                    0 <= self.width,
            ;
            assert(self.pixels@.len() == self.pixels.len() as int);
            assert((self.width as int) * (self.height as int) <= usize::MAX);
        }
        let index: usize = (y as usize) * (self.width as usize) + (x as usize);
        self.pixels[index]
    }
}

} // verus!
