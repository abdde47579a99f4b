//! Convolution: every pixel becomes a weighted sum of its neighbourhood.
//!
//! A [`Kernel`] is a square table of integer weights with a common divisor,
//! so that a weight stands for the fraction `weight / divisor` and the sums
//! are exact. Neighbours beyond the border of the image are replaced by the
//! nearest pixel inside it.

use vstd::prelude::*;
use crate::image::{lemma_row_major, tabulate, Image, Pixel, Raster};

verus! {

/// `v`, or the nearer of the two bounds where it lies outside them.
pub open spec fn clamped(v: int, low: int, high: int) -> int {
    if v < low {
        low
    } else if v > high {
        high
    } else {
        v
    }
}

/// The pixel that a window centred at `(x, y)` shows at the offset
/// `(dx, dy)`: the pixel of `r` nearest to `(x + dx, y + dy)`.
pub open spec fn sampled(r: Raster, x: int, y: int, dx: int, dy: int) -> Pixel {
    r.at(clamped(x + dx, 0, r.width - 1), clamped(y + dy, 0, r.height - 1))
}

/// Channel 0 is red, 1 is green, and any other is blue.
pub open spec fn channel(p: Pixel, c: int) -> int {
    if c == 0 {
        p.r as int
    } else if c == 1 {
        p.g as int
    } else {
        p.b as int
    }
}

/// The mathematical content of a kernel: `size * size` weights, row by row,
/// each standing for `weight / divisor`.
pub struct KernelView {
    pub size: int,
    pub weights: Seq<i32>,
    pub divisor: int,
}

/// The sum of the first `n` of the weights.
pub open spec fn weight_total(weights: Seq<i32>, n: int) -> int
    decreases n,
{
    if n <= 0 {
        0
    } else {
        weight_total(weights, n - 1) + weights[n - 1]
    }
}

impl KernelView {
    /// The side is odd and positive, there is a weight for each cell, and the
    /// divisor is not zero.
    pub open spec fn wf(self) -> bool {
        &&& self.size > 0
        &&& self.size % 2 == 1
        &&& self.weights.len() == self.size * self.size
        &&& self.divisor != 0
    }

    /// The weight at the offset `(dx, dy)` from the centre.
    pub open spec fn weight(self, dx: int, dy: int) -> int {
        self.weights[(self.size / 2 + dy) * self.size + (self.size / 2 + dx)] as int
    }

    /// The sum of all weights.
    pub open spec fn total(self) -> int {
        weight_total(self.weights, self.weights.len() as int)
    }

    /// The kernel whose weights stand for the same fractions divided by
    /// their sum, so that they add up to one; the kernel itself where the
    /// sum is zero.
    pub open spec fn normalized(self) -> KernelView {
        if self.total() == 0 {
            self
        } else {
            KernelView { divisor: self.total(), ..self }
        }
    }
}

/// The first `n` terms, row by row, of the sum over the window centred at
/// `(x, y)` of weight times channel `c`.
pub open spec fn weighted_sum(r: Raster, k: KernelView, x: int, y: int, c: int, n: int) -> int
    decreases n,
{
    if n <= 0 {
        0
    } else {
        weighted_sum(r, k, x, y, c, n - 1) + k.weights[n - 1] * channel(
            sampled(r, x, y, (n - 1) % k.size - k.size / 2, (n - 1) / k.size - k.size / 2),
            c,
        )
    }
}

/// The channel for the sum `acc` of a kernel with the given divisor: the
/// quotient, cut off at 0 and at 255 and then rounded down.
pub open spec fn channel_value(acc: int, divisor: int) -> int {
    clamped(
        if divisor > 0 {
            acc / divisor
        } else {
            (-acc) / (-divisor)
        },
        0,
        255,
    )
}

/// The pixel that the kernel gives at `(x, y)`.
pub open spec fn convolved_pixel(r: Raster, k: KernelView, x: int, y: int) -> Pixel {
    Pixel {
        r: channel_value(weighted_sum(r, k, x, y, 0, k.size * k.size), k.divisor) as u8,
        g: channel_value(weighted_sum(r, k, x, y, 1, k.size * k.size), k.divisor) as u8,
        b: channel_value(weighted_sum(r, k, x, y, 2, k.size * k.size), k.divisor) as u8,
    }
}

/// `r` with the kernel applied at every pixel.
pub open spec fn convolved(r: Raster, k: KernelView) -> Raster {
    tabulate(r.width, r.height, |x: int, y: int| convolved_pixel(r, k, x, y))
}

/// A square table of weights with an odd side.
pub struct Kernel {
    size: i32,
    weights: Vec<i32>,
    divisor: i128,
}

impl View for Kernel {
    type V = KernelView;

    closed spec fn view(&self) -> KernelView {
        KernelView { size: self.size as int, weights: self.weights@, divisor: self.divisor as int }
    }
}

/// The largest sum of `n` products of a weight and a channel.
pub open spec fn sum_bound(n: int) -> int {
    n * 0x80_0000_0000
}

proof fn lemma_cells_bound(size: int)
    requires
        0 < size <= 0x7fff_ffff,
    ensures
        0 < size * size <= 0x4000_0000_0000_0000,
{
    assert(0 < size * size <= 0x7fff_ffff * 0x7fff_ffff) by (nonlinear_arith)
        requires
            0 < size <= 0x7fff_ffff,
    ;
}

impl Kernel {
    #[verifier::type_invariant]
    spec fn well_formed(&self) -> bool {
        &&& self@.wf()
        &&& -sum_bound(0x4000_0000_0000_0000) <= self.divisor <= sum_bound(0x4000_0000_0000_0000)
    }

    /// A kernel of the given weights, row by row, with the divisor one.
    pub fn new(size: i32, values: Vec<i32>) -> (kernel: Kernel)
        requires
            size > 0,
            size % 2 == 1,
            values@.len() == size * size,
        ensures
            kernel@ == (KernelView { size: size as int, weights: values@, divisor: 1 }),
    {
        Kernel { size, weights: values, divisor: 1 }
    }

    pub fn size(&self) -> (size: i32)
        ensures
            size == self@.size,
            self@.wf(),
    {
        proof {
            use_type_invariant(self);
        }
        self.size
    }

    /// The kernel with the same weights and their sum as divisor, so that
    /// the fractions add up to one. A kernel whose weights add up to zero
    /// stays as it is.
    pub fn normalized(self) -> (kernel: Kernel)
        ensures
            kernel@ == self@.normalized(),
    {
        proof {
            use_type_invariant(&self);
            lemma_cells_bound(self.size as int);
        }
        let total = self.total();
        if total == 0 {
            self
        } else {
            Kernel { size: self.size, weights: self.weights, divisor: total }
        }
    }

    /// The sum of all weights.
    pub fn total(&self) -> (total: i128)
        ensures
            total == self@.total(),
            -sum_bound(0x4000_0000_0000_0000) <= total <= sum_bound(0x4000_0000_0000_0000),
    {
        proof {
            use_type_invariant(self);
            lemma_cells_bound(self.size as int);
        }
        let mut total: i128 = 0;
        let mut i: usize = 0;
        while i < self.weights.len()
            invariant
                0 <= i <= self.weights.len(),
                self.weights@.len() <= 0x4000_0000_0000_0000,
                total == weight_total(self.weights@, i as int),
                -sum_bound(i as int) <= total <= sum_bound(i as int),
            decreases self.weights.len() - i,
        {
            total = total + self.weights[i] as i128;
            i = i + 1;
        }
        total
    }

    /// The weight at the offset `(dx, dy)` from the centre.
    pub fn get(&self, dx: i32, dy: i32) -> (weight: i32)
        requires
            -(self@.size / 2) <= dx <= self@.size / 2,
            -(self@.size / 2) <= dy <= self@.size / 2,
        ensures
            weight == self@.weight(dx as int, dy as int),
    {
        proof {
            use_type_invariant(self);
        }
        let center: i32 = self.size / 2;
        let x: i32 = center + dx;
        let y: i32 = center + dy;
        proof {
            lemma_row_major(self.size as int, self.size as int, x as int, y as int);
            lemma_cells_bound(self.size as int);
            assert(0 <= (y as int) * (self.size as int)) by (nonlinear_arith)
                requires
                    0 <= y,
                    0 < self.size,
            ;
            assert(self.weights@.len() == self.weights.len() as int);
            assert((self.size as int) * (self.size as int) <= usize::MAX);
        }
        let index: usize = (y as usize) * (self.size as usize) + (x as usize);
        self.weights[index]
    }

    /// The channel that a sum of weighted channels stands for.
    fn to_channel(&self, acc: i128) -> (c: u8)
        requires
            -sum_bound(0x4000_0000_0000_0000) <= acc <= sum_bound(0x4000_0000_0000_0000),
        ensures
            c == channel_value(acc as int, self@.divisor),
    {
        proof {
            use_type_invariant(self);
        }
        let (num, den) = if self.divisor > 0 {
            (acc, self.divisor)
        } else {
            (-acc, -self.divisor)
        };
        if num <= 0 {
            proof {
                vstd::arithmetic::div_mod::lemma_div_is_ordered(num as int, 0, den as int);
            }
            0
        } else {
            proof {
                vstd::arithmetic::div_mod::lemma_div_pos_is_pos(num as int, den as int);
            }
            let quotient: u128 = (num as u128) / (den as u128);
            if quotient > 255 {
                255
            } else {
                quotient as u8
            }
        }
    }
}

/// A view of an image through a window centred at one of its pixels.
pub struct KernelWindow<'a> {
    pub image: &'a Image,
    pub center_x: i32,
    pub center_y: i32,
}

impl<'a> KernelWindow<'a> {
    pub fn new(image: &'a Image, center_x: i32, center_y: i32) -> (window: KernelWindow<'a>)
        ensures
            window.image == image,
            window.center_x == center_x,
            window.center_y == center_y,
    {
        KernelWindow { image, center_x, center_y }
    }

    /// The pixel at the offset `(dx, dy)` from the centre, or the nearest
    /// pixel of the image where that place lies outside it. The image must
    /// have a pixel.
    pub fn get(&self, dx: i32, dy: i32) -> (p: Pixel)
        requires
            self.image@.width > 0,
            self.image@.height > 0,
        ensures
            p == sampled(
                self.image@,
                self.center_x as int,
                self.center_y as int,
                dx as int,
                dy as int,
            ),
    {
        let width: i32 = self.image.width();
        let height: i32 = self.image.height();
        let x: i64 = self.center_x as i64 + dx as i64;
        let y: i64 = self.center_y as i64 + dy as i64;
        let x: i32 = if x < 0 {
            0
        } else if x > (width - 1) as i64 {
            width - 1
        } else {
            x as i32
        };
        let y: i32 = if y < 0 {
            0
        } else if y > (height - 1) as i64 {
            height - 1
        } else {
            y as i32
        };
        self.image.get(x, y)
    }

    /// The pixel that the kernel gives at the centre of the window: for each
    /// channel the weighted sum over the window, divided by the divisor and
    /// cut off at 0 and 255.
    pub fn apply_kernel(&self, kernel: &Kernel) -> (p: Pixel)
        requires
            self.image@.width > 0,
            self.image@.height > 0,
        ensures
            p == convolved_pixel(
                self.image@,
                kernel@,
                self.center_x as int,
                self.center_y as int,
            ),
    {
        let size: i32 = kernel.size();
        let offset: i32 = size / 2;
        let ghost r = self.image@;
        let ghost k = kernel@;
        let ghost cx = self.center_x as int;
        let ghost cy = self.center_y as int;
        let ghost mut n: int = 0;
        let mut red: i128 = 0;
        let mut green: i128 = 0;
        let mut blue: i128 = 0;
        proof {
            lemma_cells_bound(size as int);
        }
        let mut row: i32 = 0;
        while row < size
            invariant
                r == self.image@,
                k == kernel@,
                cx == self.center_x,
                cy == self.center_y,
                r.width > 0,
                r.height > 0,
                k.wf(),
                k.size == size,
                offset == size / 2,
                0 <= row <= size,
                n == row * size,
                0 <= n <= size * size <= 0x4000_0000_0000_0000,
                red == weighted_sum(r, k, cx, cy, 0, n),
                green == weighted_sum(r, k, cx, cy, 1, n),
                blue == weighted_sum(r, k, cx, cy, 2, n),
                -sum_bound(n) <= red <= sum_bound(n),
                -sum_bound(n) <= green <= sum_bound(n),
                -sum_bound(n) <= blue <= sum_bound(n),
            decreases size - row,
        {
            let mut col: i32 = 0;
            while col < size
                invariant
                    r == self.image@,
                    k == kernel@,
                    cx == self.center_x,
                    cy == self.center_y,
                    r.width > 0,
                    r.height > 0,
                    k.wf(),
                    k.size == size,
                    offset == size / 2,
                    0 <= row < size,
                    0 <= col <= size,
                    n == row * size + col,
                    0 <= n <= size * size <= 0x4000_0000_0000_0000,
                    red == weighted_sum(r, k, cx, cy, 0, n),
                    green == weighted_sum(r, k, cx, cy, 1, n),
                    blue == weighted_sum(r, k, cx, cy, 2, n),
                    -sum_bound(n) <= red <= sum_bound(n),
                    -sum_bound(n) <= green <= sum_bound(n),
                    -sum_bound(n) <= blue <= sum_bound(n),
                decreases size - col,
            {
                proof {
                    lemma_row_major(size as int, size as int, col as int, row as int);
                }
                let pixel = self.get(col - offset, row - offset);
                let weight = kernel.get(col - offset, row - offset);
                proof {
                    assert(weight == k.weights[n]);
                    assert(pixel == sampled(r, cx, cy, n % k.size - k.size / 2, n / k.size - k.size / 2));
                    lemma_term_bound(weight, pixel.r);
                    lemma_term_bound(weight, pixel.g);
                    lemma_term_bound(weight, pixel.b);
                }
                red = red + (weight as i128) * (pixel.r as i128);
                green = green + (weight as i128) * (pixel.g as i128);
                blue = blue + (weight as i128) * (pixel.b as i128);
                col = col + 1;
                proof {
                    n = n + 1;
                }
            }
            assert(row * size + size == (row + 1) * size) by (nonlinear_arith);
            row = row + 1;
        }
        assert(n == k.size * k.size) by (nonlinear_arith)
            requires
                n == row * size,
                row == size,
                k.size == size,
        ;
        Pixel {
            r: kernel.to_channel(red),
            g: kernel.to_channel(green),
            b: kernel.to_channel(blue),
        }
    }
}

proof fn lemma_term_bound(weight: i32, value: u8)
    ensures
        -sum_bound(1) <= weight * value <= sum_bound(1),
{
    assert(-0x8000_0000 * 255 <= weight * value <= 0x8000_0000 * 255) by (nonlinear_arith)
        requires
            -0x8000_0000 <= weight <= 0x8000_0000,
            0 <= value <= 255,
    ;
}

/// Applies a kernel at every pixel of an image.
pub fn convolve(image: &Image, kernel: &Kernel) -> (out: Image)
    ensures
        out@ == convolved(image@, kernel@),
{
    let width: i32 = image.width();
    let height: i32 = image.height();
    let ghost goal = convolved(image@, kernel@);
    assert(0 <= width * height) by (nonlinear_arith)
        requires
            0 <= width,
            0 <= height,
    ;
    let mut pixels: Vec<Pixel> = Vec::new();
    let mut y: i32 = 0;
    while y < height
        invariant
            image@.wf(),
            image@.width == width,
            image@.height == height,
            goal == convolved(image@, kernel@),
            goal.pixels.len() == width * height,
            0 <= y <= height,
            pixels@.len() == y * width,
            forall|j: int| 0 <= j < pixels@.len() ==> pixels@[j] == goal.pixels[j],
        decreases height - y,
    {
        let mut x: i32 = 0;
        while x < width
            invariant
                image@.wf(),
                image@.width == width,
                image@.height == height,
                goal == convolved(image@, kernel@),
                goal.pixels.len() == width * height,
                0 <= y < height,
                0 <= x <= width,
                pixels@.len() == y * width + x,
                forall|j: int| 0 <= j < pixels@.len() ==> pixels@[j] == goal.pixels[j],
            decreases width - x,
        {
            proof {
                lemma_row_major(width as int, height as int, x as int, y as int);
            }
            let window = KernelWindow::new(image, x, y);
            pixels.push(window.apply_kernel(kernel));
            x = x + 1;
        }
        assert(y * width + width == (y + 1) * width) by (nonlinear_arith);
        y = y + 1;
    }
    assert(height * width == width * height) by (nonlinear_arith);
    assert(pixels@ =~= goal.pixels);
    Image::assemble(width, height, pixels)
}

} // verus!
