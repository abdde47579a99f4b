//! The named filters: two blurs, sharpen, edge detection and emboss. Each is
//! a fixed three by three kernel.

use vstd::prelude::*;
use crate::image::{Image, Raster};
use crate::transforms::convolution::{
    channel, convolve, convolved, convolved_pixel, sampled, weight_total, weighted_sum, Kernel,
    KernelView,
};
use crate::transforms::{TransformError, Transformation};

verus! {

/// ```text
/// 1 2 1
/// 2 4 2    divided by 16
/// 1 2 1
/// ```
pub open spec fn gaussian_kernel() -> KernelView {
    KernelView { size: 3, weights: seq![1i32, 2i32, 1i32, 2i32, 4i32, 2i32, 1i32, 2i32, 1i32], divisor: 16 }
}

/// ```text
/// 1 1 1
/// 1 1 1    divided by 9
/// 1 1 1
/// ```
pub open spec fn box_kernel() -> KernelView {
    KernelView { size: 3, weights: seq![1i32, 1i32, 1i32, 1i32, 1i32, 1i32, 1i32, 1i32, 1i32], divisor: 9 }
}

/// ```text
///  0 -1  0
/// -1  5 -1
///  0 -1  0
/// ```
pub open spec fn sharpen_kernel() -> KernelView {
    KernelView { size: 3, weights: seq![0i32, -1i32, 0i32, -1i32, 5i32, -1i32, 0i32, -1i32, 0i32], divisor: 1 }
}

/// ```text
/// -1 -1 -1
/// -1  8 -1
/// -1 -1 -1
/// ```
pub open spec fn edge_kernel() -> KernelView {
    KernelView { size: 3, weights: seq![-1i32, -1i32, -1i32, -1i32, 8i32, -1i32, -1i32, -1i32, -1i32], divisor: 1 }
}

/// ```text
/// -2 -1  0
/// -1  1  1
///  0  1  2
/// ```
pub open spec fn emboss_kernel() -> KernelView {
    KernelView { size: 3, weights: seq![-2i32, -1i32, 0i32, -1i32, 1i32, 1i32, 0i32, 1i32, 2i32], divisor: 1 }
}

/// The weights of each blur add up to its divisor, so the fractions they
/// stand for add up to one.
pub proof fn lemma_blur_weights_sum_to_one()
    ensures
        gaussian_kernel().wf(),
        gaussian_kernel().total() == gaussian_kernel().divisor,
        box_kernel().wf(),
        box_kernel().total() == box_kernel().divisor,
{
    reveal_with_fuel(weight_total, 10);
    assert(gaussian_kernel().weights.len() == 9);
    assert(box_kernel().weights.len() == 9);
}

/// The other kernels are used as they are: the weights for sharpening add
/// up to one, those for edge detection to zero, those for embossing to one.
pub proof fn lemma_plain_weight_sums()
    ensures
        sharpen_kernel().wf() && sharpen_kernel().divisor == 1 && sharpen_kernel().total() == 1,
        edge_kernel().wf() && edge_kernel().divisor == 1 && edge_kernel().total() == 0,
        emboss_kernel().wf() && emboss_kernel().divisor == 1 && emboss_kernel().total() == 1,
{
    reveal_with_fuel(weight_total, 10);
    assert(sharpen_kernel().weights.len() == 9);
    assert(edge_kernel().weights.len() == 9);
    assert(emboss_kernel().weights.len() == 9);
}

/// After normalisation the weights of a kernel add up to its divisor, unless
/// they add up to zero.
pub proof fn lemma_normalized_sums_to_one(k: KernelView)
    requires
        k.total() != 0,
    ensures
        k.normalized().total() == k.normalized().divisor,
{
}

/// In a raster of a single pixel every offset of a window shows that pixel.
pub proof fn lemma_single_pixel_sampled(r: Raster, x: int, y: int, dx: int, dy: int)
    requires
        r.wf(),
        r.width == 1,
        r.height == 1,
    ensures
        sampled(r, x, y, dx, dy) == r.pixels[0],
{
}

/// In a raster of a single pixel each weighted sum is the channel of that
/// pixel times the sum of the weights.
pub proof fn lemma_single_pixel_sum(r: Raster, k: KernelView, c: int, n: int)
    requires
        r.wf(),
        r.width == 1,
        r.height == 1,
    ensures
        weighted_sum(r, k, 0, 0, c, n) == weight_total(k.weights, n) * channel(r.pixels[0], c),
    decreases n,
{
    if n > 0 {
        lemma_single_pixel_sum(r, k, c, n - 1);
        lemma_single_pixel_sampled(r, 0, 0, (n - 1) % k.size - k.size / 2, (n - 1) / k.size - k.size / 2);
        let v = channel(r.pixels[0], c);
        let w = k.weights[n - 1] as int;
        let t = weight_total(k.weights, n - 1);
        assert((t + w) * v == t * v + w * v) by (nonlinear_arith);
    }
}

/// Convolving a raster of a single pixel gives a raster of a single pixel.
pub proof fn lemma_single_pixel_convolved(r: Raster, k: KernelView)
    requires
        r.wf(),
        r.width == 1,
        r.height == 1,
    ensures
        convolved(r, k).wf(),
        convolved(r, k).width == 1,
        convolved(r, k).height == 1,
{
}

/// A kernel whose weights add up to its divisor, as those of the blurs do,
/// leaves a raster of a single pixel as it is.
pub proof fn lemma_single_pixel_unchanged(r: Raster, k: KernelView)
    requires
        r.wf(),
        r.width == 1,
        r.height == 1,
        k.wf(),
        k.divisor > 0,
        k.total() == k.divisor,
    ensures
        convolved(r, k) == r,
{
    let out = convolved(r, k);
    let p = r.pixels[0];
    let cells = k.size * k.size;
    lemma_single_pixel_sum(r, k, 0, cells);
    lemma_single_pixel_sum(r, k, 1, cells);
    lemma_single_pixel_sum(r, k, 2, cells);
    vstd::arithmetic::div_mod::lemma_div_multiples_vanish(p.r as int, k.divisor);
    vstd::arithmetic::div_mod::lemma_div_multiples_vanish(p.g as int, k.divisor);
    vstd::arithmetic::div_mod::lemma_div_multiples_vanish(p.b as int, k.divisor);
    assert(convolved_pixel(r, k, 0, 0) == p);
    assert(out.pixels =~= r.pixels);
}

/// Blurs with weights that fall off from the centre.
pub struct GaussianBlur {
    kernel: Kernel,
}

impl View for GaussianBlur {
    type V = KernelView;

    /// The kernel that the filter holds.
    closed spec fn view(&self) -> KernelView {
        self.kernel@
    }
}

impl GaussianBlur {
    #[verifier::type_invariant]
    spec fn holds_its_kernel(&self) -> bool {
        self.kernel@ == gaussian_kernel()
    }

    /// A filter that holds its kernel, weights and divisor.
    pub fn new() -> (filter: GaussianBlur)
        ensures
            filter@ == gaussian_kernel(),
    {
        let values: Vec<i32> = vec![1, 2, 1, 2, 4, 2, 1, 2, 1];
        proof {
            reveal_with_fuel(weight_total, 10);
            assert(values@ =~= gaussian_kernel().weights);
        }
        GaussianBlur { kernel: Kernel::new(3, values).normalized() }
    }

    pub fn kernel(&self) -> (kernel: &Kernel)
        ensures
            kernel@ == self@,
            kernel@ == gaussian_kernel(),
    {
        proof {
            use_type_invariant(self);
        }
        &self.kernel
    }
}

impl Transformation for GaussianBlur {
    open spec fn outcome(&self, r: Raster) -> Option<Raster> {
        Some(convolved(r, gaussian_kernel()))
    }

    /// Always succeeds; the new image has the size of the given one.
    fn apply(&self, image: &Image) -> (result: Result<Image, TransformError>) {
        Ok(convolve(image, self.kernel()))
    }
}

/// Blurs with the plain average of the neighbourhood.
pub struct BoxBlur {
    kernel: Kernel,
}

impl View for BoxBlur {
    type V = KernelView;

    /// The kernel that the filter holds.
    closed spec fn view(&self) -> KernelView {
        self.kernel@
    }
}

impl BoxBlur {
    #[verifier::type_invariant]
    spec fn holds_its_kernel(&self) -> bool {
        self.kernel@ == box_kernel()
    }

    /// A filter that holds its kernel, weights and divisor.
    pub fn new() -> (filter: BoxBlur)
        ensures
            filter@ == box_kernel(),
    {
        let values: Vec<i32> = vec![1, 1, 1, 1, 1, 1, 1, 1, 1];
        proof {
            reveal_with_fuel(weight_total, 10);
            assert(values@ =~= box_kernel().weights);
        }
        BoxBlur { kernel: Kernel::new(3, values).normalized() }
    }

    pub fn kernel(&self) -> (kernel: &Kernel)
        ensures
            kernel@ == self@,
            kernel@ == box_kernel(),
    {
        proof {
            use_type_invariant(self);
        }
        &self.kernel
    }
}

impl Transformation for BoxBlur {
    open spec fn outcome(&self, r: Raster) -> Option<Raster> {
        Some(convolved(r, box_kernel()))
    }

    /// Always succeeds; the new image has the size of the given one.
    fn apply(&self, image: &Image) -> (result: Result<Image, TransformError>) {
        Ok(convolve(image, self.kernel()))
    }
}

/// Raises the contrast between a pixel and its four neighbours.
pub struct Sharpen {
    kernel: Kernel,
}

impl View for Sharpen {
    type V = KernelView;

    /// The kernel that the filter holds.
    closed spec fn view(&self) -> KernelView {
        self.kernel@
    }
}

impl Sharpen {
    #[verifier::type_invariant]
    spec fn holds_its_kernel(&self) -> bool {
        self.kernel@ == sharpen_kernel()
    }

    /// A filter that holds its kernel, weights and divisor.
    pub fn new() -> (filter: Sharpen)
        ensures
            filter@ == sharpen_kernel(),
    {
        let values: Vec<i32> = vec![0, -1, 0, -1, 5, -1, 0, -1, 0];
        proof {
            assert(values@ =~= sharpen_kernel().weights);
        }
        Sharpen { kernel: Kernel::new(3, values) }
    }

    pub fn kernel(&self) -> (kernel: &Kernel)
        ensures
            kernel@ == self@,
            kernel@ == sharpen_kernel(),
    {
        proof {
            use_type_invariant(self);
        }
        &self.kernel
    }
}

impl Transformation for Sharpen {
    open spec fn outcome(&self, r: Raster) -> Option<Raster> {
        Some(convolved(r, sharpen_kernel()))
    }

    /// Always succeeds; the new image has the size of the given one.
    fn apply(&self, image: &Image) -> (result: Result<Image, TransformError>) {
        Ok(convolve(image, self.kernel()))
    }
}

/// Leaves only the places where a pixel differs from its neighbours.
pub struct EdgeDetect {
    kernel: Kernel,
}

impl View for EdgeDetect {
    type V = KernelView;

    /// The kernel that the filter holds.
    closed spec fn view(&self) -> KernelView {
        self.kernel@
    }
}

impl EdgeDetect {
    #[verifier::type_invariant]
    spec fn holds_its_kernel(&self) -> bool {
        self.kernel@ == edge_kernel()
    }

    /// A filter that holds its kernel, weights and divisor.
    pub fn new() -> (filter: EdgeDetect)
        ensures
            filter@ == edge_kernel(),
    {
        let values: Vec<i32> = vec![-1, -1, -1, -1, 8, -1, -1, -1, -1];
        proof {
            assert(values@ =~= edge_kernel().weights);
        }
        EdgeDetect { kernel: Kernel::new(3, values) }
    }

    pub fn kernel(&self) -> (kernel: &Kernel)
        ensures
            kernel@ == self@,
            kernel@ == edge_kernel(),
    {
        proof {
            use_type_invariant(self);
        }
        &self.kernel
    }
}

impl Transformation for EdgeDetect {
    open spec fn outcome(&self, r: Raster) -> Option<Raster> {
        Some(convolved(r, edge_kernel()))
    }

    /// Always succeeds; the new image has the size of the given one.
    fn apply(&self, image: &Image) -> (result: Result<Image, TransformError>) {
        Ok(convolve(image, self.kernel()))
    }
}

/// Makes the image look pressed into relief, lit from the top left.
pub struct Emboss {
    kernel: Kernel,
}

impl View for Emboss {
    type V = KernelView;

    /// The kernel that the filter holds.
    closed spec fn view(&self) -> KernelView {
        self.kernel@
    }
}

impl Emboss {
    #[verifier::type_invariant]
    spec fn holds_its_kernel(&self) -> bool {
        self.kernel@ == emboss_kernel()
    }

    /// A filter that holds its kernel, weights and divisor.
    pub fn new() -> (filter: Emboss)
        ensures
            filter@ == emboss_kernel(),
    {
        let values: Vec<i32> = vec![-2, -1, 0, -1, 1, 1, 0, 1, 2];
        proof {
            assert(values@ =~= emboss_kernel().weights);
        }
        Emboss { kernel: Kernel::new(3, values) }
    }

    pub fn kernel(&self) -> (kernel: &Kernel)
        ensures
            kernel@ == self@,
            kernel@ == emboss_kernel(),
    {
        proof {
            use_type_invariant(self);
        }
        &self.kernel
    }
}

impl Transformation for Emboss {
    open spec fn outcome(&self, r: Raster) -> Option<Raster> {
        Some(convolved(r, emboss_kernel()))
    }

    /// Always succeeds; the new image has the size of the given one.
    fn apply(&self, image: &Image) -> (result: Result<Image, TransformError>) {
        Ok(convolve(image, self.kernel()))
    }
}

} // verus!
