//! The render target: its size in device pixels and its scale factor.

use vstd::prelude::*;
use crate::geometry::Rect;
use crate::geometry::Size;

verus! {

/// A scale factor as a fraction: `numerator` device pixels make
/// `denominator` logical pixels along each axis.
#[derive(Clone, Copy, Debug, PartialEq, Eq, Structural)]
pub struct Scale {
    pub numerator: u32,
    pub denominator: u32,
}

/// A viewing region of a size in device pixels, at a scale factor.
#[derive(Clone, Copy, Debug)]
pub struct Viewport {
    physical_size: Size,
    scale: Scale,
}

/// How many steps of `step` are needed to reach `length`.
pub open spec fn ceil_div(length: int, step: int) -> int {
    (length + step - 1) / step
}

/// The logical length that covers `length` device pixels at `scale`.
pub open spec fn logical_length(length: int, scale: Scale) -> int {
    ceil_div(length * scale.denominator, scale.numerator as int)
}

/// Whether a viewport of `size` at `scale` can be represented: neither part
/// of the scale is zero, and the logical size fits.
pub open spec fn representable(size: Size, scale: Scale) -> bool {
    &&& scale.numerator >= 1
    &&& scale.denominator >= 1
    &&& logical_length(size.width as int, scale) <= u32::MAX
    &&& logical_length(size.height as int, scale) <= u32::MAX
}

impl Viewport {
    /// What every viewport satisfies.
    pub open spec fn wf(self) -> bool {
        representable(self.spec_physical_size(), self.spec_scale())
    }

    /// The size in device pixels.
    pub closed spec fn spec_physical_size(self) -> Size {
        self.physical_size
    }

    /// The scale factor.
    pub closed spec fn spec_scale(self) -> Scale {
        self.scale
    }

    /// The column or row of logical pixels that the column or row `d` of
    /// device pixels belongs to.
    pub open spec fn logical_of(self, d: int) -> int {
        d * self.spec_scale().denominator / (self.spec_scale().numerator as int)
    }

    /// The first column or row of device pixels that belongs to the column
    /// or row `l` of logical pixels or to a later one.
    pub open spec fn physical_of(self, l: int) -> int {
        ceil_div(l * self.spec_scale().numerator, self.spec_scale().denominator as int)
    }

    /// The size in logical pixels: the least that covers the target.
    pub open spec fn spec_logical_size(self) -> Size {
        Size {
            width: logical_length(self.spec_physical_size().width as int, self.spec_scale()) as u32,
            height: logical_length(self.spec_physical_size().height as int, self.spec_scale()) as u32,
        }
    }

    /// The whole target in logical pixels.
    pub open spec fn spec_logical_bounds(self) -> Rect {
        Rect {
            x: 0,
            y: 0,
            width: self.spec_logical_size().width,
            height: self.spec_logical_size().height,
        }
    }

    /// The whole target in device pixels.
    pub open spec fn spec_physical_bounds(self) -> Rect {
        Rect {
            x: 0,
            y: 0,
            width: self.spec_physical_size().width,
            height: self.spec_physical_size().height,
        }
    }

    /// Whether a viewport of `size` at `scale` can be represented.
    pub fn is_representable(size: Size, scale: Scale) -> (ok: bool)
        ensures
            ok == representable(size, scale),
    {
        if scale.numerator == 0 || scale.denominator == 0 {
            return false;
        }
        steps(size.width, scale) <= u32::MAX as u64 && steps(size.height, scale) <= u32::MAX as u64
    }

    /// A viewport of the given size in device pixels, at a whole number of
    /// device pixels for each logical pixel.
    pub fn with_physical_size(size: Size, scale_factor: u32) -> (viewport: Viewport)
        requires
            scale_factor >= 1,
        ensures
            viewport.wf(),
            viewport.spec_physical_size() == size,
            viewport.spec_scale() == (Scale { numerator: scale_factor, denominator: 1 }),
    {
        let scale = Scale { numerator: scale_factor, denominator: 1 };
        proof {
            lemma_whole_scale_fits(size.width as int, scale_factor as int);
            lemma_whole_scale_fits(size.height as int, scale_factor as int);
        }
        Viewport { physical_size: size, scale }
    }

    /// A viewport of the given size in device pixels, at a scale factor
    /// that is a fraction.
    pub fn with_scale(size: Size, scale: Scale) -> (viewport: Viewport)
        requires
            representable(size, scale),
        ensures
            viewport.wf(),
            viewport.spec_physical_size() == size,
            viewport.spec_scale() == scale,
    {
        Viewport { physical_size: size, scale }
    }

    /// The size in device pixels.
    pub fn physical_size(&self) -> (size: Size)
        ensures
            size == self.spec_physical_size(),
    {
        self.physical_size
    }

    /// The width in device pixels.
    pub fn physical_width(&self) -> (width: u32)
        ensures
            width == self.spec_physical_size().width,
    {
        self.physical_size.width
    }

    /// The height in device pixels.
    pub fn physical_height(&self) -> (height: u32)
        ensures
            height == self.spec_physical_size().height,
    {
        self.physical_size.height
    }

    /// The scale factor.
    pub fn scale_factor(&self) -> (scale: Scale)
        ensures
            scale == self.spec_scale(),
    {
        self.scale
    }

    /// The size in logical pixels.
    pub fn logical_size(&self) -> (size: Size)
        requires
            self.wf(),
        ensures
            size == self.spec_logical_size(),
    {
        Size {
            width: steps(self.physical_size.width, self.scale) as u32,
            height: steps(self.physical_size.height, self.scale) as u32,
        }
    }

    /// The whole target in logical pixels.
    pub fn logical_bounds(&self) -> (bounds: Rect)
        requires
            self.wf(),
        ensures
            bounds == self.spec_logical_bounds(),
    {
        let size = self.logical_size();
        Rect { x: 0, y: 0, width: size.width, height: size.height }
    }
}

/// The logical length that covers `length` device pixels at `scale`.
fn steps(length: u32, scale: Scale) -> (count: u64)
    requires
        scale.numerator >= 1,
    ensures
        count == logical_length(length as int, scale),
{
    assert(0 <= (length as int) * (scale.denominator as int) <= 0xffff_ffff * 0xffff_ffff)
        by (nonlinear_arith)
        requires
            0 <= length as int <= 0xffff_ffff,
            0 <= scale.denominator as int <= 0xffff_ffff,
    ;
    let total: u64 = length as u64 * scale.denominator as u64 + (scale.numerator as u64 - 1);
    total / scale.numerator as u64
}

/// At a whole scale factor the logical length is no longer than the
/// length in device pixels.
proof fn lemma_whole_scale_fits(length: int, factor: int)
    requires
        0 <= length,
        factor >= 1,
    ensures
        0 <= (length * 1 + factor - 1) / factor <= length,
{
    assert(0 <= (length * 1 + factor - 1) / factor <= length) by (nonlinear_arith)
        requires
            0 <= length,
            factor >= 1,
    ;
}

/// A value lies at or after a multiple of `n` exactly if its quotient by
/// `n` lies at or after the factor, and before a multiple exactly if its
/// quotient lies before the factor.
pub proof fn lemma_quotient_order(a: int, b: int, n: int)
    requires
        n >= 1,
    ensures
        (a * n <= b) <==> (a <= b / n),
        (b < a * n) <==> (b / n < a),
{
    assert((a * n <= b) <==> (a <= b / n)) by (nonlinear_arith)
        requires
            n >= 1,
    ;
    assert((b < a * n) <==> (b / n < a)) by (nonlinear_arith)
        requires
            n >= 1,
    ;
}

/// A device pixel lies at or after the first device pixel of a logical
/// pixel exactly if the logical pixel that it belongs to lies at or after
/// that logical pixel.
pub proof fn lemma_physical_of(viewport: Viewport, l: int, d: int)
    requires
        viewport.wf(),
    ensures
        (viewport.physical_of(l) <= d) <==> (l <= viewport.logical_of(d)),
{
    let n = viewport.spec_scale().numerator as int;
    let m = viewport.spec_scale().denominator as int;
    // l <= (d * m) / n  <==>  l * n <= d * m
    lemma_quotient_order(l, d * m, n);
    // (l * n + m - 1) / m <= d  <==>  l * n + m - 1 < (d + 1) * m  <==>  l * n <= d * m
    lemma_quotient_order(d + 1, l * n + m - 1, m);
    assert((d + 1) * m == d * m + m) by (nonlinear_arith);
}

/// The logical size, scaled back, covers the target: no device pixel lies
/// outside the logical bounds. A target with a pixel has a logical pixel.
pub proof fn lemma_logical_covers(viewport: Viewport)
    requires
        viewport.wf(),
    ensures
        viewport.spec_logical_size().width * viewport.spec_scale().numerator
            >= viewport.spec_physical_size().width * viewport.spec_scale().denominator,
        viewport.spec_logical_size().height * viewport.spec_scale().numerator
            >= viewport.spec_physical_size().height * viewport.spec_scale().denominator,
        viewport.spec_physical_size().width > 0 ==> viewport.spec_logical_size().width > 0,
        viewport.spec_physical_size().height > 0 ==> viewport.spec_logical_size().height > 0,
        viewport.spec_scale() == (Scale { numerator: 1, denominator: 1 }) ==> viewport.spec_logical_size()
            == viewport.spec_physical_size(),
{
    let n = viewport.spec_scale().numerator as int;
    let m = viewport.spec_scale().denominator as int;
    let w = viewport.spec_physical_size().width as int;
    let h = viewport.spec_physical_size().height as int;
    lemma_ceil(w * m, n);
    lemma_ceil(h * m, n);
    assert(w > 0 ==> w * m > 0) by (nonlinear_arith)
        requires
            m >= 1,
    ;
    assert(h > 0 ==> h * m > 0) by (nonlinear_arith)
        requires
            m >= 1,
    ;
    if n == 1 && m == 1 {
        assert(w * 1 == w && h * 1 == h);
        assert((w + 1 - 1) / 1 == w && (h + 1 - 1) / 1 == h) by (nonlinear_arith);
    }
}

/// The steps needed to reach a length reach it, and a length above zero
/// needs a step.
proof fn lemma_ceil(z: int, n: int)
    requires
        z >= 0,
        n >= 1,
    ensures
        ceil_div(z, n) * n >= z,
        ceil_div(z, n) >= 0,
        z > 0 ==> ceil_div(z, n) > 0,
{
    assert(((z + n - 1) / n) * n >= z && (z + n - 1) / n >= 0 && (z > 0 ==> (z + n - 1) / n > 0))
        by (nonlinear_arith)
        requires
            z >= 0,
            n >= 1,
    ;
}

/// The logical pixel that a device pixel of the target belongs to lies in
/// the logical bounds.
pub proof fn lemma_logical_pixel(viewport: Viewport, dx: int, dy: int)
    requires
        viewport.wf(),
        0 <= dx < viewport.spec_physical_size().width,
        0 <= dy < viewport.spec_physical_size().height,
    ensures
        viewport.spec_logical_bounds().contains(viewport.logical_of(dx), viewport.logical_of(dy)),
{
    let n = viewport.spec_scale().numerator as int;
    let m = viewport.spec_scale().denominator as int;
    let w = viewport.spec_physical_size().width as int;
    let h = viewport.spec_physical_size().height as int;
    lemma_inside(dx, w, m, n);
    lemma_inside(dy, h, m, n);
}

/// The quotient of a scaled position inside a length is inside the steps
/// that cover the scaled length.
proof fn lemma_inside(d: int, w: int, m: int, n: int)
    requires
        0 <= d < w,
        m >= 1,
        n >= 1,
    ensures
        0 <= (d * m) / n < ceil_div(w * m, n),
{
    assert(0 <= d * m && d * m + m <= w * m) by (nonlinear_arith)
        requires
            0 <= d < w,
            m >= 1,
    ;
    lemma_ceil(w * m, n);
    let c = ceil_div(w * m, n);
    // (d * m) / n < c  <==>  d * m < c * n
    lemma_quotient_order(c, d * m, n);
    lemma_quotient_order(0, d * m, n);
}

} // verus!
