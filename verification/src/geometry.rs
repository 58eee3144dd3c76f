//! Axis-aligned rectangles and scale-then-translate transformations on the
//! integer pixel grid.

use vstd::prelude::*;

verus! {

/// A pixel position.
#[derive(Clone, Copy, Debug, PartialEq, Eq, Structural)]
pub struct Point {
    pub x: i32,
    pub y: i32,
}

/// A width and a height, in pixels.
#[derive(Clone, Copy, Debug, PartialEq, Eq, Structural)]
pub struct Size {
    pub width: u32,
    pub height: u32,
}

/// An axis-aligned rectangle: the pixels `(px, py)` with
/// `x <= px < x + width` and `y <= py < y + height`.
#[derive(Clone, Copy, Debug, PartialEq, Eq, Structural)]
pub struct Rect {
    pub x: i32,
    pub y: i32,
    pub width: u32,
    pub height: u32,
}

impl Rect {
    /// The first column right of the rectangle.
    pub open spec fn right(self) -> int {
        self.x + self.width
    }

    /// The first row below the rectangle.
    pub open spec fn bottom(self) -> int {
        self.y + self.height
    }

    /// Whether the pixel `(px, py)` lies in the rectangle.
    pub open spec fn contains(self, px: int, py: int) -> bool {
        self.x <= px < self.right() && self.y <= py < self.bottom()
    }

    /// Whether the rectangle holds no pixel.
    pub open spec fn is_empty(self) -> bool {
        self.width == 0 || self.height == 0
    }

    /// Whether every pixel of `self` lies in `outer`.
    pub open spec fn within(self, outer: Rect) -> bool {
        self.is_empty() || (outer.x <= self.x && self.right() <= outer.right() && outer.y <= self.y
            && self.bottom() <= outer.bottom())
    }

    /// Whether the two rectangles share a pixel.
    pub open spec fn overlaps(self, other: Rect) -> bool {
        !self.is_empty() && !other.is_empty() && self.x < other.right() && other.x < self.right()
            && self.y < other.bottom() && other.y < self.bottom()
    }

    /// Whether the two rectangles share a pixel, an edge or a corner.
    pub open spec fn touches(self, other: Rect) -> bool {
        !self.is_empty() && !other.is_empty() && self.x <= other.right() && other.x <= self.right()
            && self.y <= other.bottom() && other.y <= self.bottom()
    }

    /// The rectangle at the origin that stands for "unclipped".
    pub open spec fn spec_infinite() -> Rect {
        Rect { x: 0, y: 0, width: u32::MAX, height: u32::MAX }
    }

    /// The common part of two rectangles, if they share a pixel.
    pub open spec fn spec_intersection(self, other: Rect) -> Option<Rect> {
        if self.overlaps(other) {
            let x = if self.x >= other.x { self.x } else { other.x };
            let y = if self.y >= other.y { self.y } else { other.y };
            let r = if self.right() <= other.right() { self.right() } else { other.right() };
            let b = if self.bottom() <= other.bottom() { self.bottom() } else { other.bottom() };
            Some(Rect { x, y, width: (r - x) as u32, height: (b - y) as u32 })
        } else {
            None
        }
    }

    /// Whether the smallest rectangle around both can be represented.
    pub open spec fn hull_fits(self, other: Rect) -> bool {
        let x = if self.x <= other.x { self.x } else { other.x };
        let y = if self.y <= other.y { self.y } else { other.y };
        let r = if self.right() >= other.right() { self.right() } else { other.right() };
        let b = if self.bottom() >= other.bottom() { self.bottom() } else { other.bottom() };
        r - x <= u32::MAX && b - y <= u32::MAX
    }

    /// The smallest rectangle around both.
    pub open spec fn spec_union(self, other: Rect) -> Rect {
        let x = if self.x <= other.x { self.x } else { other.x };
        let y = if self.y <= other.y { self.y } else { other.y };
        let r = if self.right() >= other.right() { self.right() } else { other.right() };
        let b = if self.bottom() >= other.bottom() { self.bottom() } else { other.bottom() };
        Rect { x, y, width: (r - x) as u32, height: (b - y) as u32 }
    }

    /// A rectangle from its top-left corner and its size.
    pub fn new(x: i32, y: i32, width: u32, height: u32) -> (r: Rect)
        ensures
            r == (Rect { x, y, width, height }),
    {
        Rect { x, y, width, height }
    }

    /// A rectangle of the given size at the origin.
    pub fn with_size(width: u32, height: u32) -> (r: Rect)
        ensures
            r == (Rect { x: 0, y: 0, width, height }),
    {
        Rect { x: 0, y: 0, width, height }
    }

    /// The unclipped rectangle.
    pub fn infinite() -> (r: Rect)
        ensures
            r == Rect::spec_infinite(),
    {
        Rect { x: 0, y: 0, width: u32::MAX, height: u32::MAX }
    }

    /// Whether the rectangle holds no pixel.
    pub fn has_no_area(&self) -> (b: bool)
        ensures
            b == self.is_empty(),
    {
        self.width == 0 || self.height == 0
    }

    /// Whether the two rectangles share a pixel, an edge or a corner.
    pub fn is_touching(&self, other: &Rect) -> (b: bool)
        ensures
            b == self.touches(*other),
    {
        let sr: i64 = self.x as i64 + self.width as i64;
        let sb: i64 = self.y as i64 + self.height as i64;
        let or: i64 = other.x as i64 + other.width as i64;
        let ob: i64 = other.y as i64 + other.height as i64;
        self.width != 0 && self.height != 0 && other.width != 0 && other.height != 0 && self.x as i64
            <= or && other.x as i64 <= sr && self.y as i64 <= ob && other.y as i64 <= sb
    }

    /// The common part of two rectangles; `None` when they share no pixel.
    pub fn intersection(&self, other: &Rect) -> (out: Option<Rect>)
        ensures
            out == self.spec_intersection(*other),
    {
        let sr: i64 = self.x as i64 + self.width as i64;
        let sb: i64 = self.y as i64 + self.height as i64;
        let or: i64 = other.x as i64 + other.width as i64;
        let ob: i64 = other.y as i64 + other.height as i64;
        let x: i32 = if self.x >= other.x { self.x } else { other.x };
        let y: i32 = if self.y >= other.y { self.y } else { other.y };
        let r: i64 = if sr <= or { sr } else { or };
        let b: i64 = if sb <= ob { sb } else { ob };
        if r > x as i64 && b > y as i64 {
            Some(Rect { x, y, width: (r - x as i64) as u32, height: (b - y as i64) as u32 })
        } else {
            None
        }
    }

    /// The smallest rectangle around both.
    pub fn union(&self, other: &Rect) -> (out: Rect)
        requires
            self.hull_fits(*other),
        ensures
            out == self.spec_union(*other),
    {
        let sr: i64 = self.x as i64 + self.width as i64;
        let sb: i64 = self.y as i64 + self.height as i64;
        let or: i64 = other.x as i64 + other.width as i64;
        let ob: i64 = other.y as i64 + other.height as i64;
        let x: i32 = if self.x <= other.x { self.x } else { other.x };
        let y: i32 = if self.y <= other.y { self.y } else { other.y };
        let r: i64 = if sr >= or { sr } else { or };
        let b: i64 = if sb >= ob { sb } else { ob };
        Rect { x, y, width: (r - x as i64) as u32, height: (b - y as i64) as u32 }
    }
}

/// The intersection holds exactly the pixels that both rectangles hold.
pub proof fn lemma_intersection_pixels(a: Rect, b: Rect, px: int, py: int)
    ensures
        (a.contains(px, py) && b.contains(px, py)) <==> (a.spec_intersection(b) matches Some(c)
            && c.contains(px, py)),
        a.spec_intersection(b) matches Some(c) ==> !c.is_empty() && c.within(a) && c.within(b),
{
}

/// The union holds every pixel of either rectangle, and both lie within it.
pub proof fn lemma_union_pixels(a: Rect, b: Rect, px: int, py: int)
    requires
        a.hull_fits(b),
    ensures
        a.contains(px, py) || b.contains(px, py) ==> a.spec_union(b).contains(px, py),
        a.within(a.spec_union(b)),
        b.within(a.spec_union(b)),
{
}

} // verus!

verus! {

/// A uniform scale followed by a translation: the point `(px, py)` goes to
/// `(px * scale + dx, py * scale + dy)`.
#[derive(Clone, Copy, Debug, PartialEq, Eq, Structural)]
pub struct Transformation {
    pub scale: u32,
    pub dx: i32,
    pub dy: i32,
}

impl Transformation {
    /// The transformation that moves nothing.
    pub open spec fn spec_identity() -> Transformation {
        Transformation { scale: 1, dx: 0, dy: 0 }
    }

    /// Where the transformation sends a column.
    pub open spec fn map_x(self, px: int) -> int {
        px * self.scale + self.dx
    }

    /// Where the transformation sends a row.
    pub open spec fn map_y(self, py: int) -> int {
        py * self.scale + self.dy
    }

    /// Whether the image of `r` can be represented.
    pub open spec fn fits(self, r: Rect) -> bool {
        &&& i32::MIN <= self.map_x(r.x as int) <= i32::MAX
        &&& i32::MIN <= self.map_y(r.y as int) <= i32::MAX
        &&& r.width * self.scale <= u32::MAX
        &&& r.height * self.scale <= u32::MAX
    }

    /// The image of `r`: its corner is mapped, its size is scaled.
    pub open spec fn spec_apply(self, r: Rect) -> Rect {
        Rect {
            x: self.map_x(r.x as int) as i32,
            y: self.map_y(r.y as int) as i32,
            width: (r.width * self.scale) as u32,
            height: (r.height * self.scale) as u32,
        }
    }

    /// Whether `self` after `inner` can be represented.
    pub open spec fn composable(self, inner: Transformation) -> bool {
        &&& self.scale * inner.scale <= u32::MAX
        &&& i32::MIN <= self.map_x(inner.dx as int) <= i32::MAX
        &&& i32::MIN <= self.map_y(inner.dy as int) <= i32::MAX
    }

    /// `inner` first, then `self`.
    pub open spec fn spec_compose(self, inner: Transformation) -> Transformation {
        Transformation {
            scale: (self.scale * inner.scale) as u32,
            dx: self.map_x(inner.dx as int) as i32,
            dy: self.map_y(inner.dy as int) as i32,
        }
    }

    /// The transformation that moves nothing.
    pub fn identity() -> (t: Transformation)
        ensures
            t == Transformation::spec_identity(),
    {
        Transformation { scale: 1, dx: 0, dy: 0 }
    }

    /// A pure translation.
    pub fn translate(dx: i32, dy: i32) -> (t: Transformation)
        ensures
            t == (Transformation { scale: 1, dx, dy }),
    {
        Transformation { scale: 1, dx, dy }
    }

    /// A pure uniform scaling.
    pub fn scale(scaling: u32) -> (t: Transformation)
        ensures
            t == (Transformation { scale: scaling, dx: 0, dy: 0 }),
    {
        Transformation { scale: scaling, dx: 0, dy: 0 }
    }

    /// Whether the image of `r` can be represented.
    pub fn can_apply(&self, r: &Rect) -> (b: bool)
        ensures
            b == self.fits(*r),
    {
        let x: i128 = affine(r.x, self.scale, self.dx);
        let y: i128 = affine(r.y, self.scale, self.dy);
        let w: u64 = product(r.width, self.scale);
        let h: u64 = product(r.height, self.scale);
        x >= i32::MIN as i128 && x <= i32::MAX as i128 && y >= i32::MIN as i128 && y
            <= i32::MAX as i128 && w <= u32::MAX as u64 && h <= u32::MAX as u64
    }

    /// The image of `r`.
    pub fn apply(&self, r: &Rect) -> (out: Rect)
        requires
            self.fits(*r),
        ensures
            out == self.spec_apply(*r),
    {
        let x: i128 = affine(r.x, self.scale, self.dx);
        let y: i128 = affine(r.y, self.scale, self.dy);
        let w: u64 = product(r.width, self.scale);
        let h: u64 = product(r.height, self.scale);
        Rect { x: x as i32, y: y as i32, width: w as u32, height: h as u32 }
    }

    /// Whether `self` after `inner` can be represented.
    pub fn can_compose(&self, inner: &Transformation) -> (b: bool)
        ensures
            b == self.composable(*inner),
    {
        let x: i128 = affine(inner.dx, self.scale, self.dx);
        let y: i128 = affine(inner.dy, self.scale, self.dy);
        let k: u64 = product(self.scale, inner.scale);
        x >= i32::MIN as i128 && x <= i32::MAX as i128 && y >= i32::MIN as i128 && y
            <= i32::MAX as i128 && k <= u32::MAX as u64
    }

    /// `inner` first, then `self`.
    pub fn compose(&self, inner: &Transformation) -> (out: Transformation)
        requires
            self.composable(*inner),
        ensures
            out == self.spec_compose(*inner),
    {
        let x: i128 = affine(inner.dx, self.scale, self.dx);
        let y: i128 = affine(inner.dy, self.scale, self.dy);
        let k: u64 = product(self.scale, inner.scale);
        Transformation { scale: k as u32, dx: x as i32, dy: y as i32 }
    }
}

/// `v * s + d`, computed without overflow.
fn affine(v: i32, s: u32, d: i32) -> (out: i128)
    ensures
        out == v * s + d,
{
    assert(-0x8000_0000 * 0x1_0000_0000 <= (v as int) * (s as int) <= 0x8000_0000
        * 0x1_0000_0000) by (nonlinear_arith)
        requires
            -0x8000_0000 <= v as int <= 0x8000_0000,
            0 <= s as int <= 0x1_0000_0000,
    ;
    v as i128 * s as i128 + d as i128
}

/// `a * b`, computed without overflow.
fn product(a: u32, b: u32) -> (out: u64)
    ensures
        out == a * b,
{
    assert(0 <= (a as int) * (b as int) <= 0xffff_ffff * 0xffff_ffff) by (nonlinear_arith)
        requires
            0 <= a as int <= 0xffff_ffff,
            0 <= b as int <= 0xffff_ffff,
    ;
    a as u64 * b as u64
}

/// Applying a composition is applying the inner transformation, then the
/// outer one.
pub proof fn lemma_compose_apply(outer: Transformation, inner: Transformation, r: Rect)
    requires
        outer.composable(inner),
        inner.fits(r),
        outer.fits(inner.spec_apply(r)),
    ensures
        outer.spec_compose(inner).fits(r),
        outer.spec_compose(inner).spec_apply(r) == outer.spec_apply(inner.spec_apply(r)),
{
    let a = outer.scale as int;
    let b = inner.scale as int;
    assert((r.x * b + inner.dx) * a + outer.dx == r.x * (a * b) + (inner.dx * a + outer.dx))
        by (nonlinear_arith);
    assert((r.y * b + inner.dy) * a + outer.dy == r.y * (a * b) + (inner.dy * a + outer.dy))
        by (nonlinear_arith);
    assert((r.width * b) * a == r.width * (a * b)) by (nonlinear_arith);
    assert((r.height * b) * a == r.height * (a * b)) by (nonlinear_arith);
}

} // verus!
