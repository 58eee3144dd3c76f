//! Quads: what a caller asks to be drawn, and what a layer records.

use vstd::prelude::*;
use crate::geometry::Point;
use crate::geometry::Rect;
use crate::geometry::Size;
use crate::geometry::Transformation;

verus! {

/// A straight (not premultiplied) colour, eight bits a channel.
#[derive(Clone, Copy, Debug, PartialEq, Eq, Structural)]
pub struct Color {
    pub r: u8,
    pub g: u8,
    pub b: u8,
    pub a: u8,
}

/// The four corner radii of a quad, clockwise from the top-left corner.
#[derive(Clone, Copy, Debug, PartialEq, Eq, Structural)]
pub struct Radii {
    pub top_left: u32,
    pub top_right: u32,
    pub bottom_right: u32,
    pub bottom_left: u32,
}

/// The border of a quad.
#[derive(Clone, Copy, Debug, PartialEq, Eq, Structural)]
pub struct Border {
    pub color: Color,
    pub width: u32,
    pub radius: Radii,
}

/// What fills a quad.
#[derive(Clone, Copy, Debug, PartialEq, Eq, Structural)]
pub enum Background {
    /// A flat colour.
    Color(Color),
    /// A gradient. It is not rendered: the quad is filled with opaque black.
    Gradient,
}

/// A quad as a caller describes it, before any transformation.
#[derive(Clone, Copy, Debug, PartialEq, Eq, Structural)]
pub struct Primitive {
    pub bounds: Rect,
    pub border: Border,
}

/// A quad as a layer records it: one instance of the quad pipeline.
#[derive(Clone, Copy, Debug, PartialEq, Eq, Structural)]
pub struct Quad {
    /// The fill colour.
    pub color: Color,
    /// The top-left corner.
    pub position: Point,
    /// The width and the height.
    pub size: Size,
    /// The colour of the border.
    pub border_color: Color,
    /// The corner radii.
    pub border_radius: Radii,
    /// The width of the border.
    pub border_width: u32,
}

/// The four channels of a colour: red, green, blue, alpha.
pub fn arr(color: Color) -> (channels: [u8; 4])
    ensures
        channels@ == seq![color.r, color.g, color.b, color.a],
{
    let channels: [u8; 4] = [color.r, color.g, color.b, color.a];
    assert(channels@ =~= seq![color.r, color.g, color.b, color.a]);
    channels
}

impl Background {
    /// The flat colour that is painted for this background.
    pub open spec fn spec_flat(self) -> Color {
        match self {
            Background::Color(c) => c,
            Background::Gradient => Color { r: 0, g: 0, b: 0, a: 255 },
        }
    }

    /// The flat colour that is painted for this background.
    pub fn flat(&self) -> (c: Color)
        ensures
            c == self.spec_flat(),
    {
        match self {
            Background::Color(c) => *c,
            Background::Gradient => Color { r: 0, g: 0, b: 0, a: 255 },
        }
    }
}

impl Quad {
    /// The pixels that the quad may paint.
    pub open spec fn bounds(self) -> Rect {
        Rect {
            x: self.position.x,
            y: self.position.y,
            width: self.size.width,
            height: self.size.height,
        }
    }

    /// The quad that records `primitive`, filled with `background`, under
    /// `transformation`.
    pub open spec fn spec_record(
        primitive: Primitive,
        background: Background,
        transformation: Transformation,
    ) -> Quad {
        let b = transformation.spec_apply(primitive.bounds);
        Quad {
            color: background.spec_flat(),
            position: Point { x: b.x, y: b.y },
            size: Size { width: b.width, height: b.height },
            border_color: primitive.border.color,
            border_radius: primitive.border.radius,
            border_width: primitive.border.width,
        }
    }

    /// The pixels that the quad may paint.
    pub fn rect(&self) -> (r: Rect)
        ensures
            r == self.bounds(),
    {
        Rect {
            x: self.position.x,
            y: self.position.y,
            width: self.size.width,
            height: self.size.height,
        }
    }

    /// Records `primitive`: its bounds go through `transformation`, its
    /// background becomes a flat colour, its border is kept.
    pub fn record(primitive: Primitive, background: Background, transformation: Transformation) -> (q:
        Quad)
        requires
            transformation.fits(primitive.bounds),
        ensures
            q == Quad::spec_record(primitive, background, transformation),
    {
        let b = transformation.apply(&primitive.bounds);
        Quad {
            color: background.flat(),
            position: Point { x: b.x, y: b.y },
            size: Size { width: b.width, height: b.height },
            border_color: primitive.border.color,
            border_radius: primitive.border.radius,
            border_width: primitive.border.width,
        }
    }
}

} // verus!
