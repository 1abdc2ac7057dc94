//! The plain values that flow through the pipeline: colors, pixel
//! coordinates, and the paint instructions that carry one finished pixel
//! from a worker to the canvas.

use vstd::prelude::*;

verus! {

/// A color with four 8-bit channels; the alpha channel means coverage for
/// later compositing against a background.
#[derive(Clone, Copy, Debug, Eq, PartialEq, Structural, Hash)]
pub struct Color {
    pub r: u8,
    pub g: u8,
    pub b: u8,
    pub a: u8,
}

impl Color {
    /// The initial value of every canvas entry: fully transparent black.
    pub open spec fn transparent_spec() -> Color {
        Color { r: 0, g: 0, b: 0, a: 0 }
    }

    /// Fully transparent black.
    pub fn transparent() -> (c: Color)
        ensures
            c == Color::transparent_spec(),
    {
        Color { r: 0, g: 0, b: 0, a: 0 }
    }
}

/// An integer pixel position `(x, y)` in the render target.
#[derive(Clone, Copy, Debug, Eq, PartialEq, Structural, Hash)]
pub struct Coord {
    pub x: usize,
    pub y: usize,
}

/// Instruction to paint a single pixel: a coordinate together with the color
/// computed for it. Immutable once created.
#[derive(Clone, Copy, Debug, Eq, PartialEq, Ord, PartialOrd, Structural, Hash)]
pub struct Paint {
    pub x: usize,
    pub y: usize,
    pub r: u8,
    pub g: u8,
    pub b: u8,
    pub a: u8,
}

impl Paint {
    /// The coordinate this instruction paints.
    pub open spec fn coord_spec(self) -> Coord {
        Coord { x: self.x, y: self.y }
    }

    /// The color this instruction paints.
    pub open spec fn color_spec(self) -> Color {
        Color { r: self.r, g: self.g, b: self.b, a: self.a }
    }

    /// Whether the instruction's coordinate lies in a `width` by `height` target.
    pub open spec fn in_bounds(self, width: int, height: int) -> bool {
        self.x < width && self.y < height
    }

    /// The row-major canvas index of the painted coordinate.
    pub open spec fn index_spec(self, width: int) -> int {
        self.y * width + self.x
    }

    /// Packages a coordinate and a color as one paint instruction.
    pub fn new(c: Coord, color: Color) -> (p: Paint)
        ensures
            p.coord_spec() == c,
            p.color_spec() == color,
    {
        Paint { x: c.x, y: c.y, r: color.r, g: color.g, b: color.b, a: color.a }
    }

    /// The coordinate this instruction paints.
    pub fn coord(&self) -> (c: Coord)
        ensures
            c == self.coord_spec(),
    {
        Coord { x: self.x, y: self.y }
    }

    /// The color this instruction paints.
    pub fn color(&self) -> (c: Color)
        ensures
            c == self.color_spec(),
    {
        Color { r: self.r, g: self.g, b: self.b, a: self.a }
    }
}

} // verus!
