//! Rectangles against image bounds: a requested rectangle, in signed
//! coordinates that may lie anywhere, is clamped into the image.
use vstd::prelude::*;

verus! {

/// Width and height of an image, in pixels.
#[derive(Debug, Clone, Copy, PartialEq, Eq, Structural)]
pub struct Dimensions {
    pub width: u32,
    pub height: u32,
}

/// A requested rectangle; its coordinates may be negative or out of range.
#[derive(Debug, Clone, Copy, PartialEq, Eq, Structural)]
pub struct Rectangle {
    pub x: i64,
    pub y: i64,
    pub width: i64,
    pub height: i64,
}

/// A rectangle that `clamp` placed inside an image; zero width or height marks it empty.
#[derive(Debug, Clone, Copy, PartialEq, Eq, Structural)]
pub struct ClampedRectangle {
    pub x: u32,
    pub y: u32,
    pub width: u32,
    pub height: u32,
}

impl ClampedRectangle {
    /// The rectangle lies inside an image of dimensions `d`.
    pub open spec fn fits(self, d: Dimensions) -> bool {
        self.x + self.width <= d.width && self.y + self.height <= d.height
    }

    /// The rectangle covers no pixel.
    pub open spec fn spec_is_degenerate(&self) -> bool {
        self.width == 0 || self.height == 0
    }

    /// Whether the rectangle covers no pixel.
    #[verifier::when_used_as_spec(spec_is_degenerate)]
    pub fn is_degenerate(&self) -> (r: bool)
        ensures
            r == self.spec_is_degenerate(),
    {
        self.width == 0 || self.height == 0
    }

    /// The same rectangle in signed coordinates.
    pub open spec fn spec_as_rectangle(&self) -> Rectangle {
        Rectangle {
            x: self.x as i64,
            y: self.y as i64,
            width: self.width as i64,
            height: self.height as i64,
        }
    }

    /// The same rectangle in signed coordinates.
    #[verifier::when_used_as_spec(spec_as_rectangle)]
    pub fn as_rectangle(&self) -> (r: Rectangle)
        ensures
            r == self.spec_as_rectangle(),
    {
        Rectangle {
            x: self.x as i64,
            y: self.y as i64,
            width: self.width as i64,
            height: self.height as i64,
        }
    }
}

/// One axis of `clamp`: the start floored at zero and capped at `limit`,
/// the extent floored at zero and capped so that start plus extent stays within `limit`.
pub open spec fn clamp_axis(start: i64, extent: i64, limit: u32) -> (u32, u32) {
    let s: int = if start < 0 {
        0
    } else if start > limit {
        limit as int
    } else {
        start as int
    };
    let e: int = if extent < 0 {
        0
    } else if extent > limit - s {
        limit - s
    } else {
        extent as int
    };
    (s as u32, e as u32)
}

/// What `clamp` gives.
pub open spec fn clamp_spec(r: Rectangle, d: Dimensions) -> ClampedRectangle {
    ClampedRectangle {
        x: clamp_axis(r.x, r.width, d.width).0,
        y: clamp_axis(r.y, r.height, d.height).0,
        width: clamp_axis(r.x, r.width, d.width).1,
        height: clamp_axis(r.y, r.height, d.height).1,
    }
}

fn clamp_one_axis(start: i64, extent: i64, limit: u32) -> (r: (u32, u32))
    ensures
        r == clamp_axis(start, extent, limit),
{
    let s: u32 = if start < 0 {
        0
    } else if start > limit as i64 {
        limit
    } else {
        start as u32
    };
    let room: u32 = limit - s;
    let e: u32 = if extent < 0 {
        0
    } else if extent > room as i64 {
        room
    } else {
        extent as u32
    };
    (s, e)
}

/// Places `rect` inside an image of dimensions `image`. Never fails: a
/// rectangle that lies outside, or has no positive width or height, comes
/// out with zero width or height.
pub fn clamp(rect: &Rectangle, image: &Dimensions) -> (r: ClampedRectangle)
    ensures
        r == clamp_spec(*rect, *image),
{
    let (x, width) = clamp_one_axis(rect.x, rect.width, image.width);
    let (y, height) = clamp_one_axis(rect.y, rect.height, image.height);
    ClampedRectangle { x, y, width, height }
}

/// A clamped rectangle lies inside the image, with nothing negative.
pub proof fn lemma_clamp_fits(r: Rectangle, d: Dimensions)
    ensures
        clamp_spec(r, d).fits(d),
        clamp_spec(r, d).x + clamp_spec(r, d).width <= d.width,
        clamp_spec(r, d).y + clamp_spec(r, d).height <= d.height,
        clamp_spec(r, d).x >= 0 && clamp_spec(r, d).y >= 0,
        clamp_spec(r, d).width >= 0 && clamp_spec(r, d).height >= 0,
{
}

/// Clamping what clamping gave changes nothing.
pub proof fn lemma_clamp_idempotent(r: Rectangle, d: Dimensions)
    ensures
        clamp_spec(clamp_spec(r, d).as_rectangle(), d) == clamp_spec(r, d),
{
}

} // verus!
