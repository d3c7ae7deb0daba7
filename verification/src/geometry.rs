//! Geometry primitives: a 2-component integer vector, an axis-aligned
//! rectangle (`Frame`) given by its lower and upper corners, and a dimension
//! value (`Dim`) that is either an absolute pixel count or a fraction (in
//! thousandths) of a reference length.

use vstd::prelude::*;
use crate::arith::{scale_pm, scale_pm_i64, tdiv, tdiv_i64, half, COORD_LIMIT, PM_LIMIT};

verus! {

/// A 2-component pixel vector.
#[derive(Debug, PartialEq, Eq, Structural, Copy, Clone)]
pub struct Vec2 {
    pub x: i64,
    pub y: i64,
}

impl Vec2 {
    /// The origin.
    pub fn zero() -> (r: Vec2)
        ensures
            r == (Vec2 { x: 0i64, y: 0i64 }),
    {
        Vec2 { x: 0, y: 0 }
    }

    /// Component-wise sum.
    pub fn plus(self, other: Vec2) -> (r: Vec2)
        requires
            i64::MIN <= self.x + other.x <= i64::MAX,
            i64::MIN <= self.y + other.y <= i64::MAX,
        ensures
            r.x == self.x + other.x,
            r.y == self.y + other.y,
    {
        Vec2 { x: self.x + other.x, y: self.y + other.y }
    }

    /// Component-wise difference.
    pub fn minus(self, other: Vec2) -> (r: Vec2)
        requires
            i64::MIN <= self.x - other.x <= i64::MAX,
            i64::MIN <= self.y - other.y <= i64::MAX,
        ensures
            r.x == self.x - other.x,
            r.y == self.y - other.y,
    {
        Vec2 { x: self.x - other.x, y: self.y - other.y }
    }

    /// Component-wise product.
    pub fn el_mul(self, other: Vec2) -> (r: Vec2)
        requires
            i64::MIN <= self.x * other.x <= i64::MAX,
            i64::MIN <= self.y * other.y <= i64::MAX,
        ensures
            r.x == self.x * other.x,
            r.y == self.y * other.y,
    {
        Vec2 { x: self.x * other.x, y: self.y * other.y }
    }

    /// Both components scaled by `s`.
    pub fn times(self, s: i64) -> (r: Vec2)
        requires
            i64::MIN <= self.x * s <= i64::MAX,
            i64::MIN <= self.y * s <= i64::MAX,
        ensures
            r.x == self.x * s,
            r.y == self.y * s,
    {
        Vec2 { x: self.x * s, y: self.y * s }
    }

    /// Both components divided by a positive `s`, truncating toward zero.
    pub fn divided_by(self, s: i64) -> (r: Vec2)
        requires
            s > 0,
            self.x > i64::MIN,
            self.y > i64::MIN,
        ensures
            r.x == tdiv(self.x as int, s as int),
            r.y == tdiv(self.y as int, s as int),
    {
        Vec2 { x: tdiv_i64(self.x, s), y: tdiv_i64(self.y, s) }
    }
}

/// An axis-aligned rectangle spanned by its lower corner `p0` and upper
/// corner `p1`. Callers must not construct inverted frames (`p1 < p0`);
/// the functions that lay children out require a well-formed frame.
#[derive(Debug, PartialEq, Eq, Structural, Copy, Clone)]
pub struct Frame {
    pub p0: Vec2,
    pub p1: Vec2,
}

impl Frame {
    /// A frame is well formed when its corners are ordered and all
    /// coordinates are within the layout range.
    pub open spec fn wf(self) -> bool {
        &&& self.p0.x <= self.p1.x
        &&& self.p0.y <= self.p1.y
        &&& -COORD_LIMIT <= self.p0.x
        &&& -COORD_LIMIT <= self.p0.y
        &&& self.p1.x <= COORD_LIMIT
        &&& self.p1.y <= COORD_LIMIT
    }

    /// A frame of the given size with its lower corner at the origin.
    pub fn new_with_size(width: i64, height: i64) -> (r: Frame)
        requires
            0 <= width <= COORD_LIMIT,
            0 <= height <= COORD_LIMIT,
        ensures
            r.p0 == (Vec2 { x: 0i64, y: 0i64 }),
            r.p1 == (Vec2 { x: width, y: height }),
            r.wf(),
    {
        Frame { p0: Vec2 { x: 0, y: 0 }, p1: Vec2 { x: width, y: height } }
    }

    /// The unit frame.
    pub fn new() -> (r: Frame)
        ensures
            r.p0 == (Vec2 { x: 0i64, y: 0i64 }),
            r.p1 == (Vec2 { x: 1i64, y: 1i64 }),
            r.wf(),
    {
        Frame::new_with_size(1, 1)
    }

    /// Horizontal extent.
    pub fn width(&self) -> (r: i64)
        requires
            i64::MIN <= self.p1.x - self.p0.x <= i64::MAX,
        ensures
            r == self.p1.x - self.p0.x,
    {
        self.p1.x - self.p0.x
    }

    /// Vertical extent.
    pub fn height(&self) -> (r: i64)
        requires
            i64::MIN <= self.p1.y - self.p0.y <= i64::MAX,
        ensures
            r == self.p1.y - self.p0.y,
    {
        self.p1.y - self.p0.y
    }

    /// The larger of width and height.
    pub fn max_dim(&self) -> (r: i64)
        requires
            self.wf(),
        ensures
            r == if self.p1.x - self.p0.x >= self.p1.y - self.p0.y {
                self.p1.x - self.p0.x
            } else {
                self.p1.y - self.p0.y
            },
    {
        let w = self.width();
        let h = self.height();
        if w >= h {
            w
        } else {
            h
        }
    }

    /// The smaller of width and height.
    pub fn min_dim(&self) -> (r: i64)
        requires
            self.wf(),
        ensures
            r == if self.p1.x - self.p0.x <= self.p1.y - self.p0.y {
                self.p1.x - self.p0.x
            } else {
                self.p1.y - self.p0.y
            },
    {
        let w = self.width();
        let h = self.height();
        if w <= h {
            w
        } else {
            h
        }
    }

    /// The midpoint of the two corners, components truncated toward zero.
    pub fn center(&self) -> (r: Vec2)
        requires
            self.wf(),
        ensures
            r.x == tdiv(self.p0.x + self.p1.x, 2),
            r.y == tdiv(self.p0.y + self.p1.y, 2),
    {
        Vec2 { x: half(self.p0.x + self.p1.x), y: half(self.p0.y + self.p1.y) }
    }

    /// Width and height as a vector.
    pub fn size(&self) -> (r: Vec2)
        requires
            self.wf(),
        ensures
            r.x == self.p1.x - self.p0.x,
            r.y == self.p1.y - self.p0.y,
    {
        Vec2 { x: self.width(), y: self.height() }
    }

    /// Whether the point lies inside the frame, borders included.
    pub fn inside(&self, x: i64, y: i64) -> (r: bool)
        ensures
            r == (self.p0.x <= x <= self.p1.x && self.p0.y <= y <= self.p1.y),
    {
        x >= self.p0.x && x <= self.p1.x && y >= self.p0.y && y <= self.p1.y
    }
}

/// A size or offset: an absolute pixel count, or a fraction of a reference
/// length expressed in thousandths (`Relative(500)` is half the length).
#[derive(Debug, PartialEq, Eq, Structural, Copy, Clone)]
pub enum Dim {
    Absolute(i64),
    Relative(i64),
}

impl Dim {
    /// Bounds under which resolving a dimension cannot overflow.
    pub open spec fn wf(self) -> bool {
        match self {
            Dim::Absolute(a) => -COORD_LIMIT <= a <= COORD_LIMIT,
            Dim::Relative(pm) => -PM_LIMIT <= pm <= PM_LIMIT,
        }
    }

    /// The pixel value of this dimension against the reference length `len`.
    pub open spec fn spec_resolve(self, len: int) -> int {
        match self {
            Dim::Absolute(a) => a as int,
            Dim::Relative(pm) => scale_pm(len, pm as int),
        }
    }

    /// Resolve against a reference length.
    pub fn resolve(self, len: i64) -> (r: i64)
        requires
            self.wf(),
            0 <= len <= COORD_LIMIT,
        ensures
            r == self.spec_resolve(len as int),
            -COORD_LIMIT * PM_LIMIT <= r <= COORD_LIMIT * PM_LIMIT,
    {
        match self {
            Dim::Absolute(a) => a,
            Dim::Relative(pm) => scale_pm_i64(len, pm),
        }
    }
}

} // verus!
