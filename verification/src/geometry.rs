//! Points, extents and rectangles of the logical canvas.
//!
//! Coordinates are whole numbers of canvas units, `UNITS_PER_POINT` of
//! them to a point of the screen. Only the defaults of a session depend
//! on how fine a unit is; geometry, tools and history work on units as
//! they come.

use vstd::prelude::*;

verus! {

/// Largest magnitude of a coordinate that the hit-testing arithmetic accepts.
pub const COORD_MAX: i64 = 1_073_741_824;

/// Canvas units in one point of the screen.
pub const UNITS_PER_POINT: u32 = 64;

/// A position on the canvas.
#[derive(Clone, Copy, Debug, PartialEq, Eq, Structural)]
pub struct Point {
    pub x: i64,
    pub y: i64,
}

impl Point {
    /// Both coordinates lie within `COORD_MAX` of the origin.
    pub open spec fn in_range(self) -> bool {
        &&& -COORD_MAX <= self.x <= COORD_MAX
        &&& -COORD_MAX <= self.y <= COORD_MAX
    }

    pub fn new(x: i64, y: i64) -> (p: Point)
        ensures
            p == (Point { x, y }),
    {
        Point { x, y }
    }

    /// Tells whether the point can take part in hit-testing.
    pub fn is_in_range(&self) -> (ok: bool)
        ensures
            ok == self.in_range(),
    {
        -COORD_MAX <= self.x && self.x <= COORD_MAX && -COORD_MAX <= self.y && self.y <= COORD_MAX
    }
}

/// The extent of a canvas, in canvas units.
#[derive(Clone, Copy, Debug, PartialEq, Eq, Structural)]
pub struct Size {
    pub width: u32,
    pub height: u32,
}

impl Size {
    pub fn new(width: u32, height: u32) -> (s: Size)
        ensures
            s == (Size { width, height }),
    {
        Size { width, height }
    }
}

/// An axis-aligned rectangle, from its least corner to its greatest.
#[derive(Clone, Copy, Debug, PartialEq, Eq, Structural)]
pub struct Rect {
    pub min: Point,
    pub max: Point,
}

impl Rect {
    pub open spec fn width(self) -> int {
        self.max.x - self.min.x
    }

    pub open spec fn height(self) -> int {
        self.max.y - self.min.y
    }

    /// The rectangle that starts at the origin and has the extent `size`.
    pub open spec fn at_origin(size: Size) -> Rect {
        Rect {
            min: Point { x: 0, y: 0 },
            max: Point { x: size.width as i64, y: size.height as i64 },
        }
    }

    /// The rectangle starts at the origin and has a non-negative extent
    /// that fits a `Size`.
    pub open spec fn is_area(self) -> bool {
        &&& self.min == (Point { x: 0, y: 0 })
        &&& 0 <= self.max.x <= u32::MAX
        &&& 0 <= self.max.y <= u32::MAX
    }

    pub fn from_min_max(min: Point, max: Point) -> (r: Rect)
        ensures
            r == (Rect { min, max }),
    {
        Rect { min, max }
    }

    /// The extent of a rectangle that starts at the origin.
    pub fn size(&self) -> (s: Size)
        requires
            self.is_area(),
        ensures
            Rect::at_origin(s) == *self,
    {
        Size { width: self.max.x as u32, height: self.max.y as u32 }
    }
}

/// Squared Euclidean distance between two points.
pub open spec fn dist_sq(p: Point, q: Point) -> int {
    (p.x - q.x) * (p.x - q.x) + (p.y - q.y) * (p.y - q.y)
}

} // verus!
