//! Grid points, sizes and the bounds test.

use vstd::prelude::*;

verus! {

/// A tile coordinate. Either part may be negative in authored data.
#[derive(Debug, Clone, Copy, PartialEq, Eq, Hash, Structural)]
pub struct Point {
    pub x: i32,
    pub y: i32,
}

/// A footprint in tiles.
#[derive(Debug, Clone, Copy, PartialEq, Eq, Hash, Structural)]
pub struct Size {
    pub width: i32,
    pub height: i32,
}

/// Whether `(x, y)` names a tile of a `width` by `height` grid.
pub open spec fn within(x: int, y: int, width: int, height: int) -> bool {
    0 <= x < width && 0 <= y < height
}

impl Point {
    /// The point `(x, y)`.
    pub fn new(x: i32, y: i32) -> (p: Point)
        ensures
            p == (Point { x, y }),
    {
        Point { x, y }
    }

    /// Whether this point names a tile of a `width` by `height` grid.
    pub fn in_bounds(&self, width: i32, height: i32) -> (inside: bool)
        ensures
            inside == within(self.x as int, self.y as int, width as int, height as int),
    {
        self.x >= 0 && self.y >= 0 && self.x < width && self.y < height
    }

    /// Whether this point moved by `(dx, dy)` names a tile of the grid. The
    /// sum is taken exactly: it cannot wrap.
    pub fn offset_in_bounds(&self, dx: i32, dy: i32, width: i32, height: i32) -> (inside: bool)
        ensures
            inside == within(self.x + dx, self.y + dy, width as int, height as int),
    {
        let x: i64 = self.x as i64 + dx as i64;
        let y: i64 = self.y as i64 + dy as i64;
        x >= 0 && y >= 0 && x < width as i64 && y < height as i64
    }
}

impl Size {
    /// The size `width` by `height`.
    pub fn new(width: i32, height: i32) -> (s: Size)
        ensures
            s == (Size { width, height }),
    {
        Size { width, height }
    }
}

} // verus!
