use vstd::prelude::*;

verus! {

/// A logical position on the drawing surface; it may lie outside the canvas.
#[derive(Clone, Copy, Debug, PartialEq, Eq, Structural)]
pub struct Point {
    pub x: i32,
    pub y: i32,
}

impl Point {
    pub fn new(x: i32, y: i32) -> (p: Point)
        ensures
            p.x == x && p.y == y,
    {
        Point { x, y }
    }
}

/// The dimensions of the logical canvas.
#[derive(Clone, Copy, Debug, PartialEq, Eq, Structural)]
pub struct Size {
    pub width: u32,
    pub height: u32,
}

impl Size {
    pub fn new(width: u32, height: u32) -> (s: Size)
        ensures
            s.width == width && s.height == height,
    {
        Size { width, height }
    }

    /// Whether `p` lies on a canvas of this size whose corner is the origin.
    pub open spec fn contains(self, p: Point) -> bool {
        0 <= p.x < self.width && 0 <= p.y < self.height
    }
}

} // verus!
