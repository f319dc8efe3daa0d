use vstd::prelude::*;

verus! {

/// A position on the integer grid. `x` grows rightward, `y` grows upward.
#[derive(Clone, Copy, Debug, PartialEq, Eq, Structural)]
pub struct Point {
    /// Horizontal co-ordinate.
    pub x: i32,
    /// Vertical co-ordinate.
    pub y: i32,
}

impl Point {
    /// Create a point from its two co-ordinates.
    pub fn new(x: i32, y: i32) -> (p: Point)
        ensures
            p.x == x,
            p.y == y,
    {
        Point { x, y }
    }
}

} // verus!
