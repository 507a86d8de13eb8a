//! Plan-view geometry. Coordinates are integer millimetres.

use vstd::prelude::*;

verus! {

/// 2D point in plan view, in millimetres.
#[derive(Debug, Clone, Copy, PartialEq, Eq, Structural)]
pub struct Point2D {
    pub x: i64,
    pub y: i64,
}

impl Point2D {
    pub fn new(x: i64, y: i64) -> (p: Point2D)
        ensures
            p.x == x,
            p.y == y,
    {
        Point2D { x, y }
    }

    pub fn origin() -> (p: Point2D)
        ensures
            p.x == 0,
            p.y == 0,
    {
        Point2D { x: 0, y: 0 }
    }
}

} // verus!
