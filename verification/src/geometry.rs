//! Plain geometric values shared by the drawing components.

use vstd::prelude::*;

verus! {

/// A signed pixel coordinate in logical drawing space.
#[derive(Debug, Clone, Copy, PartialEq, Eq, Structural)]
pub struct Point {
    pub x: i32,
    pub y: i32,
}

impl Point {
    /// The origin of the drawing space.
    pub fn zero() -> (r: Point)
        ensures
            r.x == 0 && r.y == 0,
    {
        Point { x: 0, y: 0 }
    }

    pub fn new(x: i32, y: i32) -> (r: Point)
        ensures
            r.x == x && r.y == y,
    {
        Point { x, y }
    }
}

/// One colored pixel: a coordinate and its on/off state.
#[derive(Debug, Clone, Copy, PartialEq, Eq, Structural)]
pub struct Pixel {
    pub point: Point,
    pub on: bool,
}

/// An axis-aligned pixel region given by its top-left corner and extent.
#[derive(Debug, Clone, Copy, PartialEq, Eq, Structural)]
pub struct Rect {
    pub top_left: Point,
    pub width: u32,
    pub height: u32,
}

} // verus!
