//! Integer vectors.
use vstd::prelude::*;

verus! {

/// A 2D vector of integers, such as a size in pixels.
#[derive(Clone, Copy, PartialEq, Eq, Debug, Structural)]
pub struct Vec2i {
    pub x: i32,
    pub y: i32,
}

impl Vec2i {
    pub fn new(x: i32, y: i32) -> (res: Self)
        ensures
            res.x == x,
            res.y == y,
    {
        Self { x, y }
    }
}

} // verus!
