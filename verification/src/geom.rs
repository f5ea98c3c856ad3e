use vstd::prelude::*;

verus! {

/// A coordinate pair, used both for grid cells (snake) and pixel
/// positions (breakout) on the 84x48 display.
#[derive(Clone, Copy, Debug, PartialEq, Eq, Structural)]
pub struct Point {
    pub x: i32,
    pub y: i32,
}

impl Point {
    pub fn new(x: i32, y: i32) -> (p: Point)
        ensures
            p.x == x,
            p.y == y,
    {
        Point { x, y }
    }
}

} // verus!
