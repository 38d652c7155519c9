//! Plain 2D integer vectors. Coordinates are fixed-point milli-units; all
//! heavier arithmetic on them (dot products, squared norms) is done by the
//! callers in wider intermediates, so this type stays a bare pair.

use vstd::prelude::*;

verus! {

/// A 2D vector or point, in milli-units per coordinate.
#[derive(Clone, Copy, Debug, PartialEq, Eq, Structural)]
pub struct Vec2 {
    pub x: i64,
    pub y: i64,
}

impl Vec2 {
    pub fn new(x: i64, y: i64) -> (r: Vec2)
        ensures
            r.x == x,
            r.y == y,
    {
        Vec2 { x, y }
    }

    /// Squared length as a mathematical integer.
    pub open spec fn norm2(self) -> int {
        self.x * self.x + self.y * self.y
    }
}

/// Floor of `(a + b) / 2`, the midpoint of two coordinates.
pub fn midpoint(a: i64, b: i64) -> (r: i64)
    ensures
        r == (a + b) / 2,
{
    let s: i128 = a as i128 + b as i128;
    if s >= 0 {
        (s / 2) as i64
    } else {
        let q: i128 = (-s + 1) / 2;
        (-q) as i64
    }
}

} // verus!
