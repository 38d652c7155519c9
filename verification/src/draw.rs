//! The rendering-facing component. The core never draws; it only carries the
//! heritable colour of an entity, which the renderer combines with its own
//! mesh handles. Channels are fixed-point in `[0, UNIT]`.

use vstd::prelude::*;

use crate::UNIT;

verus! {

/// One colour channel value, fixed-point in `[0, UNIT]`.
#[derive(Clone, Copy, Debug, PartialEq, Eq, Structural)]
pub struct Rgba {
    pub r: i64,
    pub g: i64,
    pub b: i64,
    pub a: i64,
}

pub open spec fn rgba_wf(c: Rgba) -> bool {
    &&& 0 <= c.r <= UNIT
    &&& 0 <= c.g <= UNIT
    &&& 0 <= c.b <= UNIT
    &&& 0 <= c.a <= UNIT
}

impl Rgba {
    pub fn new(r: i64, g: i64, b: i64, a: i64) -> (c: Rgba)
        ensures
            c == (Rgba { r, g, b, a }),
    {
        Rgba { r, g, b, a }
    }
}

/// Per-entity rendering data owned by the core: only the heritable colour.
#[derive(Clone, Copy, Debug, PartialEq, Eq, Structural)]
pub struct Draw {
    pub color: Rgba,
}

impl Draw {
    pub fn new(color: Rgba) -> (d: Draw)
        ensures
            d.color == color,
    {
        Draw { color }
    }
}

} // verus!
