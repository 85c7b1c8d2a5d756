//! Glyph-local integer geometry shared by the calculators.
use vstd::prelude::*;

verus! {

/// The smallest axis-aligned rectangle enclosing a glyph's visible marks,
/// in a glyph-local coordinate frame whose origin and vertical direction
/// are fixed by the glyph geometry provider. Width or height may be zero
/// for a glyph with no visible marks (a space); the calculators treat such
/// a box as degenerate, never as a crash.
#[derive(Clone, Copy, Debug, PartialEq, Eq, Structural)]
pub struct BoundingBox {
    pub min_x: i32,
    pub min_y: i32,
    pub max_x: i32,
    pub max_y: i32,
}

impl BoundingBox {
    /// Neither axis is inverted. An inverted box is malformed geometry and
    /// is rejected, never silently corrected.
    pub open spec fn well_formed(self) -> bool {
        self.min_x <= self.max_x && self.min_y <= self.max_y
    }

    pub open spec fn spec_width(self) -> int {
        self.max_x - self.min_x
    }

    pub open spec fn spec_height(self) -> int {
        self.max_y - self.min_y
    }

    pub fn width(&self) -> (w: i64)
        ensures
            w == self.spec_width(),
    {
        self.max_x as i64 - self.min_x as i64
    }

    pub fn height(&self) -> (h: i64)
        ensures
            h == self.spec_height(),
    {
        self.max_y as i64 - self.min_y as i64
    }

    pub fn is_well_formed(&self) -> (b: bool)
        ensures
            b == self.well_formed(),
    {
        self.min_x <= self.max_x && self.min_y <= self.max_y
    }
}

/// The vector-extent height of a glyph: the vertical span of its bounding
/// box. Negative exactly when the box is inverted (malformed).
pub fn glyph_height(bb: &BoundingBox) -> (h: i64)
    ensures
        h == bb.spec_height(),
{
    bb.height()
}

} // verus!
