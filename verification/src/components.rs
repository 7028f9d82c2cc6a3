use vstd::prelude::*;
use crate::geometry::Point;

verus! {

/// How an entity is drawn: a glyph code and a color code, consumed by the
/// presentation layer.
#[derive(Clone, Copy, PartialEq, Eq, Structural, Debug)]
pub struct Renderable {
    pub glyph: u32,
    pub color: u32,
}

/// Hit points, current and maximum.
#[derive(Clone, Copy, PartialEq, Eq, Structural, Debug)]
pub struct Health {
    pub current: i32,
    pub max: i32,
}

/// A sight radius together with the cached set of visible tiles, recomputed
/// after movement.
#[derive(Clone, Debug)]
pub struct FieldOfView {
    pub radius: i32,
    pub visible_tiles: Vec<Point>,
}

impl FieldOfView {
    pub fn new(radius: i32) -> (f: FieldOfView)
        ensures
            f.radius == radius,
            f.visible_tiles@ == Seq::<Point>::empty(),
    {
        FieldOfView { radius, visible_tiles: Vec::new() }
    }
}

} // verus!
