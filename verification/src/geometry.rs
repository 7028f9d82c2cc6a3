use vstd::prelude::*;

verus! {

/// An integer grid coordinate: a plain value with no ownership implications.
#[derive(Clone, Copy, PartialEq, Eq, Structural, Debug)]
pub struct Point {
    pub x: i32,
    pub y: i32,
}

/// Chebyshev (king-move) distance between two points, as a mathematical integer.
pub open spec fn cheb_dist(a: Point, b: Point) -> int {
    let dx = if a.x >= b.x { a.x - b.x } else { b.x - a.x };
    let dy = if a.y >= b.y { a.y - b.y } else { b.y - a.y };
    if dx >= dy { dx } else { dy }
}

/// Manhattan (taxicab) distance between two points: what one cardinal step
/// toward the target always reduces by one.
pub open spec fn manh_dist(a: Point, b: Point) -> int {
    let dx = if a.x >= b.x { a.x - b.x } else { b.x - a.x };
    let dy = if a.y >= b.y { a.y - b.y } else { b.y - a.y };
    dx + dy
}

impl Point {
    pub fn new(x: i32, y: i32) -> (p: Point)
        ensures
            p == (Point { x, y }),
    {
        Point { x, y }
    }

    pub fn zero() -> (p: Point)
        ensures
            p == (Point { x: 0, y: 0 }),
    {
        Point { x: 0, y: 0 }
    }

    /// Chebyshev distance to another point; widened internally so any two
    /// coordinates are accepted.
    pub fn chebyshev(self, other: Point) -> (d: i64)
        ensures
            d == cheb_dist(self, other),
    {
        let ax: i64 = self.x as i64;
        let ay: i64 = self.y as i64;
        let bx: i64 = other.x as i64;
        let by: i64 = other.y as i64;
        let dx: i64 = if ax >= bx { ax - bx } else { bx - ax };
        let dy: i64 = if ay >= by { ay - by } else { by - ay };
        if dx >= dy { dx } else { dy }
    }
}

/// An axis-aligned rectangle, used for rooms. It owns no cells, only
/// coordinates; `x2`/`y2` are exclusive.
#[derive(Clone, Copy, PartialEq, Eq, Structural, Debug)]
pub struct Rect {
    pub x1: i32,
    pub y1: i32,
    pub x2: i32,
    pub y2: i32,
}

impl Rect {
    pub fn with_size(x: i32, y: i32, w: i32, h: i32) -> (r: Rect)
        requires
            0 <= x,
            0 <= y,
            0 <= w,
            0 <= h,
            x + w <= i32::MAX,
            y + h <= i32::MAX,
        ensures
            r == (Rect { x1: x, y1: y, x2: (x + w) as i32, y2: (y + h) as i32 }),
    {
        Rect { x1: x, y1: y, x2: x + w, y2: y + h }
    }

    /// The central point of the rectangle, used for spawn placement.
    pub fn center(self) -> (c: Point)
        requires
            0 <= self.x1,
            0 <= self.y1,
            self.x1 + self.x2 <= i32::MAX,
            self.y1 + self.y2 <= i32::MAX,
            self.x1 <= self.x2,
            self.y1 <= self.y2,
        ensures
            c.x == (self.x1 + self.x2) / 2,
            c.y == (self.y1 + self.y2) / 2,
    {
        Point { x: (self.x1 + self.x2) / 2, y: (self.y1 + self.y2) / 2 }
    }
}

} // verus!
