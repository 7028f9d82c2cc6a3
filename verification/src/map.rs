use vstd::prelude::*;
use crate::geometry::{Point, cheb_dist};

verus! {

pub const SCREEN_WIDTH: i32 = 80;

pub const SCREEN_HEIGHT: i32 = 50;

pub const DISPLAY_WIDTH: i32 = 40;

pub const DISPLAY_HEIGHT: i32 = 25;

/// Number of cells of the fixed-size grid: `SCREEN_WIDTH * SCREEN_HEIGHT`.
pub const NUM_TILES: usize = 4000;

/// Classification of one grid cell.
#[derive(Clone, Copy, PartialEq, Eq, Structural, Debug)]
pub enum TileType {
    Wall,
    Floor,
}

/// The single authority for boundary checks: whether a point lies on the grid.
pub open spec fn spec_in_bounds(p: Point) -> bool {
    0 <= p.x < SCREEN_WIDTH && 0 <= p.y < SCREEN_HEIGHT
}

/// Row-major index of an in-bounds point.
pub open spec fn spec_idx(p: Point) -> int {
    p.y * (SCREEN_WIDTH as int) + p.x
}

/// The point a row-major index denotes.
pub open spec fn idx_point(i: int) -> Point {
    Point { x: (i % (SCREEN_WIDTH as int)) as i32, y: (i / (SCREEN_WIDTH as int)) as i32 }
}

pub proof fn lemma_idx_point(i: int)
    requires
        0 <= i < NUM_TILES,
    ensures
        spec_in_bounds(idx_point(i)),
        spec_idx(idx_point(i)) == i,
{
    vstd::arithmetic::div_mod::lemma_fundamental_div_mod(i, 80);
    vstd::arithmetic::div_mod::lemma_mod_bound(i, 80);
    vstd::arithmetic::div_mod::lemma_div_is_ordered(i, 3999, 80);
    assert(3999int / 80 == 49);
    vstd::arithmetic::div_mod::lemma_div_pos_is_pos(i, 80);
}

pub proof fn lemma_point_idx(p: Point)
    requires
        spec_in_bounds(p),
    ensures
        0 <= spec_idx(p) < NUM_TILES,
        idx_point(spec_idx(p)) == p,
{
    vstd::arithmetic::div_mod::lemma_fundamental_div_mod_converse(
        spec_idx(p), 80, p.y as int, p.x as int);
}

/// The point a row-major index denotes, as executable code.
pub fn index_to_point(idx: usize) -> (p: Point)
    requires
        idx < NUM_TILES,
    ensures
        p == idx_point(idx as int),
        spec_in_bounds(p),
{
    proof {
        lemma_idx_point(idx as int);
    }
    Point { x: (idx % 80) as i32, y: (idx / 80) as i32 }
}

/// Whether a cell blocks line of sight; everything off the grid does.
pub open spec fn spec_opaque(t: Seq<TileType>, p: Point) -> bool {
    !(spec_in_bounds(p) && t[spec_idx(p)] == TileType::Floor)
}

/// One king step from `a` toward `b`: each coordinate moves one cell toward
/// its target, or stays once it agrees.
pub open spec fn los_step(a: Point, b: Point) -> Point {
    Point {
        x: if b.x > a.x { (a.x + 1) as i32 } else if b.x < a.x { (a.x - 1) as i32 } else { a.x },
        y: if b.y > a.y { (a.y + 1) as i32 } else if b.y < a.y { (a.y - 1) as i32 } else { a.y },
    }
}

/// Line of sight along the king-step digital line from `a` to `b`: clear
/// when no cell strictly between the two endpoints is opaque.
pub open spec fn los_clear(t: Seq<TileType>, a: Point, b: Point) -> bool
    decreases cheb_dist(a, b),
{
    if cheb_dist(a, b) <= 1 {
        true
    } else {
        let n = los_step(a, b);
        !spec_opaque(t, n) && los_clear(t, n, b)
    }
}

/// A fixed-size tile grid, `SCREEN_WIDTH x SCREEN_HEIGHT`, row-major.
pub struct TileMap {
    tiles: Vec<TileType>,
}

impl View for TileMap {
    type V = Seq<TileType>;

    closed spec fn view(&self) -> Seq<TileType> {
        self.tiles@
    }
}

impl TileMap {
    /// Well-formedness: the grid always holds exactly `NUM_TILES` cells.
    pub open spec fn wf(self) -> bool {
        self@.len() == NUM_TILES
    }

    /// A fresh map, all walls.
    pub fn new() -> (m: TileMap)
        ensures
            m.wf(),
            forall|i: int| 0 <= i < NUM_TILES ==> m@[i] == TileType::Wall,
    {
        let mut tiles: Vec<TileType> = Vec::new();
        let mut i: usize = 0;
        while i < NUM_TILES
            invariant
                tiles@.len() == i,
                i <= NUM_TILES,
                forall|j: int| 0 <= j < i ==> tiles@[j] == TileType::Wall,
            decreases NUM_TILES - i,
        {
            tiles.push(TileType::Wall);
            i += 1;
        }
        TileMap { tiles }
    }

    pub fn in_bounds(&self, p: Point) -> (r: bool)
        ensures
            r == spec_in_bounds(p),
    {
        0 <= p.x && p.x < SCREEN_WIDTH && 0 <= p.y && p.y < SCREEN_HEIGHT
    }

    /// Valid only on in-bounds points; every index it produces is within the grid.
    pub fn point_to_index(&self, p: Point) -> (idx: usize)
        requires
            spec_in_bounds(p),
        ensures
            idx == spec_idx(p),
            idx < NUM_TILES,
    {
        (p.y as usize) * (SCREEN_WIDTH as usize) + (p.x as usize)
    }

    /// Total variant of `point_to_index`: `None` exactly on out-of-bounds points.
    pub fn try_idx(&self, p: Point) -> (r: Option<usize>)
        ensures
            spec_in_bounds(p) ==> r == Some((spec_idx(p) as usize)),
            !spec_in_bounds(p) ==> r is None,
    {
        if self.in_bounds(p) {
            Some(self.point_to_index(p))
        } else {
            None
        }
    }

    /// Read one cell by index.
    pub fn tile(&self, idx: usize) -> (t: TileType)
        requires
            self.wf(),
            idx < NUM_TILES,
        ensures
            t == self@[idx as int],
    {
        self.tiles[idx]
    }

    /// Read the cell under an in-bounds point.
    pub fn tile_at(&self, p: Point) -> (t: TileType)
        requires
            self.wf(),
            spec_in_bounds(p),
        ensures
            t == self@[spec_idx(p)],
    {
        let idx = self.point_to_index(p);
        self.tiles[idx]
    }

    /// Overwrite one cell by index.
    pub fn set_tile(&mut self, idx: usize, t: TileType)
        requires
            old(self).wf(),
            idx < NUM_TILES,
        ensures
            final(self).wf(),
            final(self)@ == old(self)@.update(idx as int, t),
    {
        self.tiles.set(idx, t);
    }

    /// Whether a point can be walked onto: in bounds and floor.
    pub fn can_enter_tile(&self, p: Point) -> (r: bool)
        requires
            self.wf(),
        ensures
            r == (spec_in_bounds(p) && self@[spec_idx(p)] == TileType::Floor),
    {
        if self.in_bounds(p) {
            proof { lemma_point_idx(p); }
            let idx = self.point_to_index(p);
            self.tiles[idx] == TileType::Floor
        } else {
            false
        }
    }

    /// Whether a point blocks line of sight; everything off the grid does.
    pub fn is_opaque(&self, p: Point) -> (r: bool)
        requires
            self.wf(),
        ensures
            r == spec_opaque(self@, p),
    {
        !self.can_enter_tile(p)
    }

    /// Whether `b` is in line of sight from `a`: no cell strictly between
    /// them on the king-step digital line is opaque.
    pub fn line_clear(&self, a: Point, b: Point) -> (r: bool)
        requires
            self.wf(),
        ensures
            r == los_clear(self@, a, b),
        decreases cheb_dist(a, b),
    {
        let d = a.chebyshev(b);
        if d <= 1 {
            return true;
        }
        let n = Point {
            x: if b.x > a.x { a.x + 1 } else if b.x < a.x { a.x - 1 } else { a.x },
            y: if b.y > a.y { a.y + 1 } else if b.y < a.y { a.y - 1 } else { a.y },
        };
        if self.is_opaque(n) {
            return false;
        }
        self.line_clear(n, b)
    }
}

} // verus!
