use vstd::prelude::*;
use crate::geometry::{Point, cheb_dist};
use crate::map::{TileMap, TileType, NUM_TILES, spec_in_bounds, spec_idx, idx_point,
    lemma_point_idx, lemma_idx_point};
use crate::flood::{flood, flood_init, flood_fill, floor_count, count_floor, count_true,
    count_visited, lemma_flood_floor};
use crate::rng::draw_stream;
use super::{MapBuilder, GenerationFailure};

verus! {

/// Maximum number of steps a single walk may take before forced termination.
pub const STAGGER_DISTANCE: usize = 400;

/// Maximum number of walks one generation attempt may run.
pub const MAX_WALKS: usize = 200;

/// Floor cells a generation must reach, both carved and reachable: a third of
/// the grid.
pub const DESIRED_FLOOR: usize = 1333;

/// Direction draws handed to one generation: one per possible step.
pub const DIRS_LEN: usize = MAX_WALKS * (STAGGER_DISTANCE + 1);

/// Cell draws handed to one generation for monster placement.
pub const SPAWN_TRIES: usize = 1000;

/// Monsters a generation tries to place.
pub const NUM_MONSTERS: usize = 10;

/// Monsters spawn no closer to the player start than this, in Chebyshev steps.
pub const MIN_SPAWN_DIST: i64 = 10;

/// Where every walk begins and the player starts: the middle of the grid.
pub open spec fn center_point() -> Point {
    Point { x: 40, y: 25 }
}

pub open spec fn center_idx() -> int {
    spec_idx(center_point())
}

pub fn center() -> (p: Point)
    ensures
        p == center_point(),
{
    Point { x: 40, y: 25 }
}

/// One unit step in a cardinal direction: 0 left, 1 right, 2 up, 3 down.
pub open spec fn step_point(p: Point, d: i32) -> Point {
    if d == 0 {
        Point { x: (p.x - 1) as i32, y: p.y }
    } else if d == 1 {
        Point { x: (p.x + 1) as i32, y: p.y }
    } else if d == 2 {
        Point { x: p.x, y: (p.y - 1) as i32 }
    } else {
        Point { x: p.x, y: (p.y + 1) as i32 }
    }
}

/// One whole walk: carve the current cell, take the next drawn step, stop on
/// leaving the grid or on an exhausted step budget. Returns the new grid and
/// the position after the last direction draw consumed.
pub open spec fn walk_rec(t: Seq<TileType>, p: Point, dirs: Seq<i32>, k: int, budget: nat)
    -> (Seq<TileType>, int)
    decreases budget,
{
    let t1 = t.update(spec_idx(p), TileType::Floor);
    if k < 0 || k >= dirs.len() {
        (t1, dirs.len() as int)
    } else {
        let q = step_point(p, dirs[k]);
        if !spec_in_bounds(q) {
            (t1, k + 1)
        } else if budget == 0 {
            (t1, k + 1)
        } else {
            walk_rec(t1, q, dirs, k + 1, (budget - 1) as nat)
        }
    }
}

/// Walks from the center, one after another, each consuming the direction
/// stream where the previous one left it, until the carved floor reaches the
/// coverage target or the walk budget is spent.
pub open spec fn walks_rec(t: Seq<TileType>, dirs: Seq<i32>, k: int, left: nat)
    -> (Seq<TileType>, int)
    decreases left,
{
    if floor_count(t) >= DESIRED_FLOOR || left == 0 {
        (t, k)
    } else {
        let w = walk_rec(t, center_point(), dirs, k, STAGGER_DISTANCE as nat);
        walks_rec(w.0, dirs, w.1, (left - 1) as nat)
    }
}

/// The all-wall grid every generation starts from.
pub open spec fn all_wall() -> Seq<TileType> {
    Seq::new(NUM_TILES as nat, |i: int| TileType::Wall)
}

/// The tile grid one direction stream generates: the whole carving phase.
pub open spec fn gen_tiles(dirs: Seq<i32>) -> Seq<TileType> {
    walks_rec(all_wall(), dirs, 0, MAX_WALKS as nat).0
}

/// The cells reachable from the player start on the generated grid.
pub open spec fn gen_reach(dirs: Seq<i32>) -> Seq<bool> {
    flood(gen_tiles(dirs), center_idx())
}

/// Monster placement: scan the cell draws in order, keeping each reachable
/// cell far enough from the start and not yet taken, until enough are found.
pub open spec fn picks_rec(reach: Seq<bool>, start: Point, picks: Seq<i32>, j: int, acc: Seq<Point>)
    -> Seq<Point>
    decreases picks.len() - j,
{
    if j < 0 || j >= picks.len() || acc.len() >= NUM_MONSTERS {
        acc
    } else {
        let idx = picks[j] as int;
        let p = idx_point(idx);
        if 0 <= idx < reach.len() && reach[idx] && p != start
            && cheb_dist(p, start) > MIN_SPAWN_DIST && !acc.contains(p) {
            picks_rec(reach, start, picks, j + 1, acc.push(p))
        } else {
            picks_rec(reach, start, picks, j + 1, acc)
        }
    }
}

pub open spec fn gen_spawns(dirs: Seq<i32>, picks: Seq<i32>) -> Seq<Point> {
    picks_rec(gen_reach(dirs), center_point(), picks, 0, Seq::empty())
}

/// Amulet placement: the reachable cell farthest from the start in Chebyshev
/// distance, lowest index on ties, considering the first `n` cells; -1 when
/// none is reachable there.
pub open spec fn far_rec(reach: Seq<bool>, start: Point, n: int) -> int
    decreases n,
{
    if n <= 0 {
        -1
    } else {
        let b = far_rec(reach, start, n - 1);
        if reach[n - 1] && (b < 0 || cheb_dist(idx_point(n - 1), start) > cheb_dist(idx_point(b), start)) {
            n - 1
        } else {
            b
        }
    }
}

pub open spec fn gen_amulet(dirs: Seq<i32>) -> int {
    far_rec(gen_reach(dirs), center_point(), NUM_TILES as int)
}

/// When a generation run succeeds: enough floor carved, enough of it
/// reachable from the start, an amulet cell found, at least one monster
/// placed.
pub open spec fn gen_succeeds(dirs: Seq<i32>, picks: Seq<i32>) -> bool {
    &&& floor_count(gen_tiles(dirs)) >= DESIRED_FLOOR
    &&& count_true(gen_reach(dirs)) >= DESIRED_FLOOR
    &&& gen_amulet(dirs) >= 0
    &&& gen_spawns(dirs, picks).len() >= 1
}

/// A walk never shrinks the grid and never turns floor back to wall.
pub proof fn lemma_walk_preserves(t: Seq<TileType>, p: Point, dirs: Seq<i32>, k: int, budget: nat, i: int)
    requires
        t.len() == NUM_TILES,
        spec_in_bounds(p),
        0 <= i < NUM_TILES,
    ensures
        walk_rec(t, p, dirs, k, budget).0.len() == NUM_TILES,
        t[i] == TileType::Floor ==> walk_rec(t, p, dirs, k, budget).0[i] == TileType::Floor,
    decreases budget,
{
    lemma_point_idx(p);
    let t1 = t.update(spec_idx(p), TileType::Floor);
    if !(k < 0 || k >= dirs.len()) {
        let q = step_point(p, dirs[k]);
        if spec_in_bounds(q) && budget > 0 {
            lemma_walk_preserves(t1, q, dirs, k + 1, (budget - 1) as nat, i);
        }
    }
}

/// A walk carves its starting cell.
pub proof fn lemma_walk_carves(t: Seq<TileType>, p: Point, dirs: Seq<i32>, k: int, budget: nat)
    requires
        t.len() == NUM_TILES,
        spec_in_bounds(p),
    ensures
        walk_rec(t, p, dirs, k, budget).0[spec_idx(p)] == TileType::Floor,
    decreases budget,
{
    lemma_point_idx(p);
    let t1 = t.update(spec_idx(p), TileType::Floor);
    if !(k < 0 || k >= dirs.len()) {
        let q = step_point(p, dirs[k]);
        if spec_in_bounds(q) && budget > 0 {
            lemma_walk_preserves(t1, q, dirs, k + 1, (budget - 1) as nat, spec_idx(p));
        }
    }
}

/// The walk phase keeps the grid size and never un-carves a floor cell.
pub proof fn lemma_walks_preserve(t: Seq<TileType>, dirs: Seq<i32>, k: int, left: nat, i: int)
    requires
        t.len() == NUM_TILES,
        0 <= i < NUM_TILES,
    ensures
        walks_rec(t, dirs, k, left).0.len() == NUM_TILES,
        t[i] == TileType::Floor ==> walks_rec(t, dirs, k, left).0[i] == TileType::Floor,
    decreases left,
{
    if !(floor_count(t) >= DESIRED_FLOOR || left == 0) {
        let w = walk_rec(t, center_point(), dirs, k, STAGGER_DISTANCE as nat);
        lemma_walk_preserves(t, center_point(), dirs, k, STAGGER_DISTANCE as nat, i);
        lemma_walks_preserve(w.0, dirs, w.1, (left - 1) as nat, i);
    }
}

pub proof fn lemma_all_wall_count(n: int)
    requires
        0 <= n <= NUM_TILES,
    ensures
        crate::flood::count_floor_to(all_wall(), n) == 0,
    decreases n,
{
    if n > 0 {
        lemma_all_wall_count(n - 1);
    }
}

/// Whenever the carving phase met its coverage target, the player start cell
/// itself is floor: the very first walk carves it, and carving is monotone.
pub proof fn lemma_gen_center_floor(dirs: Seq<i32>)
    requires
        floor_count(gen_tiles(dirs)) >= DESIRED_FLOOR,
    ensures
        gen_tiles(dirs).len() == NUM_TILES,
        gen_tiles(dirs)[center_idx()] == TileType::Floor,
{
    lemma_point_idx(center_point());
    lemma_all_wall_count(NUM_TILES as int);
    assert(floor_count(all_wall()) == 0);
    let w = walk_rec(all_wall(), center_point(), dirs, 0, STAGGER_DISTANCE as nat);
    lemma_walk_carves(all_wall(), center_point(), dirs, 0, STAGGER_DISTANCE as nat);
    lemma_walk_preserves(all_wall(), center_point(), dirs, 0, STAGGER_DISTANCE as nat, center_idx());
    lemma_walks_preserve(w.0, dirs, w.1, (MAX_WALKS - 1) as nat, center_idx());
}

/// Connectivity of a successful generation: the start cell is floor and the
/// flood fill from it covers at least the configured minimum.
pub proof fn lemma_generated_connected(dirs: Seq<i32>, picks: Seq<i32>)
    requires
        gen_succeeds(dirs, picks),
    ensures
        gen_tiles(dirs)[center_idx()] == TileType::Floor,
        count_true(flood(gen_tiles(dirs), center_idx())) >= DESIRED_FLOOR,
{
    lemma_gen_center_floor(dirs);
}

/// Determinism of generation: every part of the output is a function of the
/// two draw streams alone, so equal streams generate equal bundles.
pub proof fn lemma_generation_deterministic(d1: Seq<i32>, p1: Seq<i32>, d2: Seq<i32>, p2: Seq<i32>)
    requires
        d1 == d2,
        p1 == p2,
    ensures
        gen_tiles(d1) == gen_tiles(d2),
        gen_spawns(d1, p1) == gen_spawns(d2, p2),
        gen_amulet(d1) == gen_amulet(d2),
        gen_succeeds(d1, p1) == gen_succeeds(d2, p2),
{
}

fn contains_point(v: &Vec<Point>, p: Point) -> (r: bool)
    ensures
        r == v@.contains(p),
{
    let mut i: usize = 0;
    while i < v.len()
        invariant
            i <= v@.len(),
            forall|j: int| 0 <= j < i ==> v@[j] != p,
        decreases v@.len() - i,
    {
        if v[i] == p {
            return true;
        }
        i += 1;
    }
    false
}

fn step_exec(p: Point, d: i32) -> (q: Point)
    requires
        spec_in_bounds(p),
        0 <= d < 4,
    ensures
        q == step_point(p, d),
{
    if d == 0 {
        Point { x: p.x - 1, y: p.y }
    } else if d == 1 {
        Point { x: p.x + 1, y: p.y }
    } else if d == 2 {
        Point { x: p.x, y: p.y - 1 }
    } else {
        Point { x: p.x, y: p.y + 1 }
    }
}

fn walk_step(map: &mut TileMap, p: Point, dirs: &Vec<i32>, k: usize, budget: usize) -> (kk: usize)
    requires
        old(map).wf(),
        spec_in_bounds(p),
        k <= dirs@.len(),
        forall|i: int| 0 <= i < dirs@.len() ==> 0 <= #[trigger] dirs@[i] < 4,
    ensures
        final(map).wf(),
        final(map)@ == walk_rec(old(map)@, p, dirs@, k as int, budget as nat).0,
        kk == walk_rec(old(map)@, p, dirs@, k as int, budget as nat).1,
        kk <= dirs@.len(),
    decreases budget,
{
    let idx = map.point_to_index(p);
    map.set_tile(idx, TileType::Floor);
    if k >= dirs.len() {
        return dirs.len();
    }
    let q = step_exec(p, dirs[k]);
    if !map.in_bounds(q) {
        return k + 1;
    }
    if budget == 0 {
        return k + 1;
    }
    walk_step(map, q, dirs, k + 1, budget - 1)
}

fn carve_dungeon(map: &mut TileMap, dirs: &Vec<i32>)
    requires
        old(map).wf(),
        forall|i: int| 0 <= i < dirs@.len() ==> 0 <= #[trigger] dirs@[i] < 4,
    ensures
        final(map).wf(),
        final(map)@ == walks_rec(old(map)@, dirs@, 0, MAX_WALKS as nat).0,
{
    let ghost t0 = map@;
    let mut k: usize = 0;
    let mut w: usize = 0;
    let mut done = false;
    while w < MAX_WALKS && !done
        invariant
            map.wf(),
            k <= dirs@.len(),
            w <= MAX_WALKS,
            forall|i: int| 0 <= i < dirs@.len() ==> 0 <= #[trigger] dirs@[i] < 4,
            done ==> floor_count(map@) >= DESIRED_FLOOR,
            walks_rec(t0, dirs@, 0, MAX_WALKS as nat)
                == walks_rec(map@, dirs@, k as int, (MAX_WALKS - w) as nat),
        decreases MAX_WALKS - w + if done { 0int } else { 1int },
    {
        let c = count_floor(map);
        if c >= DESIRED_FLOOR {
            done = true;
        } else {
            let ghost before = map@;
            let k2 = walk_step(map, center(), dirs, k, STAGGER_DISTANCE);
            proof {
                let wr = walk_rec(before, center_point(), dirs@, k as int, STAGGER_DISTANCE as nat);
                assert(walks_rec(before, dirs@, k as int, (MAX_WALKS - w) as nat)
                    == walks_rec(wr.0, dirs@, wr.1, (MAX_WALKS - w - 1) as nat));
            }
            k = k2;
            w += 1;
        }
    }
    proof {
        assert(walks_rec(map@, dirs@, k as int, (MAX_WALKS - w) as nat) == (map@, k as int));
    }
}

fn pick_spawns(reach: &Vec<bool>, start: Point, picks: &Vec<i32>) -> (r: Vec<Point>)
    requires
        reach@.len() == NUM_TILES,
        forall|i: int| 0 <= i < picks@.len() ==> 0 <= #[trigger] picks@[i] < NUM_TILES,
    ensures
        r@ == picks_rec(reach@, start, picks@, 0, Seq::empty()),
        r@.len() <= NUM_MONSTERS,
        forall|i: int| 0 <= i < r@.len() ==> {
            let q = #[trigger] r@[i];
            &&& spec_in_bounds(q)
            &&& reach@[spec_idx(q)]
            &&& q != start
            &&& cheb_dist(q, start) > MIN_SPAWN_DIST
        },
{
    let mut r: Vec<Point> = Vec::new();
    let mut j: usize = 0;
    while j < picks.len() && r.len() < NUM_MONSTERS
        invariant
            reach@.len() == NUM_TILES,
            forall|i: int| 0 <= i < picks@.len() ==> 0 <= #[trigger] picks@[i] < NUM_TILES,
            j <= picks@.len(),
            r@.len() <= NUM_MONSTERS,
            picks_rec(reach@, start, picks@, 0, Seq::empty())
                == picks_rec(reach@, start, picks@, j as int, r@),
            forall|i: int| 0 <= i < r@.len() ==> {
                let q = #[trigger] r@[i];
                &&& spec_in_bounds(q)
                &&& reach@[spec_idx(q)]
                &&& q != start
                &&& cheb_dist(q, start) > MIN_SPAWN_DIST
            },
        decreases picks@.len() - j,
    {
        let pick = picks[j];
        let idx = pick as usize;
        proof {
            lemma_idx_point(idx as int);
        }
        let p = crate::map::index_to_point(idx);
        let far_enough = p.chebyshev(start) > MIN_SPAWN_DIST;
        if reach[idx] && !(p == start) && far_enough && !contains_point(&r, p) {
            proof {
                lemma_point_idx(p);
            }
            r.push(p);
        }
        j += 1;
    }
    r
}

fn farthest(reach: &Vec<bool>, start: Point) -> (r: Option<usize>)
    requires
        reach@.len() == NUM_TILES,
    ensures
        r is None <==> far_rec(reach@, start, NUM_TILES as int) < 0,
        r matches Some(b) ==> b < NUM_TILES && b as int == far_rec(reach@, start, NUM_TILES as int)
            && reach@[b as int],
{
    let mut best: Option<usize> = None;
    let mut i: usize = 0;
    while i < NUM_TILES
        invariant
            reach@.len() == NUM_TILES,
            i <= NUM_TILES,
            best is None <==> far_rec(reach@, start, i as int) < 0,
            best matches Some(b) ==> b < NUM_TILES && b as int == far_rec(reach@, start, i as int)
                && reach@[b as int],
        decreases NUM_TILES - i,
    {
        if reach[i] {
            let p = crate::map::index_to_point(i);
            let take = match best {
                None => true,
                Some(b) => {
                    let bp = crate::map::index_to_point(b);
                    p.chebyshev(start) > bp.chebyshev(start)
                },
            };
            if take {
                best = Some(i);
            }
        }
        i += 1;
    }
    best
}

/// A pluggable dungeon-generation strategy: repeated drunkard's walks from the
/// center of the grid.
pub struct DrunkardsWalkArchitect {}

impl DrunkardsWalkArchitect {
    /// One generation run against explicit draw streams: `dirs` are step
    /// draws in `[0, 4)`, `picks` cell draws in `[0, NUM_TILES)`. The whole
    /// result, success included, is a function of the two streams alone.
    pub fn generate_from(dirs: &Vec<i32>, picks: &Vec<i32>) -> (r: Result<MapBuilder, GenerationFailure>)
        requires
            forall|i: int| 0 <= i < dirs@.len() ==> 0 <= #[trigger] dirs@[i] < 4,
            forall|i: int| 0 <= i < picks@.len() ==> 0 <= #[trigger] picks@[i] < NUM_TILES,
        ensures
            r is Ok <==> gen_succeeds(dirs@, picks@),
            r matches Ok(mb) ==> {
                &&& mb.valid()
                &&& mb.map@ == gen_tiles(dirs@)
                &&& mb.rooms@ == Seq::<crate::geometry::Rect>::empty()
                &&& mb.monster_spawns@ == gen_spawns(dirs@, picks@)
                &&& mb.amulet_start == idx_point(gen_amulet(dirs@))
            },
            r == Result::<MapBuilder, GenerationFailure>::Err(GenerationFailure::InsufficientFloor)
                <==> !(floor_count(gen_tiles(dirs@)) >= DESIRED_FLOOR
                    && count_true(gen_reach(dirs@)) >= DESIRED_FLOOR
                    && gen_amulet(dirs@) >= 0),
            r == Result::<MapBuilder, GenerationFailure>::Err(GenerationFailure::InsufficientSpawns)
                <==> (floor_count(gen_tiles(dirs@)) >= DESIRED_FLOOR
                    && count_true(gen_reach(dirs@)) >= DESIRED_FLOOR
                    && gen_amulet(dirs@) >= 0
                    && gen_spawns(dirs@, picks@).len() == 0),
    {
        let mut map = TileMap::new();
        proof {
            assert(map@ =~= all_wall());
        }
        carve_dungeon(&mut map, dirs);
        let c = count_floor(&map);
        if c < DESIRED_FLOOR {
            return Err(GenerationFailure::InsufficientFloor);
        }
        proof {
            lemma_gen_center_floor(dirs@);
        }
        let start = center();
        let sidx = map.point_to_index(start);
        let reach = flood_fill(&map, sidx);
        let rc = count_visited(&reach);
        if rc < DESIRED_FLOOR {
            return Err(GenerationFailure::InsufficientFloor);
        }
        let far = farthest(&reach, start);
        let amulet_idx = match far {
            None => {
                return Err(GenerationFailure::InsufficientFloor);
            },
            Some(i) => i,
        };
        let amulet = crate::map::index_to_point(amulet_idx);
        proof {
            lemma_idx_point(amulet_idx as int);
            lemma_point_idx(center_point());
            if amulet_idx as int != center_idx() {
                lemma_flood_floor(map@, flood_init(center_idx()), NUM_TILES as nat, amulet_idx as int);
            }
        }
        let spawns = pick_spawns(&reach, start, picks);
        if spawns.len() == 0 {
            return Err(GenerationFailure::InsufficientSpawns);
        }
        proof {
            assert forall|i: int| 0 <= i < spawns@.len() implies
                map@[spec_idx(#[trigger] spawns@[i])] == TileType::Floor
            by {
                let q = spawns@[i];
                lemma_point_idx(q);
                lemma_point_idx(center_point());
                if spec_idx(q) != center_idx() {
                    lemma_flood_floor(map@, flood_init(center_idx()), NUM_TILES as nat, spec_idx(q));
                }
            }
        }
        Ok(MapBuilder {
            map,
            rooms: Vec::new(),
            monster_spawns: spawns,
            player_start: start,
            amulet_start: amulet,
        })
    }

    /// One generation request against a live random number generator: draw
    /// the two streams, then generate from them. Whatever was drawn, a
    /// returned bundle is valid.
    pub fn new(&mut self, rng: &mut bracket_lib::prelude::RandomNumberGenerator)
        -> (r: Result<MapBuilder, GenerationFailure>)
        ensures
            r matches Ok(mb) ==> mb.valid(),
    {
        let dirs = draw_stream(rng, DIRS_LEN, 0, 4);
        let picks = draw_stream(rng, SPAWN_TRIES, 0, 4000);
        Self::generate_from(&dirs, &picks)
    }

    /// One drunkard's walk on an existing grid: carve the start, stagger in
    /// drawn cardinal directions, stop on leaving the grid or after the step
    /// budget. Carving only ever turns wall to floor.
    pub fn drunkard(&mut self, start: &Point, rng: &mut bracket_lib::prelude::RandomNumberGenerator,
        map: &mut TileMap)
        requires
            old(map).wf(),
            spec_in_bounds(*start),
        ensures
            final(map).wf(),
            final(map)@[spec_idx(*start)] == TileType::Floor,
            forall|i: int| 0 <= i < NUM_TILES && old(map)@[i] == TileType::Floor
                ==> final(map)@[i] == TileType::Floor,
            forall|i: int| 0 <= i < NUM_TILES && final(map)@[i] != old(map)@[i]
                ==> final(map)@[i] == TileType::Floor,
    {
        let dirs = draw_stream(rng, STAGGER_DISTANCE + 1, 0, 4);
        let ghost before = map@;
        walk_step(map, *start, &dirs, 0, STAGGER_DISTANCE);
        proof {
            lemma_walk_carves(before, *start, dirs@, 0, STAGGER_DISTANCE as nat);
            assert forall|i: int| 0 <= i < NUM_TILES && before[i] == TileType::Floor
                implies map@[i] == TileType::Floor by {
                lemma_walk_preserves(before, *start, dirs@, 0, STAGGER_DISTANCE as nat, i);
            }
            assert forall|i: int| 0 <= i < NUM_TILES && map@[i] != before[i]
                implies map@[i] == TileType::Floor by {
                lemma_walk_changes(before, *start, dirs@, 0, STAGGER_DISTANCE as nat, i);
            }
        }
    }
}

/// A walk changes a cell only by carving it to floor.
pub proof fn lemma_walk_changes(t: Seq<TileType>, p: Point, dirs: Seq<i32>, k: int, budget: nat, i: int)
    requires
        t.len() == NUM_TILES,
        spec_in_bounds(p),
        0 <= i < NUM_TILES,
    ensures
        walk_rec(t, p, dirs, k, budget).0[i] == t[i]
            || walk_rec(t, p, dirs, k, budget).0[i] == TileType::Floor,
    decreases budget,
{
    lemma_point_idx(p);
    let t1 = t.update(spec_idx(p), TileType::Floor);
    if !(k < 0 || k >= dirs.len()) {
        let q = step_point(p, dirs[k]);
        if spec_in_bounds(q) && budget > 0 {
            lemma_walk_changes(t1, q, dirs, k + 1, (budget - 1) as nat, i);
        }
    }
}

} // verus!
