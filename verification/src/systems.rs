use vstd::prelude::*;
use crate::geometry::{Point, cheb_dist, manh_dist};
use crate::map::{TileMap, TileType, NUM_TILES, spec_in_bounds, spec_idx, idx_point, index_to_point, los_clear};
use crate::world::World;
use crate::turn_state::{TurnState, InputKey};
use crate::components::{Health, FieldOfView};
use crate::game::Game;
use crate::world::CommandBuffer;

verus! {

/// Where a movement key sends an entity standing at `p`.
pub open spec fn dest_of(p: Point, k: InputKey) -> Point {
    match k {
        InputKey::Left => Point { x: (p.x - 1) as i32, y: p.y },
        InputKey::Right => Point { x: (p.x + 1) as i32, y: p.y },
        InputKey::Up => Point { x: p.x, y: (p.y - 1) as i32 },
        InputKey::Down => Point { x: p.x, y: (p.y + 1) as i32 },
    }
}

/// Some alive monster stands within one king move of the player: it will
/// attack when the monster group runs.
pub open spec fn threatened(g: Game) -> bool {
    exists|m: int| 0 <= m < g.world.num() && g.world.spec_alive(m)
        && #[trigger] g.world.spec_monster(m)
        && cheb_dist(g.world.spec_pos(m).unwrap(), g.player_pos()) <= 1
}

/// The visible-tile cache an entity at `origin` with the given sight radius
/// carries: every grid cell within that Chebyshev radius and in line of
/// sight (no opaque cell strictly between), in row-major order.
pub open spec fn fov_points_to(t: Seq<TileType>, origin: Point, radius: int, n: int) -> Seq<Point>
    decreases n,
{
    if n <= 0 {
        Seq::empty()
    } else {
        let s = fov_points_to(t, origin, radius, n - 1);
        if cheb_dist(idx_point(n - 1), origin) <= radius
            && los_clear(t, origin, idx_point(n - 1)) {
            s.push(idx_point(n - 1))
        } else {
            s
        }
    }
}

pub open spec fn fov_points(t: Seq<TileType>, origin: Point, radius: int) -> Seq<Point> {
    fov_points_to(t, origin, radius, NUM_TILES as int)
}

/// Recompute the visible-tile cache for a viewer at `origin`.
pub fn field_of_view_tiles(map: &TileMap, origin: Point, radius: i32) -> (v: Vec<Point>)
    requires
        map.wf(),
    ensures
        v@ == fov_points(map@, origin, radius as int),
{
    let mut v: Vec<Point> = Vec::new();
    let mut i: usize = 0;
    while i < NUM_TILES
        invariant
            map.wf(),
            i <= NUM_TILES,
            v@ == fov_points_to(map@, origin, radius as int, i as int),
        decreases NUM_TILES - i,
    {
        let p = index_to_point(i);
        if p.chebyshev(origin) <= radius as i64 && map.line_clear(origin, p) {
            v.push(p);
        }
        i += 1;
    }
    v
}

/// The cardinal cell one step from `m` toward `t` along the x axis.
pub open spec fn step_toward_x(m: Point, t: Point) -> Point {
    if t.x > m.x {
        Point { x: (m.x + 1) as i32, y: m.y }
    } else if t.x < m.x {
        Point { x: (m.x - 1) as i32, y: m.y }
    } else {
        m
    }
}

/// The cardinal cell one step from `m` toward `t` along the y axis.
pub open spec fn step_toward_y(m: Point, t: Point) -> Point {
    if t.y > m.y {
        Point { x: m.x, y: (m.y + 1) as i32 }
    } else if t.y < m.y {
        Point { x: m.x, y: (m.y - 1) as i32 }
    } else {
        m
    }
}

/// Why a chasing monster `m` could not enter cell `c` during one monster
/// group run from `g1` to `g2`: the cell is wall or off the grid, or some
/// other entity stood on it — before the group ran, or after it.
pub open spec fn cell_blocked(g1: Game, g2: Game, m: int, c: Point) -> bool {
    ||| !(spec_in_bounds(c) && g1.map@[spec_idx(c)] == TileType::Floor)
    ||| exists|w: int| 0 <= w < g1.world.num() && w != m
        && #[trigger] g1.world.spec_alive(w)
        && (g1.world.spec_pos(w) == Some(c) || g2.world.spec_pos(w) == Some(c))
}

/// A recorded obstruction survives a store change that moves at most the one
/// entity `mv`, provided `mv` had not yet moved when the record was made.
proof fn lemma_blocked_carries(g1: Game, ga: Game, gb: Game, m: int, c: Point, mv: int)
    requires
        cell_blocked(g1, ga, m, c),
        ga.world.num() == g1.world.num(),
        gb.world.num() == g1.world.num(),
        forall|w: int| 0 <= w < g1.world.num() && w != mv
            ==> gb.world.spec_pos(w) == ga.world.spec_pos(w),
        ga.world.spec_pos(mv) == g1.world.spec_pos(mv),
    ensures
        cell_blocked(g1, gb, m, c),
{
    if !(spec_in_bounds(c) && g1.map@[spec_idx(c)] == TileType::Floor) {
    } else {
        let w = choose|w: int| 0 <= w < g1.world.num() && w != m
            && #[trigger] g1.world.spec_alive(w)
            && (g1.world.spec_pos(w) == Some(c) || ga.world.spec_pos(w) == Some(c));
        if g1.world.spec_pos(w) == Some(c) {
            assert(g1.world.spec_alive(w));
        } else if w == mv {
            assert(g1.world.spec_pos(w) == Some(c));
        } else {
            assert(gb.world.spec_pos(w) == Some(c));
        }
    }
}

/// The effect of the input group resolving combat: the struck monster loses
/// one hit point, dying (deferred, applied at group end) when that exhausts
/// it; nothing else in the store moves.
pub open spec fn combat_result(g1: Game, g2: Game, m: int) -> bool {
    let h = g1.world.spec_health(m).unwrap();
    &&& g2.state == TurnState::PlayerTurn
    &&& World::same_except(g1.world, g2.world, m)
    &&& g2.world.num() == g1.world.num()
    &&& g2.world.spec_health(m) == Some(Health { current: (h.current - 1) as i32, max: h.max })
    &&& g2.world.spec_alive(m) == (h.current > 1)
    &&& g2.world.spec_pos(m) == g1.world.spec_pos(m)
    &&& g2.world.spec_monster(m) == g1.world.spec_monster(m)
    &&& g2.world.spec_player(m) == g1.world.spec_player(m)
    &&& g2.world.spec_render(m) == g1.world.spec_render(m)
    &&& g2.world.spec_name(m) == g1.world.spec_name(m)
    &&& g2.world.spec_fov(m) == g1.world.spec_fov(m)
}

/// The effect of the input group resolving a move: the player stands on the
/// destination; nothing else in the store changes.
pub open spec fn move_result(g1: Game, g2: Game, d: Point) -> bool {
    &&& g2.state == TurnState::PlayerTurn
    &&& World::same_except(g1.world, g2.world, g1.player_id as int)
    &&& g2.world.num() == g1.world.num()
    &&& g2.world.spec_pos(g1.player_id as int) == Some(d)
    &&& g2.world.spec_alive(g1.player_id as int)
    &&& g2.world.spec_health(g1.player_id as int) == g1.world.spec_health(g1.player_id as int)
    &&& g2.world.spec_fov(g1.player_id as int) == g1.world.spec_fov(g1.player_id as int)
    &&& g2.world.spec_render(g1.player_id as int) == g1.world.spec_render(g1.player_id as int)
    &&& g2.world.spec_name(g1.player_id as int) == g1.world.spec_name(g1.player_id as int)
    &&& g2.world.spec_player(g1.player_id as int)
    &&& !g2.world.spec_monster(g1.player_id as int)
}

/// Everything the input group guarantees of one run, relating the state
/// before the group to the state after it: no key is no action at all, and a
/// key resolves to exactly one of combat, movement, or a no-op.
pub open spec fn input_result(g1: Game, g2: Game, key: Option<InputKey>) -> bool {
    &&& g2.map == g1.map
    &&& g2.camera == g1.camera
    &&& g2.player_id == g1.player_id
    &&& g2.amulet_start == g1.amulet_start
    &&& (g2.state == TurnState::AwaitingInput || g2.state == TurnState::PlayerTurn)
    &&& (key is None ==> g2 == g1)
    &&& (key matches Some(k) ==> {
        let d = dest_of(g1.player_pos(), k);
        let hit = g1.world.first_at_to(d, g1.world.num());
        &&& (hit matches Some(m) ==> {
            &&& g1.world.spec_monster(m) ==> combat_result(g1, g2, m)
            &&& !g1.world.spec_monster(m) ==> g2 == g1
        })
        &&& (hit is None && spec_in_bounds(d) && g1.map@[spec_idx(d)] == TileType::Floor
            ==> move_result(g1, g2, d))
        &&& (hit is None && !(spec_in_bounds(d) && g1.map@[spec_idx(d)] == TileType::Floor)
            ==> g2 == g1)
    })
}

/// Everything the player group guarantees of one run: the camera is
/// re-anchored on the player, the player's visible-tile cache is recomputed,
/// the turn passes to the monster group, and nothing else changes.
pub open spec fn player_result(g1: Game, g2: Game) -> bool {
    &&& g2.map == g1.map
    &&& g2.player_id == g1.player_id
    &&& g2.amulet_start == g1.amulet_start
    &&& g2.state == TurnState::MonsterTurn
    &&& g2.world.num() == g1.world.num()
    &&& g2.camera == crate::camera::camera_for(g1.player_pos())
    &&& forall|e: int| 0 <= e < g1.world.num() ==> {
        &&& g2.world.spec_pos(e) == g1.world.spec_pos(e)
        &&& g2.world.spec_health(e) == g1.world.spec_health(e)
        &&& g2.world.spec_alive(e) == g1.world.spec_alive(e)
        &&& g2.world.spec_player(e) == g1.world.spec_player(e)
        &&& g2.world.spec_monster(e) == g1.world.spec_monster(e)
        &&& g2.world.spec_render(e) == g1.world.spec_render(e)
        &&& g2.world.spec_name(e) == g1.world.spec_name(e)
    }
    &&& forall|e: int| 0 <= e < g1.world.num() && e != g1.player_id as int
        ==> g2.world.spec_fov(e) == g1.world.spec_fov(e)
    &&& g2.world.spec_fov(g1.player_id as int).unwrap().radius
        == g1.world.spec_fov(g1.player_id as int).unwrap().radius
    &&& g2.world.spec_fov(g1.player_id as int).unwrap().visible_tiles@
        == fov_points(g1.map@, g1.player_pos(),
            g1.world.spec_fov(g1.player_id as int).unwrap().radius as int)
}

/// Everything the monster group guarantees of one run: the run ends exactly
/// when the player's health is exhausted, adjacent monsters attack and hold
/// still, monsters move one walkable cardinal step at most, and nothing else
/// changes.
pub open spec fn monster_result(g1: Game, g2: Game) -> bool {
    &&& g2.map == g1.map
    &&& g2.camera == g1.camera
    &&& g2.player_id == g1.player_id
    &&& g2.amulet_start == g1.amulet_start
    &&& g2.world.num() == g1.world.num()
    &&& (g2.state == TurnState::AwaitingInput || g2.state == TurnState::GameOver)
    &&& ((g2.state == TurnState::GameOver) <==> g2.player_hp() <= 0)
    &&& g2.world.spec_pos(g1.player_id as int) == g1.world.spec_pos(g1.player_id as int)
    &&& g2.player_hp() <= g1.player_hp()
    &&& (!threatened(g1) ==> g2.world.spec_health(g1.player_id as int)
        == g1.world.spec_health(g1.player_id as int))
    &&& (threatened(g1) ==> g2.player_hp() <= g1.player_hp() - 1 || g2.player_hp() <= 0)
    &&& (g1.player_hp() == 1 && threatened(g1)
        ==> g2.state == TurnState::GameOver && g2.player_hp() <= 0)
    &&& forall|o: int| 0 <= o < g1.world.num() && o != g1.player_id as int ==> {
        &&& g2.world.spec_alive(o) == g1.world.spec_alive(o)
        &&& g2.world.spec_health(o) == g1.world.spec_health(o)
        &&& g2.world.spec_render(o) == g1.world.spec_render(o)
        &&& g2.world.spec_name(o) == g1.world.spec_name(o)
        &&& g2.world.spec_fov(o) == g1.world.spec_fov(o)
        &&& g2.world.spec_player(o) == g1.world.spec_player(o)
        &&& g2.world.spec_monster(o) == g1.world.spec_monster(o)
    }
    &&& forall|o: int| 0 <= o < g1.world.num() && g1.world.spec_alive(o)
        && #[trigger] g1.world.spec_monster(o) ==> {
        let p0 = g1.world.spec_pos(o).unwrap();
        let p1 = g2.world.spec_pos(o).unwrap();
        let pp = g1.player_pos();
        &&& g2.world.spec_pos(o) is Some
        &&& spec_in_bounds(p1)
        &&& (g2.world.spec_pos(o) == g1.world.spec_pos(o)
            || g1.map@[spec_idx(p1)] == TileType::Floor)
        &&& cheb_dist(p1, pp) >= cheb_dist(p0, pp) - 1
        &&& (2 <= cheb_dist(p0, pp)
                && cheb_dist(p0, pp) <= g1.world.spec_fov(o).unwrap().radius
                && los_clear(g1.map@, p0, pp)
            ==> {
            &&& cheb_dist(p1, pp) <= cheb_dist(p0, pp)
            &&& (manh_dist(p1, pp) < manh_dist(p0, pp)
                || ((p0.x == pp.x || cell_blocked(g1, g2, o, step_toward_x(p0, pp)))
                    && (p0.y == pp.y || cell_blocked(g1, g2, o, step_toward_y(p0, pp)))))
        })
        &&& (cheb_dist(p0, pp) <= 1 ==> g2.world.spec_pos(o) == g1.world.spec_pos(o))
    }
}

impl Game {
    /// The input group. Absence of input is no action: the whole state is
    /// left exactly as it was, and the phase stays at awaiting input. A
    /// recognized key attempts the move: into a monster it is combat, onto
    /// walkable free floor it is movement, and each starts the turn; against
    /// a wall, off the grid, or into any other entity it is a no-op that
    /// keeps the phase at awaiting input and changes nothing.
    pub fn input_phase(&mut self, key: Option<InputKey>)
        requires
            old(self).wf(),
            old(self).state == TurnState::AwaitingInput,
        ensures
            final(self).wf(),
            input_result(*old(self), *final(self), key),
    {
        let k = match key {
            None => {
                return ;
            },
            Some(k) => k,
        };
        let p = self.world.position(self.player_id).unwrap();
        let d = match k {
            InputKey::Left => Point { x: p.x - 1, y: p.y },
            InputKey::Right => Point { x: p.x + 1, y: p.y },
            InputKey::Up => Point { x: p.x, y: p.y - 1 },
            InputKey::Down => Point { x: p.x, y: p.y + 1 },
        };
        match self.world.first_at(d) {
            Some(m) => {
                if self.world.is_monster(m) {
                    proof {
                        crate::world::lemma_first_at_some(old(self).world, d, old(self).world.num());
                    }
                    let h = self.world.health(m).unwrap();
                    let nh = Health { current: h.current - 1, max: h.max };
                    let ghost w1 = self.world;
                    self.world.set_health(m, nh);
                    if nh.current <= 0 {
                        let ghost w2 = self.world;
                        let mut cb = CommandBuffer::new();
                        cb.push_kill(m);
                        cb.flush(&mut self.world);
                        proof {
                            let ks = cb.spec_kills();
                            assert(ks =~= seq![m]);
                            assert(crate::world::kills_contain(ks, m as int)) by {
                                assert(ks[0] == m);
                            }
                            assert forall|o: int| o != m as int
                                implies !crate::world::kills_contain(ks, o) by {
                                if crate::world::kills_contain(ks, o) {
                                    let j = choose|j: int| 0 <= j < ks.len()
                                        && (#[trigger] ks[j]) as int == o;
                                    assert(j == 0);
                                }
                            }
                        }
                    }
                    self.state = TurnState::PlayerTurn;
                }
            },
            None => {
                if self.map.can_enter_tile(d) {
                    self.world.set_position(self.player_id, d);
                    self.state = TurnState::PlayerTurn;
                }
            },
        }
    }

    /// The player group: resolve the deferred consequences of the player's
    /// action — recompute the visible-tile cache from the new position and
    /// re-anchor the camera on it — then unconditionally hand the turn to the
    /// monster group. No entity is created, destroyed, moved or hurt here.
    pub fn player_phase(&mut self)
        requires
            old(self).wf(),
            old(self).state == TurnState::PlayerTurn,
        ensures
            final(self).wf(),
            player_result(*old(self), *final(self)),
    {
        let p = self.world.position(self.player_id).unwrap();
        let radius = match self.world.fov(self.player_id) {
            Some(f) => f.radius,
            None => 0,
        };
        let vis = field_of_view_tiles(&self.map, p, radius);
        self.world.set_fov(self.player_id, FieldOfView { radius, visible_tiles: vis });
        self.camera.on_player_move(p);
        self.state = TurnState::MonsterTurn;
    }

    /// The monster group: every alive monster acts once, in id order. One
    /// standing within a king move of the player attacks and holds still; one
    /// that sees the player — within its sight radius and in line of sight —
    /// steps one cardinal move toward it, onto free floor only; any other
    /// staggers one drawn cardinal step, onto free floor only. Afterwards the
    /// run ends if the player's health is exhausted — the player entity is
    /// destroyed and the phase is terminal — otherwise the turn returns to
    /// awaiting input.
    #[verifier::rlimit(100)]
    pub fn monster_phase(&mut self, rng: &mut bracket_lib::prelude::RandomNumberGenerator)
        requires
            old(self).wf(),
            old(self).state == TurnState::MonsterTurn,
        ensures
            final(self).wf(),
            monster_result(*old(self), *final(self)),
    {
        let ppos = self.world.position(self.player_id).unwrap();
        let pid = self.player_id;
        let n = self.world.len();
        let mut e: usize = 0;
        while e < n
            invariant
                old(self).wf(),
                self.world.wf(),
                self.map == old(self).map,
                self.camera == old(self).camera,
                self.state == TurnState::MonsterTurn,
                self.player_id == old(self).player_id,
                self.amulet_start == old(self).amulet_start,
                pid == old(self).player_id,
                n as int == old(self).world.num(),
                self.world.num() == old(self).world.num(),
                e <= n,
                ppos == old(self).player_pos(),
                self.world.spec_pos(pid as int) == old(self).world.spec_pos(pid as int),
                self.world.spec_alive(pid as int),
                self.world.spec_health(pid as int) is Some,
                self.world.spec_health(pid as int).unwrap().current
                    <= old(self).world.spec_health(pid as int).unwrap().current,
                (forall|m: int| 0 <= m < e ==> !(old(self).world.spec_alive(m)
                    && #[trigger] old(self).world.spec_monster(m)
                    && cheb_dist(old(self).world.spec_pos(m).unwrap(), ppos) <= 1))
                    ==> self.world.spec_health(pid as int) == old(self).world.spec_health(pid as int),
                (exists|m: int| 0 <= m < e && old(self).world.spec_alive(m)
                    && #[trigger] old(self).world.spec_monster(m)
                    && cheb_dist(old(self).world.spec_pos(m).unwrap(), ppos) <= 1)
                    ==> self.world.spec_health(pid as int).unwrap().current
                            <= old(self).world.spec_health(pid as int).unwrap().current - 1
                        || self.world.spec_health(pid as int).unwrap().current <= 0,
                forall|o: int| 0 <= o < n && o != pid as int ==> {
                    &&& self.world.spec_alive(o) == old(self).world.spec_alive(o)
                    &&& self.world.spec_health(o) == old(self).world.spec_health(o)
                    &&& self.world.spec_render(o) == old(self).world.spec_render(o)
                    &&& self.world.spec_name(o) == old(self).world.spec_name(o)
                    &&& self.world.spec_fov(o) == old(self).world.spec_fov(o)
                    &&& self.world.spec_player(o) == old(self).world.spec_player(o)
                    &&& self.world.spec_monster(o) == old(self).world.spec_monster(o)
                },
                self.world.spec_render(pid as int) == old(self).world.spec_render(pid as int),
                self.world.spec_name(pid as int) == old(self).world.spec_name(pid as int),
                self.world.spec_fov(pid as int) == old(self).world.spec_fov(pid as int),
                self.world.spec_player(pid as int),
                !self.world.spec_monster(pid as int),
                forall|o: int| e <= o < n && o != pid as int
                    ==> self.world.spec_pos(o) == old(self).world.spec_pos(o),
                forall|o: int| 0 <= o < n && o != pid as int
                    && !(old(self).world.spec_alive(o) && old(self).world.spec_monster(o))
                    ==> self.world.spec_pos(o) == old(self).world.spec_pos(o),
                forall|o: int| 0 <= o < e && old(self).world.spec_alive(o)
                    && #[trigger] old(self).world.spec_monster(o) ==> {
                    let p0 = old(self).world.spec_pos(o).unwrap();
                    let p1 = self.world.spec_pos(o).unwrap();
                    &&& self.world.spec_pos(o) is Some
                    &&& spec_in_bounds(p1)
                    &&& (self.world.spec_pos(o) == old(self).world.spec_pos(o)
                        || old(self).map@[spec_idx(p1)] == TileType::Floor)
                    &&& cheb_dist(p1, ppos) >= cheb_dist(p0, ppos) - 1
                    &&& (2 <= cheb_dist(p0, ppos)
                            && cheb_dist(p0, ppos) <= old(self).world.spec_fov(o).unwrap().radius
                            && los_clear(old(self).map@, p0, ppos)
                        ==> {
                        &&& cheb_dist(p1, ppos) <= cheb_dist(p0, ppos)
                        &&& (manh_dist(p1, ppos) < manh_dist(p0, ppos)
                            || ((p0.x == ppos.x
                                    || cell_blocked(*old(self), *self, o, step_toward_x(p0, ppos)))
                                && (p0.y == ppos.y
                                    || cell_blocked(*old(self), *self, o, step_toward_y(p0, ppos)))))
                    })
                    &&& (cheb_dist(p0, ppos) <= 1
                        ==> self.world.spec_pos(o) == old(self).world.spec_pos(o))
                },
            decreases n - e,
        {
            if self.world.is_alive(e) && self.world.is_monster(e) && e != pid {
                let mpos = self.world.position(e).unwrap();
                let d = mpos.chebyshev(ppos);
                if d <= 1 {
                    let h = self.world.health(pid).unwrap();
                    if h.current > i32::MIN {
                        let ghost gprev = *self;
                        self.world.set_health(pid, Health { current: h.current - 1, max: h.max });
            proof {
                assert forall|o: int| 0 <= o < e && old(self).world.spec_alive(o)
                    && #[trigger] old(self).world.spec_monster(o)
                    && 2 <= cheb_dist(old(self).world.spec_pos(o).unwrap(), ppos)
                    && cheb_dist(old(self).world.spec_pos(o).unwrap(), ppos)
                        <= old(self).world.spec_fov(o).unwrap().radius
                    && los_clear(old(self).map@, old(self).world.spec_pos(o).unwrap(), ppos)
                    implies {
                    let p0 = old(self).world.spec_pos(o).unwrap();
                    let p1 = self.world.spec_pos(o).unwrap();
                    manh_dist(p1, ppos) < manh_dist(p0, ppos)
                        || ((p0.x == ppos.x
                                || cell_blocked(*old(self), *self, o, step_toward_x(p0, ppos)))
                            && (p0.y == ppos.y
                                || cell_blocked(*old(self), *self, o, step_toward_y(p0, ppos))))
                } by {
                    let p0 = old(self).world.spec_pos(o).unwrap();
                    let p1p = gprev.world.spec_pos(o).unwrap();
                    assert(self.world.spec_pos(o) == gprev.world.spec_pos(o));
                    if !(manh_dist(p1p, ppos) < manh_dist(p0, ppos)) {
                        if p0.x != ppos.x {
                            lemma_blocked_carries(*old(self), gprev, *self, o,
                                step_toward_x(p0, ppos), pid as int);
                        }
                        if p0.y != ppos.y {
                            lemma_blocked_carries(*old(self), gprev, *self, o,
                                step_toward_y(p0, ppos), pid as int);
                        }
                    }
                }
            }
                    }
                } else {
                    let fr = match self.world.fov(e) {
                        Some(f) => f.radius,
                        None => 0,
                    };
                    if d <= fr as i64 && self.map.line_clear(mpos, ppos) {
                        let sx: i32 = if ppos.x > mpos.x { 1 } else if ppos.x < mpos.x { -1 } else { 0 };
                        let sy: i32 = if ppos.y > mpos.y { 1 } else if ppos.y < mpos.y { -1 } else { 0 };
                        let mut moved = false;
                        if sx != 0 {
                            let c = Point { x: mpos.x + sx, y: mpos.y };
                            if self.map.can_enter_tile(c) {
                                match self.world.first_at(c) {
                                    None => {
                                        let ghost gprev = *self;
                                        self.world.set_position(e, c);
                                        moved = true;
            proof {
                assert forall|o: int| 0 <= o < e && old(self).world.spec_alive(o)
                    && #[trigger] old(self).world.spec_monster(o)
                    && 2 <= cheb_dist(old(self).world.spec_pos(o).unwrap(), ppos)
                    && cheb_dist(old(self).world.spec_pos(o).unwrap(), ppos)
                        <= old(self).world.spec_fov(o).unwrap().radius
                    && los_clear(old(self).map@, old(self).world.spec_pos(o).unwrap(), ppos)
                    implies {
                    let p0 = old(self).world.spec_pos(o).unwrap();
                    let p1 = self.world.spec_pos(o).unwrap();
                    manh_dist(p1, ppos) < manh_dist(p0, ppos)
                        || ((p0.x == ppos.x
                                || cell_blocked(*old(self), *self, o, step_toward_x(p0, ppos)))
                            && (p0.y == ppos.y
                                || cell_blocked(*old(self), *self, o, step_toward_y(p0, ppos))))
                } by {
                    let p0 = old(self).world.spec_pos(o).unwrap();
                    let p1p = gprev.world.spec_pos(o).unwrap();
                    assert(self.world.spec_pos(o) == gprev.world.spec_pos(o));
                    if !(manh_dist(p1p, ppos) < manh_dist(p0, ppos)) {
                        if p0.x != ppos.x {
                            lemma_blocked_carries(*old(self), gprev, *self, o,
                                step_toward_x(p0, ppos), e as int);
                        }
                        if p0.y != ppos.y {
                            lemma_blocked_carries(*old(self), gprev, *self, o,
                                step_toward_y(p0, ppos), e as int);
                        }
                    }
                }
            }
                                    },
                                    Some(_) => {
                            proof {
                                crate::world::lemma_first_at_some(self.world, c,
                                    self.world.num());
                                let o2 = self.world.first_at_to(c, self.world.num()).unwrap();
                                assert(self.world.spec_pos(o2) == Some(c));
                                if o2 != pid as int {
                                    assert(old(self).world.spec_alive(o2));
                                } else {
                                    assert(old(self).world.spec_alive(o2));
                                }
                                assert(self.world.spec_pos(e as int) == Some(mpos));
                                assert(o2 != e as int);
                                assert(cell_blocked(*old(self), *self, e as int, c));
                            }
                                    },
                                }
                            } else {
                                proof {
                                    assert(cell_blocked(*old(self), *self, e as int, c));
                                }
                            }
                        }
                        if !moved && sy != 0 {
                            let c = Point { x: mpos.x, y: mpos.y + sy };
                            if self.map.can_enter_tile(c) {
                                match self.world.first_at(c) {
                                    None => {
                                        let ghost gprev = *self;
                                        self.world.set_position(e, c);
                                        moved = true;
            proof {
                assert forall|o: int| 0 <= o < e && old(self).world.spec_alive(o)
                    && #[trigger] old(self).world.spec_monster(o)
                    && 2 <= cheb_dist(old(self).world.spec_pos(o).unwrap(), ppos)
                    && cheb_dist(old(self).world.spec_pos(o).unwrap(), ppos)
                        <= old(self).world.spec_fov(o).unwrap().radius
                    && los_clear(old(self).map@, old(self).world.spec_pos(o).unwrap(), ppos)
                    implies {
                    let p0 = old(self).world.spec_pos(o).unwrap();
                    let p1 = self.world.spec_pos(o).unwrap();
                    manh_dist(p1, ppos) < manh_dist(p0, ppos)
                        || ((p0.x == ppos.x
                                || cell_blocked(*old(self), *self, o, step_toward_x(p0, ppos)))
                            && (p0.y == ppos.y
                                || cell_blocked(*old(self), *self, o, step_toward_y(p0, ppos))))
                } by {
                    let p0 = old(self).world.spec_pos(o).unwrap();
                    let p1p = gprev.world.spec_pos(o).unwrap();
                    assert(self.world.spec_pos(o) == gprev.world.spec_pos(o));
                    if !(manh_dist(p1p, ppos) < manh_dist(p0, ppos)) {
                        if p0.x != ppos.x {
                            lemma_blocked_carries(*old(self), gprev, *self, o,
                                step_toward_x(p0, ppos), e as int);
                        }
                        if p0.y != ppos.y {
                            lemma_blocked_carries(*old(self), gprev, *self, o,
                                step_toward_y(p0, ppos), e as int);
                        }
                    }
                }
            }
                                    },
                                    Some(_) => {
                            proof {
                                crate::world::lemma_first_at_some(self.world, c,
                                    self.world.num());
                                let o2 = self.world.first_at_to(c, self.world.num()).unwrap();
                                assert(self.world.spec_pos(o2) == Some(c));
                                if o2 != pid as int {
                                    assert(old(self).world.spec_alive(o2));
                                } else {
                                    assert(old(self).world.spec_alive(o2));
                                }
                                assert(self.world.spec_pos(e as int) == Some(mpos));
                                assert(o2 != e as int);
                                assert(cell_blocked(*old(self), *self, e as int, c));
                            }
                                    },
                                }
                            } else {
                                proof {
                                    assert(cell_blocked(*old(self), *self, e as int, c));
                                }
                            }
                        }
                    } else {
                        let dir = crate::rng::rng_range(rng, 0, 4);
                        let c = if dir == 0 {
                            Point { x: mpos.x - 1, y: mpos.y }
                        } else if dir == 1 {
                            Point { x: mpos.x + 1, y: mpos.y }
                        } else if dir == 2 {
                            Point { x: mpos.x, y: mpos.y - 1 }
                        } else {
                            Point { x: mpos.x, y: mpos.y + 1 }
                        };
                        if self.map.can_enter_tile(c) && self.world.first_at(c).is_none() {
                            let ghost gprev = *self;
                            self.world.set_position(e, c);
            proof {
                assert forall|o: int| 0 <= o < e && old(self).world.spec_alive(o)
                    && #[trigger] old(self).world.spec_monster(o)
                    && 2 <= cheb_dist(old(self).world.spec_pos(o).unwrap(), ppos)
                    && cheb_dist(old(self).world.spec_pos(o).unwrap(), ppos)
                        <= old(self).world.spec_fov(o).unwrap().radius
                    && los_clear(old(self).map@, old(self).world.spec_pos(o).unwrap(), ppos)
                    implies {
                    let p0 = old(self).world.spec_pos(o).unwrap();
                    let p1 = self.world.spec_pos(o).unwrap();
                    manh_dist(p1, ppos) < manh_dist(p0, ppos)
                        || ((p0.x == ppos.x
                                || cell_blocked(*old(self), *self, o, step_toward_x(p0, ppos)))
                            && (p0.y == ppos.y
                                || cell_blocked(*old(self), *self, o, step_toward_y(p0, ppos))))
                } by {
                    let p0 = old(self).world.spec_pos(o).unwrap();
                    let p1p = gprev.world.spec_pos(o).unwrap();
                    assert(self.world.spec_pos(o) == gprev.world.spec_pos(o));
                    if !(manh_dist(p1p, ppos) < manh_dist(p0, ppos)) {
                        if p0.x != ppos.x {
                            lemma_blocked_carries(*old(self), gprev, *self, o,
                                step_toward_x(p0, ppos), e as int);
                        }
                        if p0.y != ppos.y {
                            lemma_blocked_carries(*old(self), gprev, *self, o,
                                step_toward_y(p0, ppos), e as int);
                        }
                    }
                }
            }
                        }
                    }
                }
            }
            e += 1;
        }
        let ghost gloop = *self;
        let h = self.world.health(pid).unwrap();
        if h.current <= 0 {
            self.world.destroy(pid);
            self.state = TurnState::GameOver;
        } else {
            self.state = TurnState::AwaitingInput;
        }
        proof {
            assert forall|o: int| 0 <= o < n as int && old(self).world.spec_alive(o)
                && #[trigger] old(self).world.spec_monster(o)
                && 2 <= cheb_dist(old(self).world.spec_pos(o).unwrap(), ppos)
                && cheb_dist(old(self).world.spec_pos(o).unwrap(), ppos)
                    <= old(self).world.spec_fov(o).unwrap().radius
                && los_clear(old(self).map@, old(self).world.spec_pos(o).unwrap(), ppos)
                implies {
                let p0 = old(self).world.spec_pos(o).unwrap();
                let p1 = self.world.spec_pos(o).unwrap();
                manh_dist(p1, ppos) < manh_dist(p0, ppos)
                    || ((p0.x == ppos.x
                            || cell_blocked(*old(self), *self, o, step_toward_x(p0, ppos)))
                        && (p0.y == ppos.y
                            || cell_blocked(*old(self), *self, o, step_toward_y(p0, ppos))))
            } by {
                let p0 = old(self).world.spec_pos(o).unwrap();
                let p1p = gloop.world.spec_pos(o).unwrap();
                assert(self.world.spec_pos(o) == gloop.world.spec_pos(o));
                if !(manh_dist(p1p, ppos) < manh_dist(p0, ppos)) {
                    if p0.x != ppos.x {
                        lemma_blocked_carries(*old(self), gloop, *self, o,
                            step_toward_x(p0, ppos), pid as int);
                    }
                    if p0.y != ppos.y {
                        lemma_blocked_carries(*old(self), gloop, *self, o,
                            step_toward_y(p0, ppos), pid as int);
                    }
                }
            }
            assert forall|o: int| 0 <= o < self.world.num() && self.world.spec_alive(o)
                && #[trigger] self.world.spec_monster(o) implies {
                &&& self.world.spec_pos(o) is Some
                &&& spec_in_bounds(self.world.spec_pos(o).unwrap())
                &&& self.world.spec_health(o) is Some
                &&& self.world.spec_health(o).unwrap().current >= 1
                &&& self.world.spec_fov(o) is Some
                &&& self.world.spec_fov(o).unwrap().radius >= 2
            } by {
                assert(o != pid as int);
                assert(old(self).world.spec_monster(o));
                assert(old(self).world.spec_alive(o));
            }
            if old(self).player_hp() == 1 && threatened(*old(self)) {
                let m = choose|m: int| 0 <= m < old(self).world.num()
                    && old(self).world.spec_alive(m) && #[trigger] old(self).world.spec_monster(m)
                    && cheb_dist(old(self).world.spec_pos(m).unwrap(), old(self).player_pos()) <= 1;
                assert(self.player_hp() <= 0);
            }
        }
    }
}

} // verus!
