use vstd::prelude::*;
use crate::geometry::Point;
use crate::components::{Renderable, Health, FieldOfView};

verus! {

/// An opaque entity identifier: an index into the store's component columns.
pub type EntityId = usize;

/// The entity/component store: an arena of entities with one column per
/// component kind, indexed by entity id. An entity's capability set is
/// exactly the set of columns holding `Some`/`true` at its id.
pub struct World {
    positions: Vec<Option<Point>>,
    renderables: Vec<Option<Renderable>>,
    healths: Vec<Option<Health>>,
    fovs: Vec<Option<FieldOfView>>,
    names: Vec<Option<&'static str>>,
    players: Vec<bool>,
    monsters: Vec<bool>,
    alive: Vec<bool>,
}

impl World {
    /// Number of entity slots ever created.
    pub closed spec fn num(self) -> int {
        self.alive@.len() as int
    }

    /// All component columns cover the same entities.
    pub closed spec fn wf(self) -> bool {
        &&& self.positions@.len() == self.alive@.len()
        &&& self.renderables@.len() == self.alive@.len()
        &&& self.healths@.len() == self.alive@.len()
        &&& self.fovs@.len() == self.alive@.len()
        &&& self.names@.len() == self.alive@.len()
        &&& self.players@.len() == self.alive@.len()
        &&& self.monsters@.len() == self.alive@.len()
    }

    pub closed spec fn spec_alive(self, e: int) -> bool {
        self.alive@[e]
    }

    pub closed spec fn spec_pos(self, e: int) -> Option<Point> {
        self.positions@[e]
    }

    pub closed spec fn spec_render(self, e: int) -> Option<Renderable> {
        self.renderables@[e]
    }

    pub closed spec fn spec_health(self, e: int) -> Option<Health> {
        self.healths@[e]
    }

    pub closed spec fn spec_fov(self, e: int) -> Option<FieldOfView> {
        self.fovs@[e]
    }

    pub closed spec fn spec_name(self, e: int) -> Option<&'static str> {
        self.names@[e]
    }

    pub closed spec fn spec_player(self, e: int) -> bool {
        self.players@[e]
    }

    pub closed spec fn spec_monster(self, e: int) -> bool {
        self.monsters@[e]
    }

    /// One entity carries the same components in two stores.
    pub open spec fn same_entity(w1: World, w2: World, e: int) -> bool {
        &&& w2.spec_alive(e) == w1.spec_alive(e)
        &&& w2.spec_pos(e) == w1.spec_pos(e)
        &&& w2.spec_render(e) == w1.spec_render(e)
        &&& w2.spec_health(e) == w1.spec_health(e)
        &&& w2.spec_fov(e) == w1.spec_fov(e)
        &&& w2.spec_name(e) == w1.spec_name(e)
        &&& w2.spec_player(e) == w1.spec_player(e)
        &&& w2.spec_monster(e) == w1.spec_monster(e)
    }

    /// Two stores agree on every entity but possibly `e`.
    pub open spec fn same_except(w1: World, w2: World, e: int) -> bool {
        &&& w2.num() == w1.num()
        &&& forall|o: int| 0 <= o < w1.num() && o != e ==> (#[trigger] w2.spec_alive(o)) == w1.spec_alive(o)
        &&& forall|o: int| 0 <= o < w1.num() && o != e ==> (#[trigger] w2.spec_pos(o)) == w1.spec_pos(o)
        &&& forall|o: int| 0 <= o < w1.num() && o != e ==> (#[trigger] w2.spec_render(o)) == w1.spec_render(o)
        &&& forall|o: int| 0 <= o < w1.num() && o != e ==> (#[trigger] w2.spec_health(o)) == w1.spec_health(o)
        &&& forall|o: int| 0 <= o < w1.num() && o != e ==> (#[trigger] w2.spec_fov(o)) == w1.spec_fov(o)
        &&& forall|o: int| 0 <= o < w1.num() && o != e ==> (#[trigger] w2.spec_name(o)) == w1.spec_name(o)
        &&& forall|o: int| 0 <= o < w1.num() && o != e ==> (#[trigger] w2.spec_player(o)) == w1.spec_player(o)
        &&& forall|o: int| 0 <= o < w1.num() && o != e ==> (#[trigger] w2.spec_monster(o)) == w1.spec_monster(o)
    }

    /// The first `n` entities carry the same components in two stores.
    pub open spec fn same_prefix(w1: World, w2: World, n: int) -> bool {
        &&& forall|o: int| 0 <= o < n ==> (#[trigger] w2.spec_alive(o)) == w1.spec_alive(o)
        &&& forall|o: int| 0 <= o < n ==> (#[trigger] w2.spec_pos(o)) == w1.spec_pos(o)
        &&& forall|o: int| 0 <= o < n ==> (#[trigger] w2.spec_render(o)) == w1.spec_render(o)
        &&& forall|o: int| 0 <= o < n ==> (#[trigger] w2.spec_health(o)) == w1.spec_health(o)
        &&& forall|o: int| 0 <= o < n ==> (#[trigger] w2.spec_fov(o)) == w1.spec_fov(o)
        &&& forall|o: int| 0 <= o < n ==> (#[trigger] w2.spec_name(o)) == w1.spec_name(o)
        &&& forall|o: int| 0 <= o < n ==> (#[trigger] w2.spec_player(o)) == w1.spec_player(o)
        &&& forall|o: int| 0 <= o < n ==> (#[trigger] w2.spec_monster(o)) == w1.spec_monster(o)
    }

    pub fn new() -> (w: World)
        ensures
            w.wf(),
            w.num() == 0,
    {
        World {
            positions: Vec::new(),
            renderables: Vec::new(),
            healths: Vec::new(),
            fovs: Vec::new(),
            names: Vec::new(),
            players: Vec::new(),
            monsters: Vec::new(),
            alive: Vec::new(),
        }
    }

    /// Create one live entity with the given component set; its id is the
    /// next free slot, and no existing entity is touched.
    pub fn create_with(&mut self, pos: Option<Point>, render: Option<Renderable>,
        health: Option<Health>, fov: Option<FieldOfView>, name: Option<&'static str>,
        is_player: bool, is_monster: bool) -> (e: EntityId)
        requires
            old(self).wf(),
        ensures
            final(self).wf(),
            e as int == old(self).num(),
            final(self).num() == old(self).num() + 1,
            final(self).spec_alive(e as int),
            final(self).spec_pos(e as int) == pos,
            final(self).spec_render(e as int) == render,
            final(self).spec_health(e as int) == health,
            final(self).spec_fov(e as int) == fov,
            final(self).spec_name(e as int) == name,
            final(self).spec_player(e as int) == is_player,
            final(self).spec_monster(e as int) == is_monster,
            World::same_prefix(*old(self), *final(self), old(self).num()),
    {
        let e = self.alive.len();
        self.positions.push(pos);
        self.renderables.push(render);
        self.healths.push(health);
        self.fovs.push(fov);
        self.names.push(name);
        self.players.push(is_player);
        self.monsters.push(is_monster);
        self.alive.push(true);
        e
    }

    pub fn len(&self) -> (n: usize)
        ensures
            n as int == self.num(),
    {
        self.alive.len()
    }

    pub fn is_alive(&self, e: EntityId) -> (r: bool)
        requires
            self.wf(),
            (e as int) < self.num(),
        ensures
            r == self.spec_alive(e as int),
    {
        self.alive[e]
    }

    pub fn is_player(&self, e: EntityId) -> (r: bool)
        requires
            self.wf(),
            (e as int) < self.num(),
        ensures
            r == self.spec_player(e as int),
    {
        self.players[e]
    }

    pub fn is_monster(&self, e: EntityId) -> (r: bool)
        requires
            self.wf(),
            (e as int) < self.num(),
        ensures
            r == self.spec_monster(e as int),
    {
        self.monsters[e]
    }

    pub fn position(&self, e: EntityId) -> (r: Option<Point>)
        requires
            self.wf(),
            (e as int) < self.num(),
        ensures
            r == self.spec_pos(e as int),
    {
        self.positions[e]
    }

    pub fn health(&self, e: EntityId) -> (r: Option<Health>)
        requires
            self.wf(),
            (e as int) < self.num(),
        ensures
            r == self.spec_health(e as int),
    {
        self.healths[e]
    }

    pub fn renderable(&self, e: EntityId) -> (r: Option<Renderable>)
        requires
            self.wf(),
            (e as int) < self.num(),
        ensures
            r == self.spec_render(e as int),
    {
        self.renderables[e]
    }

    pub fn name(&self, e: EntityId) -> (r: Option<&'static str>)
        requires
            self.wf(),
            (e as int) < self.num(),
        ensures
            r == self.spec_name(e as int),
    {
        self.names[e]
    }

    pub fn fov(&self, e: EntityId) -> (r: &Option<FieldOfView>)
        requires
            self.wf(),
            (e as int) < self.num(),
        ensures
            *r == self.spec_fov(e as int),
    {
        &self.fovs[e]
    }

    pub fn set_position(&mut self, e: EntityId, p: Point)
        requires
            old(self).wf(),
            (e as int) < old(self).num(),
        ensures
            final(self).wf(),
            World::same_except(*old(self), *final(self), e as int),
            final(self).spec_pos(e as int) == Some(p),
            final(self).spec_alive(e as int) == old(self).spec_alive(e as int),
            final(self).spec_render(e as int) == old(self).spec_render(e as int),
            final(self).spec_health(e as int) == old(self).spec_health(e as int),
            final(self).spec_fov(e as int) == old(self).spec_fov(e as int),
            final(self).spec_name(e as int) == old(self).spec_name(e as int),
            final(self).spec_player(e as int) == old(self).spec_player(e as int),
            final(self).spec_monster(e as int) == old(self).spec_monster(e as int),
    {
        self.positions.set(e, Some(p));
    }

    pub fn set_health(&mut self, e: EntityId, h: Health)
        requires
            old(self).wf(),
            (e as int) < old(self).num(),
        ensures
            final(self).wf(),
            World::same_except(*old(self), *final(self), e as int),
            final(self).spec_health(e as int) == Some(h),
            final(self).spec_alive(e as int) == old(self).spec_alive(e as int),
            final(self).spec_pos(e as int) == old(self).spec_pos(e as int),
            final(self).spec_render(e as int) == old(self).spec_render(e as int),
            final(self).spec_fov(e as int) == old(self).spec_fov(e as int),
            final(self).spec_name(e as int) == old(self).spec_name(e as int),
            final(self).spec_player(e as int) == old(self).spec_player(e as int),
            final(self).spec_monster(e as int) == old(self).spec_monster(e as int),
    {
        self.healths.set(e, Some(h));
    }

    pub fn set_fov(&mut self, e: EntityId, f: FieldOfView)
        requires
            old(self).wf(),
            (e as int) < old(self).num(),
        ensures
            final(self).wf(),
            World::same_except(*old(self), *final(self), e as int),
            final(self).spec_fov(e as int) == Some(f),
            final(self).spec_alive(e as int) == old(self).spec_alive(e as int),
            final(self).spec_pos(e as int) == old(self).spec_pos(e as int),
            final(self).spec_render(e as int) == old(self).spec_render(e as int),
            final(self).spec_health(e as int) == old(self).spec_health(e as int),
            final(self).spec_name(e as int) == old(self).spec_name(e as int),
            final(self).spec_player(e as int) == old(self).spec_player(e as int),
            final(self).spec_monster(e as int) == old(self).spec_monster(e as int),
    {
        self.fovs.set(e, Some(f));
    }

    /// Destroy an entity: it stops being alive; its slot is never reused.
    pub fn destroy(&mut self, e: EntityId)
        requires
            old(self).wf(),
            (e as int) < old(self).num(),
        ensures
            final(self).wf(),
            World::same_except(*old(self), *final(self), e as int),
            !final(self).spec_alive(e as int),
            final(self).spec_pos(e as int) == old(self).spec_pos(e as int),
            final(self).spec_render(e as int) == old(self).spec_render(e as int),
            final(self).spec_health(e as int) == old(self).spec_health(e as int),
            final(self).spec_fov(e as int) == old(self).spec_fov(e as int),
            final(self).spec_name(e as int) == old(self).spec_name(e as int),
            final(self).spec_player(e as int) == old(self).spec_player(e as int),
            final(self).spec_monster(e as int) == old(self).spec_monster(e as int),
    {
        self.alive.set(e, false);
    }

    /// Alive entities among the first `n` slots.
    pub open spec fn count_alive_to(self, n: int) -> int
        decreases n,
    {
        if n <= 0 {
            0
        } else {
            self.count_alive_to(n - 1) + if self.spec_alive(n - 1) { 1int } else { 0int }
        }
    }

    /// Alive entities carrying the player marker among the first `n` slots.
    pub open spec fn count_players_to(self, n: int) -> int
        decreases n,
    {
        if n <= 0 {
            0
        } else {
            self.count_players_to(n - 1)
                + if self.spec_alive(n - 1) && self.spec_player(n - 1) { 1int } else { 0int }
        }
    }

    /// Alive entities carrying the monster marker among the first `n` slots.
    pub open spec fn count_monsters_to(self, n: int) -> int
        decreases n,
    {
        if n <= 0 {
            0
        } else {
            self.count_monsters_to(n - 1)
                + if self.spec_alive(n - 1) && self.spec_monster(n - 1) { 1int } else { 0int }
        }
    }

    pub fn count_alive(&self) -> (c: usize)
        requires
            self.wf(),
        ensures
            c as int == self.count_alive_to(self.num()),
    {
        let n = self.alive.len();
        let mut c: usize = 0;
        let mut i: usize = 0;
        while i < n
            invariant
                self.wf(),
                n as int == self.num(),
                i <= n,
                c as int == self.count_alive_to(i as int),
                c <= i,
            decreases n - i,
        {
            if self.alive[i] {
                c += 1;
            }
            i += 1;
        }
        c
    }

    pub fn count_players(&self) -> (c: usize)
        requires
            self.wf(),
        ensures
            c as int == self.count_players_to(self.num()),
    {
        let n = self.alive.len();
        let mut c: usize = 0;
        let mut i: usize = 0;
        while i < n
            invariant
                self.wf(),
                n as int == self.num(),
                i <= n,
                c as int == self.count_players_to(i as int),
                c <= i,
            decreases n - i,
        {
            if self.alive[i] && self.players[i] {
                c += 1;
            }
            i += 1;
        }
        c
    }

    pub fn count_monsters(&self) -> (c: usize)
        requires
            self.wf(),
        ensures
            c as int == self.count_monsters_to(self.num()),
    {
        let n = self.alive.len();
        let mut c: usize = 0;
        let mut i: usize = 0;
        while i < n
            invariant
                self.wf(),
                n as int == self.num(),
                i <= n,
                c as int == self.count_monsters_to(i as int),
                c <= i,
            decreases n - i,
        {
            if self.alive[i] && self.monsters[i] {
                c += 1;
            }
            i += 1;
        }
        c
    }

    /// The first alive entity standing on `p`, if any: the collision query.
    pub open spec fn first_at_to(self, p: Point, n: int) -> Option<int>
        decreases n,
    {
        if n <= 0 {
            None
        } else {
            match self.first_at_to(p, n - 1) {
                Some(e) => Some(e),
                None => {
                    if self.spec_alive(n - 1) && self.spec_pos(n - 1) == Some(p) {
                        Some(n - 1)
                    } else {
                        None
                    }
                },
            }
        }
    }

    pub fn first_at(&self, p: Point) -> (r: Option<EntityId>)
        requires
            self.wf(),
        ensures
            r is None ==> self.first_at_to(p, self.num()) is None,
            r matches Some(e) ==> (e as int) < self.num()
                && self.first_at_to(p, self.num()) == Some(e as int),
    {
        let n = self.alive.len();
        let mut i: usize = 0;
        while i < n
            invariant
                self.wf(),
                n as int == self.num(),
                i <= n,
                self.first_at_to(p, i as int) is None,
            decreases n - i,
        {
            if self.alive[i] && self.positions[i] == Some(p) {
                proof {
                    lemma_first_at_extends(*self, p, i as int, n as int);
                }
                return Some(i);
            }
            i += 1;
        }
        None
    }
}

/// The population counts depend only on the entities' components.
pub proof fn lemma_counts_same(w1: World, w2: World, n: int)
    requires
        World::same_prefix(w1, w2, n),
    ensures
        w1.count_alive_to(n) == w2.count_alive_to(n),
        w1.count_players_to(n) == w2.count_players_to(n),
        w1.count_monsters_to(n) == w2.count_monsters_to(n),
    decreases n,
{
    if n > 0 {
        lemma_counts_same(w1, w2, n - 1);
    }
}

/// Once a slot answers the collision query, later slots do not change it.
proof fn lemma_first_at_extends(w: World, p: Point, i: int, n: int)
    requires
        0 <= i < n,
        w.first_at_to(p, i) is None,
        w.spec_alive(i),
        w.spec_pos(i) == Some(p),
    ensures
        w.first_at_to(p, n) == Some(i),
    decreases n,
{
    if n - 1 > i {
        lemma_first_at_extends(w, p, i, n - 1);
    }
}

/// Whether a queue of entity ids holds the id `x`.
pub open spec fn kills_contain(s: Seq<EntityId>, x: int) -> bool {
    exists|j: int| 0 <= j < s.len() && (#[trigger] s[j]) as int == x
}

/// A `None` collision answer means no alive entity stands there.
pub proof fn lemma_first_at_none(w: World, p: Point, n: int)
    requires
        w.first_at_to(p, n) is None,
    ensures
        forall|o: int| 0 <= o < n ==> !(w.spec_alive(o) && w.spec_pos(o) == Some(p)),
    decreases n,
{
    if n > 0 {
        lemma_first_at_none(w, p, n - 1);
    }
}

/// A `Some` collision answer names an alive entity standing there.
pub proof fn lemma_first_at_some(w: World, p: Point, n: int)
    requires
        w.first_at_to(p, n) is Some,
    ensures
        0 <= w.first_at_to(p, n).unwrap() < n,
        w.spec_alive(w.first_at_to(p, n).unwrap()),
        w.spec_pos(w.first_at_to(p, n).unwrap()) == Some(p),
    decreases n,
{
    if n > 0 && w.first_at_to(p, n - 1) is Some {
        lemma_first_at_some(w, p, n - 1);
    }
}

/// Deferred structural mutation: destruction requested during a query
/// iteration is queued here and applied only once the iteration is over, so
/// that structural change never invalidates iteration in progress.
pub struct CommandBuffer {
    kills: Vec<EntityId>,
}

impl CommandBuffer {
    pub closed spec fn spec_kills(self) -> Seq<EntityId> {
        self.kills@
    }

    pub fn new() -> (cb: CommandBuffer)
        ensures
            cb.spec_kills() == Seq::<EntityId>::empty(),
    {
        CommandBuffer { kills: Vec::new() }
    }

    /// Queue one entity for destruction at the end of the running phase.
    pub fn push_kill(&mut self, e: EntityId)
        ensures
            final(self).spec_kills() == old(self).spec_kills().push(e),
    {
        self.kills.push(e);
    }

    /// Apply every queued destruction: exactly the queued entities stop being
    /// alive, and nothing else changes anywhere.
    pub fn flush(self, w: &mut World)
        requires
            old(w).wf(),
            forall|i: int| 0 <= i < self.spec_kills().len()
                ==> (#[trigger] self.spec_kills()[i] as int) < old(w).num(),
        ensures
            final(w).wf(),
            final(w).num() == old(w).num(),
            forall|e: int| 0 <= e < old(w).num() ==> {
                &&& final(w).spec_alive(e) ==
                    (old(w).spec_alive(e) && !kills_contain(self.spec_kills(), e))
                &&& final(w).spec_pos(e) == old(w).spec_pos(e)
                &&& final(w).spec_render(e) == old(w).spec_render(e)
                &&& final(w).spec_health(e) == old(w).spec_health(e)
                &&& final(w).spec_fov(e) == old(w).spec_fov(e)
                &&& final(w).spec_name(e) == old(w).spec_name(e)
                &&& final(w).spec_player(e) == old(w).spec_player(e)
                &&& final(w).spec_monster(e) == old(w).spec_monster(e)
            },
    {
        let ghost w0 = *w;
        let mut i: usize = 0;
        while i < self.kills.len()
            invariant
                w.wf(),
                w.num() == w0.num(),
                i <= self.spec_kills().len(),
                forall|j: int| 0 <= j < self.spec_kills().len()
                    ==> (#[trigger] self.spec_kills()[j] as int) < w0.num(),
                forall|e: int| 0 <= e < w0.num() ==> {
                    &&& w.spec_alive(e) ==
                        (w0.spec_alive(e) && !kills_contain(self.spec_kills().subrange(0, i as int), e))
                    &&& w.spec_pos(e) == w0.spec_pos(e)
                    &&& w.spec_render(e) == w0.spec_render(e)
                    &&& w.spec_health(e) == w0.spec_health(e)
                    &&& w.spec_fov(e) == w0.spec_fov(e)
                    &&& w.spec_name(e) == w0.spec_name(e)
                    &&& w.spec_player(e) == w0.spec_player(e)
                    &&& w.spec_monster(e) == w0.spec_monster(e)
                },
            decreases self.spec_kills().len() - i,
        {
            let e = self.kills[i];
            let ghost wp = *w;
            w.destroy(e);
            proof {
                let sub = self.spec_kills().subrange(0, i as int);
                let ext = self.spec_kills().subrange(0, i as int + 1);
                assert(ext =~= sub.push(e));
                assert forall|x: int| 0 <= x < w0.num() implies
                    w.spec_alive(x) == (w0.spec_alive(x) && !kills_contain(ext, x)) by {
                    if x == e as int {
                        assert(ext[ext.len() - 1] == e);
                        assert(kills_contain(ext, x));
                        assert(!w.spec_alive(x));
                    } else {
                        if kills_contain(ext, x) {
                            let j = choose|j: int| 0 <= j < ext.len() && (#[trigger] ext[j]) as int == x;
                            assert(j < sub.len());
                            assert(sub[j] as int == x);
                            assert(kills_contain(sub, x));
                        }
                        if kills_contain(sub, x) {
                            let j = choose|j: int| 0 <= j < sub.len() && (#[trigger] sub[j]) as int == x;
                            assert(ext[j] as int == x);
                            assert(kills_contain(ext, x));
                        }
                    }
                }
            }
            i += 1;
        }
        proof {
            assert(self.spec_kills().subrange(0, self.spec_kills().len() as int) =~= self.spec_kills());
        }
    }
}

} // verus!
