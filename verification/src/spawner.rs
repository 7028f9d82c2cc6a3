use vstd::prelude::*;
use crate::geometry::Point;
use crate::components::{Renderable, Health, FieldOfView};
use crate::world::{World, EntityId};
use crate::rng::rng_range;

verus! {

/// Player starting hit points.
pub const PLAYER_MAX_HEALTH: i32 = 10;

/// Sight radius of the player.
pub const PLAYER_FOV_RADIUS: i32 = 8;

/// Sight radius of every monster.
pub const MONSTER_FOV_RADIUS: i32 = 6;

/// What the player entity looks like when freshly spawned.
pub open spec fn is_fresh_player(w: World, e: int, pos: Point) -> bool {
    &&& w.spec_alive(e)
    &&& w.spec_player(e)
    &&& !w.spec_monster(e)
    &&& w.spec_pos(e) == Some(pos)
    &&& w.spec_health(e) == Some(Health { current: PLAYER_MAX_HEALTH, max: PLAYER_MAX_HEALTH })
    &&& w.spec_fov(e) matches Some(f) && f.radius == PLAYER_FOV_RADIUS
    &&& w.spec_render(e) is Some
    &&& w.spec_name(e) is Some
}

/// What any monster entity looks like when freshly spawned.
pub open spec fn is_fresh_monster(w: World, e: int, pos: Point) -> bool {
    &&& w.spec_alive(e)
    &&& w.spec_monster(e)
    &&& !w.spec_player(e)
    &&& w.spec_pos(e) == Some(pos)
    &&& w.spec_health(e) matches Some(h) && 1 <= h.current <= 2 && h.current == h.max
    &&& w.spec_fov(e) matches Some(f) && f.radius == MONSTER_FOV_RADIUS
    &&& w.spec_render(e) is Some
    &&& w.spec_name(e) is Some
}

/// Seed the one player entity at the generated start point.
pub fn spawn_player(world: &mut World, pos: Point) -> (e: EntityId)
    requires
        old(world).wf(),
    ensures
        final(world).wf(),
        e as int == old(world).num(),
        final(world).num() == old(world).num() + 1,
        is_fresh_player(*final(world), e as int, pos),
        World::same_prefix(*old(world), *final(world), old(world).num()),
{
    world.create_with(
        Some(pos),
        Some(Renderable { glyph: 64, color: 14 }),
        Some(Health { current: PLAYER_MAX_HEALTH, max: PLAYER_MAX_HEALTH }),
        Some(FieldOfView::new(PLAYER_FOV_RADIUS)),
        Some("Duck"),
        true,
        false,
    )
}

/// Seed one monster entity at a spawn point; the monster kind (glyph, name
/// and hit points) is drawn from the shared random number generator.
pub fn spawn_monster(world: &mut World, rng: &mut bracket_lib::prelude::RandomNumberGenerator,
    pos: Point) -> (e: EntityId)
    requires
        old(world).wf(),
    ensures
        final(world).wf(),
        e as int == old(world).num(),
        final(world).num() == old(world).num() + 1,
        is_fresh_monster(*final(world), e as int, pos),
        World::same_prefix(*old(world), *final(world), old(world).num()),
{
    let kind = rng_range(rng, 0, 4);
    let glyph: u32 = if kind == 0 { 103 } else if kind == 1 { 111 } else if kind == 2 { 79 } else { 69 };
    let hp: i32 = if kind < 2 { 1 } else { 2 };
    let name: &'static str = if kind == 0 {
        "Goblin"
    } else if kind == 1 {
        "Orc"
    } else if kind == 2 {
        "Ogre"
    } else {
        "Ettin"
    };
    world.create_with(
        Some(pos),
        Some(Renderable { glyph, color: 9 }),
        Some(Health { current: hp, max: hp }),
        Some(FieldOfView::new(MONSTER_FOV_RADIUS)),
        Some(name),
        false,
        true,
    )
}

} // verus!
