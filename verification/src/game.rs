use vstd::prelude::*;
use crate::geometry::Point;
use crate::map::{TileMap, TileType, spec_in_bounds, spec_idx};
use crate::map_builder::{MapBuilder, GenerationFailure};
use crate::map_builder::drunkard::{center_point, center_idx, DESIRED_FLOOR};
use crate::flood::{flood, count_true};
use crate::world::{World, EntityId};
use crate::camera::Camera;
use crate::turn_state::{TurnState, InputKey};
use crate::spawner::{spawn_player, spawn_monster, is_fresh_player};

verus! {

/// The whole simulation state of one run: the level grid, the entity store,
/// the shared resources (camera, turn phase) and the player's identity.
pub struct Game {
    pub map: TileMap,
    pub world: World,
    pub camera: Camera,
    pub state: TurnState,
    pub player_id: EntityId,
    pub amulet_start: Point,
}

impl Game {
    pub open spec fn player_pos(self) -> Point {
        self.world.spec_pos(self.player_id as int).unwrap()
    }

    pub open spec fn player_hp(self) -> int {
        self.world.spec_health(self.player_id as int).unwrap().current as int
    }

    /// The simulation invariant every phase preserves: the grid is well
    /// formed; there is exactly one player-marked entity, known by id, on the
    /// grid with health and sight; every alive monster stands on the grid
    /// with at least one hit point and sight; the player entity is destroyed
    /// exactly on the transition into the terminal phase.
    pub open spec fn wf(self) -> bool {
        &&& self.map.wf()
        &&& self.world.wf()
        &&& (self.player_id as int) < self.world.num()
        &&& self.world.spec_player(self.player_id as int)
        &&& !self.world.spec_monster(self.player_id as int)
        &&& forall|e: int| 0 <= e < self.world.num() && self.world.spec_player(e)
            ==> e == self.player_id as int
        &&& (self.world.spec_alive(self.player_id as int) <==> self.state != TurnState::GameOver)
        &&& self.world.spec_pos(self.player_id as int) is Some
        &&& spec_in_bounds(self.player_pos())
        &&& self.world.spec_health(self.player_id as int) is Some
        &&& self.world.spec_fov(self.player_id as int) is Some
        &&& forall|e: int| 0 <= e < self.world.num()
            && self.world.spec_alive(e) && #[trigger] self.world.spec_monster(e) ==> {
            &&& self.world.spec_pos(e) is Some
            &&& spec_in_bounds(self.world.spec_pos(e).unwrap())
            &&& self.world.spec_health(e) is Some
            &&& self.world.spec_health(e).unwrap().current >= 1
            &&& self.world.spec_fov(e) is Some
            &&& self.world.spec_fov(e).unwrap().radius >= 2
        }
    }

    /// What a freshly (re)started run looks like: phase reset to awaiting
    /// input, a single player entity at the generated start, one monster per
    /// generated spawn point and nothing else in the store, on a map whose
    /// start cell is floor and whose flood fill from it meets the coverage
    /// minimum.
    pub open spec fn fresh(self) -> bool {
        &&& self.wf()
        &&& self.state == TurnState::AwaitingInput
        &&& self.player_id == 0usize
        &&& self.world.spec_pos(0) == Some(center_point())
        &&& self.world.count_players_to(self.world.num()) == 1
        &&& self.world.count_alive_to(self.world.num()) == self.world.num()
        &&& self.world.count_monsters_to(self.world.num()) == self.world.num() - 1
        &&& self.world.num() >= 2
        &&& self.camera == crate::camera::camera_for(center_point())
        &&& self.map@[center_idx()] == TileType::Floor
        &&& count_true(flood(self.map@, center_idx())) >= DESIRED_FLOOR
        &&& forall|e: int| 0 <= e < self.world.num() && #[trigger] self.world.spec_monster(e)
            ==> self.map@[spec_idx(self.world.spec_pos(e).unwrap())] == TileType::Floor
                && self.world.spec_pos(e).unwrap() != center_point()
    }

    /// Build one level and seed the world from its bundle: the player at the
    /// generated start, one monster per spawn point. A generation failure is
    /// handed to the caller; nothing partial is ever returned.
    pub fn new(rng: &mut bracket_lib::prelude::RandomNumberGenerator)
        -> (r: Result<Game, GenerationFailure>)
        ensures
            r matches Ok(g) ==> g.fresh(),
    {
        let mb = match MapBuilder::new(rng) {
            Ok(mb) => mb,
            Err(e) => {
                return Err(e);
            },
        };
        let mut world = World::new();
        let player_id = spawn_player(&mut world, mb.player_start);
        proof {
            assert(world.count_players_to(0) == 0);
            assert(world.count_alive_to(0) == 0);
            assert(world.count_monsters_to(0) == 0);
            assert(world.count_players_to(1) == 1);
            assert(world.count_alive_to(1) == 1);
            assert(world.count_monsters_to(1) == 0);
        }
        let spawns = &mb.monster_spawns;
        let mut i: usize = 0;
        while i < spawns.len()
            invariant
                world.wf(),
                mb.valid(),
                spawns == mb.monster_spawns,
                i <= spawns@.len(),
                world.num() == 1 + i as int,
                is_fresh_player(world, 0, mb.player_start),
                world.count_players_to(world.num()) == 1,
                world.count_alive_to(world.num()) == world.num(),
                world.count_monsters_to(world.num()) == world.num() - 1,
                forall|e: int| 0 <= e < world.num() && world.spec_player(e) ==> e == 0,
                forall|e: int| 1 <= e < world.num() ==> #[trigger] world.spec_monster(e),
                forall|e: int| 1 <= e < world.num() ==> #[trigger] world.spec_alive(e),
                forall|e: int| 1 <= e < world.num()
                    ==> (#[trigger] world.spec_pos(e)) == Some(spawns@[e - 1]),
                forall|e: int| 1 <= e < world.num()
                    ==> ((#[trigger] world.spec_health(e)) matches Some(h) && h.current >= 1),
                forall|e: int| 1 <= e < world.num()
                    ==> ((#[trigger] world.spec_fov(e)) matches Some(f)
                        && f.radius == crate::spawner::MONSTER_FOV_RADIUS),
                forall|e: int| 1 <= e < world.num() ==> (#[trigger] world.spec_render(e)) is Some,
                forall|e: int| 1 <= e < world.num() ==> (#[trigger] world.spec_name(e)) is Some,
            decreases spawns@.len() - i,
        {
            let ghost w_before = world;
            let e = spawn_monster(&mut world, rng, spawns[i]);
            proof {
                crate::world::lemma_counts_same(w_before, world, w_before.num());
            }
            i += 1;
        }
        proof {
            crate::map::lemma_point_idx(center_point());
        }
        let camera = Camera::new(mb.player_start);
        let g = Game {
            map: mb.map,
            world,
            camera,
            state: TurnState::AwaitingInput,
            player_id,
            amulet_start: mb.amulet_start,
        };
        proof {
            assert forall|e: int| 0 <= e < g.world.num()
                && g.world.spec_alive(e) && #[trigger] g.world.spec_monster(e) implies {
                &&& g.world.spec_pos(e) is Some
                &&& spec_in_bounds(g.world.spec_pos(e).unwrap())
                &&& g.world.spec_health(e) is Some
                &&& g.world.spec_health(e).unwrap().current >= 1
                &&& g.world.spec_fov(e) is Some
                &&& g.world.spec_fov(e).unwrap().radius >= 2
            } by {
                if e >= 1 {
                    assert(mb.monster_spawns@.contains(mb.monster_spawns@[e - 1]));
                    crate::map::lemma_point_idx(mb.monster_spawns@[e - 1]);
                }
            }
            assert forall|e: int| 0 <= e < g.world.num() && #[trigger] g.world.spec_monster(e)
                implies g.map@[spec_idx(g.world.spec_pos(e).unwrap())] == TileType::Floor
                    && g.world.spec_pos(e).unwrap() != center_point() by {
                if e >= 1 {
                    assert(mb.monster_spawns@.contains(mb.monster_spawns@[e - 1]));
                }
            }
        }
        Ok(g)
    }

    /// The only supported level reload: discard the current store and map,
    /// rebuild, reseed, reset the phase. On failure the old run is left
    /// untouched and the error made visible to the caller.
    pub fn restart(&mut self, rng: &mut bracket_lib::prelude::RandomNumberGenerator)
        -> (r: Result<(), GenerationFailure>)
        ensures
            r is Ok ==> final(self).fresh(),
            r is Err ==> *final(self) == *old(self),
    {
        match Game::new(rng) {
            Ok(g) => {
                *self = g;
                Ok(())
            },
            Err(e) => Err(e),
        }
    }

    /// One scheduler tick: exactly one system group runs, selected solely by
    /// the current turn phase, to completion. Phase order is fixed: awaiting
    /// input may start a turn; a started turn passes through the player group
    /// then the monster group and comes back to awaiting input, or ends the
    /// run; the terminal phase ticks idly until an explicit restart.
    pub fn tick(&mut self, key: Option<InputKey>,
        rng: &mut bracket_lib::prelude::RandomNumberGenerator)
        requires
            old(self).wf(),
        ensures
            final(self).wf(),
            final(self).map == old(self).map,
            final(self).player_id == old(self).player_id,
            final(self).amulet_start == old(self).amulet_start,
            old(self).state == TurnState::AwaitingInput && key is None
                ==> *final(self) == *old(self),
            old(self).state == TurnState::AwaitingInput
                ==> crate::systems::input_result(*old(self), *final(self), key),
            old(self).state == TurnState::PlayerTurn
                ==> crate::systems::player_result(*old(self), *final(self)),
            old(self).state == TurnState::MonsterTurn
                ==> crate::systems::monster_result(*old(self), *final(self)),
            old(self).state == TurnState::GameOver ==> *final(self) == *old(self),
    {
        match self.state {
            TurnState::AwaitingInput => {
                self.input_phase(key);
            },
            TurnState::PlayerTurn => {
                self.player_phase();
            },
            TurnState::MonsterTurn => {
                self.monster_phase(rng);
            },
            TurnState::GameOver => {},
        }
    }
}

} // verus!
