pub mod drunkard;

use vstd::prelude::*;
use crate::geometry::{Point, Rect};
use crate::map::{TileMap, TileType};
use crate::flood::{flood, count_true};
use crate::map::spec_idx;
use self::drunkard::{DrunkardsWalkArchitect, center_point, center_idx, DESIRED_FLOOR};

verus! {

/// The architect could not meet its floor-coverage / connectivity / spawn
/// guarantee within its attempt budget.
#[derive(Clone, Copy, PartialEq, Eq, Structural, Debug)]
pub enum GenerationFailure {
    InsufficientFloor,
    InsufficientSpawns,
}

impl GenerationFailure {
    /// A descriptive account of the failure, for whoever requested the level.
    pub fn message(&self) -> (s: &'static str)
        ensures
            self is InsufficientFloor
                ==> s@ == "map generation could not carve enough connected floor"@,
            self is InsufficientSpawns
                ==> s@ == "map generation found no cell fit for a monster"@,
    {
        match self {
            GenerationFailure::InsufficientFloor => "map generation could not carve enough connected floor",
            GenerationFailure::InsufficientSpawns => "map generation found no cell fit for a monster",
        }
    }
}

/// The immutable bundle a finished generation hands over: the grid plus the
/// placement metadata the world is seeded from.
pub struct MapBuilder {
    pub map: TileMap,
    pub rooms: Vec<Rect>,
    pub monster_spawns: Vec<Point>,
    pub player_start: Point,
    pub amulet_start: Point,
}

impl MapBuilder {
    /// Everything the rest of the game relies on of a generated bundle: the
    /// grid is well formed, the player starts on a floor cell, a flood fill
    /// from the start covers at least the configured floor minimum, and every
    /// monster spawn and the amulet stand on floor reachable from the start.
    pub open spec fn valid(self) -> bool {
        &&& self.map.wf()
        &&& self.player_start == center_point()
        &&& self.map@[center_idx()] == TileType::Floor
        &&& count_true(flood(self.map@, center_idx())) >= DESIRED_FLOOR
        &&& self.monster_spawns@.len() >= 1
        &&& forall|i: int| 0 <= i < self.monster_spawns@.len() ==> {
            let q = #[trigger] self.monster_spawns@[i];
            &&& crate::map::spec_in_bounds(q)
            &&& self.map@[spec_idx(q)] == TileType::Floor
            &&& flood(self.map@, center_idx())[spec_idx(q)]
            &&& q != self.player_start
        }
        &&& crate::map::spec_in_bounds(self.amulet_start)
        &&& self.map@[spec_idx(self.amulet_start)] == TileType::Floor
        &&& flood(self.map@, center_idx())[spec_idx(self.amulet_start)]
    }

    /// Run one architect once and hand its bundle over; the only consumer of
    /// architect output. On failure the caller must abort the (re)start rather
    /// than accept a partial map.
    pub fn new(rng: &mut bracket_lib::prelude::RandomNumberGenerator) -> (r: Result<MapBuilder, GenerationFailure>)
        ensures
            r matches Ok(mb) ==> mb.valid(),
    {
        let mut architect = DrunkardsWalkArchitect {};
        architect.new(rng)
    }
}

} // verus!
