use duck_dungeon::geometry::{Point, Rect};
use duck_dungeon::map::{TileMap, TileType, NUM_TILES, SCREEN_WIDTH, SCREEN_HEIGHT};
use duck_dungeon::flood::{flood_fill, count_floor, count_visited};
use duck_dungeon::map_builder::{MapBuilder, GenerationFailure};
use duck_dungeon::map_builder::drunkard::{DrunkardsWalkArchitect, DESIRED_FLOOR, MIN_SPAWN_DIST};
use bracket_lib::prelude::RandomNumberGenerator;

fn tiles_of(map: &TileMap) -> Vec<TileType> {
    let mut v = Vec::new();
    let mut i = 0;
    while i < NUM_TILES {
        v.push(map.tile(i));
        i += 1;
    }
    v
}

#[test]
fn point_chebyshev_distance() {
    let a = Point::new(3, 4);
    let b = Point::new(-2, 6);
    assert_eq!(a.chebyshev(b), 5);
    assert_eq!(b.chebyshev(a), 5);
    assert_eq!(a.chebyshev(a), 0);
    assert_eq!(Point::zero().chebyshev(Point::new(0, -7)), 7);
}

#[test]
fn rect_center() {
    let r = Rect::with_size(10, 20, 4, 6);
    let c = r.center();
    assert_eq!(c, Point::new(12, 23));
}

#[test]
fn new_map_is_all_wall() {
    let map = TileMap::new();
    assert_eq!(count_floor(&map), 0);
    assert_eq!(map.tile(0), TileType::Wall);
    assert_eq!(map.tile(NUM_TILES - 1), TileType::Wall);
}

#[test]
fn bounds_fuzzing_on_the_grid_edges() {
    let map = TileMap::new();
    for &(x, y, expected) in &[
        (-1, 0, false),
        (0, -1, false),
        (0, 0, true),
        (SCREEN_WIDTH - 1, 0, true),
        (SCREEN_WIDTH, 0, false),
        (0, SCREEN_HEIGHT - 1, true),
        (0, SCREEN_HEIGHT, false),
        (SCREEN_WIDTH - 1, SCREEN_HEIGHT - 1, true),
        (SCREEN_WIDTH, SCREEN_HEIGHT, false),
    ] {
        let p = Point::new(x, y);
        assert_eq!(map.in_bounds(p), expected, "in_bounds({:?})", p);
        assert_eq!(map.try_idx(p).is_some(), expected);
        if expected {
            assert!(map.try_idx(p).unwrap() < NUM_TILES);
        }
    }
    assert_eq!(map.try_idx(Point::new(1, 1)), Some(81));
}

#[test]
fn tile_mutation_and_walkability() {
    let mut map = TileMap::new();
    let p = Point::new(5, 7);
    let idx = map.point_to_index(p);
    assert!(!map.can_enter_tile(p));
    assert!(map.is_opaque(p));
    map.set_tile(idx, TileType::Floor);
    assert_eq!(map.tile_at(p), TileType::Floor);
    assert!(map.can_enter_tile(p));
    assert!(!map.is_opaque(p));
    assert!(map.is_opaque(Point::new(-3, 2)));
    assert!(!map.can_enter_tile(Point::new(80, 0)));
}

#[test]
fn flood_fill_follows_carved_corridor() {
    let mut map = TileMap::new();
    // An L-shaped corridor plus one isolated floor cell.
    for p in [
        Point::new(10, 10),
        Point::new(11, 10),
        Point::new(12, 10),
        Point::new(12, 11),
    ] {
        let idx = map.point_to_index(p);
        map.set_tile(idx, TileType::Floor);
    }
    let isolated = map.point_to_index(Point::new(30, 30));
    map.set_tile(isolated, TileType::Floor);

    let start = map.point_to_index(Point::new(10, 10));
    let visited = flood_fill(&map, start);
    assert_eq!(count_visited(&visited), 4);
    assert!(visited[map.point_to_index(Point::new(12, 11))]);
    assert!(!visited[isolated]);
}

#[test]
fn generation_is_deterministic_for_a_seed() {
    let mut rng1 = RandomNumberGenerator::seeded(42);
    let mut rng2 = RandomNumberGenerator::seeded(42);
    let mut a1 = DrunkardsWalkArchitect {};
    let mut a2 = DrunkardsWalkArchitect {};
    let mb1 = a1.new(&mut rng1).expect("generation succeeds");
    let mb2 = a2.new(&mut rng2).expect("generation succeeds");
    assert_eq!(tiles_of(&mb1.map), tiles_of(&mb2.map));
    assert_eq!(mb1.player_start, mb2.player_start);
    assert_eq!(mb1.amulet_start, mb2.amulet_start);
    assert_eq!(mb1.monster_spawns, mb2.monster_spawns);
}

#[test]
fn generation_differs_across_seeds() {
    let mut rng1 = RandomNumberGenerator::seeded(1);
    let mut rng2 = RandomNumberGenerator::seeded(2);
    let mb1 = MapBuilder::new(&mut rng1).expect("generation succeeds");
    let mb2 = MapBuilder::new(&mut rng2).expect("generation succeeds");
    assert_ne!(tiles_of(&mb1.map), tiles_of(&mb2.map));
}

#[test]
fn generated_map_is_connected_from_the_start() {
    let mut rng = RandomNumberGenerator::seeded(7);
    let mb = MapBuilder::new(&mut rng).expect("generation succeeds");
    assert_eq!(mb.player_start, Point::new(40, 25));
    assert_eq!(mb.map.tile_at(mb.player_start), TileType::Floor);

    let start = mb.map.point_to_index(mb.player_start);
    let visited = flood_fill(&mb.map, start);
    assert!(count_visited(&visited) >= DESIRED_FLOOR);

    assert!(!mb.monster_spawns.is_empty());
    for &spawn in &mb.monster_spawns {
        assert_eq!(mb.map.tile_at(spawn), TileType::Floor);
        assert!(visited[mb.map.point_to_index(spawn)]);
        assert!(spawn.chebyshev(mb.player_start) > MIN_SPAWN_DIST);
    }
    assert_eq!(mb.map.tile_at(mb.amulet_start), TileType::Floor);
    assert!(visited[mb.map.point_to_index(mb.amulet_start)]);
    assert!(mb.rooms.is_empty());
}

#[test]
fn generate_from_is_a_function_of_its_streams() {
    let mut rng = RandomNumberGenerator::seeded(5);
    let mut dirs = Vec::new();
    for _ in 0..80200 {
        dirs.push(rng.range(0, 4));
    }
    let mut picks = Vec::new();
    for _ in 0..1000 {
        picks.push(rng.range(0, 4000));
    }
    let r1 = DrunkardsWalkArchitect::generate_from(&dirs, &picks);
    let r2 = DrunkardsWalkArchitect::generate_from(&dirs, &picks);
    let mb1 = r1.expect("generation succeeds");
    let mb2 = r2.expect("generation succeeds");
    assert_eq!(tiles_of(&mb1.map), tiles_of(&mb2.map));
    assert_eq!(mb1.monster_spawns, mb2.monster_spawns);
    assert_eq!(mb1.amulet_start, mb2.amulet_start);
}

#[test]
fn empty_streams_fail_with_insufficient_floor() {
    let dirs: Vec<i32> = Vec::new();
    let picks: Vec<i32> = Vec::new();
    let r = DrunkardsWalkArchitect::generate_from(&dirs, &picks);
    match r {
        Err(e) => assert_eq!(e, GenerationFailure::InsufficientFloor),
        Ok(_) => panic!("empty streams must not generate a map"),
    }
}

#[test]
fn no_spawn_candidates_fail_with_insufficient_spawns() {
    let mut rng = RandomNumberGenerator::seeded(5);
    let mut dirs = Vec::new();
    for _ in 0..80200 {
        dirs.push(rng.range(0, 4));
    }
    let picks: Vec<i32> = Vec::new();
    let r = DrunkardsWalkArchitect::generate_from(&dirs, &picks);
    match r {
        Err(e) => assert_eq!(e, GenerationFailure::InsufficientSpawns),
        Ok(_) => panic!("no spawn candidates must not generate a map"),
    }
}

#[test]
fn failure_messages_are_descriptive() {
    assert!(GenerationFailure::InsufficientFloor.message().contains("floor"));
    assert!(GenerationFailure::InsufficientSpawns.message().contains("monster"));
}

#[test]
fn drunkard_walk_carves_its_start_and_only_adds_floor() {
    let mut map = TileMap::new();
    let mut rng = RandomNumberGenerator::seeded(11);
    let mut architect = DrunkardsWalkArchitect {};
    let start = Point::new(40, 25);
    architect.drunkard(&start, &mut rng, &mut map);
    assert_eq!(map.tile_at(start), TileType::Floor);
    let carved = count_floor(&map);
    assert!(carved >= 1);
    // A second walk can only keep or extend the carved floor.
    architect.drunkard(&start, &mut rng, &mut map);
    assert!(count_floor(&map) >= carved);
}
