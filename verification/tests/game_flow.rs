use duck_dungeon::geometry::Point;
use duck_dungeon::map::{TileMap, TileType};
use duck_dungeon::components::Health;
use duck_dungeon::world::{World, CommandBuffer};
use duck_dungeon::camera::Camera;
use duck_dungeon::turn_state::{TurnState, InputKey};
use duck_dungeon::spawner::{spawn_player, spawn_monster, PLAYER_MAX_HEALTH};
use duck_dungeon::game::Game;
use duck_dungeon::systems::field_of_view_tiles;
use bracket_lib::prelude::RandomNumberGenerator;

fn game(seed: u64) -> Game {
    let mut rng = RandomNumberGenerator::seeded(seed);
    Game::new(&mut rng).expect("generation succeeds")
}

#[test]
fn store_create_query_and_deferred_destroy() {
    let mut w = World::new();
    let a = spawn_player(&mut w, Point::new(1, 1));
    let mut rng = RandomNumberGenerator::seeded(3);
    let b = spawn_monster(&mut w, &mut rng, Point::new(2, 2));
    assert_eq!(a, 0);
    assert_eq!(b, 1);
    assert_eq!(w.len(), 2);
    assert_eq!(w.count_alive(), 2);
    assert_eq!(w.count_players(), 1);
    assert_eq!(w.count_monsters(), 1);
    assert_eq!(w.first_at(Point::new(2, 2)), Some(b));
    assert_eq!(w.first_at(Point::new(9, 9)), None);

    let mut cb = CommandBuffer::new();
    cb.push_kill(b);
    cb.flush(&mut w);
    assert!(!w.is_alive(b));
    assert_eq!(w.count_alive(), 1);
    assert_eq!(w.count_monsters(), 0);
    assert_eq!(w.first_at(Point::new(2, 2)), None);
}

#[test]
fn spawned_entities_carry_their_components() {
    let mut w = World::new();
    let p = spawn_player(&mut w, Point::new(4, 5));
    assert!(w.is_player(p));
    assert!(!w.is_monster(p));
    assert_eq!(w.position(p), Some(Point::new(4, 5)));
    let h = w.health(p).unwrap();
    assert_eq!(h.current, PLAYER_MAX_HEALTH);
    assert_eq!(h.max, PLAYER_MAX_HEALTH);
    assert_eq!(w.name(p), Some("Duck"));
    assert!(w.renderable(p).is_some());

    let mut rng = RandomNumberGenerator::seeded(9);
    let m = spawn_monster(&mut w, &mut rng, Point::new(6, 6));
    assert!(w.is_monster(m));
    assert!(!w.is_player(m));
    let mh = w.health(m).unwrap();
    assert!(1 <= mh.current && mh.current <= 2);
    assert_eq!(mh.current, mh.max);
    assert!(w.name(m).is_some());
}

#[test]
fn camera_tracks_the_player() {
    let c = Camera::new(Point::new(40, 25));
    assert_eq!(c.left_x, 20);
    assert_eq!(c.right_x, 60);
    assert_eq!(c.top_y, 13);
    assert_eq!(c.bottom_y, 37);
    let mut c2 = c;
    c2.on_player_move(Point::new(10, 10));
    assert_eq!(c2.left_x, -10);
    assert_eq!(c2.right_x, 30);
}

#[test]
fn field_of_view_radius_one_covers_nine_tiles() {
    let map = TileMap::new();
    let v = field_of_view_tiles(&map, Point::new(40, 25), 1);
    assert_eq!(v.len(), 9);
    assert!(v.contains(&Point::new(40, 25)));
    assert!(v.contains(&Point::new(39, 24)));
    assert!(!v.contains(&Point::new(42, 25)));
    let edge = field_of_view_tiles(&map, Point::new(0, 0), 1);
    assert_eq!(edge.len(), 4);
}

#[test]
fn walls_block_line_of_sight() {
    let mut map = TileMap::new();
    for x in 10..=14 {
        let idx = map.point_to_index(Point::new(x, 10));
        map.set_tile(idx, TileType::Floor);
    }
    let a = Point::new(10, 10);
    let b = Point::new(14, 10);
    assert!(map.line_clear(a, b));
    // A wall dropped in the middle of the corridor cuts the line.
    let mid = map.point_to_index(Point::new(12, 10));
    map.set_tile(mid, TileType::Wall);
    assert!(!map.line_clear(a, b));
    // Adjacent cells always see each other.
    assert!(map.line_clear(a, Point::new(11, 10)));
    assert!(map.line_clear(Point::new(11, 10), Point::new(12, 10)));
}

#[test]
fn field_of_view_stops_at_walls() {
    // On an all-wall grid only the viewer's own ring is visible: every
    // farther cell hides behind an opaque neighbour.
    let map = TileMap::new();
    let v = field_of_view_tiles(&map, Point::new(40, 25), 3);
    assert_eq!(v.len(), 9);
    assert!(!v.contains(&Point::new(42, 25)));
}

#[test]
fn fresh_game_awaits_input_with_one_player() {
    let g = game(21);
    assert_eq!(g.state, TurnState::AwaitingInput);
    assert_eq!(g.player_id, 0);
    assert_eq!(g.world.position(0), Some(Point::new(40, 25)));
    assert_eq!(g.world.count_players(), 1);
    assert!(g.world.count_monsters() >= 1);
    assert_eq!(g.world.count_alive(), g.world.len());
    assert_eq!(g.map.tile_at(Point::new(40, 25)), TileType::Floor);
}

#[test]
fn idle_ticks_change_nothing() {
    let mut g = game(23);
    let mut rng = RandomNumberGenerator::seeded(99);
    let pos_before = g.world.position(g.player_id);
    let hp_before = g.world.health(g.player_id);
    let monsters_before = g.world.count_monsters();
    for _ in 0..10 {
        g.tick(None, &mut rng);
        assert_eq!(g.state, TurnState::AwaitingInput);
    }
    assert_eq!(g.world.position(g.player_id), pos_before);
    assert_eq!(g.world.health(g.player_id), hp_before);
    assert_eq!(g.world.count_monsters(), monsters_before);
}

#[test]
fn unblocked_key_runs_one_full_turn_and_returns() {
    let mut g = game(25);
    let mut rng = RandomNumberGenerator::seeded(50);
    let p = g.world.position(g.player_id).unwrap();
    // Find a direction whose destination is open floor.
    let mut acted = false;
    for (key, dx, dy) in [
        (InputKey::Left, -1, 0),
        (InputKey::Right, 1, 0),
        (InputKey::Up, 0, -1),
        (InputKey::Down, 0, 1),
    ] {
        let dest = Point::new(p.x + dx, p.y + dy);
        if g.map.can_enter_tile(dest) && g.world.first_at(dest).is_none() {
            g.tick(Some(key), &mut rng);
            assert_eq!(g.state, TurnState::PlayerTurn);
            assert_eq!(g.world.position(g.player_id), Some(dest));
            acted = true;
            break;
        }
    }
    assert!(acted, "some neighbour of the start is open floor");
    g.tick(None, &mut rng);
    assert_eq!(g.state, TurnState::MonsterTurn);
    g.tick(None, &mut rng);
    assert!(g.state == TurnState::AwaitingInput || g.state == TurnState::GameOver);
}

#[test]
fn blocked_key_consumes_no_turn() {
    let mut g = game(27);
    let mut rng = RandomNumberGenerator::seeded(51);
    let p = g.world.position(g.player_id).unwrap();
    let mut tried = false;
    for (key, dx, dy) in [
        (InputKey::Left, -1, 0),
        (InputKey::Right, 1, 0),
        (InputKey::Up, 0, -1),
        (InputKey::Down, 0, 1),
    ] {
        let dest = Point::new(p.x + dx, p.y + dy);
        if !g.map.can_enter_tile(dest) {
            g.tick(Some(key), &mut rng);
            assert_eq!(g.state, TurnState::AwaitingInput);
            assert_eq!(g.world.position(g.player_id), Some(p));
            tried = true;
            break;
        }
    }
    if !tried {
        // Every neighbour open: nothing to assert for this seed.
        assert_eq!(g.state, TurnState::AwaitingInput);
    }
}

#[test]
fn adjacent_monster_kills_a_one_health_player() {
    let mut g = game(31);
    let mut rng = RandomNumberGenerator::seeded(77);
    let p = g.world.position(g.player_id).unwrap();
    g.world.set_health(g.player_id, Health { current: 1, max: PLAYER_MAX_HEALTH });
    spawn_monster(&mut g.world, &mut rng, Point::new(p.x + 1, p.y));
    g.state = TurnState::MonsterTurn;
    g.monster_phase(&mut rng);
    assert_eq!(g.state, TurnState::GameOver);
    assert!(g.world.health(g.player_id).unwrap().current <= 0);
    assert!(!g.world.is_alive(g.player_id));
    // Terminal phase ticks idly.
    g.tick(None, &mut rng);
    assert_eq!(g.state, TurnState::GameOver);
}

#[test]
fn restart_resets_to_a_fresh_run() {
    let mut g = game(31);
    let mut rng = RandomNumberGenerator::seeded(77);
    let p = g.world.position(g.player_id).unwrap();
    g.world.set_health(g.player_id, Health { current: 1, max: PLAYER_MAX_HEALTH });
    spawn_monster(&mut g.world, &mut rng, Point::new(p.x + 1, p.y));
    g.state = TurnState::MonsterTurn;
    g.monster_phase(&mut rng);
    assert_eq!(g.state, TurnState::GameOver);
    let entities_at_death = g.world.len();

    let mut restart_rng = RandomNumberGenerator::seeded(1234);
    g.restart(&mut restart_rng).expect("restart succeeds");
    assert_eq!(g.state, TurnState::AwaitingInput);
    assert_eq!(g.world.count_players(), 1);
    assert_eq!(g.world.position(g.player_id), Some(Point::new(40, 25)));
    assert!(g.world.is_alive(g.player_id));
    assert_eq!(g.world.health(g.player_id).unwrap().current, PLAYER_MAX_HEALTH);
    // No leftovers: every entity of the new store is alive and newly seeded.
    assert_eq!(g.world.count_alive(), g.world.len());
    assert_eq!(g.world.count_monsters(), g.world.len() - 1);
    assert_ne!(g.world.len(), 0);
    let _ = entities_at_death;
}

#[test]
fn restarts_with_the_same_seed_agree() {
    let mut g1 = game(55);
    let mut g2 = game(55);
    assert_eq!(g1.world.len(), g2.world.len());
    let mut r1 = RandomNumberGenerator::seeded(8);
    let mut r2 = RandomNumberGenerator::seeded(8);
    g1.restart(&mut r1).expect("restart succeeds");
    g2.restart(&mut r2).expect("restart succeeds");
    for i in 0..g1.world.len() {
        assert_eq!(g1.world.position(i), g2.world.position(i));
    }
}

#[test]
fn player_phase_recomputes_fov_and_camera() {
    let mut g = game(33);
    g.state = TurnState::PlayerTurn;
    g.player_phase();
    assert_eq!(g.state, TurnState::MonsterTurn);
    let p = g.world.position(g.player_id).unwrap();
    let fov = g.world.fov(g.player_id).as_ref().unwrap();
    assert!(fov.visible_tiles.contains(&p));
    assert!(fov.visible_tiles.len() >= 9);
    assert_eq!(g.camera.left_x, p.x - 20);
    assert_eq!(g.camera.top_y, p.y - 12);
}

#[test]
fn bumping_a_weakened_monster_kills_it() {
    let mut g = game(37);
    let mut rng = RandomNumberGenerator::seeded(4);
    let p = g.world.position(g.player_id).unwrap();
    let mut acted = false;
    for (key, dx, dy) in [
        (InputKey::Left, -1, 0),
        (InputKey::Right, 1, 0),
        (InputKey::Up, 0, -1),
        (InputKey::Down, 0, 1),
    ] {
        let dest = Point::new(p.x + dx, p.y + dy);
        if g.map.can_enter_tile(dest) && g.world.first_at(dest).is_none() {
            let m = spawn_monster(&mut g.world, &mut rng, dest);
            g.world.set_health(m, Health { current: 1, max: 1 });
            g.tick(Some(key), &mut rng);
            // Combat, not movement: the player holds its cell, the monster dies.
            assert_eq!(g.state, TurnState::PlayerTurn);
            assert_eq!(g.world.position(g.player_id), Some(p));
            assert!(!g.world.is_alive(m));
            assert!(g.world.health(m).unwrap().current <= 0);
            acted = true;
            break;
        }
    }
    assert!(acted, "some neighbour of the start is open floor");
}
