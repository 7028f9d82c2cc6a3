pub mod geometry;
pub mod map;
pub mod flood;
pub mod rng;
pub mod map_builder;
pub mod components;
pub mod world;
pub mod camera;
pub mod turn_state;
pub mod spawner;
pub mod game;
pub mod systems;
