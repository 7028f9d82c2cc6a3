use vstd::prelude::*;
use crate::geometry::Point;
use crate::map::{spec_in_bounds, DISPLAY_WIDTH, DISPLAY_HEIGHT};

verus! {

/// The viewport a camera shows for a player standing at `p`: a
/// `DISPLAY_WIDTH x DISPLAY_HEIGHT` window centred on the player.
pub open spec fn camera_for(p: Point) -> Camera {
    Camera {
        left_x: (p.x - DISPLAY_WIDTH / 2) as i32,
        right_x: (p.x + DISPLAY_WIDTH / 2) as i32,
        top_y: (p.y - DISPLAY_HEIGHT / 2) as i32,
        bottom_y: (p.y + DISPLAY_HEIGHT / 2) as i32,
    }
}

/// A read-mostly viewport anchored on the player's last known position,
/// recomputed from it once per tick; consumed by the presentation layer.
#[derive(Clone, Copy, PartialEq, Eq, Structural, Debug)]
pub struct Camera {
    pub left_x: i32,
    pub right_x: i32,
    pub top_y: i32,
    pub bottom_y: i32,
}

impl Camera {
    pub fn new(player_position: Point) -> (c: Camera)
        requires
            spec_in_bounds(player_position),
        ensures
            c == camera_for(player_position),
    {
        Camera {
            left_x: player_position.x - DISPLAY_WIDTH / 2,
            right_x: player_position.x + DISPLAY_WIDTH / 2,
            top_y: player_position.y - DISPLAY_HEIGHT / 2,
            bottom_y: player_position.y + DISPLAY_HEIGHT / 2,
        }
    }

    pub fn on_player_move(&mut self, player_position: Point)
        requires
            spec_in_bounds(player_position),
        ensures
            *final(self) == camera_for(player_position),
    {
        self.left_x = player_position.x - DISPLAY_WIDTH / 2;
        self.right_x = player_position.x + DISPLAY_WIDTH / 2;
        self.top_y = player_position.y - DISPLAY_HEIGHT / 2;
        self.bottom_y = player_position.y + DISPLAY_HEIGHT / 2;
    }
}

} // verus!
