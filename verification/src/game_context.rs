use vstd::prelude::*;
use crate::controller::Controller;
use crate::geometry::Rect;

verus! {

/// The read-only snapshot handed to each subsystem's per-frame update: the
/// input state, the player's rectangle, the playfield dimensions, and the
/// spawn points (the open black holes' rectangles) computed for the level.
pub struct GameContext {
    pub controller: Controller,
    pub player: Rect,
    pub screen_height: i32,
    pub screen_width: i32,
    pub spawn_points: Vec<Rect>,
}

impl GameContext {
    pub open spec fn wf(self) -> bool {
        &&& self.controller.wf()
        &&& self.screen_width > 0
        &&& self.screen_height > 0
    }

    pub fn new(
        controller: &Controller,
        player: Rect,
        screen_height: i32,
        screen_width: i32,
        spawn_points: Vec<Rect>,
    ) -> (c: GameContext)
        ensures
            c.controller == *controller,
            c.player == player,
            c.screen_height == screen_height,
            c.screen_width == screen_width,
            c.spawn_points@ == spawn_points@,
    {
        GameContext { controller: *controller, player, screen_height, screen_width, spawn_points }
    }

    pub fn get_controller(&self) -> (r: Controller)
        ensures
            r == self.controller,
    {
        self.controller
    }

    pub fn get_player(&self) -> (r: Rect)
        ensures
            r == self.player,
    {
        self.player
    }

    pub fn get_spawn_points(&self) -> (r: &Vec<Rect>)
        ensures
            r@ == self.spawn_points@,
    {
        &self.spawn_points
    }

    pub fn get_screen_height(&self) -> (r: i32)
        ensures
            r == self.screen_height,
    {
        self.screen_height
    }

    pub fn get_screen_width(&self) -> (r: i32)
        ensures
            r == self.screen_width,
    {
        self.screen_width
    }
}

} // verus!
