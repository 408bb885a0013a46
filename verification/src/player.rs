use vstd::prelude::*;
use crate::controller::Controller;
use crate::game::Game;
use crate::game_sprite::{GameSprite, spec_shatter_done, spec_shatter_step};
use crate::geometry::spec_clamp;

verus! {

/// Shatter spread per frame of the dying player.
pub const PLAYER_DIE_INCREMENT: u32 = 1;

/// The player ship: free or towing a planet while steering, then shattering
/// once an enemy caught it, then waiting as `Dead` for the round to resolve.
#[derive(Clone, Copy, Debug, PartialEq, Eq, Structural)]
pub enum PlayerState {
    NotTowing,
    Towing,
    Dying,
    Dead,
}

/// The player: a sprite, the pose it resets to, its state, and the window it
/// is confined to.
#[derive(Clone, Copy, Debug, PartialEq, Eq, Structural)]
pub struct Player {
    pub sprite: GameSprite,
    pub start_x: i32,
    pub start_y: i32,
    pub start_height: u32,
    pub start_width: u32,
    pub state: PlayerState,
    pub window_width: i32,
    pub window_height: i32,
}

/// One frame of the player: while steering, the left stick's deflection is
/// added to the position (clamped to the window) and the ship turns to the
/// stick's heading; while dying, the shatter box spreads until it covers the
/// window, whereupon the player is `Dead`.
pub open spec fn spec_player_update(p: Player, c: Controller) -> Player {
    match p.state {
        PlayerState::Dying => {
            let shattered = spec_shatter_step(p.sprite, PLAYER_DIE_INCREMENT);
            Player {
                sprite: shattered,
                state: if spec_shatter_done(
                    shattered, p.window_width as int, p.window_height as int) {
                    PlayerState::Dead
                } else {
                    PlayerState::Dying
                },
                ..p
            }
        },
        PlayerState::Dead => p,
        _ => {
            let stick = c.left_stick;
            Player {
                sprite: GameSprite {
                    degrees: (stick.degrees + 90) as i32,
                    x: spec_clamp(p.sprite.x + stick.x, 0, p.window_width as int) as i32,
                    y: spec_clamp(p.sprite.y + stick.y, 0, p.window_height as int) as i32,
                    ..p.sprite
                },
                ..p
            }
        },
    }
}

/// What the player becomes the moment an enemy catches it: the shatter
/// animation starts from the ship's current box.
pub open spec fn spec_player_dying(p: Player) -> Player {
    Player {
        state: PlayerState::Dying,
        sprite: GameSprite {
            shatter_x: p.sprite.x,
            shatter_y: p.sprite.y,
            shatter_width: p.sprite.width,
            shatter_height: p.sprite.height,
            ..p.sprite
        },
        ..p
    }
}

/// What `Player::reset` leaves behind: back at the start pose, not towing.
pub open spec fn spec_player_reset(p: Player) -> Player {
    Player {
        sprite: GameSprite {
            x: p.start_x,
            y: p.start_y,
            width: p.start_width,
            height: p.start_height,
            ..p.sprite
        },
        state: PlayerState::NotTowing,
        ..p
    }
}

impl Player {
    /// What `Player::new` returns: centred on the window, not towing.
    pub open spec fn new_spec(
        id: u64,
        window_width: i32,
        window_height: i32,
        sprite_width: u32,
        sprite_height: u32,
    ) -> Player {
        let start_x = (window_width / 2 - sprite_width / 2) as i32;
        let start_y = (window_height / 2 - sprite_height / 2) as i32;
        Player {
            sprite: GameSprite::new_spec(id, start_x, start_y, sprite_width, sprite_height),
            start_x,
            start_y,
            start_height: sprite_height,
            start_width: sprite_width,
            state: PlayerState::NotTowing,
            window_width,
            window_height,
        }
    }

    pub open spec fn wf(self) -> bool {
        &&& self.window_width >= 0
        &&& self.window_height >= 0
    }

    /// A new player centred on the window.
    pub fn new(
        id: u64,
        window_width: i32,
        window_height: i32,
        sprite_width: u32,
        sprite_height: u32,
    ) -> (p: Player)
        requires
            window_width >= 0,
            window_height >= 0,
        ensures
            p == Player::new_spec(id, window_width, window_height, sprite_width, sprite_height),
            p.wf(),
    {
        let start_x_wide: i64 = window_width as i64 / 2 - (sprite_width / 2) as i64;
        let start_y_wide: i64 = window_height as i64 / 2 - (sprite_height / 2) as i64;
        let start_x = start_x_wide as i32;
        let start_y = start_y_wide as i32;
        Player {
            sprite: GameSprite::new(id, start_x, start_y, sprite_width, sprite_height),
            start_x,
            start_y,
            start_height: sprite_height,
            start_width: sprite_width,
            state: PlayerState::NotTowing,
            window_width,
            window_height,
        }
    }

    pub fn get_state(&self) -> (r: PlayerState)
        ensures
            r == self.state,
    {
        self.state
    }

    pub fn get_sprite(&self) -> (r: GameSprite)
        ensures
            r == self.sprite,
    {
        self.sprite
    }

    /// The tow was delivered or dropped.
    pub fn not_towing(&mut self)
        ensures
            *final(self) == (Player { state: PlayerState::NotTowing, ..*old(self) }),
    {
        self.state = PlayerState::NotTowing;
    }

    /// The player picked a planet up.
    pub fn towing(&mut self)
        ensures
            *final(self) == (Player { state: PlayerState::Towing, ..*old(self) }),
    {
        self.state = PlayerState::Towing;
    }

    /// An enemy caught the player: start the shatter animation from the
    /// ship's current box.
    pub fn dying(&mut self)
        ensures
            *final(self) == spec_player_dying(*old(self)),
    {
        self.state = PlayerState::Dying;
        self.sprite.shatter_start();
    }

    /// One frame of the player; see `spec_player_update`.
    pub fn update(&mut self, game: &Game)
        requires
            old(self).wf(),
            game.wf(),
        ensures
            *final(self) == spec_player_update(*old(self), game.controller),
            final(self).wf(),
    {
        match self.state {
            PlayerState::Dying => {
                if self.sprite.shatter_update(
                    PLAYER_DIE_INCREMENT, self.window_width, self.window_height) {
                    self.state = PlayerState::Dead;
                }
            },
            PlayerState::Dead => {},
            _ => {
                let stick = game.controller.get_left_stick();
                self.sprite.degrees = stick.get_degrees() + 90;
                let x = crate::geometry::clamp_i64(
                    self.sprite.x as i64 + stick.get_x() as i64, 0, self.window_width);
                let y = crate::geometry::clamp_i64(
                    self.sprite.y as i64 + stick.get_y() as i64, 0, self.window_height);
                self.sprite.set_position(x, y);
            },
        }
    }

    /// Put the ship back at its start pose for a new round.
    pub fn reset(&mut self)
        ensures
            *final(self) == spec_player_reset(*old(self)),
            old(self).wf() ==> final(self).wf(),
    {
        self.sprite.set_position(self.start_x, self.start_y);
        self.sprite.height = self.start_height;
        self.sprite.width = self.start_width;
        self.state = PlayerState::NotTowing;
    }
}

} // verus!
