use vstd::prelude::*;
use crate::geometry::{Rect, spec_clamp};

verus! {

/// The shared on-screen state of every entity: an identity, a bounding box,
/// a rotation in whole degrees, and the "shatter" sub-state used while an
/// entity breaks apart.  The shatter box starts as a copy of the bounding box
/// and then spreads outward each frame until it covers the whole screen.
///
/// The identity is handed in by the owning collection, which draws it from a
/// counter that only grows; the `identity` module proves that such an
/// identity is fresh — distinct from every entity alive or ever removed.
#[derive(Clone, Copy, Debug, PartialEq, Eq, Structural)]
pub struct GameSprite {
    pub id: u64,
    pub shatter_x: i32,
    pub shatter_y: i32,
    pub shatter_width: u32,
    pub shatter_height: u32,
    pub degrees: i32,
    pub x: i32,
    pub y: i32,
    pub width: u32,
    pub height: u32,
}

/// The shatter animation is complete once the shatter box's top-left corner
/// has reached the screen's top-left and its bottom-right corner has passed
/// the screen's bottom-right.
pub open spec fn spec_shatter_done(s: GameSprite, screen_width: int, screen_height: int) -> bool {
    &&& s.shatter_x <= 0
    &&& s.shatter_y <= 0
    &&& s.shatter_x + s.shatter_width >= screen_width
    &&& s.shatter_y + s.shatter_height >= screen_height
}

/// One tick of the shatter animation: the origin moves up and left by
/// `increment`, the box grows by twice `increment` on each axis; all four
/// fields saturate at the limits of their integer types.
pub open spec fn spec_shatter_step(s: GameSprite, increment: u32) -> GameSprite {
    GameSprite {
        shatter_x: spec_clamp(s.shatter_x - increment, i32::MIN as int, i32::MAX as int) as i32,
        shatter_y: spec_clamp(s.shatter_y - increment, i32::MIN as int, i32::MAX as int) as i32,
        shatter_width: spec_clamp(s.shatter_width + 2 * increment, 0, u32::MAX as int) as u32,
        shatter_height: spec_clamp(s.shatter_height + 2 * increment, 0, u32::MAX as int) as u32,
        ..s
    }
}

impl GameSprite {
    pub fn new(id: u64, x: i32, y: i32, width: u32, height: u32) -> (s: GameSprite)
        ensures
            s == (GameSprite {
                id,
                shatter_x: 0,
                shatter_y: 0,
                shatter_width: 0,
                shatter_height: 0,
                degrees: 0,
                x,
                y,
                width,
                height,
            }),
    {
        GameSprite {
            id,
            shatter_x: 0,
            shatter_y: 0,
            shatter_width: 0,
            shatter_height: 0,
            degrees: 0,
            x,
            y,
            width,
            height,
        }
    }

    pub fn from_rect(id: u64, r: &Rect) -> (s: GameSprite)
        ensures
            s == GameSprite::new_spec(id, r.x, r.y, r.w, r.h),
    {
        GameSprite::new(id, r.x, r.y, r.w, r.h)
    }

    /// What `new` returns, for use in other contracts.
    pub open spec fn new_spec(id: u64, x: i32, y: i32, width: u32, height: u32) -> GameSprite {
        GameSprite {
            id,
            shatter_x: 0,
            shatter_y: 0,
            shatter_width: 0,
            shatter_height: 0,
            degrees: 0,
            x,
            y,
            width,
            height,
        }
    }

    pub fn get_id(&self) -> (r: u64)
        ensures
            r == self.id,
    {
        self.id
    }

    /// The sprite's current bounding box.
    pub fn get_position(&self) -> (r: Rect)
        ensures
            r == self.rect(),
    {
        Rect { x: self.x, y: self.y, w: self.width, h: self.height }
    }

    pub open spec fn rect(self) -> Rect {
        Rect { x: self.x, y: self.y, w: self.width, h: self.height }
    }

    pub fn set_position(&mut self, x: i32, y: i32)
        ensures
            *final(self) == (GameSprite { x, y, ..*old(self) }),
    {
        self.x = x;
        self.y = y;
    }

    /// Record the bounding box at the moment death begins; the shatter ticks
    /// start from this snapshot.
    pub fn shatter_start(&mut self)
        ensures
            *final(self) == (GameSprite {
                shatter_x: old(self).x,
                shatter_y: old(self).y,
                shatter_width: old(self).width,
                shatter_height: old(self).height,
                ..*old(self)
            }),
    {
        self.shatter_x = self.x;
        self.shatter_y = self.y;
        self.shatter_width = self.width;
        self.shatter_height = self.height;
    }

    /// Advance the shatter animation one tick and report whether it has
    /// covered the screen.
    pub fn shatter_update(&mut self, increment: u32, screen_width: i32, screen_height: i32) -> (done: bool)
        ensures
            *final(self) == spec_shatter_step(*old(self), increment),
            done == spec_shatter_done(*final(self), screen_width as int, screen_height as int),
    {
        self.shatter_x = crate::geometry::clamp_i64(
            self.shatter_x as i64 - increment as i64, i32::MIN, i32::MAX);
        self.shatter_y = crate::geometry::clamp_i64(
            self.shatter_y as i64 - increment as i64, i32::MIN, i32::MAX);
        let grown_w = self.shatter_width as i64 + 2 * increment as i64;
        self.shatter_width = if grown_w > u32::MAX as i64 { u32::MAX } else { grown_w as u32 };
        let grown_h = self.shatter_height as i64 + 2 * increment as i64;
        self.shatter_height = if grown_h > u32::MAX as i64 { u32::MAX } else { grown_h as u32 };

        self.shatter_x <= 0 && self.shatter_y <= 0
            && self.shatter_x as i64 + self.shatter_width as i64 >= screen_width as i64
            && self.shatter_y as i64 + self.shatter_height as i64 >= screen_height as i64
    }
}

} // verus!
