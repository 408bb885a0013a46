use vstd::prelude::*;
use crate::game_sprite::GameSprite;
use crate::geometry::{Rect, clamp_i64, spec_abs, spec_clamp, spec_intersects, spec_sgn};
use crate::controller::StickPosition;
use crate::game_context::GameContext;
use crate::identity::ids_ok_by;

verus! {

/// A laser stops advancing after this many steps; it has long left any
/// screen by then, and the bound keeps the position arithmetic in range.
pub const LASER_STEP_LIMIT: u32 = 0x4000_0000;

/// The most lasers ever in flight at once.
pub const MAX_LASERS: usize = 10;

/// Milliseconds that must pass between two shots.
pub const LASER_COOLDOWN_MILLIS: u64 = 100;

/// How far the minor axis has moved after `steps` ticks of flight: the line
/// from the origin towards the target drops `minor_delta` over a run of
/// `major_delta`, and the major axis moves one pixel per tick, so the minor
/// offset is the rounded-down share `steps * |minor| / |major|`, signed like
/// `minor_delta`.  A degenerate flight with no major movement keeps the
/// minor axis still.
pub open spec fn spec_minor_offset(minor_delta: int, major_delta: int, steps: int) -> int {
    if major_delta == 0 {
        0
    } else {
        spec_sgn(minor_delta) * ((steps * spec_abs(minor_delta)) / spec_abs(major_delta))
    }
}

/// One shot, flying from the player towards an aim point along a straight
/// line.  `vertical` flags a trajectory steeper than 45 degrees: such a shot
/// steps along the y axis one pixel per tick and derives x from the line,
/// avoiding the unstable slope of a near-vertical line; a shallow shot steps
/// along x and derives y.  The sprite's position is always the closed-form
/// point of the trajectory after `steps` ticks.
#[derive(Clone, Copy, Debug, PartialEq, Eq, Structural)]
pub struct Laser {
    pub origin_x: i32,
    pub origin_y: i32,
    pub dx: i64,
    pub dy: i64,
    pub x_increment: i32,
    pub y_increment: i32,
    pub vertical: bool,
    pub steps: u32,
    pub sprite: GameSprite,
}

/// Where a laser's x coordinate stands after `steps` ticks.
pub open spec fn spec_laser_x(l: Laser, steps: int) -> int {
    if l.vertical {
        spec_clamp(l.origin_x + spec_minor_offset(l.dx as int, l.dy as int, steps),
            i32::MIN as int, i32::MAX as int)
    } else {
        spec_clamp(l.origin_x + steps * l.x_increment, i32::MIN as int, i32::MAX as int)
    }
}

/// Where a laser's y coordinate stands after `steps` ticks.
pub open spec fn spec_laser_y(l: Laser, steps: int) -> int {
    if l.vertical {
        spec_clamp(l.origin_y + steps * l.y_increment, i32::MIN as int, i32::MAX as int)
    } else {
        spec_clamp(l.origin_y + spec_minor_offset(l.dy as int, l.dx as int, steps),
            i32::MIN as int, i32::MAX as int)
    }
}

/// One tick of a laser's flight: the step counter advances (saturating at
/// `LASER_STEP_LIMIT`) and the sprite moves to the trajectory's closed-form
/// point for the new count.
pub open spec fn spec_laser_step(l: Laser) -> Laser {
    let stepped = Laser {
        steps: if l.steps < LASER_STEP_LIMIT {
            (l.steps + 1) as u32
        } else {
            l.steps
        },
        ..l
    };
    Laser {
        sprite: GameSprite {
            x: spec_laser_x(stepped, stepped.steps as int) as i32,
            y: spec_laser_y(stepped, stepped.steps as int) as i32,
            ..l.sprite
        },
        ..stepped
    }
}

/// What `Laser::new` returns.
pub open spec fn spec_new_laser(
    id: u64,
    degrees: i32,
    x1: i32,
    y1: i32,
    x2: i32,
    y2: i32,
    width: u32,
    height: u32,
) -> Laser {
    Laser {
        origin_x: x1,
        origin_y: y1,
        dx: (x2 - x1) as i64,
        dy: (y2 - y1) as i64,
        x_increment: if x2 - x1 > 0 { 1 } else { (-1) as i32 },
        y_increment: if y2 - y1 > 0 { 1 } else { (-1) as i32 },
        vertical: spec_abs(x2 - x1) < spec_abs(y2 - y1),
        steps: 0,
        sprite: GameSprite {
            degrees: (degrees + 90) as i32,
            ..GameSprite::new_spec(id, x1, y1, width, height)
        },
    }
}

impl Laser {
    /// The trajectory fields cohere: the deltas fit the difference of two
    /// screen coordinates, the increments point towards the target, steepness
    /// decides the stepping axis, and the sprite sits on the trajectory.
    pub open spec fn wf(self) -> bool {
        &&& -(u32::MAX as int) <= self.dx <= u32::MAX as int
        &&& -(u32::MAX as int) <= self.dy <= u32::MAX as int
        &&& self.vertical == (spec_abs(self.dx as int) < spec_abs(self.dy as int))
        &&& self.x_increment == (if self.dx > 0 { 1int } else { -1int })
        &&& self.y_increment == (if self.dy > 0 { 1int } else { -1int })
        &&& self.steps <= LASER_STEP_LIMIT
        &&& self.sprite.x == spec_laser_x(self, self.steps as int)
        &&& self.sprite.y == spec_laser_y(self, self.steps as int)
    }

    /// A new laser at `(x1, y1)` aimed at `(x2, y2)`, rotated to face its
    /// heading.
    pub fn new(
        id: u64,
        degrees: i32,
        x1: i32,
        y1: i32,
        x2: i32,
        y2: i32,
        width: u32,
        height: u32,
    ) -> (l: Laser)
        requires
            degrees <= i32::MAX - 90,
        ensures
            l == spec_new_laser(id, degrees, x1, y1, x2, y2, width, height),
            l.wf(),
    {
        let dx: i64 = x2 as i64 - x1 as i64;
        let dy: i64 = y2 as i64 - y1 as i64;
        let adx: i64 = if dx < 0 { -dx } else { dx };
        let ady: i64 = if dy < 0 { -dy } else { dy };
        let mut sprite = GameSprite::new(id, x1, y1, width, height);
        sprite.degrees = degrees + 90;
        let l = Laser {
            origin_x: x1,
            origin_y: y1,
            dx,
            dy,
            x_increment: if dx > 0 { 1 } else { -1 },
            y_increment: if dy > 0 { 1 } else { -1 },
            vertical: adx < ady,
            steps: 0,
            sprite,
        };
        proof {
            zero_steps_rest_at_origin(l);
        }
        l
    }

    pub fn get_sprite(&self) -> (r: GameSprite)
        ensures
            r == self.sprite,
    {
        self.sprite
    }

    /// Advance the shot one tick along its trajectory; the step counter
    /// saturates at `LASER_STEP_LIMIT`.
    pub fn update(&mut self)
        requires
            old(self).wf(),
        ensures
            *final(self) == spec_laser_step(*old(self)),
            final(self).wf(),
    {
        if self.steps < LASER_STEP_LIMIT {
            self.steps = self.steps + 1;
        }
        let n: i64 = self.steps as i64;
        let adx: i64 = if self.dx < 0 { -self.dx } else { self.dx };
        let ady: i64 = if self.dy < 0 { -self.dy } else { self.dy };
        if self.vertical {
            proof {
                vstd::arithmetic::mul::lemma_mul_upper_bound(
                    n as int, LASER_STEP_LIMIT as int, adx as int, u32::MAX as int);
                vstd::arithmetic::mul::lemma_mul_nonnegative(n as int, adx as int);
                minor_offset_bounded(self.dx as int, self.dy as int, n as int);
                unit_mul(n as int, self.y_increment as int);
            }
            let major: i64 = self.origin_y as i64 + n * self.y_increment as i64;
            let off: i64 = n * adx / ady;
            let minor: i64 = self.origin_x as i64 + (if self.dx < 0 { -off } else { off });
            let x = clamp_i64(minor, i32::MIN, i32::MAX);
            let y = clamp_i64(major, i32::MIN, i32::MAX);
            self.sprite.set_position(x, y);
        } else {
            proof {
                vstd::arithmetic::mul::lemma_mul_upper_bound(
                    n as int, LASER_STEP_LIMIT as int, ady as int, u32::MAX as int);
                vstd::arithmetic::mul::lemma_mul_nonnegative(n as int, ady as int);
                if self.dx != 0 {
                    minor_offset_bounded(self.dy as int, self.dx as int, n as int);
                } else {
                    assert(self.dy == 0);
                }
                unit_mul(n as int, self.x_increment as int);
            }
            let major: i64 = self.origin_x as i64 + n * self.x_increment as i64;
            let off: i64 = if adx > 0 { n * ady / adx } else { 0 };
            let minor: i64 = self.origin_y as i64 + (if self.dy < 0 { -off } else { off });
            let x = clamp_i64(major, i32::MIN, i32::MAX);
            let y = clamp_i64(minor, i32::MIN, i32::MAX);
            self.sprite.set_position(x, y);
        }
    }

    /// Whether the shot has left the window and can be discarded.
    pub fn is_off_screen(&self, window_width: i32, window_height: i32) -> (r: bool)
        ensures
            r == (self.sprite.x < 0 || self.sprite.x > window_width || self.sprite.y < 0
                || self.sprite.y > window_height),
    {
        if self.sprite.x < 0 || self.sprite.x > window_width {
            return true;
        }
        if self.sprite.y < 0 || self.sprite.y > window_height {
            return true;
        }
        false
    }
}

/// With no steps taken, both trajectory formulas give the origin.
proof fn zero_steps_rest_at_origin(l: Laser)
    ensures
        spec_laser_x(l, 0) == l.origin_x,
        spec_laser_y(l, 0) == l.origin_y,
{
    if l.dy != 0 {
        vstd::arithmetic::div_mod::lemma_div_of0(spec_abs(l.dy as int));
        assert(spec_sgn(l.dx as int) * (0 * spec_abs(l.dx as int) / spec_abs(l.dy as int)) == 0);
    }
    if l.dx != 0 {
        vstd::arithmetic::div_mod::lemma_div_of0(spec_abs(l.dx as int));
        assert(spec_sgn(l.dy as int) * (0 * spec_abs(l.dy as int) / spec_abs(l.dx as int)) == 0);
    }
}

/// The minor-axis offset after `steps` ticks never exceeds `steps`: the
/// stepping axis is the one with the larger delta, so the minor axis moves
/// at most one pixel per tick.  Also relates the offset to the non-negative
/// quotient the executable code computes.
proof fn minor_offset_bounded(minor_delta: int, major_delta: int, steps: int)
    requires
        spec_abs(minor_delta) <= spec_abs(major_delta),
        major_delta != 0,
        0 <= steps,
    ensures
        0 <= steps * spec_abs(minor_delta) / spec_abs(major_delta) <= steps,
        spec_minor_offset(minor_delta, major_delta, steps) == (if minor_delta < 0 {
            -(steps * spec_abs(minor_delta) / spec_abs(major_delta))
        } else {
            steps * spec_abs(minor_delta) / spec_abs(major_delta)
        }),
        spec_abs(spec_minor_offset(minor_delta, major_delta, steps)) <= steps,
{
    let am = spec_abs(minor_delta);
    let aj = spec_abs(major_delta);
    vstd::arithmetic::mul::lemma_mul_nonnegative(steps, am);
    vstd::arithmetic::div_mod::lemma_div_of0(aj);
    vstd::arithmetic::div_mod::lemma_div_is_ordered(0, steps * am, aj);
    vstd::arithmetic::mul::lemma_mul_inequality(am, aj, steps);
    vstd::arithmetic::mul::lemma_mul_is_commutative(am, steps);
    vstd::arithmetic::mul::lemma_mul_is_commutative(aj, steps);
    vstd::arithmetic::div_mod::lemma_div_is_ordered(steps * am, steps * aj, aj);
    vstd::arithmetic::mul::lemma_mul_is_commutative(steps, aj);
    vstd::arithmetic::div_mod::lemma_div_multiples_vanish(steps, aj);
    let q = steps * am / aj;
    let off = spec_minor_offset(minor_delta, major_delta, steps);
    if minor_delta < 0 {
        assert(off == (-1) * q);
        assert((-1) * q == -q) by (nonlinear_arith);
    } else if minor_delta == 0 {
        assert(am == 0);
        assert(steps * 0 == 0) by (nonlinear_arith);
        assert(q == 0);
        assert(off == 0);
    } else {
        assert(off == 1 * q);
        assert(1 * q == q) by (nonlinear_arith);
    }
}

/// A shot aimed straight up — at a target with the muzzle's x and a smaller
/// y — flies vertically: after any number of ticks its x coordinate still
/// stands in the muzzle's column, its y coordinate is the muzzle's minus the
/// tick count, and so it falls strictly with every tick (down to the
/// coordinate floor).  The vertical special case of the trajectory involves
/// no division by the zero run.
pub proof fn lemma_vertical_shot_holds_its_column(l: Laser, steps: int)
    requires
        l.wf(),
        l.dx == 0,
        l.dy < 0,
        0 <= steps,
    ensures
        spec_laser_x(l, steps) == l.origin_x,
        spec_laser_y(l, steps) == spec_clamp(
            l.origin_y - steps, i32::MIN as int, i32::MAX as int),
        steps >= 1 && l.origin_y - steps >= i32::MIN
            ==> spec_laser_y(l, steps) < spec_laser_y(l, steps - 1),
{
    assert(l.vertical);
    minor_offset_bounded(l.dx as int, l.dy as int, steps);
    assert(steps * spec_abs(0int) / spec_abs(l.dy as int) == 0) by {
        assert(steps * 0 == 0) by (nonlinear_arith);
        vstd::arithmetic::div_mod::lemma_div_of0(spec_abs(l.dy as int));
    }
    unit_mul(steps, l.y_increment as int);
    if steps >= 1 {
        unit_mul(steps - 1, l.y_increment as int);
    }
}

/// Multiplying by a unit keeps or flips the value.
proof fn unit_mul(n: int, u: int)
    requires
        u == 1 || u == -1,
    ensures
        u == 1 ==> n * u == n,
        u == -1 ==> n * u == -n,
{
    assert(n * 1 == n) by (nonlinear_arith);
    assert(n * (-1) == -n) by (nonlinear_arith);
}

/// An entity's identity, as the collection bookkeeping reads it.
pub open spec fn laser_id_fn() -> spec_fn(Laser) -> u64 {
    |l: Laser| l.sprite.id
}

/// Keeps the lasers still on the window.
pub open spec fn keep_on_screen(window_width: i32, window_height: i32) -> spec_fn(Laser) -> bool {
    |l: Laser|
        !(l.sprite.x < 0 || l.sprite.x > window_width || l.sprite.y < 0
            || l.sprite.y > window_height)
}

/// One flight tick, as a function value for sequence maps.
pub open spec fn laser_step_fn() -> spec_fn(Laser) -> Laser {
    |l: Laser| spec_laser_step(l)
}

/// Keeps the lasers whose identity differs from `id`.
pub open spec fn keep_laser_id_not(id: u64) -> spec_fn(Laser) -> bool {
    |l: Laser| l.sprite.id != id
}

/// Keeps the lasers whose identity is not listed in `ids`.
pub open spec fn keep_laser_ids_not_in(ids: Seq<u64>) -> spec_fn(Laser) -> bool {
    |l: Laser| !ids.contains(l.sprite.id)
}

/// Hits the rectangle `er`.
pub open spec fn laser_hits_rect(er: Rect) -> spec_fn(Laser) -> bool {
    |l: Laser| spec_intersects(l.sprite.rect(), er)
}

/// The identities of the lasers whose sprite touches `er`, in order.
pub fn hitting_laser_ids(lasers: &Vec<Laser>, er: Rect) -> (ids: Vec<u64>)
    ensures
        ids@ == lasers@.filter(laser_hits_rect(er)).map_values(laser_id_fn()),
{
    let mut out: Vec<u64> = Vec::new();
    let mut i: usize = 0;
    proof {
        assert(lasers@.subrange(0, 0) =~= Seq::<Laser>::empty());
        crate::seq_util::lemma_filter_map_empty(laser_hits_rect(er), laser_id_fn());
    }
    while i < lasers.len()
        invariant
            i <= lasers@.len(),
            out@ == lasers@.subrange(0, i as int).filter(
                laser_hits_rect(er)).map_values(laser_id_fn()),
        decreases lasers@.len() - i,
    {
        let l = lasers[i];
        proof {
            let pre = lasers@.subrange(0, i as int);
            assert(lasers@.subrange(0, i as int + 1) =~= pre.push(l));
            crate::seq_util::lemma_filter_push(pre, l, laser_hits_rect(er));
            if laser_hits_rect(er)(l) {
                crate::seq_util::lemma_map_values_push(
                    pre.filter(laser_hits_rect(er)), l, laser_id_fn());
            }
        }
        if l.get_sprite().get_position().has_intersection(er) {
            out.push(l.sprite.id);
        }
        i += 1;
    }
    proof {
        assert(lasers@.subrange(0, lasers@.len() as int) =~= lasers@);
    }
    out
}

/// Where an aimed coordinate lands: the stick's screen point is taken as an
/// offset from the window's centre and added to the player's coordinate.
pub open spec fn spec_aim_coord(origin: int, stick_screen: int, window: int) -> int {
    spec_clamp(origin + (stick_screen - window / 2), i32::MIN as int, i32::MAX as int)
}

/// All the lasers in flight, with the fire cooldown clock and the identity
/// counter.
pub struct Lasers {
    pub lasers: Vec<Laser>,
    pub last_laser: u64,
    pub next_id: u64,
    pub sprite_width: u32,
    pub sprite_height: u32,
    pub window_width: i32,
    pub window_height: i32,
}

/// A new laser is fired when the right stick is deflected, the cooldown has
/// passed, the population cap is not exceeded, and the identity counter has
/// room.
pub open spec fn spec_should_fire(ls: Lasers, stick: StickPosition, now_ms: u64) -> bool {
    &&& (stick.x != 0 || stick.y != 0)
    &&& ls.lasers@.len() < MAX_LASERS
    &&& now_ms > ls.last_laser + LASER_COOLDOWN_MILLIS
    &&& ls.next_id < u64::MAX
}

/// The laser a `Lasers::update` call would fire.
pub open spec fn spec_fired_laser(ls: Lasers, stick: StickPosition, player: Rect) -> Laser {
    spec_new_laser(
        ls.next_id,
        stick.degrees,
        player.x,
        player.y,
        spec_aim_coord(player.x as int, stick.screen_x as int, ls.window_width as int) as i32,
        spec_aim_coord(player.y as int, stick.screen_y as int, ls.window_height as int) as i32,
        ls.sprite_width,
        ls.sprite_height,
    )
}

/// What one `Lasers::update` call does, relating the collection before and
/// after the frame: a laser is fired exactly under `spec_should_fire`, and
/// the flight then advances — shots already off the window are discarded,
/// the rest (the fresh shot included) take one step of `spec_laser_step`.
pub open spec fn lasers_update_rel(
    before: Lasers,
    after: Lasers,
    stick: StickPosition,
    player: Rect,
    now_ms: u64,
) -> bool {
    let fired = spec_should_fire(before, stick, now_ms);
    let with_fired = if fired {
        before.lasers@.push(spec_fired_laser(before, stick, player))
    } else {
        before.lasers@
    };
    &&& after.lasers@ == with_fired.filter(
        keep_on_screen(before.window_width, before.window_height),
    ).map_values(laser_step_fn())
    &&& after.next_id == (if fired {
        before.next_id + 1
    } else {
        before.next_id as int
    })
    &&& after.last_laser == (if fired {
        now_ms
    } else {
        before.last_laser
    })
    &&& after.sprite_width == before.sprite_width
    &&& after.sprite_height == before.sprite_height
    &&& after.window_width == before.window_width
    &&& after.window_height == before.window_height
}

impl Lasers {
    /// Identities are unique and below the counter, every laser sits on its
    /// trajectory, and the window has room to fly through.
    pub open spec fn wf(self) -> bool {
        &&& ids_ok_by(self.lasers@, laser_id_fn(), self.next_id)
        &&& (forall|i: int| 0 <= i < self.lasers@.len() ==> (#[trigger] self.lasers@[i]).wf())
        &&& self.window_width > 0
        &&& self.window_height > 0
    }

    pub fn new(window_width: i32, window_height: i32, sprite_width: u32, sprite_height: u32)
        -> (ls: Lasers)
        requires
            window_width > 0,
            window_height > 0,
        ensures
            ls.wf(),
            ls.lasers@ == Seq::<Laser>::empty(),
            ls.last_laser == 0,
            ls.next_id == 0,
            ls.sprite_width == sprite_width,
            ls.sprite_height == sprite_height,
            ls.window_width == window_width,
            ls.window_height == window_height,
    {
        Lasers {
            lasers: Vec::new(),
            last_laser: 0,
            next_id: 0,
            sprite_width,
            sprite_height,
            window_width,
            window_height,
        }
    }

    pub fn get_lasers(&self) -> (r: &Vec<Laser>)
        ensures
            r@ == self.lasers@,
    {
        &self.lasers
    }

    /// Discard the laser carrying `id` (every laser carries a distinct one).
    pub fn remove(&mut self, id: u64)
        ensures
            final(self).lasers@ == old(self).lasers@.filter(keep_laser_id_not(id)),
            *final(self) == (Lasers { lasers: final(self).lasers, ..*old(self) }),
            old(self).wf() ==> final(self).wf(),
    {
        let mut kept: Vec<Laser> = Vec::new();
        let mut i: usize = 0;
        proof {
            crate::seq_util::lemma_filter_map_empty(keep_laser_id_not(id), laser_step_fn());
            assert(self.lasers@.subrange(0, 0) =~= Seq::<Laser>::empty());
        }
        while i < self.lasers.len()
            invariant
                i <= self.lasers@.len(),
                kept@ == self.lasers@.subrange(0, i as int).filter(keep_laser_id_not(id)),
            decreases self.lasers@.len() - i,
        {
            let l = self.lasers[i];
            proof {
                let pre = self.lasers@.subrange(0, i as int);
                assert(self.lasers@.subrange(0, i as int + 1) =~= pre.push(l));
                crate::seq_util::lemma_filter_push(pre, l, keep_laser_id_not(id));
            }
            if l.sprite.id != id {
                kept.push(l);
            }
            i += 1;
        }
        proof {
            assert(self.lasers@.subrange(0, self.lasers@.len() as int) =~= self.lasers@);
        }
        self.lasers = kept;
        proof {
            if old(self).wf() {
                crate::identity::lemma_ids_ok_filter(
                    old(self).lasers@, laser_id_fn(), keep_laser_id_not(id), old(self).next_id);
                assert forall|k: int| 0 <= k < self.lasers@.len() implies
                    (#[trigger] self.lasers@[k]).wf() by {
                    assert(self.lasers@.contains(self.lasers@[k]));
                    let j = choose|j: int|
                        0 <= j < old(self).lasers@.len() && old(self).lasers@[j] == self.lasers@[k];
                    assert(old(self).lasers@[j].wf());
                }
            }
        }
    }

    /// Discard every laser whose identity is listed in `ids`.
    pub fn remove_ids(&mut self, ids: &Vec<u64>)
        ensures
            final(self).lasers@ == old(self).lasers@.filter(keep_laser_ids_not_in(ids@)),
            *final(self) == (Lasers { lasers: final(self).lasers, ..*old(self) }),
            old(self).wf() ==> final(self).wf(),
    {
        let mut kept: Vec<Laser> = Vec::new();
        let mut i: usize = 0;
        proof {
            assert(self.lasers@.subrange(0, 0) =~= Seq::<Laser>::empty());
            crate::seq_util::lemma_filter_map_empty(keep_laser_ids_not_in(ids@), laser_step_fn());
        }
        while i < self.lasers.len()
            invariant
                i <= self.lasers@.len(),
                kept@ == self.lasers@.subrange(0, i as int).filter(keep_laser_ids_not_in(ids@)),
            decreases self.lasers@.len() - i,
        {
            let l = self.lasers[i];
            proof {
                let pre = self.lasers@.subrange(0, i as int);
                assert(self.lasers@.subrange(0, i as int + 1) =~= pre.push(l));
                crate::seq_util::lemma_filter_push(pre, l, keep_laser_ids_not_in(ids@));
            }
            if !crate::identity::contains_id(ids, l.sprite.id) {
                kept.push(l);
            }
            i += 1;
        }
        proof {
            assert(self.lasers@.subrange(0, self.lasers@.len() as int) =~= self.lasers@);
        }
        self.lasers = kept;
        proof {
            if old(self).wf() {
                crate::identity::lemma_ids_ok_filter(
                    old(self).lasers@, laser_id_fn(), keep_laser_ids_not_in(ids@),
                    old(self).next_id);
                assert forall|k: int| 0 <= k < self.lasers@.len() implies
                    (#[trigger] self.lasers@[k]).wf() by {
                    assert(self.lasers@.contains(self.lasers@[k]));
                    let j = choose|j: int|
                        0 <= j < old(self).lasers@.len() && old(self).lasers@[j] == self.lasers@[k];
                    assert(old(self).lasers@[j].wf());
                }
            }
        }
    }

    /// Clear the shots; identities are not reissued, so the counter stays.
    pub fn reset(&mut self)
        ensures
            final(self).lasers@ == Seq::<Laser>::empty(),
            *final(self) == (Lasers { lasers: final(self).lasers, ..*old(self) }),
            old(self).wf() ==> final(self).wf(),
    {
        self.lasers.clear();
    }

    /// One frame: fire a laser towards the right stick's aim point when
    /// `spec_should_fire` allows it, then advance every laser a tick,
    /// discarding first those that have left the window.
    pub fn update(&mut self, context: &GameContext, now_ms: u64)
        requires
            old(self).wf(),
            context.wf(),
        ensures
            final(self).wf(),
            lasers_update_rel(
                *old(self), *final(self), context.controller.right_stick, context.player, now_ms),
    {
        let rs = context.get_controller().get_right_stick();
        let fire = (rs.get_x() != 0 || rs.get_y() != 0) && self.lasers.len() < MAX_LASERS
            && now_ms > self.last_laser && now_ms - self.last_laser > LASER_COOLDOWN_MILLIS
            && self.next_id < u64::MAX;
        if fire {
            let px = context.get_player().x;
            let py = context.get_player().y;
            let ax = clamp_i64(
                px as i64 + (rs.get_screen_x() as i64 - self.window_width as i64 / 2),
                i32::MIN, i32::MAX);
            let ay = clamp_i64(
                py as i64 + (rs.get_screen_y() as i64 - self.window_height as i64 / 2),
                i32::MIN, i32::MAX);
            let l = Laser::new(
                self.next_id, rs.get_degrees(), px, py, ax, ay,
                self.sprite_width, self.sprite_height);
            proof {
                crate::identity::lemma_fresh_id_unique(
                    self.lasers@, laser_id_fn(), l, self.next_id);
            }
            self.lasers.push(l);
            self.next_id = self.next_id + 1;
            self.last_laser = now_ms;
        }
        let ghost base = self.lasers@;
        let ghost keep = keep_on_screen(self.window_width, self.window_height);
        let ghost next_after = self.next_id;
        proof {
            assert(ids_ok_by(base, laser_id_fn(), next_after));
            assert(forall|i: int| 0 <= i < base.len() ==> (#[trigger] base[i]).wf());
        }
        let mut kept: Vec<Laser> = Vec::new();
        let mut i: usize = 0;
        proof {
            assert(base.subrange(0, 0) =~= Seq::<Laser>::empty());
            crate::seq_util::lemma_filter_map_empty(keep, laser_step_fn());
        }
        while i < self.lasers.len()
            invariant
                self.lasers@ == base,
                keep == keep_on_screen(self.window_width, self.window_height),
                i <= base.len(),
                forall|k: int| 0 <= k < base.len() ==> (#[trigger] base[k]).wf(),
                kept@ == base.subrange(0, i as int).filter(keep).map_values(laser_step_fn()),
                forall|k: int| 0 <= k < kept@.len() ==> (#[trigger] kept@[k]).wf(),
            decreases base.len() - i,
        {
            let mut l = self.lasers[i];
            proof {
                let pre = base.subrange(0, i as int);
                assert(base.subrange(0, i as int + 1) =~= pre.push(l));
                crate::seq_util::lemma_filter_push(pre, l, keep);
                if keep(l) {
                    crate::seq_util::lemma_map_values_push(pre.filter(keep), l, laser_step_fn());
                }
            }
            if !l.is_off_screen(self.window_width, self.window_height) {
                l.update();
                kept.push(l);
            }
            i += 1;
        }
        proof {
            assert(base.subrange(0, base.len() as int) =~= base);
        }
        self.lasers = kept;
        proof {
            crate::identity::lemma_ids_ok_filter(base, laser_id_fn(), keep, next_after);
            assert forall|x: Laser| #[trigger] laser_id_fn()(laser_step_fn()(x))
                == laser_id_fn()(x) by {
                assert(laser_step_fn()(x) == spec_laser_step(x));
            }
            crate::identity::lemma_ids_ok_map(
                base.filter(keep), laser_id_fn(), laser_step_fn(), next_after);
        }
    }
}

} // verus!
