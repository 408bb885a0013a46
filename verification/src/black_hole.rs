use vstd::prelude::*;
use crate::game::Game;
use crate::game_sprite::GameSprite;
use crate::geometry::{Rect, spec_intersects};
use crate::identity::ids_ok_by;
use crate::rng::random_below;

verus! {

/// Milliseconds between two rotation ticks of a black hole.
pub const ROTATION_UPDATE_MILLIS: u64 = 250;

/// Degrees a black hole turns per rotation tick.
pub const ROTATION_STEP_DEGREES: i32 = 10;

/// Rejection sampling for a spawn position redraws at most this many times;
/// after that the last draw stands even if it touches the reserved zone.
pub const SPAWN_RETRY_LIMIT: u32 = 100;

/// A black hole is `Open` until a planet is delivered into it; it then stays
/// `Covered` for the rest of the level.
#[derive(Clone, Copy, Debug, PartialEq, Eq, Structural)]
pub enum BlackHoleState {
    Covered,
    Open,
}

/// The transitions a black hole's state can take in one step: an open hole
/// may stay open or become covered; a covered one never reopens.
pub open spec fn black_hole_state_step(before: BlackHoleState, after: BlackHoleState) -> bool {
    before == BlackHoleState::Covered ==> after == BlackHoleState::Covered
}

/// A black hole covers at most once: once `Covered`, every permitted step
/// leaves it `Covered`, so no sequence of steps reopens it.
pub proof fn lemma_covered_is_permanent(before: BlackHoleState, after: BlackHoleState)
    requires
        black_hole_state_step(before, after),
        before == BlackHoleState::Covered,
    ensures
        after == BlackHoleState::Covered,
{
}

/// One black hole: a slowly rotating sprite and the open/covered state.
#[derive(Clone, Copy, Debug, PartialEq, Eq, Structural)]
pub struct BlackHole {
    pub last_update: u64,
    pub sprite: GameSprite,
    pub state: BlackHoleState,
}

/// One rotation tick: when the cadence interval has passed, turn by the
/// rotation step, wrapping at a full turn, and restart the interval.
pub open spec fn spec_hole_rotate(h: BlackHole, now_ms: u64) -> BlackHole {
    if now_ms > h.last_update + ROTATION_UPDATE_MILLIS {
        BlackHole {
            last_update: now_ms,
            sprite: GameSprite {
                degrees: ((h.sprite.degrees + ROTATION_STEP_DEGREES) % 360) as i32,
                ..h.sprite
            },
            ..h
        }
    } else {
        h
    }
}

/// The rotation tick as a function value for sequence maps.
pub open spec fn hole_rotate_fn(now_ms: u64) -> spec_fn(BlackHole) -> BlackHole {
    |h: BlackHole| spec_hole_rotate(h, now_ms)
}

/// An entity's identity, as the collection bookkeeping reads it.
pub open spec fn hole_id_fn() -> spec_fn(BlackHole) -> u64 {
    |h: BlackHole| h.sprite.id
}

/// Keeps the holes still open.
pub open spec fn hole_open_fn() -> spec_fn(BlackHole) -> bool {
    |h: BlackHole| h.state == BlackHoleState::Open
}

/// A hole's rectangle, for position snapshots.
pub open spec fn hole_rect_fn() -> spec_fn(BlackHole) -> Rect {
    |h: BlackHole| h.sprite.rect()
}

/// The level is complete exactly when holes exist and every one is covered.
pub open spec fn spec_level_complete(holes: Seq<BlackHole>) -> bool {
    &&& holes.len() > 0
    &&& forall|i: int| 0 <= i < holes.len()
        ==> (#[trigger] holes[i]).state == BlackHoleState::Covered
}

impl BlackHole {
    /// A hole keeps its rotation inside one turn.
    pub open spec fn wf(self) -> bool {
        0 <= self.sprite.degrees < 360
    }

    pub fn new(id: u64, r: &Rect, now_ms: u64) -> (h: BlackHole)
        ensures
            h == (BlackHole {
                last_update: now_ms,
                sprite: GameSprite::new_spec(id, r.x, r.y, r.w, r.h),
                state: BlackHoleState::Open,
            }),
            h.wf(),
    {
        BlackHole {
            last_update: now_ms,
            sprite: GameSprite::from_rect(id, r),
            state: BlackHoleState::Open,
        }
    }

    /// A planet was delivered: the hole closes for good.
    pub fn covered(&mut self)
        ensures
            *final(self) == (BlackHole { state: BlackHoleState::Covered, ..*old(self) }),
            black_hole_state_step(old(self).state, final(self).state),
    {
        self.state = BlackHoleState::Covered;
    }

    pub fn get_sprite(&self) -> (r: GameSprite)
        ensures
            r == self.sprite,
    {
        self.sprite
    }

    pub fn get_state(&self) -> (r: BlackHoleState)
        ensures
            r == self.state,
    {
        self.state
    }
}

/// All the black holes of the current level, with the identity counter and
/// the sprite dimensions used when the level's holes are placed.
pub struct BlackHoles {
    pub black_holes: Vec<BlackHole>,
    pub next_id: u64,
    pub sprite_height: u32,
    pub sprite_width: u32,
}

impl BlackHoles {
    pub open spec fn wf(self) -> bool {
        &&& ids_ok_by(self.black_holes@, hole_id_fn(), self.next_id)
        &&& (forall|i: int| 0 <= i < self.black_holes@.len()
            ==> (#[trigger] self.black_holes@[i]).wf())
    }

    pub fn new(sprite_width: u32, sprite_height: u32) -> (bh: BlackHoles)
        ensures
            bh.wf(),
            bh.black_holes@ == Seq::<BlackHole>::empty(),
            bh.next_id == 0,
            bh.sprite_width == sprite_width,
            bh.sprite_height == sprite_height,
    {
        BlackHoles { black_holes: Vec::new(), next_id: 0, sprite_height, sprite_width }
    }

    pub fn get_black_holes(&self) -> (r: &Vec<BlackHole>)
        ensures
            r@ == self.black_holes@,
    {
        &self.black_holes
    }

    /// Mark the hole at index `i` covered.
    pub fn cover(&mut self, i: usize)
        requires
            i < old(self).black_holes@.len(),
        ensures
            final(self).black_holes@ == old(self).black_holes@.update(
                i as int,
                BlackHole { state: BlackHoleState::Covered, ..old(self).black_holes@[i as int] },
            ),
            *final(self) == (BlackHoles { black_holes: final(self).black_holes, ..*old(self) }),
            old(self).wf() ==> final(self).wf(),
    {
        let h = &mut self.black_holes[i];
        h.covered();
        proof {
            if old(self).wf() {
                let updated = self.black_holes@;
                let prior = old(self).black_holes@;
                assert forall|a: int, b: int| 0 <= a < b < updated.len() implies
                    hole_id_fn()(updated[a]) != hole_id_fn()(updated[b]) by {
                    assert(hole_id_fn()(prior[a]) != hole_id_fn()(prior[b]));
                }
                assert forall|a: int| 0 <= a < updated.len() implies
                    hole_id_fn()(updated[a]) < self.next_id && (#[trigger] updated[a]).wf() by {
                    assert(hole_id_fn()(prior[a]) < self.next_id);
                    assert(prior[a].wf());
                }
            }
        }
    }

    /// A candidate rectangle for a black hole, drawn uniformly inside the
    /// playfield.
    fn new_rect(&self, screen_width: i32, screen_height: i32) -> (r: Rect)
        requires
            screen_width > 0,
            screen_height > 0,
        ensures
            0 <= r.x < screen_width,
            0 <= r.y < screen_height,
            r.w == self.sprite_width,
            r.h == self.sprite_height,
    {
        let x = random_below(screen_width as u32);
        let y = random_below(screen_height as u32);
        Rect::new(x as i32, y as i32, self.sprite_width, self.sprite_height)
    }

    /// Place `count` new open black holes inside the playfield, redrawing
    /// positions that touch the reserved `no_spawn` zone (up to the retry
    /// limit per hole).
    fn set_black_holes(
        &mut self,
        no_spawn: Rect,
        screen_width: i32,
        screen_height: i32,
        count: u32,
        now_ms: u64,
    )
        requires
            old(self).wf(),
            screen_width > 0,
            screen_height > 0,
        ensures
            final(self).wf(),
            final(self).sprite_width == old(self).sprite_width,
            final(self).sprite_height == old(self).sprite_height,
            old(self).black_holes@.len() <= final(self).black_holes@.len()
                <= old(self).black_holes@.len() + count,
            old(self).next_id + count <= u64::MAX ==> final(self).black_holes@.len()
                == old(self).black_holes@.len() + count,
            forall|i: int| 0 <= i < old(self).black_holes@.len()
                ==> final(self).black_holes@[i] == old(self).black_holes@[i],
            forall|i: int| old(self).black_holes@.len() <= i < final(self).black_holes@.len()
                ==> spawned_hole_ok(
                    #[trigger] final(self).black_holes@[i], *old(self), no_spawn,
                    screen_width, screen_height, now_ms),
            final(self).next_id == old(self).next_id
                + (final(self).black_holes@.len() - old(self).black_holes@.len()),
    {
        let mut placed: u32 = 0;
        while placed < count
            invariant
                old(self).wf(),
                self.wf(),
                screen_width > 0,
                screen_height > 0,
                placed <= count,
                self.sprite_width == old(self).sprite_width,
                self.sprite_height == old(self).sprite_height,
                old(self).black_holes@.len() <= self.black_holes@.len()
                    <= old(self).black_holes@.len() + placed,
                old(self).next_id + placed <= u64::MAX ==> self.black_holes@.len()
                    == old(self).black_holes@.len() + placed,
                forall|i: int| 0 <= i < old(self).black_holes@.len()
                    ==> self.black_holes@[i] == old(self).black_holes@[i],
                forall|i: int| old(self).black_holes@.len() <= i < self.black_holes@.len()
                    ==> spawned_hole_ok(
                        #[trigger] self.black_holes@[i], *old(self), no_spawn,
                        screen_width, screen_height, now_ms),
                self.next_id == old(self).next_id
                    + (self.black_holes@.len() - old(self).black_holes@.len()),
            decreases count - placed,
        {
            if self.next_id < u64::MAX {
                let mut r = self.new_rect(screen_width, screen_height);
                let mut tries: u32 = 0;
                while r.has_intersection(no_spawn) && tries < SPAWN_RETRY_LIMIT
                    invariant
                        screen_width > 0,
                        screen_height > 0,
                        0 <= r.x < screen_width,
                        0 <= r.y < screen_height,
                        r.w == self.sprite_width,
                        r.h == self.sprite_height,
                    decreases SPAWN_RETRY_LIMIT - tries,
                {
                    r = self.new_rect(screen_width, screen_height);
                    tries += 1;
                }
                if r.has_intersection(no_spawn) {
                    r = crate::geometry::opposite_corner(
                        no_spawn, self.sprite_width, self.sprite_height,
                        screen_width, screen_height);
                }
                let h = BlackHole::new(self.next_id, &r, now_ms);
                proof {
                    crate::identity::lemma_fresh_id_unique(
                        self.black_holes@, hole_id_fn(), h, self.next_id);
                }
                self.black_holes.push(h);
                self.next_id = self.next_id + 1;
            }
            placed += 1;
        }
    }

    /// One frame: place the level's holes if none exist yet (the reserved
    /// zone is the player's rectangle), then advance every hole's rotation.
    pub fn update(&mut self, game: &Game, now_ms: u64)
        requires
            old(self).wf(),
            game.wf(),
        ensures
            final(self).wf(),
            black_holes_update_rel(*old(self), *final(self), *game, now_ms),
    {
        let spawned_from_empty = self.black_holes.len() == 0;
        if spawned_from_empty {
            self.set_black_holes(
                game.player, game.screen_width, game.screen_height,
                game.black_hole_count, now_ms);
            return;
        }
        let ghost base = self.black_holes@;
        let mut rotated: Vec<BlackHole> = Vec::new();
        let mut i: usize = 0;
        proof {
            assert(base.subrange(0, 0).map_values(hole_rotate_fn(now_ms))
                =~= Seq::<BlackHole>::empty());
        }
        while i < self.black_holes.len()
            invariant
                self.black_holes@ == base,
                i <= base.len(),
                forall|k: int| 0 <= k < base.len() ==> (#[trigger] base[k]).wf(),
                rotated@ == base.subrange(0, i as int).map_values(hole_rotate_fn(now_ms)),
                forall|k: int| 0 <= k < rotated@.len() ==> (#[trigger] rotated@[k]).wf(),
            decreases base.len() - i,
        {
            let h = self.black_holes[i];
            let rotated_h = if now_ms > h.last_update && now_ms - h.last_update
                > ROTATION_UPDATE_MILLIS {
                BlackHole {
                    last_update: now_ms,
                    sprite: GameSprite {
                        degrees: (h.sprite.degrees + ROTATION_STEP_DEGREES) % 360,
                        ..h.sprite
                    },
                    ..h
                }
            } else {
                h
            };
            proof {
                let pre = base.subrange(0, i as int);
                assert(base.subrange(0, i as int + 1) =~= pre.push(h));
                crate::seq_util::lemma_map_values_push(pre, h, hole_rotate_fn(now_ms));
                assert(rotated_h == spec_hole_rotate(h, now_ms));
            }
            rotated.push(rotated_h);
            i += 1;
        }
        proof {
            assert(base.subrange(0, base.len() as int) =~= base);
        }
        self.black_holes = rotated;
        proof {
            assert forall|x: BlackHole| #[trigger] hole_id_fn()(hole_rotate_fn(now_ms)(x))
                == hole_id_fn()(x) by {
                assert(hole_rotate_fn(now_ms)(x) == spec_hole_rotate(x, now_ms));
            }
            crate::identity::lemma_ids_ok_map(
                base, hole_id_fn(), hole_rotate_fn(now_ms), self.next_id);
        }
    }

    /// The rectangles of the holes still open, in order.
    pub fn open_positions(&self) -> (r: Vec<Rect>)
        ensures
            r@ == self.black_holes@.filter(hole_open_fn()).map_values(hole_rect_fn()),
    {
        let mut out: Vec<Rect> = Vec::new();
        let mut i: usize = 0;
        proof {
            assert(self.black_holes@.subrange(0, 0) =~= Seq::<BlackHole>::empty());
            crate::seq_util::lemma_filter_map_empty(hole_open_fn(), hole_rect_fn());
        }
        while i < self.black_holes.len()
            invariant
                i <= self.black_holes@.len(),
                out@ == self.black_holes@.subrange(0, i as int).filter(
                    hole_open_fn()).map_values(hole_rect_fn()),
            decreases self.black_holes@.len() - i,
        {
            let h = self.black_holes[i];
            proof {
                let pre = self.black_holes@.subrange(0, i as int);
                assert(self.black_holes@.subrange(0, i as int + 1) =~= pre.push(h));
                crate::seq_util::lemma_filter_push(pre, h, hole_open_fn());
                if hole_open_fn()(h) {
                    crate::seq_util::lemma_map_values_push(
                        pre.filter(hole_open_fn()), h, hole_rect_fn());
                }
            }
            if h.state == BlackHoleState::Open {
                out.push(h.sprite.get_position());
            }
            i += 1;
        }
        proof {
            assert(self.black_holes@.subrange(0, self.black_holes@.len() as int)
                =~= self.black_holes@);
        }
        out
    }

    /// Whether every hole of the level is covered (vacuously true of none).
    pub fn all_covered(&self) -> (r: bool)
        ensures
            r == (forall|i: int| 0 <= i < self.black_holes@.len()
                ==> (#[trigger] self.black_holes@[i]).state == BlackHoleState::Covered),
    {
        let mut i: usize = 0;
        while i < self.black_holes.len()
            invariant
                i <= self.black_holes@.len(),
                forall|k: int| 0 <= k < i
                    ==> (#[trigger] self.black_holes@[k]).state == BlackHoleState::Covered,
            decreases self.black_holes@.len() - i,
        {
            if self.black_holes[i].state == BlackHoleState::Open {
                return false;
            }
            proof {
                assert(self.black_holes@[i as int].state == BlackHoleState::Covered);
            }
            i += 1;
        }
        true
    }

    /// Clear the level's holes; identities are not reissued, so the counter
    /// stays.
    pub fn reset(&mut self)
        ensures
            final(self).black_holes@ == Seq::<BlackHole>::empty(),
            *final(self) == (BlackHoles { black_holes: final(self).black_holes, ..*old(self) }),
            old(self).wf() ==> final(self).wf(),
    {
        self.black_holes.clear();
    }
}

/// What holds of every hole placed by the level's spawn pass: freshly open,
/// not yet rotated, its top-left corner inside the playfield, its size the
/// collection's sprite size, its identity drawn from the counter, and its
/// rectangle clear of the reserved `no_spawn` zone — unless the retry limit
/// was spent, in which case it stands at the named fallback corner.
pub open spec fn spawned_hole_ok(
    h: BlackHole,
    before: BlackHoles,
    no_spawn: Rect,
    screen_width: i32,
    screen_height: i32,
    now_ms: u64,
) -> bool {
    &&& h.state == BlackHoleState::Open
    &&& h.last_update == now_ms
    &&& h.sprite.degrees == 0
    &&& 0 <= h.sprite.x < screen_width
    &&& 0 <= h.sprite.y < screen_height
    &&& h.sprite.width == before.sprite_width
    &&& h.sprite.height == before.sprite_height
    &&& h.sprite.id >= before.next_id
    &&& (!spec_intersects(h.sprite.rect(), no_spawn) || h.sprite.rect()
        == crate::geometry::spec_opposite_corner(
            no_spawn, before.sprite_width, before.sprite_height,
            screen_width as int, screen_height as int))
}

/// What one `BlackHoles::update` call does, relating the collection before
/// and after the frame: an empty collection gets the level's holes placed
/// (the reserved zone is the player's rectangle), a populated one only
/// advances every hole's rotation; states, identities and positions of
/// existing holes never change.
pub open spec fn black_holes_update_rel(
    before: BlackHoles,
    after: BlackHoles,
    game: crate::game::Game,
    now_ms: u64,
) -> bool {
    &&& after.sprite_width == before.sprite_width
    &&& after.sprite_height == before.sprite_height
    &&& (before.black_holes@.len() > 0 ==> after.black_holes@
        == before.black_holes@.map_values(hole_rotate_fn(now_ms))
        && after.next_id == before.next_id)
    &&& (before.black_holes@.len() == 0 ==> {
        &&& after.black_holes@.len() <= game.black_hole_count
        &&& before.next_id + game.black_hole_count <= u64::MAX
            ==> after.black_holes@.len() == game.black_hole_count
        &&& forall|i: int| 0 <= i < after.black_holes@.len()
            ==> spawned_hole_ok(
                #[trigger] after.black_holes@[i], before, game.player,
                game.screen_width, game.screen_height, now_ms)
    })
    &&& forall|i: int| 0 <= i < before.black_holes@.len()
        ==> after.black_holes@.len() == before.black_holes@.len()
            && black_hole_state_step(
                (#[trigger] before.black_holes@[i]).state,
                after.black_holes@[i].state)
            && after.black_holes@[i].state == before.black_holes@[i].state
            && after.black_holes@[i].sprite.id == before.black_holes@[i].sprite.id
            && after.black_holes@[i].sprite.rect() == before.black_holes@[i].sprite.rect()
}

} // verus!
