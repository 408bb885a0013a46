use vstd::prelude::*;
use crate::game_context::GameContext;
use crate::game_sprite::GameSprite;
use crate::geometry::{Rect, spec_intersects};
use crate::identity::ids_ok_by;
use crate::rng::random_below;

verus! {

/// Rejection sampling for a planet's position redraws at most this many
/// times; after that the last draw stands even if it touches a spawn point.
pub const PLANET_RETRY_LIMIT: u32 = 100;

/// A planet starts loose, is `Towed` once the player picks it up, and is
/// `InPlace` for the rest of the level once delivered into a black hole.
#[derive(Clone, Copy, Debug, PartialEq, Eq, Structural)]
pub enum PlanetState {
    InPlace,
    NotTowed,
    Towed,
}

/// The transitions a planet's state can take in one step of the simulation:
/// a loose planet may be picked up, a towed one may be delivered, a
/// delivered one rests.  In particular a planet never returns to `NotTowed`
/// and never reaches `InPlace` without passing through `Towed`.
pub open spec fn planet_state_step(before: PlanetState, after: PlanetState) -> bool {
    match before {
        PlanetState::NotTowed => after == PlanetState::NotTowed || after == PlanetState::Towed,
        PlanetState::Towed => after == PlanetState::Towed || after == PlanetState::InPlace,
        PlanetState::InPlace => after == PlanetState::InPlace,
    }
}

/// How far along the tow chain a state is.
pub open spec fn planet_rank(s: PlanetState) -> int {
    match s {
        PlanetState::NotTowed => 0,
        PlanetState::Towed => 1,
        PlanetState::InPlace => 2,
    }
}

/// A planet moves through its states in order only: each permitted step
/// keeps or raises the rank, never skips from loose straight to delivered,
/// never drops a delivered planet, and never returns one to `NotTowed`.
pub proof fn lemma_planet_states_ordered(before: PlanetState, after: PlanetState)
    requires
        planet_state_step(before, after),
    ensures
        planet_rank(before) <= planet_rank(after),
        before == PlanetState::NotTowed ==> after != PlanetState::InPlace,
        after == PlanetState::NotTowed ==> before == PlanetState::NotTowed,
        before == PlanetState::InPlace ==> after == PlanetState::InPlace,
{
}

/// One planet: a sprite, the frame of the planet art it shows, and its
/// place in the tow chain.
#[derive(Clone, Copy, Debug, PartialEq, Eq, Structural)]
pub struct Planet {
    pub sprite: GameSprite,
    pub sprite_index: u32,
    pub state: PlanetState,
}

/// One frame of a single planet: a towed planet follows the player, the
/// others rest.
pub open spec fn spec_planet_follow(p: Planet, player: Rect) -> Planet {
    if p.state == PlanetState::Towed {
        Planet { sprite: GameSprite { x: player.x, y: player.y, ..p.sprite }, ..p }
    } else {
        p
    }
}

/// An entity's identity, as the collection bookkeeping reads it.
pub open spec fn planet_id_fn() -> spec_fn(Planet) -> u64 {
    |p: Planet| p.sprite.id
}

/// The follow step as a function value for sequence maps.
pub open spec fn planet_follow_fn(player: Rect) -> spec_fn(Planet) -> Planet {
    |p: Planet| spec_planet_follow(p, player)
}

impl Planet {
    pub fn new(id: u64, x: i32, y: i32, sprite_index: u32, width: u32, height: u32)
        -> (p: Planet)
        ensures
            p == (Planet {
                sprite: GameSprite::new_spec(id, x, y, width, height),
                sprite_index,
                state: PlanetState::NotTowed,
            }),
    {
        Planet {
            sprite_index,
            sprite: GameSprite::new(id, x, y, width, height),
            state: PlanetState::NotTowed,
        }
    }

    pub fn get_sprite(&self) -> (r: GameSprite)
        ensures
            r == self.sprite,
    {
        self.sprite
    }

    pub fn get_state(&self) -> (r: PlanetState)
        ensures
            r == self.state,
    {
        self.state
    }

    /// The planet was delivered: snap it onto the black hole and settle it.
    pub fn in_place(&mut self, rect: Rect)
        ensures
            *final(self) == (Planet {
                sprite: GameSprite { x: rect.x, y: rect.y, ..old(self).sprite },
                state: PlanetState::InPlace,
                ..*old(self)
            }),
            old(self).state == PlanetState::Towed
                ==> planet_state_step(old(self).state, final(self).state),
    {
        self.sprite.x = rect.x;
        self.sprite.y = rect.y;
        self.state = PlanetState::InPlace;
    }

    /// Drop the tow (used when a round ends while the planet hangs on the
    /// player).
    pub fn not_towed(&mut self)
        ensures
            *final(self) == (Planet { state: PlanetState::NotTowed, ..*old(self) }),
    {
        self.state = PlanetState::NotTowed;
    }

    /// The player picked the planet up.
    pub fn towed(&mut self)
        ensures
            *final(self) == (Planet { state: PlanetState::Towed, ..*old(self) }),
            old(self).state == PlanetState::NotTowed
                ==> planet_state_step(old(self).state, final(self).state),
    {
        self.state = PlanetState::Towed;
    }

    /// One frame of this planet; see `spec_planet_follow`.
    pub fn update(&mut self, player: Rect)
        ensures
            *final(self) == spec_planet_follow(*old(self), player),
    {
        if self.state == PlanetState::Towed {
            self.sprite.x = player.x;
            self.sprite.y = player.y;
        }
    }
}

/// What holds of the planet placed `ordinal`-th by the level's spawn pass:
/// loose, cycling through the art frames by ordinal, inside the playfield,
/// sized by the collection, carrying the `ordinal`-th fresh identity, and
/// clear of every spawn point — unless the retry limit was spent, in which
/// case it stands at the named fallback corner opposite the first spawn
/// point.
pub open spec fn spawned_planet_ok(
    p: Planet,
    before: Planets,
    spawn_points: Seq<Rect>,
    ordinal: int,
) -> bool {
    &&& p.state == PlanetState::NotTowed
    &&& p.sprite_index == ordinal % (before.frames as int)
    &&& 0 <= p.sprite.x < before.window_width
    &&& 0 <= p.sprite.y < before.window_height
    &&& p.sprite.width == before.sprite_width
    &&& p.sprite.height == before.sprite_height
    &&& p.sprite.degrees == 0
    &&& p.sprite.id == before.next_id + ordinal
    &&& ((forall|k: int| 0 <= k < spawn_points.len()
            ==> !spec_intersects(p.sprite.rect(), #[trigger] spawn_points[k]))
        || p.sprite.rect() == crate::geometry::spec_opposite_corner(
            spawn_points[0], before.sprite_width, before.sprite_height,
            before.window_width as int, before.window_height as int))
}

/// What one `Planets::update` call does, relating the collection before and
/// after the frame: an empty collection gets one planet placed per spawn
/// point, a populated one only takes the follow step; states of existing
/// planets never change.
pub open spec fn planets_update_rel(
    before: Planets,
    after: Planets,
    player: Rect,
    spawn_points: Seq<Rect>,
) -> bool {
    &&& after == (Planets { planets: after.planets, next_id: after.next_id, ..before })
    &&& (before.planets@.len() > 0 ==> after.planets@
        == before.planets@.map_values(planet_follow_fn(player))
        && after.next_id == before.next_id)
    &&& (before.planets@.len() > 0 ==> forall|i: int| 0 <= i < before.planets@.len()
        ==> (#[trigger] after.planets@[i]).state == before.planets@[i].state)
    &&& (before.planets@.len() == 0 ==> {
        &&& after.planets@.len() <= spawn_points.len()
        &&& before.next_id + spawn_points.len() <= u64::MAX
            ==> after.planets@.len() == spawn_points.len()
        &&& forall|i: int| 0 <= i < after.planets@.len()
            ==> spawned_planet_ok(#[trigger] after.planets@[i], before, spawn_points, i)
        &&& after.next_id == before.next_id + after.planets@.len()
    })
}

/// All the planets of the current level, with the identity counter, the
/// number of art frames, and the playfield they are placed on.
pub struct Planets {
    pub planets: Vec<Planet>,
    pub next_id: u64,
    pub frames: u32,
    pub sprite_height: u32,
    pub sprite_width: u32,
    pub window_height: i32,
    pub window_width: i32,
}

impl Planets {
    pub open spec fn wf(self) -> bool {
        &&& ids_ok_by(self.planets@, planet_id_fn(), self.next_id)
        &&& self.frames > 0
        &&& self.window_width > 0
        &&& self.window_height > 0
    }

    pub fn new(
        frames: u32,
        window_width: i32,
        window_height: i32,
        sprite_width: u32,
        sprite_height: u32,
    ) -> (ps: Planets)
        requires
            frames > 0,
            window_width > 0,
            window_height > 0,
        ensures
            ps.wf(),
            ps.planets@ == Seq::<Planet>::empty(),
            ps.next_id == 0,
            ps.frames == frames,
            ps.sprite_width == sprite_width,
            ps.sprite_height == sprite_height,
            ps.window_width == window_width,
            ps.window_height == window_height,
    {
        Planets {
            planets: Vec::new(),
            next_id: 0,
            frames,
            sprite_height,
            sprite_width,
            window_height,
            window_width,
        }
    }

    pub fn get_planets(&self) -> (r: &Vec<Planet>)
        ensures
            r@ == self.planets@,
    {
        &self.planets
    }

    /// Pick the planet at index `i` up.
    pub fn tow(&mut self, i: usize)
        requires
            i < old(self).planets@.len(),
        ensures
            final(self).planets@ == old(self).planets@.update(
                i as int,
                Planet { state: PlanetState::Towed, ..old(self).planets@[i as int] },
            ),
            *final(self) == (Planets { planets: final(self).planets, ..*old(self) }),
            old(self).wf() ==> final(self).wf(),
    {
        let p = &mut self.planets[i];
        p.towed();
        proof {
            if old(self).wf() {
                let updated = self.planets@;
                let prior = old(self).planets@;
                assert forall|a: int, b: int| 0 <= a < b < updated.len() implies
                    planet_id_fn()(updated[a]) != planet_id_fn()(updated[b]) by {
                    assert(planet_id_fn()(prior[a]) != planet_id_fn()(prior[b]));
                }
                assert forall|a: int| 0 <= a < updated.len() implies
                    planet_id_fn()(updated[a]) < self.next_id by {
                    assert(planet_id_fn()(prior[a]) < self.next_id);
                }
            }
        }
    }

    /// Drop the tow of the planet at index `i`.
    pub fn untow(&mut self, i: usize)
        requires
            i < old(self).planets@.len(),
        ensures
            final(self).planets@ == old(self).planets@.update(
                i as int,
                Planet { state: PlanetState::NotTowed, ..old(self).planets@[i as int] },
            ),
            *final(self) == (Planets { planets: final(self).planets, ..*old(self) }),
            old(self).wf() ==> final(self).wf(),
    {
        let p = &mut self.planets[i];
        p.not_towed();
        proof {
            if old(self).wf() {
                let updated = self.planets@;
                let prior = old(self).planets@;
                assert forall|a: int, b: int| 0 <= a < b < updated.len() implies
                    planet_id_fn()(updated[a]) != planet_id_fn()(updated[b]) by {
                    assert(planet_id_fn()(prior[a]) != planet_id_fn()(prior[b]));
                }
                assert forall|a: int| 0 <= a < updated.len() implies
                    planet_id_fn()(updated[a]) < self.next_id by {
                    assert(planet_id_fn()(prior[a]) < self.next_id);
                }
            }
        }
    }

    /// Deliver the planet at index `i` into the black hole standing at
    /// `hole`.
    pub fn deliver(&mut self, i: usize, hole: Rect)
        requires
            i < old(self).planets@.len(),
        ensures
            final(self).planets@ == old(self).planets@.update(
                i as int,
                Planet {
                    sprite: GameSprite {
                        x: hole.x,
                        y: hole.y,
                        ..old(self).planets@[i as int].sprite
                    },
                    state: PlanetState::InPlace,
                    ..old(self).planets@[i as int]
                },
            ),
            *final(self) == (Planets { planets: final(self).planets, ..*old(self) }),
            old(self).wf() ==> final(self).wf(),
    {
        let p = &mut self.planets[i];
        p.in_place(hole);
        proof {
            if old(self).wf() {
                let updated = self.planets@;
                let prior = old(self).planets@;
                assert forall|a: int, b: int| 0 <= a < b < updated.len() implies
                    planet_id_fn()(updated[a]) != planet_id_fn()(updated[b]) by {
                    assert(planet_id_fn()(prior[a]) != planet_id_fn()(prior[b]));
                }
                assert forall|a: int| 0 <= a < updated.len() implies
                    planet_id_fn()(updated[a]) < self.next_id by {
                    assert(planet_id_fn()(prior[a]) < self.next_id);
                }
            }
        }
    }

    /// A candidate rectangle for a planet, drawn uniformly inside the
    /// playfield.
    fn new_rect(&self) -> (r: Rect)
        requires
            self.window_width > 0,
            self.window_height > 0,
        ensures
            0 <= r.x < self.window_width,
            0 <= r.y < self.window_height,
            r.w == self.sprite_width,
            r.h == self.sprite_height,
    {
        let x = random_below(self.window_width as u32);
        let y = random_below(self.window_height as u32);
        Rect::new(x as i32, y as i32, self.sprite_width, self.sprite_height)
    }

    /// One frame: place one planet per spawn point if none exist yet,
    /// redrawing positions that touch a spawn point (up to the retry limit
    /// per planet); afterwards, each planet takes its follow step.
    pub fn update(&mut self, context: &GameContext)
        requires
            old(self).wf(),
        ensures
            final(self).wf(),
            planets_update_rel(*old(self), *final(self), context.player, context.spawn_points@),
    {
        if self.planets.len() == 0 {
            let count = context.get_spawn_points().len();
            let mut placed: usize = 0;
            while placed < count && self.next_id < u64::MAX
                invariant
                    old(self).wf(),
                    self.wf(),
                    placed <= count,
                    *self == (Planets {
                        planets: self.planets,
                        next_id: self.next_id,
                        ..*old(self)
                    }),
                    self.planets@.len() == placed,
                    self.next_id == old(self).next_id + placed,
                    forall|i: int| 0 <= i < self.planets@.len()
                        ==> spawned_planet_ok(
                            #[trigger] self.planets@[i], *old(self),
                            context.spawn_points@, i),
                decreases count - placed,
            {
                let mut r = self.new_rect();
                let mut tries: u32 = 0;
                while intersects_any(context.get_spawn_points(), r) && tries < PLANET_RETRY_LIMIT
                    invariant
                        self.window_width > 0,
                        self.window_height > 0,
                        0 <= r.x < self.window_width,
                        0 <= r.y < self.window_height,
                        r.w == self.sprite_width,
                        r.h == self.sprite_height,
                    decreases PLANET_RETRY_LIMIT - tries,
                {
                    r = self.new_rect();
                    tries += 1;
                }
                if intersects_any(context.get_spawn_points(), r) {
                    proof {
                        assert(context.spawn_points@.len() > 0);
                    }
                    r = crate::geometry::opposite_corner(
                        context.get_spawn_points()[0], self.sprite_width, self.sprite_height,
                        self.window_width, self.window_height);
                }
                let index = ((placed as u64) % (self.frames as u64)) as u32;
                let p = Planet::new(
                    self.next_id, r.x, r.y, index, self.sprite_width, self.sprite_height);
                proof {
                    crate::identity::lemma_fresh_id_unique(
                        self.planets@, planet_id_fn(), p, self.next_id);
                }
                self.planets.push(p);
                self.next_id = self.next_id + 1;
                placed += 1;
            }
        } else {
            let ghost base = self.planets@;
            let ghost step = planet_follow_fn(context.player);
            let mut moved: Vec<Planet> = Vec::new();
            let mut i: usize = 0;
            proof {
                assert(base.subrange(0, 0).map_values(step) =~= Seq::<Planet>::empty());
            }
            while i < self.planets.len()
                invariant
                    self.planets@ == base,
                    step == planet_follow_fn(context.player),
                    i <= base.len(),
                    moved@ == base.subrange(0, i as int).map_values(step),
                decreases base.len() - i,
            {
                let mut p = self.planets[i];
                proof {
                    let pre = base.subrange(0, i as int);
                    assert(base.subrange(0, i as int + 1) =~= pre.push(p));
                    crate::seq_util::lemma_map_values_push(pre, p, step);
                }
                p.update(context.get_player());
                moved.push(p);
                i += 1;
            }
            proof {
                assert(base.subrange(0, base.len() as int) =~= base);
            }
            self.planets = moved;
            proof {
                assert forall|x: Planet| #[trigger] planet_id_fn()(step(x))
                    == planet_id_fn()(x) by {
                    assert(step(x) == spec_planet_follow(x, context.player));
                }
                crate::identity::lemma_ids_ok_map(base, planet_id_fn(), step, self.next_id);
                assert forall|i: int| 0 <= i < base.len() implies
                    (#[trigger] self.planets@[i]).state == base[i].state by {
                    assert(self.planets@[i] == step(base[i]));
                }
            }
        }
    }

    /// Clear the level's planets; identities are not reissued, so the
    /// counter stays.
    pub fn reset(&mut self)
        ensures
            final(self).planets@ == Seq::<Planet>::empty(),
            *final(self) == (Planets { planets: final(self).planets, ..*old(self) }),
            old(self).wf() ==> final(self).wf(),
    {
        self.planets.clear();
    }
}

/// Whether `r` touches any of the listed rectangles.
pub fn intersects_any(points: &Vec<Rect>, r: Rect) -> (b: bool)
    ensures
        b == exists|k: int| 0 <= k < points@.len() && spec_intersects(r, #[trigger] points@[k]),
{
    let mut i: usize = 0;
    while i < points.len()
        invariant
            i <= points@.len(),
            forall|k: int| 0 <= k < i ==> !spec_intersects(r, #[trigger] points@[k]),
        decreases points@.len() - i,
    {
        if r.has_intersection(points[i]) {
            return true;
        }
        i += 1;
    }
    false
}

} // verus!
