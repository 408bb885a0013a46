use vstd::prelude::*;
use crate::game::Game;
use crate::game_sprite::{GameSprite, spec_shatter_done, spec_shatter_step};
use crate::geometry::{Rect, spec_clamp};
use crate::identity::ids_ok_by;
use crate::rng::random_below;

verus! {

/// Pixels an enemy closes in on the player per frame, on each axis.
pub const ENEMY_MOVE_INCREMENT: i32 = 1;

/// Shatter spread per frame of a dying enemy.
pub const ENEMY_DIE_INCREMENT: u32 = 1;

/// Milliseconds between two animation frames of a walking enemy.
pub const FRAME_DURATION_MILLIS: u64 = 100;

/// Live enemies the spawner never exceeds.
pub const MAX_ENEMIES: usize = 75;

/// Milliseconds the collection waits after spawn points appear before the
/// first enemy comes out.
pub const WAIT_TO_SPAWN_MILLIS: u64 = 2000;

/// Milliseconds between two enemy spawns.
pub const ENEMY_SPAWN_COOLDOWN_MILLIS: u64 = 500;

/// An enemy chases while `Alive`, shatters while `Dying`, and is collected
/// once `Dead`.
#[derive(Clone, Copy, Debug, PartialEq, Eq, Structural)]
pub enum EnemyState {
    Alive,
    Dying,
    Dead,
}

/// One chasing enemy: a sprite, the walking-animation frame, and its state.
#[derive(Clone, Copy, Debug, PartialEq, Eq, Structural)]
pub struct Enemy {
    pub sprite: GameSprite,
    pub sprite_index: u32,
    pub state: EnemyState,
    pub frames: u32,
    pub last_frame_change: u64,
}

/// What an enemy becomes the moment it is hit: the shatter animation starts
/// from its current box.
pub open spec fn spec_enemy_dying(e: Enemy) -> Enemy {
    Enemy {
        state: EnemyState::Dying,
        sprite: GameSprite {
            shatter_x: e.sprite.x,
            shatter_y: e.sprite.y,
            shatter_width: e.sprite.width,
            shatter_height: e.sprite.height,
            ..e.sprite
        },
        ..e
    }
}

/// One step of the chase on a single axis: move one increment towards the
/// target, saturating at the coordinate type's limits.
pub open spec fn spec_step_toward(pos: int, target: int) -> int {
    if target < pos {
        spec_clamp(pos - ENEMY_MOVE_INCREMENT, i32::MIN as int, i32::MAX as int)
    } else {
        spec_clamp(pos + ENEMY_MOVE_INCREMENT, i32::MIN as int, i32::MAX as int)
    }
}

/// One frame of a single enemy: a walking enemy advances its animation on
/// the frame cadence and steps towards the player on both axes; a dying one
/// spreads its shatter box and dies once the box covers the screen; a dead
/// one rests.
pub open spec fn spec_enemy_update(
    e: Enemy,
    player: Rect,
    screen_width: i32,
    screen_height: i32,
    now_ms: u64,
) -> Enemy {
    match e.state {
        EnemyState::Alive => {
            let animated = if now_ms >= e.last_frame_change + FRAME_DURATION_MILLIS {
                Enemy {
                    sprite_index: ((e.sprite_index + 1) % (e.frames as int)) as u32,
                    last_frame_change: now_ms,
                    ..e
                }
            } else {
                e
            };
            Enemy {
                sprite: GameSprite {
                    x: spec_step_toward(animated.sprite.x as int, player.x as int) as i32,
                    y: spec_step_toward(animated.sprite.y as int, player.y as int) as i32,
                    ..animated.sprite
                },
                ..animated
            }
        },
        EnemyState::Dying => {
            let shattered = spec_shatter_step(e.sprite, ENEMY_DIE_INCREMENT);
            Enemy {
                sprite: shattered,
                state: if spec_shatter_done(shattered, screen_width as int, screen_height as int) {
                    EnemyState::Dead
                } else {
                    EnemyState::Dying
                },
                ..e
            }
        },
        EnemyState::Dead => e,
    }
}

impl Enemy {
    /// The walking animation stays within its frame strip.
    pub open spec fn wf(self) -> bool {
        &&& self.frames > 0
        &&& self.sprite_index < self.frames
    }

    pub fn new(id: u64, x: i32, y: i32, width: u32, height: u32, frames: u32, now_ms: u64)
        -> (e: Enemy)
        requires
            frames > 0,
        ensures
            e == (Enemy {
                sprite: GameSprite::new_spec(id, x, y, width, height),
                sprite_index: 0,
                state: EnemyState::Alive,
                frames,
                last_frame_change: now_ms,
            }),
            e.wf(),
    {
        Enemy {
            sprite: GameSprite::new(id, x, y, width, height),
            sprite_index: 0,
            state: EnemyState::Alive,
            frames,
            last_frame_change: now_ms,
        }
    }

    /// The enemy was hit: start the shatter animation from its current box.
    pub fn dying(&mut self)
        ensures
            *final(self) == spec_enemy_dying(*old(self)),
    {
        self.state = EnemyState::Dying;
        self.sprite.shatter_start();
    }

    pub fn get_sprite(&self) -> (r: GameSprite)
        ensures
            r == self.sprite,
    {
        self.sprite
    }

    pub fn get_sprite_index(&self) -> (r: u32)
        ensures
            r == self.sprite_index,
    {
        self.sprite_index
    }

    pub fn get_state(&self) -> (r: EnemyState)
        ensures
            r == self.state,
    {
        self.state
    }

    /// One frame of this enemy; see `spec_enemy_update`.
    pub fn update(&mut self, player: Rect, screen_height: i32, screen_width: i32, now_ms: u64)
        requires
            old(self).wf(),
        ensures
            *final(self) == spec_enemy_update(
                *old(self), player, screen_width, screen_height, now_ms),
            final(self).wf(),
    {
        match self.state {
            EnemyState::Alive => {
                if now_ms >= self.last_frame_change
                    && now_ms - self.last_frame_change >= FRAME_DURATION_MILLIS {
                    self.sprite_index = (self.sprite_index + 1) % self.frames;
                    self.last_frame_change = now_ms;
                }
                let x = crate::geometry::clamp_i64(
                    if player.x < self.sprite.x {
                        self.sprite.x as i64 - ENEMY_MOVE_INCREMENT as i64
                    } else {
                        self.sprite.x as i64 + ENEMY_MOVE_INCREMENT as i64
                    },
                    i32::MIN, i32::MAX);
                let y = crate::geometry::clamp_i64(
                    if player.y < self.sprite.y {
                        self.sprite.y as i64 - ENEMY_MOVE_INCREMENT as i64
                    } else {
                        self.sprite.y as i64 + ENEMY_MOVE_INCREMENT as i64
                    },
                    i32::MIN, i32::MAX);
                self.sprite.set_position(x, y);
            },
            EnemyState::Dying => {
                if self.sprite.shatter_update(ENEMY_DIE_INCREMENT, screen_width, screen_height) {
                    self.state = EnemyState::Dead;
                }
            },
            EnemyState::Dead => {},
        }
    }
}

/// An entity's identity, as the collection bookkeeping reads it.
pub open spec fn enemy_id_fn() -> spec_fn(Enemy) -> u64 {
    |e: Enemy| e.sprite.id
}

/// One enemy frame as a function value for sequence maps.
pub open spec fn enemy_step_fn(
    player: Rect,
    screen_width: i32,
    screen_height: i32,
    now_ms: u64,
) -> spec_fn(Enemy) -> Enemy {
    |e: Enemy| spec_enemy_update(e, player, screen_width, screen_height, now_ms)
}

/// Keeps the enemies whose identity differs from `id`.
pub open spec fn keep_enemy_id_not(id: u64) -> spec_fn(Enemy) -> bool {
    |e: Enemy| e.sprite.id != id
}

/// Keeps the enemies whose identity is not listed in `ids`.
pub open spec fn keep_enemy_ids_not_in(ids: Seq<u64>) -> spec_fn(Enemy) -> bool {
    |e: Enemy| !ids.contains(e.sprite.id)
}

/// The spawner's gate: it waits for the level's spawn points to exist, then
/// sits out a grace period, and only then starts producing enemies.
#[derive(Clone, Copy, Debug, PartialEq, Eq, Structural)]
pub enum EnemiesState {
    Running,
    WaitingToSpawn,
    WaitingForSpawnPoints,
}

/// All the enemies on the field, with the spawn gate, the spawn cooldown
/// clock and the identity counter.
pub struct Enemies {
    pub enemies: Vec<Enemy>,
    pub last_enemy: u64,
    pub next_id: u64,
    pub sprite_height: u32,
    pub sprite_width: u32,
    pub sprite_frames: u32,
    pub state: EnemiesState,
    pub wait_start: u64,
}

/// A new enemy comes out when the spawner runs, the spawn cooldown has
/// passed, the population cap has room, a spawn point exists to come out of,
/// and the identity counter has room.
pub open spec fn spec_enemy_should_spawn(es: Enemies, game: Game, now_ms: u64) -> bool {
    &&& now_ms > es.last_enemy + ENEMY_SPAWN_COOLDOWN_MILLIS
    &&& es.enemies@.len() < MAX_ENEMIES
    &&& game.black_holes@.len() > 0
    &&& game.black_holes@.len() <= u32::MAX
    &&& es.next_id < u64::MAX
}

/// What one `Enemies::update` call does, relating the collection before and
/// after the frame.  While the spawner runs, every enemy takes its step and
/// a fresh enemy appears exactly under `spec_enemy_should_spawn`; the two
/// waiting states only watch their clocks and the spawn points.
pub open spec fn enemies_update_rel(
    before: Enemies,
    after: Enemies,
    game: Game,
    now_ms: u64,
) -> bool {
    &&& after.sprite_width == before.sprite_width
    &&& after.sprite_height == before.sprite_height
    &&& after.sprite_frames == before.sprite_frames
    &&& (before.state == EnemiesState::Running ==> {
        let moved = before.enemies@.map_values(
            enemy_step_fn(game.player, game.screen_width, game.screen_height, now_ms));
        let spawn = spec_enemy_should_spawn(before, game, now_ms);
        &&& after.state == EnemiesState::Running
        &&& after.wait_start == before.wait_start
        &&& (spawn ==> {
            &&& after.enemies@.len() == moved.len() + 1
            &&& after.enemies@.subrange(0, moved.len() as int) == moved
            &&& spawned_enemy_ok(after.enemies@.last(), before, game.black_holes@, now_ms)
            &&& after.next_id == before.next_id + 1
            &&& after.last_enemy == now_ms
        })
        &&& (!spawn ==> after.enemies@ == moved && after.next_id == before.next_id
            && after.last_enemy == before.last_enemy)
    })
    &&& (before.state == EnemiesState::WaitingToSpawn ==> {
        &&& after == (Enemies { state: after.state, ..before })
        &&& after.state == (if now_ms > before.wait_start + WAIT_TO_SPAWN_MILLIS {
            EnemiesState::Running
        } else {
            EnemiesState::WaitingToSpawn
        })
    })
    &&& (before.state == EnemiesState::WaitingForSpawnPoints ==> {
        &&& after.enemies@ == before.enemies@
        &&& after.next_id == before.next_id
        &&& after.last_enemy == before.last_enemy
        &&& (game.black_holes@.len() > 0 ==> after.state == EnemiesState::WaitingToSpawn
            && after.wait_start == now_ms)
        &&& (game.black_holes@.len() == 0 ==> after == before)
    })
}

/// What holds of every enemy the spawner produces: alive, at the start of
/// its animation, sized by the collection, standing on one of the spawn
/// points, and carrying the identity the counter held.
pub open spec fn spawned_enemy_ok(e: Enemy, before: Enemies, holes: Seq<Rect>, now_ms: u64) -> bool {
    &&& e.state == EnemyState::Alive
    &&& e.sprite_index == 0
    &&& e.frames == before.sprite_frames
    &&& e.last_frame_change == now_ms
    &&& e.sprite.id == before.next_id
    &&& e.sprite.width == before.sprite_width
    &&& e.sprite.height == before.sprite_height
    &&& exists|k: int| 0 <= k < holes.len()
        && e.sprite.x == (#[trigger] holes[k]).x && e.sprite.y == holes[k].y
}

impl Enemies {
    pub open spec fn wf(self) -> bool {
        &&& ids_ok_by(self.enemies@, enemy_id_fn(), self.next_id)
        &&& (forall|i: int| 0 <= i < self.enemies@.len() ==> (#[trigger] self.enemies@[i]).wf())
        &&& self.sprite_frames > 0
    }

    pub fn new(sprite_width: u32, sprite_height: u32, sprite_frames: u32) -> (es: Enemies)
        requires
            sprite_frames > 0,
        ensures
            es.wf(),
            es.enemies@ == Seq::<Enemy>::empty(),
            es.last_enemy == 0,
            es.next_id == 0,
            es.sprite_width == sprite_width,
            es.sprite_height == sprite_height,
            es.sprite_frames == sprite_frames,
            es.state == EnemiesState::WaitingForSpawnPoints,
            es.wait_start == 0,
    {
        Enemies {
            enemies: Vec::new(),
            last_enemy: 0,
            next_id: 0,
            sprite_height,
            sprite_width,
            sprite_frames,
            state: EnemiesState::WaitingForSpawnPoints,
            wait_start: 0,
        }
    }

    pub fn get_enemies(&self) -> (r: &Vec<Enemy>)
        ensures
            r@ == self.enemies@,
    {
        &self.enemies
    }

    /// Discard the enemy carrying `id` (every enemy carries a distinct one).
    pub fn remove(&mut self, id: u64)
        ensures
            final(self).enemies@ == old(self).enemies@.filter(keep_enemy_id_not(id)),
            *final(self) == (Enemies { enemies: final(self).enemies, ..*old(self) }),
            old(self).wf() ==> final(self).wf(),
    {
        let mut kept: Vec<Enemy> = Vec::new();
        let mut i: usize = 0;
        proof {
            assert(self.enemies@.subrange(0, 0).filter(keep_enemy_id_not(id))
                =~= Seq::<Enemy>::empty());
        }
        while i < self.enemies.len()
            invariant
                i <= self.enemies@.len(),
                kept@ == self.enemies@.subrange(0, i as int).filter(keep_enemy_id_not(id)),
            decreases self.enemies@.len() - i,
        {
            let e = self.enemies[i];
            proof {
                let pre = self.enemies@.subrange(0, i as int);
                assert(self.enemies@.subrange(0, i as int + 1) =~= pre.push(e));
                crate::seq_util::lemma_filter_push(pre, e, keep_enemy_id_not(id));
            }
            if e.sprite.id != id {
                kept.push(e);
            }
            i += 1;
        }
        proof {
            assert(self.enemies@.subrange(0, self.enemies@.len() as int) =~= self.enemies@);
        }
        self.enemies = kept;
        proof {
            if old(self).wf() {
                crate::identity::lemma_ids_ok_filter(
                    old(self).enemies@, enemy_id_fn(), keep_enemy_id_not(id), old(self).next_id);
                assert forall|k: int| 0 <= k < self.enemies@.len() implies
                    (#[trigger] self.enemies@[k]).wf() by {
                    assert(self.enemies@.contains(self.enemies@[k]));
                    let j = choose|j: int|
                        0 <= j < old(self).enemies@.len()
                            && old(self).enemies@[j] == self.enemies@[k];
                    assert(old(self).enemies@[j].wf());
                }
            }
        }
    }

    /// Discard every enemy whose identity is listed in `ids`.
    pub fn remove_ids(&mut self, ids: &Vec<u64>)
        ensures
            final(self).enemies@ == old(self).enemies@.filter(keep_enemy_ids_not_in(ids@)),
            *final(self) == (Enemies { enemies: final(self).enemies, ..*old(self) }),
            old(self).wf() ==> final(self).wf(),
    {
        let mut kept: Vec<Enemy> = Vec::new();
        let mut i: usize = 0;
        proof {
            assert(self.enemies@.subrange(0, 0).filter(keep_enemy_ids_not_in(ids@))
                =~= Seq::<Enemy>::empty());
        }
        while i < self.enemies.len()
            invariant
                i <= self.enemies@.len(),
                kept@ == self.enemies@.subrange(0, i as int).filter(keep_enemy_ids_not_in(ids@)),
            decreases self.enemies@.len() - i,
        {
            let e = self.enemies[i];
            proof {
                let pre = self.enemies@.subrange(0, i as int);
                assert(self.enemies@.subrange(0, i as int + 1) =~= pre.push(e));
                crate::seq_util::lemma_filter_push(pre, e, keep_enemy_ids_not_in(ids@));
            }
            if !crate::identity::contains_id(ids, e.sprite.id) {
                kept.push(e);
            }
            i += 1;
        }
        proof {
            assert(self.enemies@.subrange(0, self.enemies@.len() as int) =~= self.enemies@);
        }
        self.enemies = kept;
        proof {
            if old(self).wf() {
                crate::identity::lemma_ids_ok_filter(
                    old(self).enemies@, enemy_id_fn(), keep_enemy_ids_not_in(ids@),
                    old(self).next_id);
                assert forall|k: int| 0 <= k < self.enemies@.len() implies
                    (#[trigger] self.enemies@[k]).wf() by {
                    assert(self.enemies@.contains(self.enemies@[k]));
                    let j = choose|j: int|
                        0 <= j < old(self).enemies@.len()
                            && old(self).enemies@[j] == self.enemies@[k];
                    assert(old(self).enemies@[j].wf());
                }
            }
        }
    }

    /// Start the shatter animation of the enemy at index `i`.
    pub fn mark_dying(&mut self, i: usize)
        requires
            i < old(self).enemies@.len(),
        ensures
            final(self).enemies@ == old(self).enemies@.update(
                i as int,
                spec_enemy_dying(old(self).enemies@[i as int]),
            ),
            *final(self) == (Enemies { enemies: final(self).enemies, ..*old(self) }),
            old(self).wf() ==> final(self).wf(),
    {
        let e = &mut self.enemies[i];
        e.dying();
        proof {
            if old(self).wf() {
                let updated = self.enemies@;
                let prior = old(self).enemies@;
                assert forall|a: int, b: int| 0 <= a < b < updated.len() implies
                    enemy_id_fn()(updated[a]) != enemy_id_fn()(updated[b]) by {
                    assert(enemy_id_fn()(prior[a]) != enemy_id_fn()(prior[b]));
                }
                assert forall|a: int| 0 <= a < updated.len() implies
                    enemy_id_fn()(updated[a]) < self.next_id && (#[trigger] updated[a]).wf() by {
                    assert(enemy_id_fn()(prior[a]) < self.next_id);
                    assert(prior[a].wf());
                }
            }
        }
    }

    /// One frame: while the spawner runs, every enemy takes its step and,
    /// when `spec_enemy_should_spawn` holds, a fresh enemy appears at one of
    /// the spawn points; the waiting states only watch their clocks.
    pub fn update(&mut self, game: &Game, now_ms: u64)
        requires
            old(self).wf(),
        ensures
            final(self).wf(),
            enemies_update_rel(*old(self), *final(self), *game, now_ms),
    {
        match self.state {
            EnemiesState::Running => {
                let ghost base = self.enemies@;
                let ghost step = enemy_step_fn(
                    game.player, game.screen_width, game.screen_height, now_ms);
                let mut moved: Vec<Enemy> = Vec::new();
                let mut i: usize = 0;
                proof {
                    assert(base.subrange(0, 0).map_values(step) =~= Seq::<Enemy>::empty());
                }
                while i < self.enemies.len()
                    invariant
                        self.enemies@ == base,
                        step == enemy_step_fn(
                            game.player, game.screen_width, game.screen_height, now_ms),
                        i <= base.len(),
                        forall|k: int| 0 <= k < base.len() ==> (#[trigger] base[k]).wf(),
                        moved@ == base.subrange(0, i as int).map_values(step),
                        forall|k: int| 0 <= k < moved@.len() ==> (#[trigger] moved@[k]).wf(),
                    decreases base.len() - i,
                {
                    let mut e = self.enemies[i];
                    proof {
                        let pre = base.subrange(0, i as int);
                        assert(base.subrange(0, i as int + 1) =~= pre.push(e));
                        crate::seq_util::lemma_map_values_push(pre, e, step);
                    }
                    e.update(game.player, game.screen_height, game.screen_width, now_ms);
                    moved.push(e);
                    i += 1;
                }
                proof {
                    assert(base.subrange(0, base.len() as int) =~= base);
                }
                self.enemies = moved;
                proof {
                    assert forall|x: Enemy| #[trigger] enemy_id_fn()(step(x))
                        == enemy_id_fn()(x) by {
                        assert(step(x) == spec_enemy_update(
                            x, game.player, game.screen_width, game.screen_height, now_ms));
                    }
                    crate::identity::lemma_ids_ok_map(base, enemy_id_fn(), step, self.next_id);
                }
                if now_ms > self.last_enemy
                    && now_ms - self.last_enemy > ENEMY_SPAWN_COOLDOWN_MILLIS
                    && self.enemies.len() < MAX_ENEMIES
                    && game.black_holes.len() > 0
                    && game.black_holes.len() <= u32::MAX as usize
                    && self.next_id < u64::MAX {
                    let k = random_below(game.black_holes.len() as u32);
                    let p = game.black_holes[k as usize];
                    let e = Enemy::new(
                        self.next_id, p.x, p.y,
                        self.sprite_width, self.sprite_height, self.sprite_frames, now_ms);
                    proof {
                        crate::identity::lemma_fresh_id_unique(
                            self.enemies@, enemy_id_fn(), e, self.next_id);
                    }
                    self.enemies.push(e);
                    self.last_enemy = now_ms;
                    self.next_id = self.next_id + 1;
                    proof {
                        assert(self.enemies@.subrange(
                            0, self.enemies@.len() - 1) =~= base.map_values(step));
                    }
                }
            },
            EnemiesState::WaitingToSpawn => {
                if now_ms > self.wait_start && now_ms - self.wait_start > WAIT_TO_SPAWN_MILLIS {
                    self.state = EnemiesState::Running;
                }
            },
            EnemiesState::WaitingForSpawnPoints => {
                if game.black_holes.len() > 0 {
                    self.state = EnemiesState::WaitingToSpawn;
                    self.wait_start = now_ms;
                }
            },
        }
    }

    /// Clear the field and wait for the next level's spawn points;
    /// identities are not reissued, so the counter stays.
    pub fn reset(&mut self)
        ensures
            final(self).enemies@ == Seq::<Enemy>::empty(),
            *final(self) == (Enemies {
                enemies: final(self).enemies,
                state: EnemiesState::WaitingForSpawnPoints,
                ..*old(self)
            }),
            old(self).wf() ==> final(self).wf(),
    {
        self.enemies.clear();
        self.state = EnemiesState::WaitingForSpawnPoints;
    }
}

} // verus!
