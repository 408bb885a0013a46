use vstd::prelude::*;
use crate::black_hole::{BlackHole, BlackHoleState, BlackHoles};
use crate::enemy::{Enemies, EnemiesState, Enemy, EnemyState, enemy_id_fn, spec_enemy_dying};
use crate::black_hole::spec_level_complete;
use crate::game::{Game, GameState, ENEMY_HIT_POINTS, INITIAL_BLACK_HOLE_COUNT, INITIAL_LIVES, PLANET_DELIVERED_POINTS};
use crate::geometry::{Rect, spec_intersects};
use crate::laser::{Laser, Lasers, laser_hits_rect, laser_id_fn};
use crate::planets::{Planet, PlanetState, Planets};
use crate::player::{Player, PlayerState, spec_player_reset};

verus! {

/// At most one planet hangs on the tow at any time, and none does while the
/// player reports `NotTowing`.
pub open spec fn tow_invariant(planets: Seq<Planet>, player_state: PlayerState) -> bool {
    &&& forall|i: int, j: int| 0 <= i < j < planets.len()
        ==> !((#[trigger] planets[i]).state == PlanetState::Towed
            && (#[trigger] planets[j]).state == PlanetState::Towed)
    &&& player_state == PlayerState::NotTowing ==> forall|i: int| 0 <= i < planets.len()
        ==> (#[trigger] planets[i]).state != PlanetState::Towed
}

/// The five entity subsystems the orchestrator drives each frame.
pub struct GameElements {
    pub black_holes: BlackHoles,
    pub enemies: Enemies,
    pub lasers: Lasers,
    pub planets: Planets,
    pub player: Player,
}

/// What a round reset (the per-frame body of the waiting phases) leaves
/// behind: all four entity collections empty — their identity counters and
/// dimensions untouched — and the player back at its start pose.
pub open spec fn round_reset_relation(before: GameElements, after: GameElements) -> bool {
    &&& after.black_holes.black_holes@ == Seq::<BlackHole>::empty()
    &&& after.black_holes == (BlackHoles {
        black_holes: after.black_holes.black_holes,
        ..before.black_holes
    })
    &&& after.enemies.enemies@ == Seq::<crate::enemy::Enemy>::empty()
    &&& after.enemies == (Enemies {
        enemies: after.enemies.enemies,
        state: EnemiesState::WaitingForSpawnPoints,
        ..before.enemies
    })
    &&& after.lasers.lasers@ == Seq::<crate::laser::Laser>::empty()
    &&& after.lasers == (Lasers { lasers: after.lasers.lasers, ..before.lasers })
    &&& after.planets.planets@ == Seq::<Planet>::empty()
    &&& after.planets == (Planets { planets: after.planets.planets, ..before.planets })
    &&& after.player == spec_player_reset(before.player)
}

/// Resetting a round twice in a row changes nothing over resetting it once:
/// every observable part of the second result equals the first.  In
/// particular, re-entering a waiting phase without a confirm input cannot
/// reset anything "further".
pub proof fn lemma_round_reset_idempotent(a: GameElements, b: GameElements, c: GameElements)
    requires
        round_reset_relation(a, b),
        round_reset_relation(b, c),
    ensures
        c.black_holes.black_holes@ == b.black_holes.black_holes@,
        c.black_holes.next_id == b.black_holes.next_id,
        c.enemies.enemies@ == b.enemies.enemies@,
        c.enemies.next_id == b.enemies.next_id,
        c.enemies.state == b.enemies.state,
        c.lasers.lasers@ == b.lasers.lasers@,
        c.lasers.next_id == b.lasers.next_id,
        c.planets.planets@ == b.planets.planets@,
        c.planets.next_id == b.planets.next_id,
        c.player == b.player,
{
    assert(spec_player_reset(spec_player_reset(a.player)) == spec_player_reset(a.player));
}

impl GameElements {
    /// Every subsystem's own invariant, and the tow bookkeeping that ties
    /// the planets to the player.
    pub open spec fn wf(self) -> bool {
        &&& self.black_holes.wf()
        &&& self.enemies.wf()
        &&& self.lasers.wf()
        &&& self.planets.wf()
        &&& self.player.wf()
        &&& tow_invariant(self.planets.planets@, self.player.state)
    }

    /// Assemble the five subsystems for a playfield of the given size; the
    /// sprite dimensions come from the art the driver loaded.
    pub fn new(
        screen_width: i32,
        screen_height: i32,
        player_width: u32,
        player_height: u32,
        enemy_width: u32,
        enemy_height: u32,
        enemy_frames: u32,
        laser_width: u32,
        laser_height: u32,
        hole_width: u32,
        hole_height: u32,
        planet_width: u32,
        planet_height: u32,
        planet_frames: u32,
    ) -> (e: GameElements)
        requires
            screen_width > 0,
            screen_height > 0,
            enemy_frames > 0,
            planet_frames > 0,
        ensures
            e.wf(),
            e.black_holes.black_holes@.len() == 0,
            e.black_holes.next_id == 0,
            e.black_holes.sprite_width == hole_width,
            e.black_holes.sprite_height == hole_height,
            e.enemies.enemies@.len() == 0,
            e.enemies.next_id == 0,
            e.enemies.sprite_width == enemy_width,
            e.enemies.sprite_height == enemy_height,
            e.enemies.sprite_frames == enemy_frames,
            e.enemies.state == EnemiesState::WaitingForSpawnPoints,
            e.lasers.lasers@.len() == 0,
            e.lasers.next_id == 0,
            e.lasers.sprite_width == laser_width,
            e.lasers.sprite_height == laser_height,
            e.lasers.window_width == screen_width,
            e.lasers.window_height == screen_height,
            e.planets.planets@.len() == 0,
            e.planets.next_id == 0,
            e.planets.frames == planet_frames,
            e.planets.sprite_width == planet_width,
            e.planets.sprite_height == planet_height,
            e.planets.window_width == screen_width,
            e.planets.window_height == screen_height,
            e.player == Player::new_spec(
                0, screen_width, screen_height, player_width, player_height),
            e.player.state == PlayerState::NotTowing,
    {
        GameElements {
            black_holes: BlackHoles::new(hole_width, hole_height),
            enemies: Enemies::new(enemy_width, enemy_height, enemy_frames),
            lasers: Lasers::new(screen_width, screen_height, laser_width, laser_height),
            planets: Planets::new(
                planet_frames, screen_width, screen_height, planet_width, planet_height),
            player: Player::new(0, screen_width, screen_height, player_width, player_height),
        }
    }

    /// The per-frame body of the waiting phases: clear the four entity
    /// collections and put the player back at its start pose.
    pub fn reset_round(&mut self)
        ensures
            round_reset_relation(*old(self), *final(self)),
            old(self).wf() ==> final(self).wf(),
    {
        self.black_holes.reset();
        self.enemies.reset();
        self.lasers.reset();
        self.planets.reset();
        self.player.reset();
    }

    /// The confirm input (a button release) outside a running frame: settle
    /// the bookkeeping of the phase being left — a finished game starts
    /// over, a finished level grows by one black hole — drop any tow, put
    /// the player back at its start pose, and run.  A release during the
    /// running phase or the death animation changes nothing.
    pub fn handle_button_release(&mut self, game: &mut Game)
        requires
            old(self).wf(),
            old(game).wf(),
        ensures
            final(self).wf(),
            final(game).wf(),
            (old(game).state == GameState::Running || old(game).state == GameState::Dying) ==> {
                &&& *final(game) == *old(game)
                &&& *final(self) == *old(self)
            },
            !(old(game).state == GameState::Running || old(game).state == GameState::Dying) ==> {
                &&& final(game).state == GameState::Running
                &&& final(game).score == (if old(game).state == GameState::Over {
                    0
                } else {
                    old(game).score as int
                })
                &&& final(game).lives == (if old(game).state == GameState::Over {
                    INITIAL_LIVES as int
                } else {
                    old(game).lives as int
                })
                &&& final(game).black_hole_count == (if old(game).state == GameState::Over {
                    INITIAL_BLACK_HOLE_COUNT as int
                } else if old(game).state == GameState::LevelComplete
                    && old(game).black_hole_count < u32::MAX {
                    old(game).black_hole_count + 1
                } else {
                    old(game).black_hole_count as int
                })
                &&& final(game).high_score == old(game).high_score
                &&& *final(game) == (Game {
                    state: final(game).state,
                    score: final(game).score,
                    lives: final(game).lives,
                    black_hole_count: final(game).black_hole_count,
                    ..*old(game)
                })
                &&& final(self).player == spec_player_reset(old(self).player)
                &&& final(self).planets.planets@.len() == old(self).planets.planets@.len()
                &&& (forall|i: int| 0 <= i < old(self).planets.planets@.len()
                    ==> final(self).planets.planets@[i] == (if (#[trigger] old(
                        self).planets.planets@[i]).state == PlanetState::Towed {
                        Planet { state: PlanetState::NotTowed, ..old(self).planets.planets@[i] }
                    } else {
                        old(self).planets.planets@[i]
                    }))
                &&& final(self).black_holes == old(self).black_holes
                &&& final(self).enemies == old(self).enemies
                &&& final(self).lasers == old(self).lasers
                &&& final(self).planets == (Planets {
                    planets: final(self).planets.planets,
                    ..old(self).planets
                })
            },
    {
        if game.state != GameState::Running && game.state != GameState::Dying {
            if game.state == GameState::Over {
                game.lives = INITIAL_LIVES;
                game.black_hole_count = INITIAL_BLACK_HOLE_COUNT;
                game.score = 0;
            } else if game.state == GameState::LevelComplete {
                if game.black_hole_count < u32::MAX {
                    game.black_hole_count = game.black_hole_count + 1;
                }
            }
            self.player.reset();
            let mut i: usize = 0;
            while i < self.planets.planets.len()
                invariant
                    i <= self.planets.planets@.len(),
                    self.player == spec_player_reset(old(self).player),
                    self.black_holes == old(self).black_holes,
                    self.enemies == old(self).enemies,
                    self.lasers == old(self).lasers,
                    self.planets.planets@.len() == old(self).planets.planets@.len(),
                    self.planets == (Planets {
                        planets: self.planets.planets,
                        ..old(self).planets
                    }),
                    old(self).planets.wf(),
                    self.planets.wf(),
                    forall|k: int| 0 <= k < i ==> self.planets.planets@[k]
                        == (if (#[trigger] old(self).planets.planets@[k]).state
                            == PlanetState::Towed {
                            Planet {
                                state: PlanetState::NotTowed,
                                ..old(self).planets.planets@[k]
                            }
                        } else {
                            old(self).planets.planets@[k]
                        }),
                    forall|k: int| i <= k < self.planets.planets@.len()
                        ==> self.planets.planets@[k] == old(self).planets.planets@[k],
                decreases self.planets.planets@.len() - i,
            {
                if self.planets.planets[i].get_state() == PlanetState::Towed {
                    self.planets.untow(i);
                }
                i += 1;
            }
            game.state = GameState::Running;
            proof {
                assert forall|k: int| 0 <= k < self.planets.planets@.len() implies
                    (#[trigger] self.planets.planets@[k]).state != PlanetState::Towed by {
                    if old(self).planets.planets@[k].state == PlanetState::Towed {
                        assert(self.planets.planets@[k].state == PlanetState::NotTowed);
                    } else {
                        assert(self.planets.planets@[k] == old(self).planets.planets@[k]);
                    }
                }
            }
        }
    }
}

/// An alive enemy standing on the player.
pub open spec fn enemy_hits_player(e: Enemy, pr: Rect) -> bool {
    e.state == EnemyState::Alive && spec_intersects(e.sprite.rect(), pr)
}

/// How many lasers score on this enemy this frame: every laser touching it,
/// provided the enemy is alive and did not reach the player first (the
/// player collision takes priority and skips the laser checks).
pub open spec fn enemy_shot_count(e: Enemy, pr: Rect, lasers: Seq<Laser>) -> int {
    if e.state == EnemyState::Alive && !spec_intersects(e.sprite.rect(), pr) {
        lasers.filter(laser_hits_rect(e.sprite.rect())).len() as int
    } else {
        0
    }
}

/// What the collision pass leaves of one enemy: shot enemies start their
/// shatter animation, the others are untouched (those that reached the
/// player are removed later, unchanged).
pub open spec fn spec_enemy_resolve(e: Enemy, pr: Rect, lasers: Seq<Laser>) -> Enemy {
    if enemy_shot_count(e, pr, lasers) > 0 {
        spec_enemy_dying(e)
    } else {
        e
    }
}

/// Enemies among the first `n` that reached the player this frame.
pub open spec fn player_hit_count(es: Seq<Enemy>, pr: Rect, n: int) -> int
    decreases n,
{
    if n <= 0 {
        0
    } else {
        player_hit_count(es, pr, n - 1) + (if enemy_hits_player(es[n - 1], pr) {
            1int
        } else {
            0int
        })
    }
}

/// Scoring laser hits over the first `n` enemies.
pub open spec fn shot_pair_count(es: Seq<Enemy>, pr: Rect, lasers: Seq<Laser>, n: int) -> int
    decreases n,
{
    if n <= 0 {
        0
    } else {
        shot_pair_count(es, pr, lasers, n - 1) + enemy_shot_count(es[n - 1], pr, lasers)
    }
}

/// The collision pass queues an enemy for removal when it is already dead or
/// when it reached the player.
pub open spec fn enemy_marked(e: Enemy, pr: Rect) -> bool {
    e.state == EnemyState::Dead || enemy_hits_player(e, pr)
}

/// A laser is spent when it touches some enemy that is alive and out of the
/// player's rectangle.
pub open spec fn laser_used(l: Laser, es: Seq<Enemy>, pr: Rect) -> bool {
    exists|k: int| 0 <= k < es.len() && (#[trigger] es[k]).state == EnemyState::Alive
        && !spec_intersects(es[k].sprite.rect(), pr)
        && spec_intersects(l.sprite.rect(), es[k].sprite.rect())
}

/// `id` belongs to an enemy of the frame that the pass queues for removal.
pub open spec fn removed_enemy_id_ok(id: u64, es: Seq<Enemy>, pr: Rect) -> bool {
    exists|k: int| 0 <= k < es.len() && (#[trigger] es[k]).sprite.id == id
        && enemy_marked(es[k], pr)
}

/// `id` belongs to a laser of the frame that scored and is queued for
/// removal.
pub open spec fn removed_laser_id_ok(id: u64, ls: Seq<Laser>, es: Seq<Enemy>, pr: Rect) -> bool {
    exists|j: int| 0 <= j < ls.len() && (#[trigger] ls[j]).sprite.id == id
        && laser_used(ls[j], es, pr)
}

/// `a + b`, saturating at the largest score.
pub open spec fn sat_add_u32(a: int, b: int) -> int {
    if a + b <= u32::MAX {
        a + b
    } else {
        u32::MAX as int
    }
}

/// Saturation never bites below the ceiling: where the sum fits, the
/// saturating score addition is the exact sum.  In particular a delivery
/// with headroom raises the score by exactly `PLANET_DELIVERED_POINTS`, and
/// a laser hit by exactly `ENEMY_HIT_POINTS`.
pub proof fn lemma_sat_add_exact(a: int, b: int)
    requires
        0 <= a,
        0 <= b,
        a + b <= u32::MAX,
    ensures
        sat_add_u32(a, b) == a + b,
{
}

/// Hit counts over a prefix are non-negative and at most the prefix length.
proof fn lemma_hit_count_bounds(es: Seq<Enemy>, pr: Rect, n: int)
    requires
        0 <= n <= es.len(),
    ensures
        0 <= player_hit_count(es, pr, n) <= n,
    decreases n,
{
    if n > 0 {
        lemma_hit_count_bounds(es, pr, n - 1);
    }
}

/// Scoring pair counts over a prefix are non-negative.
proof fn lemma_shot_pairs_nonneg(es: Seq<Enemy>, pr: Rect, lasers: Seq<Laser>, n: int)
    requires
        0 <= n <= es.len(),
    ensures
        0 <= shot_pair_count(es, pr, lasers, n),
    decreases n,
{
    if n > 0 {
        lemma_shot_pairs_nonneg(es, pr, lasers, n - 1);
    }
}


/// What the collision pass does, relating world and game before and after:
/// every enemy is resolved in place, the player dies exactly when some alive
/// enemy stands on it, lives drop by the number of such enemies (never below
/// zero), the score grows by `ENEMY_HIT_POINTS` per scoring laser hit, and
/// the two removal queues hold exactly the dead or player-hitting enemies
/// and the spent lasers.
pub open spec fn collisions_resolved(
    before: GameElements,
    game_before: Game,
    after: GameElements,
    game_after: Game,
    enemy_removals: Seq<u64>,
    laser_removals: Seq<u64>,
) -> bool {
    let es0 = before.enemies.enemies@;
    let ls0 = before.lasers.lasers@;
    let pr = before.player.sprite.rect();
    let hits = player_hit_count(es0, pr, es0.len() as int);
    let pairs = shot_pair_count(es0, pr, ls0, es0.len() as int);
    &&& after.enemies.enemies@.len() == es0.len()
    &&& (forall|k: int| 0 <= k < es0.len() ==> after.enemies.enemies@[k]
        == spec_enemy_resolve(#[trigger] es0[k], pr, ls0))
    &&& after.lasers == before.lasers
    &&& after.planets == before.planets
    &&& after.black_holes == before.black_holes
    &&& after.enemies == (Enemies { enemies: after.enemies.enemies, ..before.enemies })
    &&& after.player == (if hits > 0 {
        crate::player::spec_player_dying(before.player)
    } else {
        before.player
    })
    &&& game_after.lives == game_before.lives - (if hits <= game_before.lives {
        hits
    } else {
        game_before.lives as int
    })
    &&& game_after.state == (if hits > 0 {
        GameState::Dying
    } else {
        GameState::Running
    })
    &&& game_after.score == sat_add_u32(game_before.score as int, ENEMY_HIT_POINTS * pairs)
    &&& game_after.high_score == (if game_before.high_score >= game_after.score {
        game_before.high_score as int
    } else {
        game_after.score as int
    })
    &&& game_after == (Game {
        lives: game_after.lives,
        state: game_after.state,
        score: game_after.score,
        high_score: game_after.high_score,
        ..game_before
    })
    &&& (forall|k: int| 0 <= k < es0.len()
        ==> (enemy_removals.contains((#[trigger] es0[k]).sprite.id)
            <==> enemy_marked(es0[k], pr)))
    &&& (forall|j: int| 0 <= j < ls0.len()
        ==> (laser_removals.contains((#[trigger] ls0[j]).sprite.id)
            <==> laser_used(ls0[j], es0, pr)))
}

/// What the pickup pass does: when the player is free and some loose planet
/// stands on it, the first such planet goes on tow and the player starts
/// towing; otherwise nothing moves.
pub open spec fn pickup_applied(before: GameElements, after: GameElements) -> bool {
    let ps0 = before.planets.planets@;
    let pr = before.player.sprite.rect();
    &&& after.black_holes == before.black_holes
    &&& after.enemies == before.enemies
    &&& after.lasers == before.lasers
    &&& if before.player.state == PlayerState::NotTowing
        && (exists|m: int| 0 <= m < ps0.len() && pickup_candidate(#[trigger] ps0[m], pr)) {
        exists|m: int| 0 <= m < ps0.len() && pickup_candidate(#[trigger] ps0[m], pr)
            && (forall|k: int| 0 <= k < m ==> !pickup_candidate(#[trigger] ps0[k], pr))
            && after.planets.planets@ == ps0.update(
                m, Planet { state: PlanetState::Towed, ..ps0[m] })
            && after.planets == (Planets { planets: after.planets.planets, ..before.planets })
            && after.player == (Player { state: PlayerState::Towing, ..before.player })
    } else {
        after == before
    }
}

/// What the delivery pass does: the first towed planet standing on an open
/// black hole snaps into the first such hole, the hole covers, the player's
/// tow is released and the delivery scores `PLANET_DELIVERED_POINTS`;
/// without such a pair nothing moves.
pub open spec fn delivery_applied(
    before: GameElements,
    game_before: Game,
    after: GameElements,
    game_after: Game,
) -> bool {
    let ps0 = before.planets.planets@;
    let hs0 = before.black_holes.black_holes@;
    &&& after.enemies == before.enemies
    &&& after.lasers == before.lasers
    &&& if exists|m: int, k: int| 0 <= m < ps0.len() && 0 <= k < hs0.len()
        && (#[trigger] ps0[m]).state == PlanetState::Towed
        && delivery_hole_match(#[trigger] hs0[k], ps0[m]) {
        exists|m: int, k: int| {
            &&& 0 <= m < ps0.len()
            &&& 0 <= k < hs0.len()
            &&& (#[trigger] ps0[m]).state == PlanetState::Towed
            &&& delivery_hole_match(#[trigger] hs0[k], ps0[m])
            &&& (forall|m2: int| 0 <= m2 < m
                ==> !((#[trigger] ps0[m2]).state == PlanetState::Towed
                    && exists|k2: int| 0 <= k2 < hs0.len()
                        && delivery_hole_match(#[trigger] hs0[k2], ps0[m2])))
            &&& (forall|k2: int| 0 <= k2 < k
                ==> !delivery_hole_match(#[trigger] hs0[k2], ps0[m]))
            &&& after.planets.planets@ == ps0.update(m, Planet {
                sprite: crate::game_sprite::GameSprite {
                    x: hs0[k].sprite.x,
                    y: hs0[k].sprite.y,
                    ..ps0[m].sprite
                },
                state: PlanetState::InPlace,
                ..ps0[m]
            })
            &&& after.planets == (Planets { planets: after.planets.planets, ..before.planets })
            &&& after.black_holes.black_holes@ == hs0.update(k, BlackHole {
                state: BlackHoleState::Covered,
                ..hs0[k]
            })
            &&& after.black_holes == (BlackHoles {
                black_holes: after.black_holes.black_holes,
                ..before.black_holes
            })
            &&& after.player == (Player { state: PlayerState::NotTowing, ..before.player })
            &&& game_after.score == sat_add_u32(
                game_before.score as int, PLANET_DELIVERED_POINTS as int)
            &&& game_after.high_score == (if game_before.high_score >= game_after.score {
                game_before.high_score as int
            } else {
                game_after.score as int
            })
            &&& game_after == (Game {
                score: game_after.score,
                high_score: game_after.high_score,
                ..game_before
            })
        }
    } else {
        after == before && game_after == game_before
    }
}

/// The end of a running frame: the queued enemies and lasers are discarded,
/// nothing else moves, and the phase turns to `LevelComplete` exactly when
/// holes exist and all are covered.
pub open spec fn removals_and_completion(
    before: GameElements,
    game_before: Game,
    enemy_removals: Seq<u64>,
    laser_removals: Seq<u64>,
    after: GameElements,
    game_after: Game,
) -> bool {
    &&& after.enemies.enemies@ == before.enemies.enemies@.filter(
        crate::enemy::keep_enemy_ids_not_in(enemy_removals))
    &&& after.enemies == (Enemies { enemies: after.enemies.enemies, ..before.enemies })
    &&& after.lasers.lasers@ == before.lasers.lasers@.filter(
        crate::laser::keep_laser_ids_not_in(laser_removals))
    &&& after.lasers == (Lasers { lasers: after.lasers.lasers, ..before.lasers })
    &&& after.black_holes == before.black_holes
    &&& after.planets == before.planets
    &&& after.player == before.player
    &&& game_after == (Game { state: game_after.state, ..game_before })
    &&& game_after.state == (if spec_level_complete(after.black_holes.black_holes@) {
        GameState::LevelComplete
    } else {
        game_before.state
    })
}

/// The update stage of a running frame: the game records the player's
/// rectangle and the open holes' rectangles as this frame's snapshot, and
/// each of the five subsystems takes its own step against that snapshot.
pub open spec fn subsystems_updated(
    s0: GameElements,
    g0: Game,
    s1: GameElements,
    g1: Game,
    now_ms: u64,
) -> bool {
    &&& g1.player == s0.player.sprite.rect()
    &&& g1.black_holes@ == s0.black_holes.black_holes@.filter(
        crate::black_hole::hole_open_fn()).map_values(crate::black_hole::hole_rect_fn())
    &&& g1 == (Game { player: g1.player, black_holes: g1.black_holes, ..g0 })
    &&& crate::black_hole::black_holes_update_rel(s0.black_holes, s1.black_holes, g1, now_ms)
    &&& crate::planets::planets_update_rel(
        s0.planets, s1.planets, g1.player, g1.black_holes@)
    &&& crate::enemy::enemies_update_rel(s0.enemies, s1.enemies, g1, now_ms)
    &&& s1.player == crate::player::spec_player_update(s0.player, g1.controller)
    &&& crate::laser::lasers_update_rel(
        s0.lasers, s1.lasers, g1.controller.right_stick, g1.player, now_ms)
}

/// What one whole running frame does: some intermediate states exist that
/// chain the update stage, the collision pass, the pickup pass, the delivery
/// pass and the closing removals and completion check from the frame's
/// start to its end.  Every stage is the relation proved of the pass that
/// implements it.
pub open spec fn spec_run_frame(
    s0: GameElements,
    g0: Game,
    s_final: GameElements,
    g_final: Game,
    now_ms: u64,
) -> bool {
    exists|s1: GameElements, g1: Game, s2: GameElements, g2: Game,
        er: Seq<u64>, lr: Seq<u64>, s3: GameElements, s4: GameElements, g3: Game| {
        &&& #[trigger] subsystems_updated(s0, g0, s1, g1, now_ms)
        &&& #[trigger] collisions_resolved(s1, g1, s2, g2, er, lr)
        &&& #[trigger] pickup_applied(s2, s3)
        &&& #[trigger] delivery_applied(s3, g2, s4, g3)
        &&& removals_and_completion(s4, g3, er, lr, s_final, g_final)
    }
}

impl GameElements {
    /// The enemy leg of a frame's collision resolution, in enemy order:
    /// a dead enemy is queued for removal; an alive enemy standing on the
    /// player is queued for removal, costs a life (which never drops below
    /// zero), and sends the player and the game into the dying phase; any
    /// other alive enemy takes a laser check — every laser touching it
    /// scores `ENEMY_HIT_POINTS` and is queued for removal, and the first of
    /// them starts the enemy's shatter animation.  Nothing is removed yet:
    /// the queued identities are returned as `(enemy ids, laser ids)`.
    pub fn resolve_enemy_collisions(&mut self, game: &mut Game) -> (removals: (Vec<u64>, Vec<u64>))
        requires
            old(self).wf(),
            old(game).wf(),
            old(game).state == GameState::Running,
        ensures
            final(self).wf(),
            final(game).wf(),
            collisions_resolved(
                *old(self), *old(game), *final(self), *final(game),
                removals.0@, removals.1@),
    {
        let ghost es0 = self.enemies.enemies@;
        let ghost ls0 = self.lasers.lasers@;
        let pr = self.player.get_sprite().get_position();
        let mut enemies_to_remove: Vec<u64> = Vec::new();
        let mut lasers_to_remove: Vec<u64> = Vec::new();
        let mut i: usize = 0;
        while i < self.enemies.enemies.len()
            invariant
                old(self).wf(),
                old(game).wf(),
                old(game).state == GameState::Running,
                es0 == old(self).enemies.enemies@,
                ls0 == old(self).lasers.lasers@,
                pr == old(self).player.sprite.rect(),
                i <= es0.len(),
                self.enemies.enemies@.len() == es0.len(),
                self.lasers == old(self).lasers,
                self.planets == old(self).planets,
                self.black_holes == old(self).black_holes,
                self.enemies == (Enemies { enemies: self.enemies.enemies, ..old(self).enemies }),
                self.enemies.wf(),
                forall|k: int| 0 <= k < i ==> self.enemies.enemies@[k]
                    == spec_enemy_resolve(#[trigger] es0[k], pr, ls0),
                forall|k: int| i <= k < es0.len()
                    ==> self.enemies.enemies@[k] == #[trigger] es0[k],
                ({
                    let h = player_hit_count(es0, pr, i as int);
                    &&& game.lives == old(game).lives - (if h <= old(game).lives {
                        h
                    } else {
                        old(game).lives as int
                    })
                    &&& (h > 0 ==> game.state == GameState::Dying
                        && self.player == crate::player::spec_player_dying(old(self).player))
                    &&& (h == 0 ==> game.state == GameState::Running
                        && self.player == old(self).player)
                }),
                game.score == sat_add_u32(
                    old(game).score as int,
                    ENEMY_HIT_POINTS * shot_pair_count(es0, pr, ls0, i as int)),
                game.high_score == (if old(game).high_score >= game.score {
                    old(game).high_score as int
                } else {
                    game.score as int
                }),
                game.high_score >= game.score,
                *game == (Game {
                    lives: game.lives,
                    state: game.state,
                    score: game.score,
                    high_score: game.high_score,
                    ..*old(game)
                }),
                forall|k: int| 0 <= k < i ==> (enemy_marked(#[trigger] es0[k], pr)
                    ==> enemies_to_remove@.contains(es0[k].sprite.id)),
                forall|m: int| 0 <= m < enemies_to_remove@.len()
                    ==> removed_enemy_id_ok(#[trigger] enemies_to_remove@[m], es0, pr),
                forall|j: int, k: int| 0 <= j < ls0.len() && 0 <= k < i
                    && (#[trigger] es0[k]).state == EnemyState::Alive
                    && !spec_intersects(es0[k].sprite.rect(), pr)
                    && spec_intersects((#[trigger] ls0[j]).sprite.rect(), es0[k].sprite.rect())
                    ==> lasers_to_remove@.contains(ls0[j].sprite.id),
                forall|m: int| 0 <= m < lasers_to_remove@.len()
                    ==> removed_laser_id_ok(#[trigger] lasers_to_remove@[m], ls0, es0, pr),
            decreases es0.len() - i,
        {
            proof {
                lemma_hit_count_bounds(es0, pr, i as int);
                lemma_shot_pairs_nonneg(es0, pr, ls0, i as int);
                assert(player_hit_count(es0, pr, i as int + 1) == player_hit_count(es0, pr, i as int)
                    + (if enemy_hits_player(es0[i as int], pr) { 1int } else { 0int }));
                assert(shot_pair_count(es0, pr, ls0, i as int + 1)
                    == shot_pair_count(es0, pr, ls0, i as int)
                    + enemy_shot_count(es0[i as int], pr, ls0));
            }
            let e = self.enemies.enemies[i];
            let state = e.get_state();
            if state == EnemyState::Dying {
                // skipped entirely: neither removed nor re-shattered
            } else if state == EnemyState::Dead {
                proof {
                    crate::seq_util::lemma_push_contains(enemies_to_remove@, e.sprite.id);
                    assert((#[trigger] es0[i as int]).sprite.id == e.sprite.id
                        && enemy_marked(es0[i as int], pr));
                    assert(removed_enemy_id_ok(e.sprite.id, es0, pr));
                }
                enemies_to_remove.push(e.sprite.id);
            } else {
                let er = e.get_sprite().get_position();
                if er.has_intersection(pr) {
                    proof {
                        crate::seq_util::lemma_push_contains(enemies_to_remove@, e.sprite.id);
                        assert((#[trigger] es0[i as int]).sprite.id == e.sprite.id
                            && enemy_marked(es0[i as int], pr));
                        assert(removed_enemy_id_ok(e.sprite.id, es0, pr));
                    }
                    enemies_to_remove.push(e.sprite.id);
                    if game.lives > 0 {
                        game.lives = game.lives - 1;
                    }
                    self.player.dying();
                    game.state = GameState::Dying;
                } else {
                    let mut hit_ids = crate::laser::hitting_laser_ids(&self.lasers.lasers, er);
                    let ghost hit_lasers = ls0.filter(laser_hits_rect(er));
                    let hits = hit_ids.len();
                    if hits > 0 {
                        self.enemies.mark_dying(i);
                    }
                    let ghost game_at_enemy = *game;
                    let mut k: usize = 0;
                    while k < hits
                        invariant
                            k <= hits,
                            game_at_enemy.high_score >= game_at_enemy.score,
                            game.score == sat_add_u32(
                                game_at_enemy.score as int, ENEMY_HIT_POINTS * k),
                            game.high_score == (if game_at_enemy.high_score >= game.score {
                                game_at_enemy.high_score as int
                            } else {
                                game.score as int
                            }),
                            game.high_score >= game.score,
                            *game == (Game {
                                score: game.score,
                                high_score: game.high_score,
                                ..game_at_enemy
                            }),
                        decreases hits - k,
                    {
                        game.award(crate::game::ENEMY_HIT_POINTS);
                        k += 1;
                    }
                    proof {
                        let a = old(game).score as int;
                        let b = ENEMY_HIT_POINTS * shot_pair_count(es0, pr, ls0, i as int);
                        let c = ENEMY_HIT_POINTS * (hits as int);
                        assert(b >= 0) by {
                            lemma_shot_pairs_nonneg(es0, pr, ls0, i as int);
                            assert(ENEMY_HIT_POINTS * shot_pair_count(es0, pr, ls0, i as int) >= 0)
                                by (nonlinear_arith)
                                requires shot_pair_count(es0, pr, ls0, i as int) >= 0;
                        }
                        assert(sat_add_u32(sat_add_u32(a, b), c) == sat_add_u32(a, b + c));
                        vstd::arithmetic::mul::lemma_mul_is_distributive_add(
                            ENEMY_HIT_POINTS as int,
                            shot_pair_count(es0, pr, ls0, i as int),
                            hits as int);
                    }
                    proof {
                        crate::identity::lemma_ids_ok_filter(
                            ls0, laser_id_fn(), laser_hits_rect(er), old(self).lasers.next_id);
                        crate::seq_util::lemma_add_contains(lasers_to_remove@, hit_ids@);
                        assert forall|j: int| 0 <= j < ls0.len()
                            && spec_intersects((#[trigger] ls0[j]).sprite.rect(), er) implies
                            hit_ids@.contains(ls0[j].sprite.id) by {
                            ls0.lemma_filter_contains(laser_hits_rect(er), j);
                            let m = choose|m: int| 0 <= m < hit_lasers.len()
                                && hit_lasers[m] == ls0[j];
                            assert(hit_ids@[m] == laser_id_fn()(hit_lasers[m]));
                        }
                        assert forall|m: int| 0 <= m < hit_ids@.len() implies
                            exists|j: int| 0 <= j < ls0.len()
                                && #[trigger] hit_ids@[m] == (#[trigger] ls0[j]).sprite.id
                                && spec_intersects(ls0[j].sprite.rect(), er) by {
                            assert(hit_ids@[m] == laser_id_fn()(hit_lasers[m]));
                            ls0.lemma_filter_pred(laser_hits_rect(er), m);
                            assert(hit_lasers.contains(hit_lasers[m]));
                            assert(ls0.contains(hit_lasers[m]));
                            let j = choose|j: int| 0 <= j < ls0.len()
                                && ls0[j] == hit_lasers[m];
                            assert(hit_ids@[m] == ls0[j].sprite.id
                                && spec_intersects(ls0[j].sprite.rect(), er));
                        }
                    }
                    let ghost prior_removals = lasers_to_remove@;
                    let ghost hids = hit_ids@;
                    lasers_to_remove.append(&mut hit_ids);
                    proof {
                        assert(lasers_to_remove@ == prior_removals + hids);
                        assert forall|m: int| prior_removals.len() <= m < lasers_to_remove@.len()
                            implies removed_laser_id_ok(
                                #[trigger] lasers_to_remove@[m], ls0, es0, pr) by {
                            assert(lasers_to_remove@[m] == hids[m - prior_removals.len()]);
                            let j = choose|j: int| 0 <= j < ls0.len()
                                && #[trigger] hids[m - prior_removals.len()]
                                    == (#[trigger] ls0[j]).sprite.id
                                && spec_intersects(ls0[j].sprite.rect(), er);
                            assert((#[trigger] es0[i as int]).state == EnemyState::Alive
                                && !spec_intersects(es0[i as int].sprite.rect(), pr)
                                && spec_intersects(
                                    ls0[j].sprite.rect(), es0[i as int].sprite.rect()));
                            assert(laser_used(ls0[j], es0, pr));
                            assert(removed_laser_id_ok(lasers_to_remove@[m], ls0, es0, pr));
                        }
                        assert forall|m: int| 0 <= m < prior_removals.len() implies
                            removed_laser_id_ok(#[trigger] lasers_to_remove@[m], ls0, es0, pr) by {
                            assert(lasers_to_remove@[m] == prior_removals[m]);
                        }
                    }
                }
            }
            i += 1;
        }
        proof {
            lemma_hit_count_bounds(es0, pr, es0.len() as int);
            assert forall|k: int| 0 <= k < es0.len()
                && enemies_to_remove@.contains((#[trigger] es0[k]).sprite.id) implies
                enemy_marked(es0[k], pr) by {
                let m = choose|m: int| 0 <= m < enemies_to_remove@.len()
                    && enemies_to_remove@[m] == es0[k].sprite.id;
                assert(removed_enemy_id_ok(enemies_to_remove@[m], es0, pr));
                let k2 = choose|k2: int| 0 <= k2 < es0.len()
                    && (#[trigger] es0[k2]).sprite.id == enemies_to_remove@[m]
                    && enemy_marked(es0[k2], pr);
                if k != k2 {
                    assert(enemy_id_fn()(es0[k]) != enemy_id_fn()(es0[k2]));
                }
            }
            assert forall|j: int| 0 <= j < ls0.len()
                && lasers_to_remove@.contains((#[trigger] ls0[j]).sprite.id) implies
                laser_used(ls0[j], es0, pr) by {
                let m = choose|m: int| 0 <= m < lasers_to_remove@.len()
                    && lasers_to_remove@[m] == ls0[j].sprite.id;
                assert(removed_laser_id_ok(lasers_to_remove@[m], ls0, es0, pr));
                let j2 = choose|j2: int| 0 <= j2 < ls0.len()
                    && (#[trigger] ls0[j2]).sprite.id == lasers_to_remove@[m]
                    && laser_used(ls0[j2], es0, pr);
                if j != j2 {
                    assert(laser_id_fn()(ls0[j]) != laser_id_fn()(ls0[j2]));
                }
            }
            assert forall|j: int| 0 <= j < ls0.len() && laser_used(#[trigger] ls0[j], es0, pr)
                implies lasers_to_remove@.contains(ls0[j].sprite.id) by {
            }
        }
        (enemies_to_remove, lasers_to_remove)
    }
}

/// A loose planet standing on the player, ready to be picked up.
pub open spec fn pickup_candidate(p: Planet, pr: Rect) -> bool {
    p.state == PlanetState::NotTowed && spec_intersects(p.sprite.rect(), pr)
}

/// An open hole standing under a planet, ready to take the delivery.
pub open spec fn delivery_hole_match(h: BlackHole, p: Planet) -> bool {
    h.state == BlackHoleState::Open && spec_intersects(h.sprite.rect(), p.sprite.rect())
}

impl GameElements {
    /// The pickup leg of a frame's collision resolution: when the player is
    /// free, the first loose planet standing on the player goes on tow and
    /// the player starts towing; nothing else moves.
    pub fn resolve_planet_pickup(&mut self)
        requires
            old(self).wf(),
        ensures
            final(self).wf(),
            pickup_applied(*old(self), *final(self)),
    {
        if self.player.get_state() != PlayerState::NotTowing {
            return;
        }
        let pr = self.player.get_sprite().get_position();
        let ghost ps0 = self.planets.planets@;
        let mut i: usize = 0;
        while i < self.planets.planets.len()
            invariant
                old(self).player.state == PlayerState::NotTowing,
                *self == *old(self),
                ps0 == old(self).planets.planets@,
                pr == old(self).player.sprite.rect(),
                old(self).wf(),
                i <= ps0.len(),
                forall|k: int| 0 <= k < i ==> !pickup_candidate(#[trigger] ps0[k], pr),
            decreases ps0.len() - i,
        {
            let p = self.planets.planets[i];
            if p.get_state() == PlanetState::NotTowed
                && p.get_sprite().get_position().has_intersection(pr) {
                self.planets.tow(i);
                self.player.towing();
                proof {
                    assert(pickup_candidate(ps0[i as int], pr));
                    let towed = self.planets.planets@;
                    assert forall|a: int, b: int| 0 <= a < b < towed.len() implies
                        !((#[trigger] towed[a]).state == PlanetState::Towed
                            && (#[trigger] towed[b]).state == PlanetState::Towed) by {
                        if a != i as int {
                            assert(towed[a] == ps0[a]);
                            assert(ps0[a].state != PlanetState::Towed);
                        }
                        if b != i as int {
                            assert(towed[b] == ps0[b]);
                            assert(ps0[b].state != PlanetState::Towed);
                        }
                    }
                }
                return;
            }
            i += 1;
        }
    }

    /// The delivery leg of a frame's collision resolution: a towed planet
    /// standing on an open black hole snaps into it, the hole covers for
    /// good, the player's tow is released, and the delivery scores
    /// `PLANET_DELIVERED_POINTS`.  At most one planet is ever on tow, so at
    /// most one delivery happens.
    pub fn resolve_planet_delivery(&mut self, game: &mut Game)
        requires
            old(self).wf(),
            old(game).wf(),
        ensures
            final(self).wf(),
            final(game).wf(),
            delivery_applied(*old(self), *old(game), *final(self), *final(game)),
    {
        let ghost ps0 = self.planets.planets@;
        let ghost hs0 = self.black_holes.black_holes@;
        let mut i: usize = 0;
        while i < self.planets.planets.len()
            invariant
                *self == *old(self),
                *game == *old(game),
                ps0 == old(self).planets.planets@,
                hs0 == old(self).black_holes.black_holes@,
                old(self).wf(),
                old(game).wf(),
                i <= ps0.len(),
                forall|m2: int| 0 <= m2 < i
                    ==> !((#[trigger] ps0[m2]).state == PlanetState::Towed
                        && exists|k2: int| 0 <= k2 < hs0.len()
                            && delivery_hole_match(#[trigger] hs0[k2], ps0[m2])),
            decreases ps0.len() - i,
        {
            let p = self.planets.planets[i];
            if p.get_state() == PlanetState::Towed {
                let mut j: usize = 0;
                while j < self.black_holes.black_holes.len()
                    invariant
                        *self == *old(self),
                        *game == *old(game),
                        ps0 == old(self).planets.planets@,
                        hs0 == old(self).black_holes.black_holes@,
                        old(self).wf(),
                        old(game).wf(),
                        i < ps0.len(),
                        p == ps0[i as int],
                        p.state == PlanetState::Towed,
                        j <= hs0.len(),
                        forall|k2: int| 0 <= k2 < j
                            ==> !delivery_hole_match(#[trigger] hs0[k2], ps0[i as int]),
                    decreases hs0.len() - j,
                {
                    let h = self.black_holes.black_holes[j];
                    if h.get_state() == BlackHoleState::Open
                        && h.get_sprite().get_position().has_intersection(
                            p.get_sprite().get_position()) {
                        let hole_rect = h.get_sprite().get_position();
                        self.black_holes.cover(j);
                        self.planets.deliver(i, hole_rect);
                        self.player.not_towing();
                        game.award(crate::game::PLANET_DELIVERED_POINTS);
                        proof {
                            assert(delivery_hole_match(hs0[j as int], ps0[i as int]));
                            let delivered = self.planets.planets@;
                            assert forall|a: int| 0 <= a < delivered.len() implies
                                (#[trigger] delivered[a]).state != PlanetState::Towed by {
                                if a == i as int {
                                    assert(delivered[a].state == PlanetState::InPlace);
                                } else {
                                    assert(delivered[a] == ps0[a]);
                                    if ps0[a].state == PlanetState::Towed {
                                        if a < i as int {
                                            assert(!(ps0[a].state == PlanetState::Towed
                                                && ps0[i as int].state == PlanetState::Towed));
                                        } else {
                                            assert(!(ps0[i as int].state == PlanetState::Towed
                                                && ps0[a].state == PlanetState::Towed));
                                        }
                                    }
                                }
                            }
                        }
                        return;
                    }
                    j += 1;
                }
                proof {
                    assert forall|m2: int| 0 <= m2 < i + 1 implies
                        !((#[trigger] ps0[m2]).state == PlanetState::Towed
                            && exists|k2: int| 0 <= k2 < hs0.len()
                                && delivery_hole_match(#[trigger] hs0[k2], ps0[m2])) by {
                        if m2 == i as int {
                            assert forall|k2: int| 0 <= k2 < hs0.len() implies
                                !delivery_hole_match(#[trigger] hs0[k2], ps0[i as int]) by {}
                        }
                    }
                }
            }
            i += 1;
        }
    }
}

impl GameElements {
    /// One running frame: snapshot the player and the open holes into the
    /// game, update every subsystem in order (black holes, planets, enemies,
    /// player, lasers), resolve collisions (enemies against player and
    /// lasers, then planet pickup, then planet delivery), apply the queued
    /// removals, and finally declare the level complete exactly when holes
    /// exist and all are covered.
    pub fn run_frame(&mut self, game: &mut Game, now_ms: u64)
        requires
            old(self).wf(),
            old(game).wf(),
            old(game).state == GameState::Running,
        ensures
            final(self).wf(),
            final(game).wf(),
            spec_run_frame(*old(self), *old(game), *final(self), *final(game), now_ms),
            final(game).state == GameState::LevelComplete
                <==> spec_level_complete(final(self).black_holes.black_holes@),
            final(game).state == GameState::Running || final(game).state == GameState::Dying
                || final(game).state == GameState::LevelComplete,
            final(game).score >= old(game).score,
            final(game).high_score == (if old(game).high_score >= final(game).score {
                old(game).high_score as int
            } else {
                final(game).score as int
            }),
            final(game).lives <= old(game).lives,
            final(game).player == old(self).player.sprite.rect(),
            final(game).black_holes@ == old(self).black_holes.black_holes@.filter(
                crate::black_hole::hole_open_fn()).map_values(crate::black_hole::hole_rect_fn()),
            *final(game) == (Game {
                player: final(game).player,
                black_holes: final(game).black_holes,
                score: final(game).score,
                high_score: final(game).high_score,
                lives: final(game).lives,
                state: final(game).state,
                ..*old(game)
            }),
            old(self).black_holes.black_holes@.len() > 0 ==> {
                &&& final(self).black_holes.black_holes@.len()
                    == old(self).black_holes.black_holes@.len()
                &&& forall|i: int| 0 <= i < old(self).black_holes.black_holes@.len()
                    ==> crate::black_hole::black_hole_state_step(
                        (#[trigger] old(self).black_holes.black_holes@[i]).state,
                        final(self).black_holes.black_holes@[i].state)
            },
            old(self).planets.planets@.len() > 0 ==> {
                &&& final(self).planets.planets@.len() == old(self).planets.planets@.len()
                &&& forall|i: int| 0 <= i < old(self).planets.planets@.len()
                    ==> crate::planets::planet_rank(
                        (#[trigger] old(self).planets.planets@[i]).state)
                        <= crate::planets::planet_rank(final(self).planets.planets@[i].state)
                        && (final(self).planets.planets@[i].state == PlanetState::NotTowed
                            ==> old(self).planets.planets@[i].state == PlanetState::NotTowed)
            },
    {
        let ghost holes0 = self.black_holes.black_holes@;
        let ghost planets0 = self.planets.planets@;
        game.player = self.player.get_sprite().get_position();
        game.black_holes = self.black_holes.open_positions();
        self.black_holes.update(game, now_ms);
        let ghost holes1 = self.black_holes.black_holes@;
        let ctx = crate::game_context::GameContext::new(
            &game.controller, game.player, game.screen_height, game.screen_width,
            crate::geometry::copy_rects(&game.black_holes));
        self.planets.update(&ctx);
        let ghost planets1 = self.planets.planets@;
        proof {
            assert(tow_invariant(self.planets.planets@, self.player.state)) by {
                if planets0.len() > 0 {
                    assert forall|i: int| 0 <= i < planets1.len() implies
                        (#[trigger] planets1[i]).state == planets0[i].state by {}
                } else {
                    assert forall|i: int| 0 <= i < planets1.len() implies
                        (#[trigger] planets1[i]).state == PlanetState::NotTowed by {
                        assert(crate::planets::spawned_planet_ok(
                            planets1[i], old(self).planets, ctx.spawn_points@, i));
                    }
                }
            }
        }
        self.enemies.update(game, now_ms);
        self.player.update(game);
        proof {
            assert(tow_invariant(self.planets.planets@, self.player.state)) by {
                assert(self.player.state == PlayerState::NotTowing
                    ==> old(self).player.state == PlayerState::NotTowing);
            }
        }
        self.lasers.update(&ctx, now_ms);
        let ghost mid_self = *self;
        let ghost mid_game = *game;
        let ghost es_r = self.enemies.enemies@;
        let ghost ls_r = self.lasers.lasers@;
        let ghost pr_r = self.player.sprite.rect();
        let removals = self.resolve_enemy_collisions(game);
        let ghost resolved_self = *self;
        let ghost resolved_game = *game;
        let ghost planets2 = self.planets.planets@;
        let ghost player2 = self.player;
        let ghost score1 = game.score;
        let ghost high1 = game.high_score;
        self.resolve_planet_pickup();
        let ghost picked_self = *self;
        let ghost planets3 = self.planets.planets@;
        let ghost holes2 = self.black_holes.black_holes@;
        self.resolve_planet_delivery(game);
        let ghost delivered_self = *self;
        let ghost delivered_game = *game;
        let ghost planets4 = self.planets.planets@;
        let ghost holes3 = self.black_holes.black_holes@;
        self.enemies.remove_ids(&removals.0);
        self.lasers.remove_ids(&removals.1);
        proof {
            assert(tow_invariant(self.planets.planets@, self.player.state));
        }
        let complete = self.black_holes.black_holes.len() > 0 && self.black_holes.all_covered();
        if complete {
            game.state = GameState::LevelComplete;
        }
        proof {
            // what the collision pass did to score and lives
            lemma_hit_count_bounds(es_r, pr_r, es_r.len() as int);
            lemma_shot_pairs_nonneg(es_r, pr_r, ls_r, es_r.len() as int);
            let pairs = shot_pair_count(es_r, pr_r, ls_r, es_r.len() as int);
            vstd::arithmetic::mul::lemma_mul_nonnegative(ENEMY_HIT_POINTS as int, pairs);
            assert(score1 >= old(game).score);
            assert(high1 >= score1);
            // what the pickup pass did to the planets
            assert(planets3.len() == planets2.len()
                && forall|i: int| 0 <= i < planets2.len()
                    ==> crate::planets::planet_rank((#[trigger] planets2[i]).state)
                        <= crate::planets::planet_rank(planets3[i].state)
                        && (planets3[i].state == PlanetState::NotTowed
                            ==> planets2[i].state == PlanetState::NotTowed)) by {
                if player2.state == PlayerState::NotTowing
                    && (exists|m: int| 0 <= m < planets2.len()
                        && pickup_candidate(#[trigger] planets2[m], player2.sprite.rect())) {
                    let m = choose|m: int| 0 <= m < planets2.len()
                        && pickup_candidate(#[trigger] planets2[m], player2.sprite.rect())
                        && (forall|k: int| 0 <= k < m
                            ==> !pickup_candidate(#[trigger] planets2[k], player2.sprite.rect()))
                        && planets3 == planets2.update(
                            m, Planet { state: PlanetState::Towed, ..planets2[m] });
                    assert forall|i: int| 0 <= i < planets2.len() implies
                        crate::planets::planet_rank((#[trigger] planets2[i]).state)
                            <= crate::planets::planet_rank(planets3[i].state)
                            && (planets3[i].state == PlanetState::NotTowed
                                ==> planets2[i].state == PlanetState::NotTowed) by {
                        if i != m {
                            assert(planets3[i] == planets2[i]);
                        }
                    }
                } else {
                    assert(planets3 == planets2);
                }
            }
            // what the delivery pass did to the planets, holes and score
            if exists|m: int, k: int| 0 <= m < planets3.len() && 0 <= k < holes2.len()
                && (#[trigger] planets3[m]).state == PlanetState::Towed
                && delivery_hole_match(#[trigger] holes2[k], planets3[m]) {
                let (m, k) = choose|m: int, k: int| {
                    &&& 0 <= m < planets3.len()
                    &&& 0 <= k < holes2.len()
                    &&& (#[trigger] planets3[m]).state == PlanetState::Towed
                    &&& delivery_hole_match(#[trigger] holes2[k], planets3[m])
                    &&& planets4 == planets3.update(m, Planet {
                        sprite: crate::game_sprite::GameSprite {
                            x: holes2[k].sprite.x,
                            y: holes2[k].sprite.y,
                            ..planets3[m].sprite
                        },
                        state: PlanetState::InPlace,
                        ..planets3[m]
                    })
                    &&& holes3 == holes2.update(k, BlackHole {
                        state: BlackHoleState::Covered,
                        ..holes2[k]
                    })
                    &&& game.score == sat_add_u32(
                        score1 as int, PLANET_DELIVERED_POINTS as int)
                    &&& game.high_score == (if high1 >= game.score {
                        high1 as int
                    } else {
                        game.score as int
                    })
                };
                assert(game.score >= score1);
                assert forall|i: int| 0 <= i < planets3.len() implies
                    crate::planets::planet_rank((#[trigger] planets3[i]).state)
                        <= crate::planets::planet_rank(planets4[i].state)
                        && (planets4[i].state == PlanetState::NotTowed
                            ==> planets3[i].state == PlanetState::NotTowed) by {
                    if i != m {
                        assert(planets4[i] == planets3[i]);
                    }
                }
                assert forall|i: int| 0 <= i < holes2.len() implies
                    crate::black_hole::black_hole_state_step(
                        (#[trigger] holes2[i]).state, holes3[i].state) by {
                    if i != k {
                        assert(holes3[i] == holes2[i]);
                    }
                }
            } else {
                assert(planets4 == planets3);
                assert(holes3 == holes2);
                assert(game.score == score1);
            }
            // the per-hole state step across rotation and the one cover
            if holes0.len() > 0 {
                assert forall|i: int| 0 <= i < holes0.len() implies
                    crate::black_hole::black_hole_state_step(
                        (#[trigger] holes0[i]).state,
                        self.black_holes.black_holes@[i].state) by {
                    assert(holes1[i] == crate::black_hole::spec_hole_rotate(holes0[i], now_ms));
                    assert(holes1[i].state == holes0[i].state);
                    assert(holes2 == holes1);
                    assert(crate::black_hole::black_hole_state_step(
                        holes2[i].state, holes3[i].state));
                    assert(self.black_holes.black_holes@ == holes3);
                }
            }
            // the per-planet rank step across follow, pickup and delivery
            if planets0.len() > 0 {
                assert forall|i: int| 0 <= i < planets0.len() implies
                    crate::planets::planet_rank((#[trigger] planets0[i]).state)
                        <= crate::planets::planet_rank(self.planets.planets@[i].state)
                        && (self.planets.planets@[i].state == PlanetState::NotTowed
                            ==> planets0[i].state == PlanetState::NotTowed) by {
                    assert(planets1[i].state == planets0[i].state);
                    assert(planets2 == planets1);
                    assert(self.planets.planets@ == planets4);
                }
            }
            // the frame is the chain of its stages
            assert(subsystems_updated(*old(self), *old(game), mid_self, mid_game, now_ms));
            assert(collisions_resolved(
                mid_self, mid_game, resolved_self, resolved_game,
                removals.0@, removals.1@));
            assert(pickup_applied(resolved_self, picked_self));
            assert(delivery_applied(picked_self, resolved_game, delivered_self, delivered_game));
            assert(removals_and_completion(
                delivered_self, delivered_game, removals.0@, removals.1@, *self, *game));
            assert(spec_run_frame(*old(self), *old(game), *self, *game, now_ms));
        }
    }

        /// One frame of the whole game, dispatched on the phase: the waiting
    /// phases reset the round each frame; the dying phase plays the player's
    /// shatter out and then settles into `Dead`, or `Over` when no lives
    /// remain; the dead phase clears the transient enemies and lasers; the
    /// running phase simulates (see `run_frame`).
    pub fn frame(&mut self, game: &mut Game, now_ms: u64)
        requires
            old(self).wf(),
            old(game).wf(),
        ensures
            final(self).wf(),
            final(game).wf(),
            (old(game).state == GameState::Starting || old(game).state == GameState::Over
                || old(game).state == GameState::LevelComplete) ==> {
                &&& round_reset_relation(*old(self), *final(self))
                &&& *final(game) == *old(game)
            },
            old(game).state == GameState::Dead ==> {
                &&& final(self).enemies.enemies@ == Seq::<Enemy>::empty()
                &&& final(self).enemies == (Enemies {
                    enemies: final(self).enemies.enemies,
                    state: EnemiesState::WaitingForSpawnPoints,
                    ..old(self).enemies
                })
                &&& final(self).lasers.lasers@ == Seq::<Laser>::empty()
                &&& final(self).lasers == (Lasers {
                    lasers: final(self).lasers.lasers,
                    ..old(self).lasers
                })
                &&& final(self).black_holes == old(self).black_holes
                &&& final(self).planets == old(self).planets
                &&& final(self).player == old(self).player
                &&& *final(game) == *old(game)
            },
            old(game).state == GameState::Dying ==> {
                &&& final(self).player == crate::player::spec_player_update(
                    old(self).player, old(game).controller)
                &&& final(self).black_holes == old(self).black_holes
                &&& final(self).enemies == old(self).enemies
                &&& final(self).lasers == old(self).lasers
                &&& final(self).planets == old(self).planets
                &&& final(game).state == (if final(self).player.state == PlayerState::Dead {
                    if old(game).lives == 0 {
                        GameState::Over
                    } else {
                        GameState::Dead
                    }
                } else {
                    GameState::Dying
                })
                &&& *final(game) == (Game { state: final(game).state, ..*old(game) })
            },
            old(game).state == GameState::Running ==> {
                &&& spec_run_frame(
                    *old(self), *old(game), *final(self), *final(game), now_ms)
                &&& (final(game).state == GameState::LevelComplete
                    <==> spec_level_complete(final(self).black_holes.black_holes@))
                &&& (final(game).state == GameState::Running
                    || final(game).state == GameState::Dying
                    || final(game).state == GameState::LevelComplete)
                &&& final(game).score >= old(game).score
                &&& final(game).high_score == (if old(game).high_score >= final(game).score {
                    old(game).high_score as int
                } else {
                    final(game).score as int
                })
                &&& final(game).lives <= old(game).lives
                &&& (old(self).black_holes.black_holes@.len() > 0 ==> {
                    &&& final(self).black_holes.black_holes@.len()
                        == old(self).black_holes.black_holes@.len()
                    &&& forall|i: int| 0 <= i < old(self).black_holes.black_holes@.len()
                        ==> crate::black_hole::black_hole_state_step(
                            (#[trigger] old(self).black_holes.black_holes@[i]).state,
                            final(self).black_holes.black_holes@[i].state)
                })
                &&& (old(self).planets.planets@.len() > 0 ==> {
                    &&& final(self).planets.planets@.len() == old(self).planets.planets@.len()
                    &&& forall|i: int| 0 <= i < old(self).planets.planets@.len()
                        ==> crate::planets::planet_rank(
                            (#[trigger] old(self).planets.planets@[i]).state)
                            <= crate::planets::planet_rank(final(self).planets.planets@[i].state)
                            && (final(self).planets.planets@[i].state == PlanetState::NotTowed
                                ==> old(self).planets.planets@[i].state == PlanetState::NotTowed)
                })
            },
    {
        match game.state {
            GameState::Starting | GameState::Over | GameState::LevelComplete => {
                self.reset_round();
            },
            GameState::Dying => {
                self.player.update(game);
                if self.player.get_state() == PlayerState::Dead {
                    if game.lives == 0 {
                        game.state = GameState::Over;
                    } else {
                        game.state = GameState::Dead;
                    }
                }
            },
            GameState::Dead => {
                self.enemies.reset();
                self.lasers.reset();
            },
            GameState::Running => {
                self.run_frame(game, now_ms);
            },
        }
    }
}

} // verus!
