use planet_wrangler::black_hole::{BlackHole, BlackHoleState};
use planet_wrangler::enemy::{EnemiesState, Enemy, EnemyState};
use planet_wrangler::game::{Game, GameState};
use planet_wrangler::game_elements::GameElements;
use planet_wrangler::geometry::Rect;
use planet_wrangler::planets::{Planet, PlanetState};
use planet_wrangler::player::PlayerState;

fn world() -> (GameElements, Game) {
    let elements = GameElements::new(1000, 1000, 30, 30, 20, 20, 3, 4, 12, 40, 40, 24, 24, 3);
    let player_rect = elements.player.get_sprite().get_position();
    let game = Game::new(1000, 1000, player_rect);
    (elements, game)
}

#[test]
fn identities_are_never_reused() {
    let (mut elements, mut game) = world();
    game.state = GameState::Running;
    game.black_holes = vec![Rect::new(10, 10, 40, 40)];
    elements.enemies.state = EnemiesState::Running;
    // two spawns, far enough apart for the cooldown
    elements.enemies.update(&game, 1000);
    elements.enemies.update(&game, 2000);
    assert_eq!(elements.enemies.get_enemies().len(), 2);
    let first = elements.enemies.get_enemies()[0].get_sprite().get_id();
    let second = elements.enemies.get_enemies()[1].get_sprite().get_id();
    assert_ne!(first, second);
    // retire the first, spawn another: the retired identity does not return
    elements.enemies.remove(first);
    elements.enemies.update(&game, 3000);
    assert_eq!(elements.enemies.get_enemies().len(), 2);
    let third = elements.enemies.get_enemies()[1].get_sprite().get_id();
    assert_ne!(third, first);
    assert_ne!(third, second);
}

#[test]
fn covered_black_hole_never_reopens() {
    let (mut elements, mut game) = world();
    elements.black_holes.black_holes.push(BlackHole::new(0, &Rect::new(5, 5, 40, 40), 0));
    elements.black_holes.next_id = 1;
    elements.black_holes.cover(0);
    assert_eq!(elements.black_holes.get_black_holes()[0].get_state(), BlackHoleState::Covered);
    // rotation frames later, it is still covered
    game.state = GameState::Running;
    elements.black_holes.update(&game, 1000);
    elements.black_holes.update(&game, 2000);
    assert_eq!(elements.black_holes.get_black_holes()[0].get_state(), BlackHoleState::Covered);
}

#[test]
fn planet_walks_the_tow_chain_in_order() {
    let mut p = Planet::new(0, 100, 100, 0, 24, 24);
    assert_eq!(p.get_state(), PlanetState::NotTowed);
    p.towed();
    assert_eq!(p.get_state(), PlanetState::Towed);
    p.in_place(Rect::new(7, 9, 40, 40));
    assert_eq!(p.get_state(), PlanetState::InPlace);
    let s = p.get_sprite();
    assert_eq!((s.x, s.y), (7, 9));
}

#[test]
fn level_completes_exactly_when_all_holes_cover() {
    let (mut elements, mut game) = world();
    game.state = GameState::Running;
    elements.black_holes.black_holes.push(BlackHole::new(0, &Rect::new(5, 5, 40, 40), 0));
    elements.black_holes.black_holes.push(BlackHole::new(1, &Rect::new(200, 200, 40, 40), 0));
    elements.black_holes.next_id = 2;
    elements.black_holes.cover(0);
    elements.run_frame(&mut game, 10);
    // one hole still open: not complete
    assert_ne!(game.state, GameState::LevelComplete);
    elements.black_holes.cover(1);
    game.state = GameState::Running;
    elements.run_frame(&mut game, 20);
    assert_eq!(game.state, GameState::LevelComplete);
}

#[test]
fn level_does_not_complete_without_holes_after_a_round_reset() {
    let (mut elements, mut game) = world();
    // an empty set of holes is not a complete level; the frame spawns the
    // level's holes instead, all open
    game.state = GameState::Running;
    elements.run_frame(&mut game, 10);
    assert_ne!(game.state, GameState::LevelComplete);
    assert_eq!(elements.black_holes.get_black_holes().len(), 3);
    for h in elements.black_holes.get_black_holes().iter() {
        assert_eq!(h.get_state(), BlackHoleState::Open);
    }
}

#[test]
fn spawned_holes_land_inside_the_playfield() {
    // also exercises the random draw: a draw at or past the bound would
    // place a hole outside the playfield
    for _ in 0..20 {
        let (mut elements, mut game) = world();
        game.state = GameState::Running;
        game.black_hole_count = 7;
        elements.black_holes.update(&game, 5);
        let holes = elements.black_holes.get_black_holes();
        assert_eq!(holes.len(), 7);
        for h in holes.iter() {
            let s = h.get_sprite();
            assert!(0 <= s.x && s.x < 1000);
            assert!(0 <= s.y && s.y < 1000);
        }
    }
}

#[test]
fn spawned_holes_avoid_the_player_zone_or_stand_at_the_fallback() {
    for _ in 0..20 {
        let (mut elements, mut game) = world();
        game.state = GameState::Running;
        game.black_hole_count = 5;
        elements.black_holes.update(&game, 5);
        let fallback = planet_wrangler::geometry::opposite_corner(game.player, 40, 40, 1000, 1000);
        for h in elements.black_holes.get_black_holes().iter() {
            let r = h.get_sprite().get_position();
            assert!(!r.has_intersection(game.player) || r == fallback);
        }
    }
}

#[test]
fn fallback_corner_is_opposite_the_obstacle() {
    let centre_zone = Rect::new(485, 485, 30, 30);
    let corner = planet_wrangler::geometry::opposite_corner(centre_zone, 40, 40, 1000, 1000);
    assert_eq!((corner.x, corner.y, corner.w, corner.h), (999, 999, 40, 40));
    let top_left_zone = Rect::new(600, 10, 30, 30);
    let corner2 = planet_wrangler::geometry::opposite_corner(top_left_zone, 40, 40, 1000, 1000);
    assert_eq!((corner2.x, corner2.y), (0, 999));
}

#[test]
fn zero_stick_input_leaves_player_in_place() {
    let (mut elements, mut game) = world();
    game.state = GameState::Running;
    elements.player.sprite.x = 500;
    elements.player.sprite.y = 500;
    elements.frame(&mut game, 16);
    let s = elements.player.get_sprite();
    assert_eq!((s.x, s.y), (500, 500));
}

#[test]
fn stick_deflection_moves_and_clamps_player() {
    let (mut elements, mut game) = world();
    game.state = GameState::Running;
    elements.player.sprite.x = 995;
    elements.player.sprite.y = 3;
    game.controller.update(0, 10);
    game.controller.update(1, -10);
    elements.player.update(&game);
    let s = elements.player.get_sprite();
    // clamped to the window on both axes
    assert_eq!((s.x, s.y), (1000, 0));
}

#[test]
fn enemy_contact_with_last_life_ends_in_over_not_dead() {
    let (mut elements, mut game) = world();
    game.state = GameState::Running;
    game.lives = 1;
    elements.player.sprite.x = 95;
    elements.player.sprite.y = 95;
    elements.player.sprite.width = 30;
    elements.player.sprite.height = 30;
    elements.enemies.enemies.push(Enemy::new(0, 100, 100, 20, 20, 3, 0));
    elements.enemies.next_id = 1;
    let (enemy_ids, laser_ids) = elements.resolve_enemy_collisions(&mut game);
    assert_eq!(game.lives, 0);
    assert_eq!(game.state, GameState::Dying);
    assert_eq!(elements.player.get_state(), PlayerState::Dying);
    assert_eq!(enemy_ids, vec![0]);
    assert!(laser_ids.is_empty());
    // the death animation plays out, then the game is over (not merely dead)
    let mut ticks: u64 = 0;
    while elements.player.get_state() != PlayerState::Dead && ticks < 5000 {
        elements.frame(&mut game, ticks);
        ticks += 1;
    }
    assert_eq!(elements.player.get_state(), PlayerState::Dead);
    assert_eq!(game.state, GameState::Over);
}

#[test]
fn enemy_contact_with_spare_lives_ends_in_dead() {
    let (mut elements, mut game) = world();
    game.state = GameState::Running;
    game.lives = 3;
    elements.player.sprite.x = 95;
    elements.player.sprite.y = 95;
    elements.enemies.enemies.push(Enemy::new(0, 100, 100, 20, 20, 3, 0));
    elements.enemies.next_id = 1;
    elements.resolve_enemy_collisions(&mut game);
    assert_eq!(game.lives, 2);
    let mut ticks: u64 = 0;
    while elements.player.get_state() != PlayerState::Dead && ticks < 5000 {
        elements.frame(&mut game, ticks);
        ticks += 1;
    }
    assert_eq!(game.state, GameState::Dead);
}

#[test]
fn laser_hit_scores_and_retires_enemy_and_laser() {
    let (mut elements, mut game) = world();
    game.state = GameState::Running;
    game.controller.update(2, 10);
    elements.player.sprite.x = 200;
    elements.player.sprite.y = 200;
    // an enemy away from the player
    elements.enemies.enemies.push(Enemy::new(0, 600, 600, 20, 20, 3, 0));
    elements.enemies.next_id = 1;
    elements.enemies.state = EnemiesState::Running;
    // fire a laser and park it on the enemy
    let ctx = planet_wrangler::game_context::GameContext::new(
        &game.controller, Rect::new(600, 600, 4, 12), 1000, 1000, Vec::new());
    elements.lasers.update(&ctx, 200);
    assert_eq!(elements.lasers.get_lasers().len(), 1);
    let (enemy_ids, laser_ids) = elements.resolve_enemy_collisions(&mut game);
    assert_eq!(game.score, 10);
    assert_eq!(game.high_score, 10);
    assert_eq!(elements.enemies.get_enemies()[0].get_state(), EnemyState::Dying);
    assert!(enemy_ids.is_empty());
    assert_eq!(laser_ids.len(), 1);
    elements.lasers.remove_ids(&laser_ids);
    assert!(elements.lasers.get_lasers().is_empty());
}

#[test]
fn pickup_tows_the_first_touching_planet() {
    let (mut elements, _game) = world();
    elements.player.sprite.x = 300;
    elements.player.sprite.y = 300;
    elements.planets.planets.push(Planet::new(0, 50, 50, 0, 24, 24));
    elements.planets.planets.push(Planet::new(1, 310, 310, 1, 24, 24));
    elements.planets.next_id = 2;
    elements.resolve_planet_pickup();
    assert_eq!(elements.player.get_state(), PlayerState::Towing);
    assert_eq!(elements.planets.get_planets()[0].get_state(), PlanetState::NotTowed);
    assert_eq!(elements.planets.get_planets()[1].get_state(), PlanetState::Towed);
}

#[test]
fn delivery_covers_hole_scores_hundred_and_frees_player() {
    let (mut elements, mut game) = world();
    game.state = GameState::Running;
    game.score = 40;
    game.high_score = 70;
    elements.black_holes.black_holes.push(BlackHole::new(0, &Rect::new(500, 500, 40, 40), 0));
    elements.black_holes.next_id = 1;
    let mut planet = Planet::new(0, 505, 505, 0, 24, 24);
    planet.towed();
    elements.planets.planets.push(planet);
    elements.planets.next_id = 1;
    elements.player.towing();
    elements.resolve_planet_delivery(&mut game);
    assert_eq!(game.score, 140);
    assert_eq!(game.high_score, 140);
    assert_eq!(elements.player.get_state(), PlayerState::NotTowing);
    let hole = elements.black_holes.get_black_holes()[0];
    assert_eq!(hole.get_state(), BlackHoleState::Covered);
    let delivered = elements.planets.get_planets()[0];
    assert_eq!(delivered.get_state(), PlanetState::InPlace);
    assert_eq!((delivered.get_sprite().x, delivered.get_sprite().y), (500, 500));
}

#[test]
fn towed_planet_follows_player_each_frame() {
    let (mut elements, _game) = world();
    let mut planet = Planet::new(0, 50, 50, 0, 24, 24);
    planet.towed();
    elements.planets.planets.push(planet);
    elements.planets.next_id = 1;
    let ctx = planet_wrangler::game_context::GameContext::new(
        &planet_wrangler::controller::Controller::new(1000, 1000),
        Rect::new(700, 800, 30, 30), 1000, 1000, Vec::new());
    elements.planets.update(&ctx);
    let s = elements.planets.get_planets()[0].get_sprite();
    assert_eq!((s.x, s.y), (700, 800));
}

#[test]
fn repeated_reset_in_over_state_changes_nothing_further() {
    let (mut elements, mut game) = world();
    game.state = GameState::Over;
    game.score = 120;
    game.high_score = 300;
    game.lives = 0;
    elements.frame(&mut game, 10);
    let player_once = elements.player.get_sprite();
    let score_once = game.score;
    let lives_once = game.lives;
    elements.frame(&mut game, 20);
    // the second idle reset leaves everything where the first put it
    assert_eq!(elements.player.get_sprite(), player_once);
    assert_eq!(game.score, score_once);
    assert_eq!(game.lives, lives_once);
    assert_eq!(game.score, 120);
    assert_eq!(game.lives, 0);
    assert_eq!(game.high_score, 300);
    assert!(elements.enemies.get_enemies().is_empty());
    assert!(elements.planets.get_planets().is_empty());
    assert!(elements.black_holes.get_black_holes().is_empty());
    assert!(elements.lasers.get_lasers().is_empty());
    assert_eq!(game.state, GameState::Over);
}

#[test]
fn confirm_after_game_over_starts_a_fresh_run() {
    let (mut elements, mut game) = world();
    game.state = GameState::Over;
    game.score = 500;
    game.high_score = 900;
    game.lives = 0;
    game.black_hole_count = 6;
    elements.handle_button_release(&mut game);
    assert_eq!(game.state, GameState::Running);
    assert_eq!(game.score, 0);
    assert_eq!(game.lives, 3);
    assert_eq!(game.black_hole_count, 3);
    // the high score survives the restart
    assert_eq!(game.high_score, 900);
}

#[test]
fn confirm_after_level_complete_grows_the_next_level() {
    let (mut elements, mut game) = world();
    game.state = GameState::LevelComplete;
    game.score = 500;
    game.lives = 2;
    game.high_score = 500;
    game.black_hole_count = 4;
    // a towed planet is dropped on the way out
    let mut planet = Planet::new(0, 50, 50, 0, 24, 24);
    planet.towed();
    elements.planets.planets.push(planet);
    elements.planets.next_id = 1;
    elements.player.towing();
    elements.handle_button_release(&mut game);
    assert_eq!(game.state, GameState::Running);
    assert_eq!(game.black_hole_count, 5);
    assert_eq!(game.score, 500);
    assert_eq!(game.lives, 2);
    assert_eq!(elements.planets.get_planets()[0].get_state(), PlanetState::NotTowed);
    assert_eq!(elements.player.get_state(), PlayerState::NotTowing);
}

#[test]
fn black_holes_rotate_on_their_cadence() {
    let (mut elements, mut game) = world();
    game.state = GameState::Running;
    elements.black_holes.black_holes.push(BlackHole::new(0, &Rect::new(5, 5, 40, 40), 0));
    elements.black_holes.next_id = 1;
    // within the cadence interval: no turn yet
    elements.black_holes.update(&game, 200);
    assert_eq!(elements.black_holes.get_black_holes()[0].get_sprite().degrees, 0);
    elements.black_holes.update(&game, 300);
    assert_eq!(elements.black_holes.get_black_holes()[0].get_sprite().degrees, 10);
    elements.black_holes.update(&game, 600);
    assert_eq!(elements.black_holes.get_black_holes()[0].get_sprite().degrees, 20);
}

#[test]
fn enemy_chases_the_player_one_pixel_per_axis() {
    let (mut elements, mut game) = world();
    game.state = GameState::Running;
    game.player = Rect::new(100, 40, 30, 30);
    elements.enemies.enemies.push(Enemy::new(0, 50, 80, 20, 20, 3, 0));
    elements.enemies.next_id = 1;
    elements.enemies.state = EnemiesState::Running;
    elements.enemies.update(&game, 1);
    let s = elements.enemies.get_enemies()[0].get_sprite();
    assert_eq!((s.x, s.y), (51, 79));
}

#[test]
fn enemy_spawner_waits_for_spawn_points_then_a_grace_period() {
    let (mut elements, mut game) = world();
    game.state = GameState::Running;
    // no spawn points yet: nothing happens
    elements.enemies.update(&game, 1000);
    assert_eq!(elements.enemies.state, EnemiesState::WaitingForSpawnPoints);
    // spawn points appear: the grace period starts
    game.black_holes = vec![Rect::new(10, 10, 40, 40)];
    elements.enemies.update(&game, 2000);
    assert_eq!(elements.enemies.state, EnemiesState::WaitingToSpawn);
    assert!(elements.enemies.get_enemies().is_empty());
    elements.enemies.update(&game, 3000);
    assert_eq!(elements.enemies.state, EnemiesState::WaitingToSpawn);
    elements.enemies.update(&game, 4100);
    assert_eq!(elements.enemies.state, EnemiesState::Running);
    assert!(elements.enemies.get_enemies().is_empty());
    // and only now do enemies appear
    elements.enemies.update(&game, 4200);
    assert_eq!(elements.enemies.get_enemies().len(), 1);
}

#[test]
fn laser_population_is_capped() {
    let (mut elements, _game) = world();
    let mut c = planet_wrangler::controller::Controller::new(1000, 1000);
    c.update(2, 10);
    let ctx = planet_wrangler::game_context::GameContext::new(
        &c, Rect::new(500, 500, 4, 12), 1000, 1000, Vec::new());
    for i in 1..=12u64 {
        elements.lasers.update(&ctx, i * 200);
    }
    assert_eq!(elements.lasers.get_lasers().len(), 10);
}

#[test]
fn laser_fire_rate_is_limited() {
    let (mut elements, _game) = world();
    let mut c = planet_wrangler::controller::Controller::new(1000, 1000);
    c.update(2, 10);
    let ctx = planet_wrangler::game_context::GameContext::new(
        &c, Rect::new(500, 500, 4, 12), 1000, 1000, Vec::new());
    elements.lasers.update(&ctx, 200);
    assert_eq!(elements.lasers.get_lasers().len(), 1);
    // too soon: within the cooldown nothing fires
    elements.lasers.update(&ctx, 250);
    assert_eq!(elements.lasers.get_lasers().len(), 1);
    elements.lasers.update(&ctx, 301);
    assert_eq!(elements.lasers.get_lasers().len(), 2);
}

#[test]
fn score_is_monotone_and_high_score_is_the_running_max() {
    let (mut elements, mut game) = world();
    game.state = GameState::Running;
    game.score = 0;
    game.high_score = 0;
    let mut last_score = game.score;
    let mut now: u64 = 0;
    for _ in 0..50 {
        now += 16;
        elements.frame(&mut game, now);
        assert!(game.score >= last_score);
        assert!(game.high_score >= game.score);
        last_score = game.score;
        if game.state != GameState::Running {
            break;
        }
    }
}
