use planet_wrangler::controller::{Controller, StickPosition, heading_degrees};
use planet_wrangler::game::update_score;
use planet_wrangler::game_sprite::GameSprite;
use planet_wrangler::geometry::Rect;
use planet_wrangler::laser::Laser;

#[test]
fn rectangles_overlap_when_boxes_cross() {
    let enemy = Rect::new(100, 100, 20, 20);
    let player = Rect::new(95, 95, 30, 30);
    assert!(enemy.has_intersection(player));
    assert!(player.has_intersection(enemy));
}

#[test]
fn rectangles_touching_edges_do_not_overlap() {
    let a = Rect::new(0, 0, 10, 10);
    let b = Rect::new(10, 0, 10, 10);
    assert!(!a.has_intersection(b));
    assert!(!b.has_intersection(a));
    let c = Rect::new(0, 10, 10, 10);
    assert!(!a.has_intersection(c));
}

#[test]
fn disjoint_rectangles_do_not_overlap() {
    let a = Rect::new(500, 5, 10, 10);
    let b = Rect::new(0, 0, 20, 20);
    assert!(!a.has_intersection(b));
    assert!(!b.has_intersection(a));
}

#[test]
fn update_score_adds_and_tracks_high_score() {
    assert_eq!(update_score(0, 0, 10), (10, 10));
    assert_eq!(update_score(10, 50, 10), (20, 50));
    assert_eq!(update_score(90, 50, 100), (190, 190));
}

#[test]
fn heading_is_exact_on_the_axes() {
    assert_eq!(heading_degrees(10, 0), 0);
    assert_eq!(heading_degrees(0, 10), 90);
    assert_eq!(heading_degrees(-10, 0), 180);
    assert_eq!(heading_degrees(0, -10), -90);
    assert_eq!(heading_degrees(0, 0), 0);
    assert_eq!(heading_degrees(7, 7), 45);
}

#[test]
fn stick_update_maps_deflection_onto_screen() {
    let mut stick = StickPosition::new(10, -10, 1000, 800);
    stick.update();
    assert_eq!(stick.get_screen_x(), 1000);
    assert_eq!(stick.get_screen_y(), 0);
    let mut centred = StickPosition::new(0, 0, 1000, 800);
    centred.update();
    assert_eq!(centred.get_screen_x(), 500);
    assert_eq!(centred.get_screen_y(), 400);
}

#[test]
fn controller_routes_axis_events() {
    let mut c = Controller::new(1000, 1000);
    c.update(0, 10);
    c.update(3, -5);
    assert_eq!(c.get_left_stick().get_x(), 10);
    assert_eq!(c.get_left_stick().get_y(), 0);
    assert_eq!(c.get_right_stick().get_y(), -5);
    assert_eq!(c.get_right_stick().get_x(), 0);
    // an unknown axis changes nothing
    c.update(9, 7);
    assert_eq!(c.get_left_stick().get_x(), 10);
    assert_eq!(c.get_right_stick().get_y(), -5);
}

#[test]
fn laser_fired_straight_up_keeps_x_and_descends() {
    // target directly above the muzzle: a vertical trajectory
    let mut laser = Laser::new(1, 90, 500, 500, 500, 100, 4, 12);
    assert!(laser.vertical);
    let mut last_y = laser.get_sprite().y;
    for _ in 0..50 {
        laser.update();
        let s = laser.get_sprite();
        assert_eq!(s.x, 500);
        assert!(s.y < last_y);
        last_y = s.y;
    }
    assert_eq!(last_y, 450);
}

#[test]
fn laser_fired_sideways_keeps_y() {
    let mut laser = Laser::new(2, 0, 100, 200, 300, 200, 4, 12);
    assert!(!laser.vertical);
    for _ in 0..10 {
        laser.update();
    }
    let s = laser.get_sprite();
    assert_eq!(s.y, 200);
    assert_eq!(s.x, 110);
}

#[test]
fn diagonal_laser_follows_its_line() {
    // aimed at (x+10, y+20): steeper than 45 degrees, so it steps along y
    let mut laser = Laser::new(3, 45, 0, 0, 10, 20, 4, 12);
    assert!(laser.vertical);
    for _ in 0..20 {
        laser.update();
    }
    let s = laser.get_sprite();
    assert_eq!(s.y, 20);
    assert_eq!(s.x, 10);
}

#[test]
fn laser_off_screen_detection() {
    let mut laser = Laser::new(4, 0, 2, 5, 2, 0, 4, 12);
    assert!(!laser.is_off_screen(100, 100));
    for _ in 0..10 {
        laser.update();
    }
    // it flew above the top edge
    assert!(laser.is_off_screen(100, 100));
}

#[test]
fn shatter_grows_until_it_covers_the_screen() {
    let mut s = GameSprite::new(7, 40, 40, 20, 20);
    s.shatter_start();
    assert_eq!(s.shatter_x, 40);
    assert_eq!(s.shatter_width, 20);
    let mut done = false;
    let mut ticks: u32 = 0;
    while !done && ticks < 1000 {
        done = s.shatter_update(1, 100, 100);
        ticks += 1;
    }
    assert!(done);
    // completion needs the box's corners past both screen corners
    assert!(s.shatter_x <= 0 && s.shatter_y <= 0);
    assert!(s.shatter_x as i64 + s.shatter_width as i64 >= 100);
    assert_eq!(ticks, 40);
}

#[test]
fn sprite_position_round_trip() {
    let mut s = GameSprite::new(9, 1, 2, 3, 4);
    assert_eq!(s.get_id(), 9);
    let r = s.get_position();
    assert_eq!((r.x, r.y, r.w, r.h), (1, 2, 3, 4));
    s.set_position(-5, 8);
    assert_eq!((s.x, s.y), (-5, 8));
}
