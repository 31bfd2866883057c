use boids::boid::Boid;
use boids::config::{Config, Point};

fn boid(x: i32, y: i32, dx: i32, dy: i32) -> Boid {
    Boid { x, y, dx, dy, color: [200, 200, 200, 128] }
}

#[test]
fn walls_cancel_between_the_margins() {
    let cfg = Config::default();
    let mut a = boid(640_000, 360_000, 1_000, -2_000);
    a.keep_within_bounds(None, &cfg);
    assert_eq!(a, boid(640_000, 360_000, 1_000, -2_000));
    let mut b = boid(40_001, 679_999, 1_000, -2_000);
    b.keep_within_bounds(None, &cfg);
    assert_eq!((b.dx, b.dy), (1_000, -2_000));
}

#[test]
fn boundary_impulse_is_the_whole_turn_factor() {
    let cfg = Config::default();
    let mut a = boid(cfg.edge_buffer as i32 - 1, 360_000, 1_000, 0);
    a.keep_within_bounds(None, &cfg);
    assert_eq!(a.dx, 1_000 + cfg.turn_factor as i32);
    assert_eq!(a.dy, 0);
}

#[test]
fn boid_at_rest_just_inside_the_near_margin_gains_the_turn_factor() {
    let cfg = Config::default();
    let mut a = boid(39_000, 100_000, 0, 0);
    a.keep_within_bounds(Some(Point { x: 1_000_000, y: 600_000 }), &cfg);
    assert_eq!(a, boid(39_000, 100_000, 16_000, 0));
}

#[test]
fn boid_at_rest_past_the_far_margin_loses_the_turn_factor() {
    let cfg = Config::default();
    let mut a = boid(1_241_000, 100_000, 0, 0);
    a.keep_within_bounds(Some(Point { x: 100_000, y: 600_000 }), &cfg);
    assert_eq!(a, boid(1_241_000, 100_000, -16_000, 0));
    let mut b = boid(100_000, 700_000, 0, 0);
    b.keep_within_bounds(Some(Point { x: 1_000_000, y: 100_000 }), &cfg);
    assert_eq!(b, boid(100_000, 700_000, 0, -16_000));
}

#[test]
fn pushed_axis_is_not_damped() {
    let cfg = Config::default();
    let mut a = boid(39_999, 360_000, 1_000, 500);
    a.keep_within_bounds(None, &cfg);
    assert_eq!((a.dx, a.dy), (17_000, 500));
    let mut b = boid(640_000, 39_999, 500, 1_000);
    b.keep_within_bounds(None, &cfg);
    assert_eq!((b.dx, b.dy), (500, 17_000));
}

#[test]
fn pushed_axis_ignores_the_damping_gain() {
    let mut gain: u16 = 0;
    loop {
        let cfg = Config { damping: gain, ..Config::default() };
        let mut a = boid(39_999, 700_000, 1_000, -1_000);
        a.keep_within_bounds(None, &cfg);
        assert_eq!((a.dx, a.dy), (17_000, -17_000));
        if gain == 65_000 {
            break;
        }
        gain += 500;
    }
}

#[test]
fn far_wall_pushes_back() {
    let cfg = Config::default();
    let mut a = boid(1_250_000, 700_000, 1_000, -1_000);
    a.keep_within_bounds(None, &cfg);
    assert_eq!((a.dx, a.dy), (-15_000, -17_000));
}

#[test]
fn margins_themselves_count_as_outside() {
    let cfg = Config::default();
    let mut a = boid(40_000, 680_000, 0, 0);
    a.keep_within_bounds(None, &cfg);
    assert_eq!((a.dx, a.dy), (16_000, -16_000));
    let mut b = boid(1_240_000, 40_000, 0, 0);
    b.keep_within_bounds(None, &cfg);
    assert_eq!((b.dx, b.dy), (-16_000, 16_000));
}

#[test]
fn boids_outside_the_world_are_pushed_back_in() {
    let cfg = Config::default();
    let mut a = boid(-5_000, 800_000, -100, 100);
    a.keep_within_bounds(None, &cfg);
    assert_eq!((a.dx, a.dy), (15_900, -15_900));
}

#[test]
fn narrow_world_damps_the_band_where_no_wall_pushes() {
    let cfg = Config { width: 50_000, height: 50_000, damping: 800, ..Config::default() };
    let mut a = boid(20_000, 39_999, 1_000, -1_000);
    a.keep_within_bounds(None, &cfg);
    assert_eq!((a.dx, a.dy), (800, -800));
    let mut edges = boid(10_000, 40_000, 1_000, -1_001);
    edges.keep_within_bounds(None, &cfg);
    assert_eq!((edges.dx, edges.dy), (800, -800));
    let mut b = boid(9_999, 40_001, 1_000, -1_000);
    b.keep_within_bounds(None, &cfg);
    assert_eq!((b.dx, b.dy), (17_000, -17_000));
}

#[test]
fn standard_damping_leaves_the_unpushed_band_alone() {
    let cfg = Config { width: 50_000, height: 50_000, ..Config::default() };
    assert_eq!(cfg.damping, 1000);
    let mut a = boid(20_000, 39_999, 1_000, -1_000);
    a.keep_within_bounds(None, &cfg);
    assert_eq!((a.dx, a.dy), (1_000, -1_000));
}

#[test]
fn world_of_exactly_two_margins_damps_only_on_the_shared_margin() {
    let cfg = Config { width: 80_000, height: 80_000, damping: 800, ..Config::default() };
    let mut a = boid(40_000, 40_001, 1_000, 1_000);
    a.keep_within_bounds(None, &cfg);
    assert_eq!((a.dx, a.dy), (800, 1_000 - 16_000));
    let mut b = boid(39_999, 40_000, 1_000, 1_000);
    b.keep_within_bounds(None, &cfg);
    assert_eq!((b.dx, b.dy), (17_000, 800));
}

#[test]
fn repulsion_pushes_directly_away_from_a_near_point() {
    let cfg = Config::default();
    let mut a = boid(650_000, 355_000, 100, 200);
    a.keep_within_bounds(Some(Point { x: 640_000, y: 360_000 }), &cfg);
    assert_eq!((a.dx, a.dy), (10_100, -4_800));
}

#[test]
fn repulsion_scales_with_its_gain() {
    let cfg = Config { repulsion_factor: 700, ..Config::default() };
    let mut a = boid(650_000, 355_000, 100, 200);
    a.keep_within_bounds(Some(Point { x: 640_000, y: 360_000 }), &cfg);
    assert_eq!((a.dx, a.dy), (7_100, -3_300));
}

#[test]
fn repulsion_stops_at_its_radius() {
    let cfg = Config::default();
    let mut a = boid(660_000, 360_000, 100, 200);
    a.keep_within_bounds(Some(Point { x: 640_000, y: 360_000 }), &cfg);
    assert_eq!((a.dx, a.dy), (100, 200));
    let mut b = boid(659_999, 360_000, 100, 200);
    b.keep_within_bounds(Some(Point { x: 640_000, y: 360_000 }), &cfg);
    assert_eq!((b.dx, b.dy), (20_099, 200));
}

#[test]
fn repulsion_is_skipped_without_a_point() {
    let cfg = Config::default();
    let mut a = boid(640_000, 360_000, 100, 200);
    a.keep_within_bounds(None, &cfg);
    assert_eq!((a.dx, a.dy), (100, 200));
    let mut b = boid(640_000, 360_000, 100, 200);
    b.keep_within_bounds(Some(Point { x: 640_000, y: 360_000 }), &cfg);
    assert_eq!((b.dx, b.dy), (100, 200));
}

#[test]
fn repulsion_adds_to_the_push_of_a_wall() {
    let cfg = Config::default();
    let mut a = boid(30_000, 360_000, 1_000, 0);
    a.keep_within_bounds(Some(Point { x: 25_000, y: 360_000 }), &cfg);
    assert_eq!((a.dx, a.dy), (17_000 + 5_000, 0));
}

#[test]
fn repulsion_adds_to_a_damped_velocity() {
    let cfg = Config { width: 50_000, height: 50_000, damping: 800, ..Config::default() };
    let mut a = boid(20_000, 30_000, 1_000, -1_000);
    a.keep_within_bounds(Some(Point { x: 15_000, y: 33_000 }), &cfg);
    assert_eq!((a.dx, a.dy), (800 + 5_000, -800 - 3_000));
}

#[test]
fn containment_saturates_at_the_coordinate_range() {
    let cfg = Config { turn_factor: u32::MAX, ..Config::default() };
    let mut a = boid(0, 2_000_000, i32::MAX, i32::MIN);
    a.keep_within_bounds(None, &cfg);
    assert_eq!((a.dx, a.dy), (i32::MAX, i32::MIN));
    let narrow = Config { width: 0, height: 0, damping: 65_535, ..Config::default() };
    let mut b = boid(0, 40_000, i32::MAX, i32::MIN);
    b.keep_within_bounds(None, &narrow);
    assert_eq!((b.dx, b.dy), (i32::MAX, i32::MIN));
}
