use boids::boid::Boid;
use boids::config::{Config, Point};
use boids::flock::step;
use boids::state::{Keys, PlayState, State};

const NONE: Keys = Keys { space: false, p: false, r: false };
const SPACE: Keys = Keys { space: true, p: false, r: false };
const P: Keys = Keys { space: false, p: true, r: false };
const R: Keys = Keys { space: false, p: false, r: true };

fn boid(x: i32, y: i32, dx: i32, dy: i32) -> Boid {
    Boid { x, y, dx, dy, color: [200, 180, 160, 128] }
}

fn fresh() -> Vec<Boid> {
    vec![boid(600_000, 300_000, 120_000, -80_000), boid(610_000, 305_000, -50_000, 30_000)]
}

fn playing() -> State {
    let mut s = State::new(Config::default());
    s.update_with(16, SPACE, None, fresh());
    s
}

#[test]
fn new_run_is_in_setup_without_population() {
    let s = State::new(Config::default());
    assert_eq!(s.state, PlayState::Setup);
    assert_eq!(s.dt, 0);
    assert!(s.boids.is_empty());
    assert_eq!(s.cfg, Config::default());
}

#[test]
fn setup_waits_for_space() {
    let mut s = State::new(Config::default());
    s.update(16, NONE, None);
    assert_eq!(s.state, PlayState::Setup);
    assert!(s.boids.is_empty());
    s.update(16, P, None);
    assert_eq!(s.state, PlayState::Setup);
    s.update(17, R, None);
    assert_eq!(s.state, PlayState::Setup);
    assert!(s.boids.is_empty());
    assert_eq!(s.dt, 17);
}

#[test]
fn space_starts_the_run_with_a_new_population() {
    let cfg = Config { population: 64, ..Config::default() };
    let mut s = State::new(cfg);
    s.update(16, SPACE, Some(Point { x: 0, y: 0 }));
    assert_eq!(s.state, PlayState::Play);
    assert_eq!(s.boids.len(), 64);
    for b in &s.boids {
        assert!(320_000 <= b.x && b.x < 960_000);
        assert!(180_000 <= b.y && b.y < 540_000);
        assert!(-200_000 <= b.dx && b.dx < 200_000);
        assert!(-200_000 <= b.dy && b.dy < 200_000);
        assert!(b.color[0] >= 128 && b.color[1] >= 128 && b.color[2] >= 128);
        assert_eq!(b.color[3], 128);
    }
    assert_eq!(s.cfg, cfg);
}

#[test]
fn start_takes_the_given_population_unmoved() {
    let s = playing();
    assert_eq!(s.state, PlayState::Play);
    assert_eq!(s.boids, fresh());
    assert_eq!(s.dt, 16);
}

#[test]
fn setup_without_space_drops_the_given_population() {
    let mut s = State::new(Config::default());
    s.update_with(16, R, None, fresh());
    assert_eq!(s.state, PlayState::Setup);
    assert!(s.boids.is_empty());
}

#[test]
fn play_steps_the_population_every_frame() {
    let mut s = playing();
    let cursor = Some(Point { x: 605_000, y: 300_000 });
    s.update(20, NONE, cursor);
    let once = step(&fresh(), 20, cursor, &Config::default());
    assert_eq!(s.state, PlayState::Play);
    assert_eq!(s.boids, once);
    assert_eq!(s.dt, 20);
    s.update(16, SPACE, None);
    assert_eq!(s.state, PlayState::Play);
    assert_eq!(s.boids, step(&once, 16, None, &Config::default()));
}

#[test]
fn p_pauses_after_one_last_step() {
    let mut s = playing();
    s.update(16, P, None);
    assert_eq!(s.state, PlayState::Pause);
    assert_eq!(s.boids, step(&fresh(), 16, None, &Config::default()));
}

#[test]
fn pause_wins_over_reset_while_playing() {
    let mut s = playing();
    s.update(16, Keys { space: true, p: true, r: true }, None);
    assert_eq!(s.state, PlayState::Pause);
}

#[test]
fn pause_freezes_the_population() {
    let mut s = playing();
    s.update(16, P, None);
    let frozen = s.boids.clone();
    s.update(500, NONE, Some(Point { x: 600_000, y: 300_000 }));
    assert_eq!(s.state, PlayState::Pause);
    assert_eq!(s.boids, frozen);
    s.update(500, P, None);
    assert_eq!(s.state, PlayState::Pause);
    assert_eq!(s.boids, frozen);
    assert_eq!(s.dt, 500);
}

#[test]
fn space_resumes_a_paused_run_where_it_stood() {
    let mut s = playing();
    s.update(16, P, None);
    let frozen = s.boids.clone();
    s.update(16, Keys { space: true, p: false, r: true }, None);
    assert_eq!(s.state, PlayState::Play);
    assert_eq!(s.boids, frozen);
    s.update(16, NONE, None);
    assert_eq!(s.boids, step(&frozen, 16, None, &Config::default()));
}

#[test]
fn r_resets_a_paused_run() {
    let mut s = playing();
    s.update(16, P, None);
    let frozen = s.boids.clone();
    s.update(16, R, None);
    assert_eq!(s.state, PlayState::Setup);
    assert_eq!(s.boids, frozen);
    s.update(16, NONE, None);
    assert_eq!(s.state, PlayState::Setup);
    assert!(s.boids.is_empty());
}

#[test]
fn r_resets_a_playing_run() {
    let mut s = playing();
    s.update(16, R, None);
    assert_eq!(s.state, PlayState::Setup);
    assert_eq!(s.boids, step(&fresh(), 16, None, &Config::default()));
    s.update(16, NONE, None);
    assert!(s.boids.is_empty());
}

#[test]
fn reset_then_start_replaces_the_whole_population() {
    let mut s = playing();
    s.update(16, R, None);
    let other = vec![boid(1, 2, 3, 4)];
    s.update_with(16, SPACE, None, other.clone());
    assert_eq!(s.state, PlayState::Play);
    assert_eq!(s.boids, other);
}

#[test]
fn given_population_is_ignored_outside_setup() {
    let mut s = playing();
    s.update_with(16, NONE, None, vec![boid(1, 2, 3, 4)]);
    assert_eq!(s.boids, step(&fresh(), 16, None, &Config::default()));
    s.update_with(16, P, None, vec![boid(1, 2, 3, 4)]);
    let frozen = s.boids.clone();
    s.update_with(16, NONE, None, vec![boid(1, 2, 3, 4)]);
    assert_eq!(s.boids, frozen);
}
