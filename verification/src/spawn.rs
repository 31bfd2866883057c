//! Creation of boids at random places of the world.

use vstd::prelude::*;
use crate::boid::Boid;
use crate::config::Config;
use crate::fixed::{lemma_product_bound, saturate, saturate_i32};

verus! {

/// The seven random draws that decide one new boid. Each stands for the
/// fraction `draw / 2^32` of a range.
#[derive(Clone, Copy, Debug, PartialEq, Eq, Structural)]
pub struct Samples {
    pub x: u32,
    pub y: u32,
    pub dx: u32,
    pub dy: u32,
    pub red: u32,
    pub green: u32,
    pub blue: u32,
}

/// The fraction `sample / 2^32` of `span`, rounded down: a value from zero
/// up to, but not reaching, a positive `span`.
pub open spec fn fraction_of(sample: u32, span: int) -> int {
    (sample * span) / 0x1_0000_0000
}

/// A colour channel of a new boid, in the upper half of its range.
pub open spec fn pastel(sample: u32) -> int {
    128 + fraction_of(sample, 128)
}

/// The boid that the given draws decide: placed in the central half of the
/// world along each axis, with each velocity component within half the speed
/// limit of zero, in a pastel colour at half opacity.
pub open spec fn spawned(cfg: Config, s: Samples) -> Boid {
    Boid {
        x: saturate(cfg.width / 4 + fraction_of(s.x, cfg.width as int / 2)) as i32,
        y: saturate(cfg.height / 4 + fraction_of(s.y, cfg.height as int / 2)) as i32,
        dx: saturate(fraction_of(s.dx, cfg.speed_limit as int) - cfg.speed_limit / 2) as i32,
        dy: saturate(fraction_of(s.dy, cfg.speed_limit as int) - cfg.speed_limit / 2) as i32,
        color: [pastel(s.red) as u8, pastel(s.green) as u8, pastel(s.blue) as u8, 128u8],
    }
}

/// Some draws decide `b`.
pub open spec fn is_spawn(b: Boid, cfg: Config) -> bool {
    exists|s: Samples| b == spawned(cfg, s)
}

/// `b` lies in the central half of the world along each axis, each component
/// of its velocity is within half the speed limit of zero, and its colour is
/// pastel at half opacity.
pub open spec fn in_spawn_box(b: Boid, cfg: Config) -> bool {
    &&& saturate(cfg.width as int / 4) <= b.x <= saturate(cfg.width as int / 4 + cfg.width as int / 2)
    &&& saturate(cfg.height as int / 4) <= b.y <= saturate(
        cfg.height as int / 4 + cfg.height as int / 2,
    )
    &&& -(cfg.speed_limit as int / 2) <= b.dx <= saturate(
        cfg.speed_limit - cfg.speed_limit as int / 2,
    )
    &&& -(cfg.speed_limit as int / 2) <= b.dy <= saturate(
        cfg.speed_limit - cfg.speed_limit as int / 2,
    )
    &&& b.color[0] >= 128
    &&& b.color[1] >= 128
    &&& b.color[2] >= 128
    &&& b.color[3] == 128
}

/// A fraction of a span lies within the span.
pub proof fn lemma_fraction_within(sample: u32, span: int)
    by (nonlinear_arith)
    requires
        0 <= span,
    ensures
        0 <= fraction_of(sample, span) <= span,
        span > 0 ==> fraction_of(sample, span) < span,
{
}

/// Whatever the draws, a new boid lies in the spawn box.
pub proof fn lemma_spawn_in_box(b: Boid, cfg: Config)
    requires
        is_spawn(b, cfg),
    ensures
        in_spawn_box(b, cfg),
{
    let s = choose|s: Samples| b == spawned(cfg, s);
    lemma_fraction_within(s.x, cfg.width as int / 2);
    lemma_fraction_within(s.y, cfg.height as int / 2);
    lemma_fraction_within(s.dx, cfg.speed_limit as int);
    lemma_fraction_within(s.dy, cfg.speed_limit as int);
    lemma_fraction_within(s.red, 128);
    lemma_fraction_within(s.green, 128);
    lemma_fraction_within(s.blue, 128);
}

/// Takes the fraction `sample / 2^32` of a span.
fn take_fraction(sample: u32, span: u32) -> (r: u32)
    ensures
        r == fraction_of(sample, span as int),
        r <= span,
{
    proof {
        lemma_product_bound(sample as int, span as int, 0xffff_ffff, 0xffff_ffff);
        lemma_fraction_within(sample, span as int);
        assert(sample * span >= 0) by (nonlinear_arith)
            requires
                sample >= 0,
                span >= 0,
        ;
    }
    let wide: u64 = (sample as u64) * (span as u64);
    (wide / 0x1_0000_0000) as u32
}

/// Draws 32 random bits from the thread-local generator of `rand`, through
/// `rand::random`. Nothing is claimed of the value: every `u32` may come back.
/// The call gives up only where the operating system cannot seed the
/// generator.
#[verifier::external_body]
fn random_u32() -> (r: u32) {
    rand::random::<u32>()
}

/// Draws the seven samples of one new boid.
fn draw_samples() -> (s: Samples) {
    Samples {
        x: random_u32(),
        y: random_u32(),
        dx: random_u32(),
        dy: random_u32(),
        red: random_u32(),
        green: random_u32(),
        blue: random_u32(),
    }
}

impl Boid {
    /// The boid that the given draws decide.
    pub fn from_samples(cfg: &Config, s: Samples) -> (b: Boid)
        ensures
            b == spawned(*cfg, s),
    {
        let x: i128 = (cfg.width / 4) as i128 + take_fraction(s.x, cfg.width / 2) as i128;
        let y: i128 = (cfg.height / 4) as i128 + take_fraction(s.y, cfg.height / 2) as i128;
        let dx: i128 = take_fraction(s.dx, cfg.speed_limit) as i128 - (cfg.speed_limit / 2) as i128;
        let dy: i128 = take_fraction(s.dy, cfg.speed_limit) as i128 - (cfg.speed_limit / 2) as i128;
        let red: u32 = 128 + take_fraction(s.red, 128);
        let green: u32 = 128 + take_fraction(s.green, 128);
        let blue: u32 = 128 + take_fraction(s.blue, 128);
        proof {
            lemma_fraction_within(s.red, 128);
            lemma_fraction_within(s.green, 128);
            lemma_fraction_within(s.blue, 128);
        }
        let b = Boid {
            x: saturate_i32(x),
            y: saturate_i32(y),
            dx: saturate_i32(dx),
            dy: saturate_i32(dy),
            color: [red as u8, green as u8, blue as u8, 128u8],
        };
        assert(b.color == spawned(*cfg, s).color);
        b
    }

    /// A new boid at a random place of the central half of the world, with a
    /// random velocity and a random pastel colour.
    pub fn new(cfg: &Config) -> (b: Boid)
        ensures
            is_spawn(b, *cfg),
    {
        let s = draw_samples();
        Boid::from_samples(cfg, s)
    }
}

/// A population of `cfg.population` new boids.
pub fn get_boids(cfg: &Config) -> (boids: Vec<Boid>)
    ensures
        boids@.len() == cfg.population,
        forall|i: int| 0 <= i < boids@.len() ==> is_spawn(#[trigger] boids@[i], *cfg),
{
    let mut boids: Vec<Boid> = Vec::with_capacity(cfg.population);
    let mut i: usize = 0;
    while i < cfg.population
        invariant
            i <= cfg.population,
            boids@.len() == i,
            forall|k: int| 0 <= k < boids@.len() ==> is_spawn(#[trigger] boids@[k], *cfg),
        decreases cfg.population - i,
    {
        boids.push(Boid::new(cfg));
        i += 1;
    }
    boids
}

} // verus!
