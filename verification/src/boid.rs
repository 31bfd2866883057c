//! One boid and the rules that steer it.
//!
//! Every rule reads the boid it steers and a flock, the population as it stood
//! when the frame began, and changes only the velocity of that one boid.

use vstd::prelude::*;
use crate::config::{Config, Point};
use crate::fixed::{
    ceil_sqrt, div_toward_zero, lemma_product_bound, lemma_sqrt_ceil_exists,
    lemma_trunc_div_bounds, saturate, saturate_i32, scale, scale_by, sqrt_ceil, trunc_div,
    wide_product,
};

verus! {

/// One of the two axes of the world.
#[derive(Clone, Copy, Debug, PartialEq, Eq, Structural)]
pub enum Axis {
    X,
    Y,
}

/// A simulated particle: where it is, how fast it moves, and its colour.
///
/// Position is in thousandths of a pixel, velocity in thousandths of a pixel
/// per second; the colour is red, green and blue, each out of 255, and an
/// opacity in 256ths.
#[derive(Clone, Copy, Debug, PartialEq, Eq)]
pub struct Boid {
    pub x: i32,
    pub y: i32,
    pub dx: i32,
    pub dy: i32,
    pub color: [u8; 4],
}

/// Squared Euclidean distance between two points.
pub open spec fn dist_sq(ax: int, ay: int, bx: int, by: int) -> int {
    (ax - bx) * (ax - bx) + (ay - by) * (ay - by)
}

/// Squared distance between two boids.
pub open spec fn gap_sq(a: Boid, b: Boid) -> int {
    dist_sq(a.x as int, a.y as int, b.x as int, b.y as int)
}

/// `other` is closer to `me` than the minimum distance, and not at the very
/// same place.
pub open spec fn crowds(me: Boid, other: Boid, cfg: Config) -> bool {
    0 < gap_sq(me, other) < cfg.min_distance * cfg.min_distance
}

/// `other` is a neighbour of `me` for cohesion and alignment.
pub open spec fn sees(me: Boid, other: Boid, cfg: Config) -> bool {
    &&& gap_sq(me, other) < cfg.visual_range * cfg.visual_range
    &&& (cfg.include_self || gap_sq(me, other) > 0)
}

impl Boid {
    /// Position along one axis.
    pub open spec fn pos(self, axis: Axis) -> int {
        match axis {
            Axis::X => self.x as int,
            Axis::Y => self.y as int,
        }
    }

    /// Velocity along one axis.
    pub open spec fn vel(self, axis: Axis) -> int {
        match axis {
            Axis::X => self.dx as int,
            Axis::Y => self.dy as int,
        }
    }

    /// The same boid with another velocity, each component saturated to the
    /// coordinate range.
    pub open spec fn with_velocity(self, dx: int, dy: int) -> Boid {
        Boid { dx: saturate(dx) as i32, dy: saturate(dy) as i32, ..self }
    }
}

/// Sum over the boids of `flock` that crowd `me` of the offset from each of
/// them to `me`, along one axis.
pub open spec fn separation(me: Boid, flock: Seq<Boid>, cfg: Config, axis: Axis) -> int
    decreases flock.len(),
{
    if flock.len() == 0 {
        0
    } else {
        separation(me, flock.drop_last(), cfg, axis) + if crowds(me, flock.last(), cfg) {
            me.pos(axis) - flock.last().pos(axis)
        } else {
            0
        }
    }
}

/// The boid after separation: its velocity grows by the separation sum
/// times the avoidance gain.
pub open spec fn after_separation(me: Boid, flock: Seq<Boid>, cfg: Config) -> Boid {
    me.with_velocity(
        me.dx + scale(separation(me, flock, cfg, Axis::X), cfg.avoid_factor as int),
        me.dy + scale(separation(me, flock, cfg, Axis::Y), cfg.avoid_factor as int),
    )
}

/// Number of boids of `flock` that `me` sees.
pub open spec fn neighbor_count(me: Boid, flock: Seq<Boid>, cfg: Config) -> nat
    decreases flock.len(),
{
    if flock.len() == 0 {
        0
    } else {
        neighbor_count(me, flock.drop_last(), cfg) + if sees(me, flock.last(), cfg) {
            1nat
        } else {
            0nat
        }
    }
}

/// Sum of the positions, along one axis, of the boids of `flock` that `me`
/// sees.
pub open spec fn neighbor_pos_sum(me: Boid, flock: Seq<Boid>, cfg: Config, axis: Axis) -> int
    decreases flock.len(),
{
    if flock.len() == 0 {
        0
    } else {
        neighbor_pos_sum(me, flock.drop_last(), cfg, axis) + if sees(me, flock.last(), cfg) {
            flock.last().pos(axis)
        } else {
            0
        }
    }
}

/// Sum of the velocities, along one axis, of the boids of `flock` that `me`
/// sees.
pub open spec fn neighbor_vel_sum(me: Boid, flock: Seq<Boid>, cfg: Config, axis: Axis) -> int
    decreases flock.len(),
{
    if flock.len() == 0 {
        0
    } else {
        neighbor_vel_sum(me, flock.drop_last(), cfg, axis) + if sees(me, flock.last(), cfg) {
            flock.last().vel(axis)
        } else {
            0
        }
    }
}

/// Velocity that cohesion adds along one axis: the offset from `me` to the
/// mean position of its neighbours, times the centering gain; nothing where
/// it sees no neighbour.
pub open spec fn cohesion_pull(me: Boid, flock: Seq<Boid>, cfg: Config, axis: Axis) -> int {
    let n = neighbor_count(me, flock, cfg);
    if n == 0 {
        0
    } else {
        scale(
            trunc_div(neighbor_pos_sum(me, flock, cfg, axis), n as int) - me.pos(axis),
            cfg.centering_factor as int,
        )
    }
}

/// The boid after cohesion.
pub open spec fn after_cohesion(me: Boid, flock: Seq<Boid>, cfg: Config) -> Boid {
    me.with_velocity(
        me.dx + cohesion_pull(me, flock, cfg, Axis::X),
        me.dy + cohesion_pull(me, flock, cfg, Axis::Y),
    )
}

/// Velocity that alignment adds along one axis: the difference between the
/// mean velocity of the neighbours and that of `me`, times the matching gain;
/// nothing where it sees no neighbour.
pub open spec fn alignment_pull(me: Boid, flock: Seq<Boid>, cfg: Config, axis: Axis) -> int {
    let n = neighbor_count(me, flock, cfg);
    if n == 0 {
        0
    } else {
        scale(
            trunc_div(neighbor_vel_sum(me, flock, cfg, axis), n as int) - me.vel(axis),
            cfg.matching_factor as int,
        )
    }
}

/// The boid after alignment.
pub open spec fn after_alignment(me: Boid, flock: Seq<Boid>, cfg: Config) -> Boid {
    me.with_velocity(
        me.dx + alignment_pull(me, flock, cfg, Axis::X),
        me.dy + alignment_pull(me, flock, cfg, Axis::Y),
    )
}

/// Net push of the two walls of one axis on a boid at `pos`: one push toward
/// the far wall while the boid is short of the far margin, one push back
/// while it is past the near margin.
pub open spec fn wall_push(pos: int, extent: int, cfg: Config) -> int {
    (if pos < extent - cfg.edge_buffer {
        cfg.turn_factor as int
    } else {
        0
    }) - (if pos > cfg.edge_buffer {
        cfg.turn_factor as int
    } else {
        0
    })
}

/// Neither wall of the axis pushes a boid at `pos`: it is at or past the far
/// margin and at or before the near margin at once, which only a world no
/// wider than two margins allows.
pub open spec fn unpushed(pos: int, extent: int, cfg: Config) -> bool {
    !(pos < extent - cfg.edge_buffer) && !(pos > cfg.edge_buffer)
}

/// Velocity along one axis after the walls acted: the net push is added
/// where a wall pushed, and the velocity is damped where none did.
pub open spec fn contained(v: int, pos: int, extent: int, cfg: Config) -> int {
    if unpushed(pos, extent, cfg) {
        scale(v, cfg.damping as int)
    } else {
        v + wall_push(pos, extent, cfg)
    }
}

/// The repulsion point is given and `me` is within its radius.
pub open spec fn repelled(me: Boid, cursor: Option<Point>, cfg: Config) -> bool {
    match cursor {
        Some(p) => dist_sq(me.x as int, me.y as int, p.x as int, p.y as int)
            < cfg.repulsion_radius * cfg.repulsion_radius,
        None => false,
    }
}

/// Velocity that the repulsion point adds along one axis: the offset from
/// the point to `me` times the repulsion gain, where `me` is repelled.
pub open spec fn repulsion(me: Boid, cursor: Option<Point>, cfg: Config, axis: Axis) -> int {
    match cursor {
        Some(p) => if repelled(me, cursor, cfg) {
            scale(
                me.pos(axis) - (match axis {
                    Axis::X => p.x as int,
                    Axis::Y => p.y as int,
                }),
                cfg.repulsion_factor as int,
            )
        } else {
            0
        },
        None => 0,
    }
}

/// The boid after the walls and the repulsion point acted.
pub open spec fn after_containment(me: Boid, cursor: Option<Point>, cfg: Config) -> Boid {
    me.with_velocity(
        contained(me.dx as int, me.x as int, cfg.width as int, cfg) + repulsion(
            me,
            cursor,
            cfg,
            Axis::X,
        ),
        contained(me.dy as int, me.y as int, cfg.height as int, cfg) + repulsion(
            me,
            cursor,
            cfg,
            Axis::Y,
        ),
    )
}

/// Square of the speed of a boid.
pub open spec fn speed_sq(b: Boid) -> int {
    b.dx * b.dx + b.dy * b.dy
}

/// One velocity component after the speed cap, for a boid whose squared
/// speed is `n`: unchanged within the limit, else scaled by the limit over
/// the rounded-up speed.
pub open spec fn capped(v: int, n: int, limit: int) -> int {
    if n > limit * limit {
        trunc_div(v * limit, sqrt_ceil(n))
    } else {
        v
    }
}

/// The boid after the speed cap.
pub open spec fn after_speed_limit(me: Boid, cfg: Config) -> Boid {
    me.with_velocity(
        capped(me.dx as int, speed_sq(me), cfg.speed_limit as int),
        capped(me.dy as int, speed_sq(me), cfg.speed_limit as int),
    )
}

/// The boid after `dt_ms` milliseconds of motion at its velocity.
pub open spec fn after_advance(me: Boid, dt_ms: u32) -> Boid {
    Boid {
        x: saturate(me.x + trunc_div(me.dx * dt_ms, 1000)) as i32,
        y: saturate(me.y + trunc_div(me.dy * dt_ms, 1000)) as i32,
        ..me
    }
}

/// A root that reaches a square above `limit * limit` is above `limit`.
proof fn lemma_root_exceeds(n: int, limit: int, s: int)
    by (nonlinear_arith)
    requires
        0 <= limit,
        0 <= s,
        n > limit * limit,
        s * s >= n,
    ensures
        s > limit,
{
}

/// Scaling by a ratio below one brings a value no further from zero.
proof fn lemma_scaled_down(v: int, limit: int, s: int)
    by (nonlinear_arith)
    requires
        0 <= limit < s,
    ensures
        v >= 0 ==> 0 <= trunc_div(v * limit, s) <= v,
        v <= 0 ==> v <= trunc_div(v * limit, s) <= 0,
{
}

/// Components scaled by the limit over a root that reaches their squared
/// length have a squared length within the squared limit.
pub proof fn lemma_scaled_within_limit(dx: int, dy: int, limit: int, s: int)
    requires
        0 <= limit,
        0 < s,
        s * s >= dx * dx + dy * dy,
    ensures
        trunc_div(dx * limit, s) * trunc_div(dx * limit, s) + trunc_div(dy * limit, s) * trunc_div(
            dy * limit,
            s,
        ) <= limit * limit,
{
    let a = if dx >= 0 { dx } else { -dx };
    let b = if dy >= 0 { dy } else { -dy };
    let p = trunc_div(a * limit, s);
    let q = trunc_div(b * limit, s);
    lemma_trunc_div_bounds(dx * limit, s);
    lemma_trunc_div_bounds(dy * limit, s);
    lemma_trunc_div_bounds(a * limit, s);
    lemma_trunc_div_bounds(b * limit, s);
    assert(a * limit >= 0 && b * limit >= 0) by (nonlinear_arith)
        requires
            a >= 0,
            b >= 0,
            limit >= 0,
    ;
    assert(a * limit == if dx >= 0 { dx * limit } else { -(dx * limit) }) by (nonlinear_arith)
        requires
            a == if dx >= 0 { dx } else { -dx },
    ;
    assert(b * limit == if dy >= 0 { dy * limit } else { -(dy * limit) }) by (nonlinear_arith)
        requires
            b == if dy >= 0 { dy } else { -dy },
    ;
    assert(p * p == trunc_div(dx * limit, s) * trunc_div(dx * limit, s)) by (nonlinear_arith)
        requires
            p == trunc_div(dx * limit, s) || p == -trunc_div(dx * limit, s),
    ;
    assert(q * q == trunc_div(dy * limit, s) * trunc_div(dy * limit, s)) by (nonlinear_arith)
        requires
            q == trunc_div(dy * limit, s) || q == -trunc_div(dy * limit, s),
    ;
    assert((p * s) * (p * s) <= (a * limit) * (a * limit)) by (nonlinear_arith)
        requires
            0 <= p * s <= a * limit,
    ;
    assert((q * s) * (q * s) <= (b * limit) * (b * limit)) by (nonlinear_arith)
        requires
            0 <= q * s <= b * limit,
    ;
    assert((p * p + q * q) * (s * s) == (p * s) * (p * s) + (q * s) * (q * s))
        by (nonlinear_arith);
    assert((a * limit) * (a * limit) + (b * limit) * (b * limit) == (dx * dx + dy * dy) * (limit
        * limit)) by (nonlinear_arith)
        requires
            a == dx || a == -dx,
            b == dy || b == -dy,
    ;
    assert((dx * dx + dy * dy) * (limit * limit) <= (s * s) * (limit * limit))
        by (nonlinear_arith)
        requires
            dx * dx + dy * dy <= s * s,
    ;
    assert(s * s > 0) by (nonlinear_arith)
        requires
            s > 0,
    ;
    assert(p * p + q * q <= limit * limit) by (nonlinear_arith)
        requires
            (p * p + q * q) * (s * s) <= (s * s) * (limit * limit),
            s * s > 0,
    ;
}

/// After the speed cap no boid is faster than the speed limit, and neither
/// component of its velocity has grown or changed sign.
pub proof fn lemma_speed_limit_caps(me: Boid, cfg: Config)
    ensures
        speed_sq(after_speed_limit(me, cfg)) <= cfg.speed_limit * cfg.speed_limit,
        after_speed_limit(me, cfg).dx == capped(
            me.dx as int,
            speed_sq(me),
            cfg.speed_limit as int,
        ),
        after_speed_limit(me, cfg).dy == capped(
            me.dy as int,
            speed_sq(me),
            cfg.speed_limit as int,
        ),
        me.dx >= 0 ==> 0 <= after_speed_limit(me, cfg).dx <= me.dx,
        me.dx <= 0 ==> me.dx <= after_speed_limit(me, cfg).dx <= 0,
        me.dy >= 0 ==> 0 <= after_speed_limit(me, cfg).dy <= me.dy,
        me.dy <= 0 ==> me.dy <= after_speed_limit(me, cfg).dy <= 0,
{
    let n = speed_sq(me);
    let limit = cfg.speed_limit as int;
    assert(me.dx * me.dx >= 0) by (nonlinear_arith);
    assert(me.dy * me.dy >= 0) by (nonlinear_arith);
    if n > limit * limit {
        let s = sqrt_ceil(n);
        lemma_sqrt_ceil_exists(n as nat);
        lemma_root_exceeds(n, limit, s);
        lemma_scaled_down(me.dx as int, limit, s);
        lemma_scaled_down(me.dy as int, limit, s);
        lemma_scaled_within_limit(me.dx as int, me.dy as int, limit, s);
    }
}

/// Square of a radius.
fn radius_sq(r: u32) -> (q: u128)
    ensures
        q == r * r,
{
    proof {
        lemma_product_bound(r as int, r as int, 0xffff_ffff, 0xffff_ffff);
    }
    (r as u128) * (r as u128)
}

/// Extending a prefix of a flock by one boid.
proof fn lemma_take_next(flock: Seq<Boid>, i: int)
    requires
        0 <= i < flock.len(),
    ensures
        flock.take(i + 1).drop_last() == flock.take(i),
        flock.take(i + 1).last() == flock[i],
        flock.take(i + 1).len() == i + 1,
{
    assert(flock.take(i + 1).drop_last() =~= flock.take(i));
}

/// Squared distance between two points.
fn point_distance_sq(ax: i32, ay: i32, bx: i32, by: i32) -> (d: u128)
    ensures
        d == dist_sq(ax as int, ay as int, bx as int, by as int),
{
    let ex: i64 = ax as i64 - bx as i64;
    let ey: i64 = ay as i64 - by as i64;
    let sx: i128 = wide_product(ex, ex);
    let sy: i128 = wide_product(ey, ey);
    proof {
        lemma_product_bound(ex as int, ex as int, 0xffff_ffff, 0xffff_ffff);
        lemma_product_bound(ey as int, ey as int, 0xffff_ffff, 0xffff_ffff);
        assert(ex * ex >= 0) by (nonlinear_arith);
        assert(ey * ey >= 0) by (nonlinear_arith);
    }
    (sx + sy) as u128
}

/// Velocity along one axis after the walls acted on a boid at `pos`.
fn contain_axis(v: i32, pos: i32, extent: u32, cfg: &Config) -> (r: i128)
    ensures
        r == contained(v as int, pos as int, extent as int, *cfg),
        -0x1_0000_0000_0000_0000 <= r <= 0x1_0000_0000_0000_0000,
{
    let mut steered: i128 = v as i128;
    let mut pushed: bool = false;
    if (pos as i128) < extent as i128 - cfg.edge_buffer as i128 {
        steered = steered + cfg.turn_factor as i128;
        pushed = true;
    }
    if pos as i128 > cfg.edge_buffer as i128 {
        steered = steered - cfg.turn_factor as i128;
        pushed = true;
    }
    if !pushed {
        steered = scale_by(steered, cfg.damping);
        proof {
            lemma_product_bound(v as int, cfg.damping as int, 0x8000_0000, 0x1_0000);
            lemma_trunc_div_bounds(v * cfg.damping, 1000);
        }
    }
    steered
}

impl Boid {
    /// Squared distance to another boid.
    pub fn distance_sq(&self, boid: &Boid) -> (d: u128)
        ensures
            d == gap_sq(*self, *boid),
    {
        point_distance_sq(self.x, self.y, boid.x, boid.y)
    }

    /// Cohesion: steers the boid toward the mean position of the boids of
    /// the flock that it sees.
    pub fn fly_towards_center(&mut self, boids: &Vec<Boid>, cfg: &Config)
        ensures
            *final(self) == after_cohesion(*old(self), boids@, *cfg),
    {
        let me: Boid = *self;
        let range: u128 = radius_sq(cfg.visual_range);
        let mut center_x: i128 = 0;
        let mut center_y: i128 = 0;
        let mut num_neighbors: usize = 0;
        let mut i: usize = 0;
        while i < boids.len()
            invariant
                i <= boids.len(),
                range == cfg.visual_range * cfg.visual_range,
                num_neighbors <= i,
                num_neighbors == neighbor_count(me, boids@.take(i as int), *cfg),
                center_x == neighbor_pos_sum(me, boids@.take(i as int), *cfg, Axis::X),
                center_y == neighbor_pos_sum(me, boids@.take(i as int), *cfg, Axis::Y),
                -(i * 0x8000_0000) <= center_x <= i * 0x8000_0000,
                -(i * 0x8000_0000) <= center_y <= i * 0x8000_0000,
            decreases boids.len() - i,
        {
            let other: Boid = boids[i];
            let dist: u128 = me.distance_sq(&other);
            proof {
                lemma_take_next(boids@, i as int);
            }
            if dist < range && (cfg.include_self || dist > 0) {
                center_x = center_x + other.x as i128;
                center_y = center_y + other.y as i128;
                num_neighbors = num_neighbors + 1;
            }
            i += 1;
        }
        assert(boids@.take(i as int) =~= boids@);
        if num_neighbors > 0 {
            proof {
                lemma_trunc_div_bounds(center_x as int, num_neighbors as int);
                lemma_trunc_div_bounds(center_y as int, num_neighbors as int);
            }
            let mean_x: i128 = div_toward_zero(center_x, num_neighbors as i128);
            let mean_y: i128 = div_toward_zero(center_y, num_neighbors as i128);
            self.dx = saturate_i32(
                self.dx as i128 + scale_by(mean_x - self.x as i128, cfg.centering_factor),
            );
            self.dy = saturate_i32(
                self.dy as i128 + scale_by(mean_y - self.y as i128, cfg.centering_factor),
            );
        }
    }

    /// Alignment: steers the velocity of the boid toward the mean velocity of
    /// the boids of the flock that it sees.
    pub fn match_velocity(&mut self, boids: &Vec<Boid>, cfg: &Config)
        ensures
            *final(self) == after_alignment(*old(self), boids@, *cfg),
    {
        let me: Boid = *self;
        let range: u128 = radius_sq(cfg.visual_range);
        let mut avg_dx: i128 = 0;
        let mut avg_dy: i128 = 0;
        let mut num_neighbors: usize = 0;
        let mut i: usize = 0;
        while i < boids.len()
            invariant
                i <= boids.len(),
                range == cfg.visual_range * cfg.visual_range,
                num_neighbors <= i,
                num_neighbors == neighbor_count(me, boids@.take(i as int), *cfg),
                avg_dx == neighbor_vel_sum(me, boids@.take(i as int), *cfg, Axis::X),
                avg_dy == neighbor_vel_sum(me, boids@.take(i as int), *cfg, Axis::Y),
                -(i * 0x8000_0000) <= avg_dx <= i * 0x8000_0000,
                -(i * 0x8000_0000) <= avg_dy <= i * 0x8000_0000,
            decreases boids.len() - i,
        {
            let other: Boid = boids[i];
            let dist: u128 = me.distance_sq(&other);
            proof {
                lemma_take_next(boids@, i as int);
            }
            if dist < range && (cfg.include_self || dist > 0) {
                avg_dx = avg_dx + other.dx as i128;
                avg_dy = avg_dy + other.dy as i128;
                num_neighbors = num_neighbors + 1;
            }
            i += 1;
        }
        assert(boids@.take(i as int) =~= boids@);
        if num_neighbors > 0 {
            proof {
                lemma_trunc_div_bounds(avg_dx as int, num_neighbors as int);
                lemma_trunc_div_bounds(avg_dy as int, num_neighbors as int);
            }
            let mean_dx: i128 = div_toward_zero(avg_dx, num_neighbors as i128);
            let mean_dy: i128 = div_toward_zero(avg_dy, num_neighbors as i128);
            self.dx = saturate_i32(
                self.dx as i128 + scale_by(mean_dx - self.dx as i128, cfg.matching_factor),
            );
            self.dy = saturate_i32(
                self.dy as i128 + scale_by(mean_dy - self.dy as i128, cfg.matching_factor),
            );
        }
    }

    /// Speed cap: a boid faster than the speed limit keeps its direction and
    /// is slowed down to the limit.
    pub fn limit_speed(&mut self, cfg: &Config)
        ensures
            *final(self) == after_speed_limit(*old(self), *cfg),
            speed_sq(*final(self)) <= cfg.speed_limit * cfg.speed_limit,
    {
        let dx: i64 = self.dx as i64;
        let dy: i64 = self.dy as i64;
        proof {
            lemma_speed_limit_caps(*self, *cfg);
            lemma_product_bound(dx as int, dx as int, 0x8000_0000, 0x8000_0000);
            lemma_product_bound(dy as int, dy as int, 0x8000_0000, 0x8000_0000);
            lemma_product_bound(
                cfg.speed_limit as int,
                cfg.speed_limit as int,
                0xffff_ffff,
                0xffff_ffff,
            );
            assert(dx * dx >= 0) by (nonlinear_arith);
            assert(dy * dy >= 0) by (nonlinear_arith);
            assert(cfg.speed_limit * cfg.speed_limit >= 0) by (nonlinear_arith);
        }
        let speed_squared: u64 = (wide_product(dx, dx) + wide_product(dy, dy)) as u64;
        let limit: i64 = cfg.speed_limit as i64;
        let cap: u64 = wide_product(limit, limit) as u64;
        if speed_squared > cap {
            let speed: u64 = ceil_sqrt(speed_squared);
            proof {
                lemma_root_exceeds(speed_squared as int, limit as int, speed as int);
            }
            self.dx = div_toward_zero(wide_product(dx, limit), speed as i128) as i32;
            self.dy = div_toward_zero(wide_product(dy, limit), speed as i128) as i32;
        }
    }

    /// Containment: along each axis the turn factor is added to the velocity
    /// while the boid is short of the far margin and taken from it while the
    /// boid is past the near margin; an axis on which neither holds is damped
    /// instead. Then the repulsion point, where one is given and near, pushes
    /// the boid away.
    pub fn keep_within_bounds(&mut self, cursor: Option<Point>, cfg: &Config)
        ensures
            *final(self) == after_containment(*old(self), cursor, *cfg),
    {
        let mut dx: i128 = contain_axis(self.dx, self.x, cfg.width, cfg);
        let mut dy: i128 = contain_axis(self.dy, self.y, cfg.height, cfg);
        match cursor {
            Some(p) => {
                let dist: u128 = point_distance_sq(self.x, self.y, p.x, p.y);
                if dist < radius_sq(cfg.repulsion_radius) {
                    dx = dx + scale_by(self.x as i128 - p.x as i128, cfg.repulsion_factor);
                    dy = dy + scale_by(self.y as i128 - p.y as i128, cfg.repulsion_factor);
                }
            },
            None => {},
        }
        self.dx = saturate_i32(dx);
        self.dy = saturate_i32(dy);
    }

    /// Integration: moves the boid by its velocity times the elapsed time.
    pub fn advance(&mut self, dt_ms: u32)
        ensures
            *final(self) == after_advance(*old(self), dt_ms),
    {
        let step_x: i128 = div_toward_zero(wide_product(self.dx as i64, dt_ms as i64), 1000);
        let step_y: i128 = div_toward_zero(wide_product(self.dy as i64, dt_ms as i64), 1000);
        proof {
            lemma_product_bound(self.dx as int, dt_ms as int, 0x8000_0000, 0xffff_ffff);
            lemma_product_bound(self.dy as int, dt_ms as int, 0x8000_0000, 0xffff_ffff);
            lemma_trunc_div_bounds(self.dx * dt_ms, 1000);
            lemma_trunc_div_bounds(self.dy * dt_ms, 1000);
        }
        self.x = saturate_i32(self.x as i128 + step_x);
        self.y = saturate_i32(self.y as i128 + step_y);
    }
    /// Separation: pushes the boid away from every boid of the flock that
    /// crowds it.
    pub fn avoid_others(&mut self, boids: &Vec<Boid>, cfg: &Config)
        ensures
            *final(self) == after_separation(*old(self), boids@, *cfg),
    {
        let me: Boid = *self;
        let reach: u128 = radius_sq(cfg.min_distance);
        let mut move_x: i128 = 0;
        let mut move_y: i128 = 0;
        let mut i: usize = 0;
        while i < boids.len()
            invariant
                i <= boids.len(),
                reach == cfg.min_distance * cfg.min_distance,
                move_x == separation(me, boids@.take(i as int), *cfg, Axis::X),
                move_y == separation(me, boids@.take(i as int), *cfg, Axis::Y),
                -(i * 0xffff_ffff) <= move_x <= i * 0xffff_ffff,
                -(i * 0xffff_ffff) <= move_y <= i * 0xffff_ffff,
            decreases boids.len() - i,
        {
            let other: Boid = boids[i];
            let dist: u128 = me.distance_sq(&other);
            proof {
                lemma_take_next(boids@, i as int);
            }
            if dist < reach && dist > 0 {
                move_x = move_x + (me.x as i128 - other.x as i128);
                move_y = move_y + (me.y as i128 - other.y as i128);
            }
            i += 1;
        }
        assert(boids@.take(i as int) =~= boids@);
        self.dx = saturate_i32(self.dx as i128 + scale_by(move_x, cfg.avoid_factor));
        self.dy = saturate_i32(self.dy as i128 + scale_by(move_y, cfg.avoid_factor));
    }
}

} // verus!
