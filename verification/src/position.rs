use vstd::prelude::*;
use crate::math::{sqrt_floor, isqrt, lemma_sqrt_floor_bounds, lemma_sqrt_floor_unique};
use vstd::arithmetic::div_mod::{
    lemma_div_is_ordered, lemma_div_by_multiple, lemma_multiply_divide_le,
};

verus! {

/// Coordinates are whole numbers of milli-units: one thousandth of a world
/// unit. The arena fits comfortably inside this bound, which keeps every
/// distance computation free of overflow.
pub const COORD_LIMIT: i64 = 1_000_000_000;

/// Largest speed accepted by movement, in milli-units per second.
pub const SPEED_CAP: i64 = 10_000_000;

/// Largest time step accepted by movement, in milliseconds.
pub const DT_CAP: i64 = 1_000_000;

/// 2D position in the game world, in milli-units.
#[derive(Debug, Clone, Copy, PartialEq, Eq, Structural)]
pub struct Position {
    pub x: i64,
    pub y: i64,
}

/// Both coordinates lie within the arena's coordinate bound.
pub open spec fn in_bounds(p: Position) -> bool {
    -COORD_LIMIT <= p.x <= COORD_LIMIT && -COORD_LIMIT <= p.y <= COORD_LIMIT
}

/// Squared Euclidean distance between two positions.
pub open spec fn dist_sq(a: Position, b: Position) -> int {
    (a.x - b.x) * (a.x - b.x) + (a.y - b.y) * (a.y - b.y)
}

/// Euclidean distance, rounded down to a whole number of milli-units.
pub open spec fn dist(a: Position, b: Position) -> int {
    sqrt_floor(dist_sq(a, b))
}

pub open spec fn origin() -> Position {
    Position { x: 0, y: 0 }
}

/// Ring index of a distance from the arena center: the distance divided by
/// the ring radius, clamped to a minimum of 1 (the center is ring 1).
pub open spec fn ring_of_dist(d: int, ring_radius: int) -> int {
    if d / ring_radius < 1 {
        1
    } else {
        d / ring_radius
    }
}

pub open spec fn ring_spec(p: Position, ring_radius: int) -> int {
    ring_of_dist(dist(p, origin()), ring_radius)
}

/// One coordinate after moving `step` of the `d` remaining toward `b`:
/// the whole part of `|b - a| * step / d`, applied toward `b`.
pub open spec fn moved_coord(a: int, b: int, step: int, d: int) -> int {
    if b >= a {
        a + (b - a) * step / d
    } else {
        a - (a - b) * step / d
    }
}

/// The distance actually covered in one movement step: `speed * dt` scaled
/// to milliseconds, capped at the remaining distance `d`.
pub open spec fn step_amount(speed: int, dt: int, d: int) -> int {
    let step0 = speed * dt / 1000;
    if step0 > d {
        d
    } else {
        step0
    }
}

/// A point closer to the target than this many milli-units (0.01 world
/// units) counts as arrived and does not move: this avoids division
/// instability and jitter at the destination.
pub const ARRIVAL_EPSILON: i64 = 10;

/// The position after one `move_towards` step.
pub open spec fn move_towards_spec(p: Position, t: Position, speed: int, dt: int) -> Position {
    let d = dist(p, t);
    if d <= ARRIVAL_EPSILON {
        p
    } else {
        let step = step_amount(speed, dt, d);
        Position {
            x: moved_coord(p.x as int, t.x as int, step, d) as i64,
            y: moved_coord(p.y as int, t.y as int, step, d) as i64,
        }
    }
}

/// A coordinate clamped into the arena's coordinate bound.
pub open spec fn clamp_coord(x: int) -> int {
    if x > COORD_LIMIT {
        COORD_LIMIT as int
    } else if x < -COORD_LIMIT {
        -COORD_LIMIT as int
    } else {
        x
    }
}

/// A position clamped, coordinate by coordinate, into the arena's bound.
pub open spec fn clamp_pos(p: Position) -> Position {
    Position { x: clamp_coord(p.x as int) as i64, y: clamp_coord(p.y as int) as i64 }
}

pub proof fn lemma_dist_sq_bounds(a: Position, b: Position)
    requires
        in_bounds(a),
        in_bounds(b),
    ensures
        0 <= dist_sq(a, b) <= 8_000_000_000_000_000_000,
{
    let dx = a.x - b.x;
    let dy = a.y - b.y;
    assert(dx * dx <= 4_000_000_000_000_000_000 && dx * dx >= 0) by (nonlinear_arith)
        requires -2_000_000_000 <= dx <= 2_000_000_000;
    assert(dy * dy <= 4_000_000_000_000_000_000 && dy * dy >= 0) by (nonlinear_arith)
        requires -2_000_000_000 <= dy <= 2_000_000_000;
}

/// A distance between in-bounds positions is at most 3_000_000_000.
pub proof fn lemma_dist_bounds(a: Position, b: Position)
    requires
        in_bounds(a),
        in_bounds(b),
    ensures
        0 <= dist(a, b) <= 3_000_000_000,
{
    lemma_dist_sq_bounds(a, b);
    lemma_sqrt_floor_bounds(dist_sq(a, b));
    let r = dist(a, b);
    if r > 3_000_000_000 {
        assert(r * r > 8_000_000_000_000_000_000) by (nonlinear_arith)
            requires r > 3_000_000_000;
        assert(false);
    }
}

/// Zero distance means the positions coincide.
pub proof fn lemma_dist_zero(a: Position, b: Position)
    requires
        dist(a, b) == 0,
    ensures
        a == b,
{
    let dx = a.x - b.x;
    let dy = a.y - b.y;
    assert(dx * dx >= 0 && dy * dy >= 0) by (nonlinear_arith);
    lemma_sqrt_floor_bounds(dist_sq(a, b));
    if dist_sq(a, b) >= 1 {
        assert(false);
    }
    assert(dx * dx + dy * dy == 0);
    assert(dx == 0 && dy == 0) by (nonlinear_arith)
        requires dx * dx + dy * dy == 0;
}

impl Position {
    pub fn new(x: i64, y: i64) -> (r: Position)
        ensures
            r.x == x,
            r.y == y,
    {
        Position { x, y }
    }

    /// Euclidean distance to another position, rounded down.
    pub fn distance_to(&self, other: &Position) -> (r: i64)
        requires
            in_bounds(*self),
            in_bounds(*other),
        ensures
            r == dist(*self, *other),
            0 <= r <= 3_000_000_000,
    {
        proof {
            lemma_dist_sq_bounds(*self, *other);
            lemma_dist_bounds(*self, *other);
        }
        let dx = self.x - other.x;
        let dy = self.y - other.y;
        proof {
            assert(0 <= dx * dx <= 4_000_000_000_000_000_000
                && 0 <= dy * dy <= 4_000_000_000_000_000_000) by (nonlinear_arith)
                requires -2_000_000_000 <= dx <= 2_000_000_000, -2_000_000_000 <= dy <= 2_000_000_000;
        }
        let s = dx * dx + dy * dy;
        let r = isqrt(s as u64);
        r as i64
    }

    /// Squared Euclidean distance to another position (exact; handy for
    /// range tests with an inclusive boundary).
    pub fn distance_sq_to(&self, other: &Position) -> (r: i64)
        requires
            in_bounds(*self),
            in_bounds(*other),
        ensures
            r == dist_sq(*self, *other),
            0 <= r <= 8_000_000_000_000_000_000,
    {
        proof {
            lemma_dist_sq_bounds(*self, *other);
        }
        let dx = self.x - other.x;
        let dy = self.y - other.y;
        proof {
            assert(0 <= dx * dx <= 4_000_000_000_000_000_000
                && 0 <= dy * dy <= 4_000_000_000_000_000_000) by (nonlinear_arith)
                requires -2_000_000_000 <= dx <= 2_000_000_000, -2_000_000_000 <= dy <= 2_000_000_000;
        }
        dx * dx + dy * dy
    }

    /// Distance from the arena center, rounded down.
    pub fn distance_from_center(&self) -> (r: i64)
        requires
            in_bounds(*self),
        ensures
            r == dist(*self, origin()),
            0 <= r <= 3_000_000_000,
    {
        let center = Position { x: 0, y: 0 };
        self.distance_to(&center)
    }

    /// Which ring this position is in: distance from center divided by the
    /// ring radius, never less than 1 (the center counts as ring 1).
    pub fn ring(&self, ring_radius: i64) -> (r: u32)
        requires
            in_bounds(*self),
            ring_radius >= 1,
        ensures
            r == ring_spec(*self, ring_radius as int),
            r >= 1,
    {
        let d = self.distance_from_center();
        let q = (d as u64) / (ring_radius as u64);
        proof {
            lemma_div_is_ordered(d as int, 3_000_000_000, ring_radius as int);
            assert(3_000_000_000int / (ring_radius as int) <= 3_000_000_000) by {
                lemma_div_is_ordered(3_000_000_000, 3_000_000_000 * (ring_radius as int), ring_radius as int)
                    ;
                assert(3_000_000_000 <= 3_000_000_000 * (ring_radius as int)) by (nonlinear_arith)
                    requires ring_radius >= 1;
                lemma_div_by_multiple(3_000_000_000, ring_radius as int);
            }
        }
        if q < 1 {
            1
        } else {
            q as u32
        }
    }

    /// Move toward `target` by `speed * dt` (speed in milli-units per second,
    /// `dt` in milliseconds), never past the target. A position within
    /// `ARRIVAL_EPSILON` (0.01 world units) of the target counts as arrived
    /// and does not move.
    pub fn move_towards(&mut self, target: &Position, speed: i64, dt: i64)
        requires
            in_bounds(*old(self)),
            in_bounds(*target),
            0 <= speed <= SPEED_CAP,
            0 <= dt <= DT_CAP,
        ensures
            ({
                let d = dist(*old(self), *target);
                let step = step_amount(speed as int, dt as int, d);
                if d <= ARRIVAL_EPSILON {
                    *final(self) == *old(self)
                } else {
                    final(self).x == moved_coord(old(self).x as int, target.x as int, step, d)
                        && final(self).y == moved_coord(old(self).y as int, target.y as int, step, d)
                }
            }),
            // never overshoots: each coordinate stays between start and target
            (old(self).x <= target.x ==> old(self).x <= final(self).x <= target.x),
            (target.x <= old(self).x ==> target.x <= final(self).x <= old(self).x),
            (old(self).y <= target.y ==> old(self).y <= final(self).y <= target.y),
            (target.y <= old(self).y ==> target.y <= final(self).y <= old(self).y),
            in_bounds(*final(self)),
            *final(self) == move_towards_spec(*old(self), *target, speed as int, dt as int),
    {
        let d = self.distance_to(target);
        if d > ARRIVAL_EPSILON {
            let du = d as u64;
            proof {
                assert(0 <= (speed as int) * (dt as int) <= 10_000_000_000_000) by (nonlinear_arith)
                    requires 0 <= speed <= SPEED_CAP, 0 <= dt <= DT_CAP;
                lemma_dist_dominates_axis(*self, *target);
            }
            let step0 = (speed as u64) * (dt as u64) / 1000;
            let step = if step0 > du {
                du
            } else {
                step0
            };
            let dxm = axis_move(self.x, target.x, step, du);
            let dym = axis_move(self.y, target.y, step, du);
            if target.x >= self.x {
                self.x = self.x + dxm;
            } else {
                self.x = self.x - dxm;
            }
            if target.y >= self.y {
                self.y = self.y + dym;
            } else {
                self.y = self.y - dym;
            }
        } else {
            proof {
                lemma_dist_bounds(*self, *target);
            }
        }
    }

}

/// Whole milli-units covered along one axis: `|b - a| * step / d`.
fn axis_move(a: i64, b: i64, step: u64, d: u64) -> (m: i64)
    requires
        -COORD_LIMIT <= a <= COORD_LIMIT,
        -COORD_LIMIT <= b <= COORD_LIMIT,
        0 < d <= 3_000_000_000,
        step <= d,
        (if b >= a { b - a } else { a - b }) <= d,
    ensures
        m == (if b >= a { (b - a) * step } else { (a - b) * step }) / (d as int),
        0 <= m <= (if b >= a { b - a } else { a - b }),
{
    let diff: u64 = if b >= a {
        (b - a) as u64
    } else {
        (a - b) as u64
    };
    proof {
        assert(0 <= (diff as int) * (step as int) <= 6_000_000_000_000_000_000) by (nonlinear_arith)
            requires 0 <= diff <= 2_000_000_000u64, 0 <= step <= 3_000_000_000u64;
        assert((diff * step) as int <= (d as int) * (diff as int)) by (nonlinear_arith)
            requires
                step <= d,
                0 <= diff,
                0 < d,
                diff * step == (diff as int) * (step as int);
        lemma_multiply_divide_le((diff * step) as int, d as int, diff as int);
    }
    let m = diff * step / d;
    m as i64
}

/// A position's ring is always at least 1, and the ring index is
/// non-decreasing in the distance from the arena center: a position at
/// least as far out is in at least as high a ring.
pub proof fn lemma_ring_monotone(p: Position, q: Position, ring_radius: int)
    requires
        ring_radius >= 1,
        dist(p, origin()) <= dist(q, origin()),
    ensures
        1 <= ring_spec(p, ring_radius) <= ring_spec(q, ring_radius),
{
    lemma_div_is_ordered(dist(p, origin()), dist(q, origin()), ring_radius);
}

/// Moving by at least the remaining distance lands exactly on the target;
/// a point already within the arrival threshold counts as arrived and does
/// not move at all.
pub proof fn lemma_move_reaches(p: Position, t: Position, speed: int, dt: int)
    requires
        in_bounds(p),
        in_bounds(t),
        speed >= 0,
        dt >= 0,
        speed * dt / 1000 >= dist(p, t),
    ensures
        dist(p, t) <= ARRIVAL_EPSILON ==> move_towards_spec(p, t, speed, dt) == p,
        dist(p, t) > ARRIVAL_EPSILON ==> move_towards_spec(p, t, speed, dt) == t,
{
    let d = dist(p, t);
    if d <= ARRIVAL_EPSILON {
    } else {
        let step = step_amount(speed, dt, d);
        assert(step == d);
        lemma_dist_dominates_axis(p, t);
        if t.x >= p.x {
            lemma_div_by_multiple(t.x - p.x, d);
            assert((t.x - p.x) * d / d == t.x - p.x);
        } else {
            lemma_div_by_multiple(p.x - t.x, d);
            assert((p.x - t.x) * d / d == p.x - t.x);
        }
        if t.y >= p.y {
            lemma_div_by_multiple(t.y - p.y, d);
        } else {
            lemma_div_by_multiple(p.y - t.y, d);
        }
        assert(moved_coord(p.x as int, t.x as int, step, d) == t.x);
        assert(moved_coord(p.y as int, t.y as int, step, d) == t.y);
    }
}

/// The rounded distance is at least the absolute difference on each axis.
pub proof fn lemma_dist_dominates_axis(p: Position, t: Position)
    ensures
        dist(p, t) >= (if t.x >= p.x { t.x - p.x } else { p.x - t.x }),
        dist(p, t) >= (if t.y >= p.y { t.y - p.y } else { p.y - t.y }),
{
    let dx = if t.x >= p.x { t.x - p.x } else { p.x - t.x };
    let dy = if t.y >= p.y { t.y - p.y } else { p.y - t.y };
    let u = p.x - t.x;
    let v = p.y - t.y;
    assert(u * u >= 0 && v * v >= 0) by (nonlinear_arith);
    assert(dx * dx == u * u) by (nonlinear_arith)
        requires dx == u || dx == -u;
    assert(dy * dy == v * v) by (nonlinear_arith)
        requires dy == v || dy == -v;
    assert(dist_sq(p, t) == u * u + v * v);
    lemma_sqrt_floor_bounds(dist_sq(p, t));
    let r = dist(p, t);
    if r < dx {
        assert((r + 1) * (r + 1) <= dx * dx) by (nonlinear_arith)
            requires 0 <= r, r + 1 <= dx;
        assert(false);
    }
    if r < dy {
        assert((r + 1) * (r + 1) <= dy * dy) by (nonlinear_arith)
            requires 0 <= r, r + 1 <= dy;
        assert(false);
    }
}

/// Moving along an axis by less than the remaining distance (from outside
/// the arrival threshold) advances by exactly `speed * dt` milli-units
/// (scaled to milliseconds) on that axis.
pub proof fn lemma_move_axis_exact(p: Position, t: Position, speed: int, dt: int)
    requires
        in_bounds(p),
        in_bounds(t),
        speed >= 0,
        dt >= 0,
        p.y == t.y,
        dist(p, t) > ARRIVAL_EPSILON,
        speed * dt / 1000 <= dist(p, t),
    ensures
        ({
            let d = dist(p, t);
            let step = step_amount(speed, dt, d);
            move_towards_spec(p, t, speed, dt) == (Position {
                x: (if t.x >= p.x { p.x + step } else { p.x - step }) as i64,
                y: p.y,
            })
        }),
{
    let dx = if t.x >= p.x { t.x - p.x } else { p.x - t.x };
    let u = p.x - t.x;
    assert(dist_sq(p, t) == u * u);
    if dx == 0 {
        lemma_sqrt_floor_bounds(0);
        assert(dist(p, t) == 0);
        assert(false);
    }
    assert(dx > 0);
    assert(dx * dx == u * u) by (nonlinear_arith)
        requires dx == u || dx == -u;
    assert(dx * dx < (dx + 1) * (dx + 1)) by (nonlinear_arith)
        requires dx >= 1;
    lemma_sqrt_floor_unique(dx * dx, dx);
    let d = dist(p, t);
    assert(d == dx);
    let step = step_amount(speed, dt, d);
    assert(step == speed * dt / 1000);
    assert(dx * step / d == step) by {
        lemma_div_by_multiple(step, d);
        assert(dx * step == step * d);
    }
    assert(0int * step == 0) by (nonlinear_arith);
    assert(0int / d == 0) by {
        lemma_div_by_multiple(0, d);
    }
}

} // verus!
