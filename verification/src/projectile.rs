use vstd::prelude::*;
use crate::position::{Position, in_bounds, origin, dist, dist_sq, COORD_LIMIT, SPEED_CAP,
    lemma_dist_dominates_axis};
use crate::math::isqrt;
use crate::player::HP_CAP;

verus! {

/// Largest remaining lifetime of a projectile, in milliseconds.
pub const LIFETIME_CAP: u64 = 10_000_000;

/// Largest time step accepted by a projectile update, in milliseconds.
pub const PROJ_DT_CAP: u64 = 1_000_000;

/// Projectile entity: an auto-attack shot travelling at a fixed velocity.
#[derive(Debug, Clone, Copy)]
pub struct Projectile {
    pub id: u64,
    /// player who fired it
    pub owner_id: u64,
    pub position: Position,
    /// direction and speed, milli-units per second on each axis
    pub velocity: Position,
    /// hundredths of a point
    pub damage: u64,
    /// remaining milliseconds before despawn
    pub lifetime: u64,
    /// total lifetime for age calculation
    pub max_lifetime: u64,
}

pub open spec fn projectile_wf(p: Projectile) -> bool {
    &&& in_bounds(p.position)
    &&& -SPEED_CAP <= p.velocity.x <= SPEED_CAP
    &&& -SPEED_CAP <= p.velocity.y <= SPEED_CAP
    &&& p.lifetime <= LIFETIME_CAP
    &&& p.damage <= HP_CAP
}

/// One velocity component: the direction component scaled to length `speed`,
/// rounded toward zero.
pub open spec fn scaled_component(c: int, speed: int, mag: int) -> int {
    if c >= 0 {
        c * speed / mag
    } else {
        -((-c) * speed / mag)
    }
}

/// A coordinate after adding a step, clamped to the arena's coordinate bound.
pub open spec fn clamped_add(x: int, d: int) -> int {
    let s = x + d;
    if s > COORD_LIMIT {
        COORD_LIMIT as int
    } else if s < -COORD_LIMIT {
        -COORD_LIMIT as int
    } else {
        s
    }
}

/// The signed distance covered on one axis in `dt` milliseconds at velocity
/// `v` milli-units per second, rounded toward zero.
pub open spec fn vel_step(v: int, dt: int) -> int {
    if v >= 0 {
        v * dt / 1000
    } else {
        -((-v) * dt / 1000)
    }
}

/// The projectile `Projectile::new` builds.
pub open spec fn projectile_new_spec(
    id: u64,
    owner_id: u64,
    position: Position,
    direction: Position,
    speed: int,
    damage: u64,
    lifetime: u64,
) -> Projectile {
    let mag = dist(direction, origin());
    let velocity = if mag == 0 {
        origin()
    } else {
        Position {
            x: scaled_component(direction.x as int, speed, mag) as i64,
            y: scaled_component(direction.y as int, speed, mag) as i64,
        }
    };
    Projectile { id, owner_id, position, velocity, damage, lifetime, max_lifetime: lifetime }
}

/// The projectile `Projectile::update` leaves behind.
pub open spec fn projectile_update_spec(p: Projectile, dt: int) -> Projectile {
    Projectile {
        position: Position {
            x: clamped_add(p.position.x as int, vel_step(p.velocity.x as int, dt)) as i64,
            y: clamped_add(p.position.y as int, vel_step(p.velocity.y as int, dt)) as i64,
        },
        lifetime: (if p.lifetime >= dt { p.lifetime - dt } else { 0int }) as u64,
        ..p
    }
}

impl Projectile {
    /// A projectile at `position` aimed along `direction` (any length; it is
    /// normalized to `speed`). A zero-length direction gives a motionless
    /// projectile, as the aim is then undefined.
    pub fn new(
        id: u64,
        owner_id: u64,
        position: Position,
        direction: Position,
        speed: i64,
        damage: u64,
        lifetime: u64,
    ) -> (r: Projectile)
        requires
            in_bounds(position),
            -2 * COORD_LIMIT <= direction.x <= 2 * COORD_LIMIT,
            -2 * COORD_LIMIT <= direction.y <= 2 * COORD_LIMIT,
            0 <= speed <= SPEED_CAP,
            damage <= HP_CAP,
            lifetime <= LIFETIME_CAP,
        ensures
            r.id == id,
            r.owner_id == owner_id,
            r.position == position,
            r.damage == damage,
            r.lifetime == lifetime,
            r.max_lifetime == lifetime,
            ({
                let mag = dist(direction, origin());
                if mag == 0 {
                    r.velocity == origin()
                } else {
                    r.velocity.x == scaled_component(direction.x as int, speed as int, mag)
                        && r.velocity.y == scaled_component(direction.y as int, speed as int, mag)
                }
            }),
            r == projectile_new_spec(id, owner_id, position, direction, speed as int, damage, lifetime),
            projectile_wf(r),
    {
        let dx = direction.x;
        let dy = direction.y;
        proof {
            assert(0 <= dx * dx <= 4_000_000_000_000_000_000
                && 0 <= dy * dy <= 4_000_000_000_000_000_000) by (nonlinear_arith)
                requires -2_000_000_000 <= dx <= 2_000_000_000, -2_000_000_000 <= dy <= 2_000_000_000;
            crate::math::lemma_sqrt_floor_bounds(dx * dx + dy * dy);
            lemma_dist_dominates_axis(direction, origin());
            assert(dist_sq(direction, origin()) == dx * dx + dy * dy);
        }
        let s = dx * dx + dy * dy;
        let mag = isqrt(s as u64);
        proof {
            if mag as int > 3_000_000_000 {
                assert((mag as int) * (mag as int) > 8_000_000_000_000_000_000) by (nonlinear_arith)
                    requires mag as int > 3_000_000_000;
            }
        }
        let velocity = if mag > 0 {
            let vx = velocity_component(dx, speed, mag);
            let vy = velocity_component(dy, speed, mag);
            Position { x: vx, y: vy }
        } else {
            Position { x: 0, y: 0 }
        };
        Projectile {
            id,
            owner_id,
            position,
            velocity,
            damage,
            lifetime,
            max_lifetime: lifetime,
        }
    }

    /// Advance by `velocity * dt` (clamped to the arena's coordinate bound)
    /// and use up `dt` milliseconds of lifetime.
    pub fn update(&mut self, dt: u64)
        requires
            projectile_wf(*old(self)),
            dt <= PROJ_DT_CAP,
        ensures
            final(self).position.x == clamped_add(
                old(self).position.x as int,
                vel_step(old(self).velocity.x as int, dt as int),
            ),
            final(self).position.y == clamped_add(
                old(self).position.y as int,
                vel_step(old(self).velocity.y as int, dt as int),
            ),
            final(self).lifetime
                == (if old(self).lifetime >= dt { old(self).lifetime - dt } else { 0int }),
            *final(self) == (Projectile {
                position: final(self).position,
                lifetime: final(self).lifetime,
                ..*old(self)
            }),
            *final(self) == projectile_update_spec(*old(self), dt as int),
            projectile_wf(*final(self)),
    {
        self.position.x = axis_step(self.position.x, self.velocity.x, dt);
        self.position.y = axis_step(self.position.y, self.velocity.y, dt);
        self.lifetime = if self.lifetime >= dt {
            self.lifetime - dt
        } else {
            0
        };
    }

    pub fn is_alive(&self) -> (r: bool)
        ensures
            r == (self.lifetime > 0),
    {
        self.lifetime > 0
    }
}

/// One normalized velocity component: `c * speed / mag`, rounded toward zero.
fn velocity_component(c: i64, speed: i64, mag: u64) -> (v: i64)
    requires
        -2 * COORD_LIMIT <= c <= 2 * COORD_LIMIT,
        0 <= speed <= SPEED_CAP,
        0 < mag <= 3_000_000_000,
        (if c >= 0 { c as int } else { -(c as int) }) <= mag as int,
    ensures
        v == scaled_component(c as int, speed as int, mag as int),
        -speed <= v <= speed,
{
    let ca: u64 = if c >= 0 {
        c as u64
    } else {
        (-c) as u64
    };
    proof {
        assert(0 <= (ca as int) * (speed as int) <= 20_000_000_000_000_000) by (nonlinear_arith)
            requires 0 <= ca <= 2_000_000_000u64, 0 <= speed <= SPEED_CAP;
        assert((ca as int) * (speed as int) <= (mag as int) * (speed as int)) by (nonlinear_arith)
            requires ca <= mag, 0 <= speed;
        vstd::arithmetic::div_mod::lemma_multiply_divide_le(
            (ca as int) * (speed as int),
            mag as int,
            speed as int,
        );
    }
    let va = ca * (speed as u64) / mag;
    if c >= 0 {
        va as i64
    } else {
        -(va as i64)
    }
}

/// One axis of a clamped projectile step.
fn axis_step(x: i64, v: i64, dt: u64) -> (r: i64)
    requires
        -COORD_LIMIT <= x <= COORD_LIMIT,
        -SPEED_CAP <= v <= SPEED_CAP,
        dt <= PROJ_DT_CAP,
    ensures
        r == clamped_add(x as int, vel_step(v as int, dt as int)),
        -COORD_LIMIT <= r <= COORD_LIMIT,
{
    let va: u64 = if v >= 0 {
        v as u64
    } else {
        (-v) as u64
    };
    proof {
        assert(0 <= (va as int) * (dt as int) <= 10_000_000_000_000) by (nonlinear_arith)
            requires 0 <= va <= SPEED_CAP, 0 <= dt <= PROJ_DT_CAP;
    }
    let step = (va * dt / 1000) as i64;
    let moved = if v >= 0 {
        x + step
    } else {
        x - step
    };
    if moved > COORD_LIMIT {
        COORD_LIMIT
    } else if moved < -COORD_LIMIT {
        -COORD_LIMIT
    } else {
        moved
    }
}

} // verus!
