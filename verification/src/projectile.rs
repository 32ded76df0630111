//! The projectile ballistic resolver.
//!
//! Each tick a live projectile's speed compounds by its acceleration rate,
//! its position advances along its fixed direction, and the caller probes
//! the new position for contact with a short shape cast. A contact pushes a
//! movable obstacle, damages a destructible target, and always destroys the
//! projectile; no contact leaves it alive and otherwise unchanged.

use vstd::prelude::*;

use crate::cast::PushImpulse;
use crate::cast::RigidKind;
use crate::config::ACCEL_LIMIT;
use crate::config::AIM_LIMIT;
use crate::config::DT_LIMIT;
use crate::config::MIN_RAY_SLOPE;
use crate::config::POS_LIMIT;
use crate::config::SPEED_LIMIT;
use crate::config::UNIT;
use crate::health::Health;
use crate::vec2::div_ceil;
use crate::vec2::div_tz;
use crate::vec2::iabs;
use crate::vec2::in_bounds;
use crate::vec2::lemma_div_tz_nonneg_le;
use crate::vec2::lemma_mul_mag_bound;
use crate::vec2::normalized_spec;
use crate::vec2::too_short;
use crate::vec2::Vec2;

verus! {

/// A short-lived ballistic mover: a fixed unit direction and a scalar
/// speed that grows over its lifetime.
#[derive(Clone, Copy, PartialEq, Eq, Structural, Debug)]
pub struct Projectile {
    /// Current position, `UNIT`-scaled.
    pub pos: Vec2,
    /// Travel direction, a fixed-point unit-or-shorter vector, fixed for
    /// the projectile's lifetime.
    pub dir: Vec2,
    /// Current scalar speed, `UNIT`-scaled units per second.
    pub current_speed: i64,
}

/// What a contact probe struck: the entity, its rigid-body classification
/// if it has one, and its remaining health if it is destructible.
#[derive(Clone, Copy, PartialEq, Eq, Structural, Debug)]
pub struct Contact {
    /// The struck entity.
    pub entity: u64,
    /// `None` when the entity has no rigid-body classification.
    pub kind: Option<RigidKind>,
    /// `None` when the entity is not destructible.
    pub health: Option<Health>,
}

/// What becomes of a struck destructible target.
#[derive(Clone, Copy, PartialEq, Eq, Structural, Debug)]
pub enum TargetFate {
    /// The target is not destructible; it is left untouched.
    Unharmed,
    /// The target absorbed the hit and remains, with this health.
    Damaged(Health),
    /// The hit would have driven the target's health below zero: the
    /// target must be removed from the world this tick.
    Removed,
}

/// The outcome of a projectile's contact probe.
#[derive(Clone, Copy, PartialEq, Eq, Structural, Debug)]
pub enum ContactVerdict {
    /// Nothing was struck: the projectile stays alive, unchanged.
    Alive,
    /// Something was struck: the projectile must be removed, a movable
    /// obstacle receives the impulse, and a destructible target meets its
    /// fate.
    Destroyed { push: Option<PushImpulse>, target: TargetFate },
}

impl Projectile {
    /// Well-formedness of a live projectile.
    pub open spec fn wf(self) -> bool {
        &&& in_bounds(self.pos@)
        &&& self.dir@.norm_sq() <= (UNIT * UNIT) as int
        &&& 0 <= self.current_speed <= SPEED_LIMIT
    }

    /// One tick of flight: the speed compounds by `1 + dt * accel` with the
    /// fractional growth rounded up, then the position advances along the
    /// projectile's direction by the new speed times `dt`. Under positive
    /// speed, duration and acceleration the new speed is strictly greater —
    /// a surviving projectile never stops gaining speed.
    pub fn advance(self, dt: i64, accel: i64) -> (r: Projectile)
        requires
            self.wf(),
            0 < dt <= DT_LIMIT,
            0 <= accel <= ACCEL_LIMIT,
        ensures
            r.dir == self.dir,
            r.current_speed == self.current_speed + div_ceil(
                self.current_speed * dt * accel,
                (UNIT * UNIT) as int,
            ),
            r.pos@ == self.pos@.plus(self.dir@.scaled(div_tz(r.current_speed * dt, UNIT as int))),
            self.current_speed >= 1 && accel >= 1 ==> r.current_speed > self.current_speed,
    {
        proof {
            lemma_mul_mag_bound(self.current_speed as int, dt as int, SPEED_LIMIT as int, DT_LIMIT as int);
            lemma_mul_mag_bound(
                self.current_speed * dt,
                accel as int,
                SPEED_LIMIT * DT_LIMIT,
                ACCEL_LIMIT as int,
            );
            vstd::arithmetic::mul::lemma_mul_nonnegative(self.current_speed as int, dt as int);
            vstd::arithmetic::mul::lemma_mul_nonnegative(self.current_speed * dt, accel as int);
            lemma_growth_bounds(self.current_speed * dt * accel);
        }
        proof {
            if self.current_speed >= 1 && accel >= 1 {
                vstd::arithmetic::mul::lemma_mul_strictly_positive(
                    self.current_speed as int,
                    dt as int,
                );
                vstd::arithmetic::mul::lemma_mul_strictly_positive(
                    self.current_speed * dt,
                    accel as int,
                );
            }
        }
        let num: i64 = self.current_speed * dt * accel;
        let uu: i64 = UNIT * UNIT;
        let growth: i64 = crate::vec2::div_trunc(num + (uu - 1), uu);
        let new_speed: i64 = self.current_speed + growth;
        proof {
            lemma_mul_mag_bound(new_speed as int, dt as int, 0x4000_0000, DT_LIMIT as int);
            vstd::arithmetic::mul::lemma_mul_nonnegative(new_speed as int, dt as int);
            lemma_div_tz_nonneg_le(new_speed * dt, UNIT as int, 0x4000_0000);
        }
        let step: i64 = crate::vec2::div_trunc(new_speed * dt, UNIT);
        let motion = self.dir.scaled(step);
        proof {
            crate::vec2::lemma_comp_le_norm(motion@, step as int);
        }
        Projectile { pos: self.pos.plus(motion), dir: self.dir, current_speed: new_speed }
    }
}

/// Bounds of the rounded-up speed growth: it is nonnegative, at most
/// `0x1000_0000` for any product the limits admit, and positive whenever
/// the product is.
proof fn lemma_growth_bounds(num: int)
    requires
        0 <= num <= SPEED_LIMIT * DT_LIMIT * ACCEL_LIMIT,
    ensures
        0 <= div_ceil(num, (UNIT * UNIT) as int),
        div_ceil(num, (UNIT * UNIT) as int) <= 0x1000_0000,
        num >= 1 ==> div_ceil(num, (UNIT * UNIT) as int) >= 1,
        div_ceil(num, (UNIT * UNIT) as int) == (num + (UNIT * UNIT) - 1) / ((UNIT * UNIT) as int),
{
    let uu = (UNIT * UNIT) as int;
    vstd::arithmetic::div_mod::lemma_fundamental_div_mod(num + uu - 1, uu);
    vstd::arithmetic::div_mod::lemma_mod_division_less_than_divisor(num + uu - 1, uu);
    let q = (num + uu - 1) / uu;
    let rem = (num + uu - 1) % uu;
    assert(0 <= q && q <= 0x1000_0000 && (num >= 1 ==> q >= 1)) by (nonlinear_arith)
        requires
            num + uu - 1 == uu * q + rem,
            0 <= rem < uu,
            uu == 0x1_0000_0000,
            0 <= num <= 0x1000_0000_0000_0000,
    ;
}

/// Resolve a projectile's contact probe.
///
/// `contact` is `None` when the probe found nothing within its distance:
/// the projectile stays alive and unchanged. Any contact destroys the
/// projectile. A struck movable obstacle additionally receives a velocity
/// increment of magnitude `push_force` along the projectile's direction; a
/// struck destructible target loses one health, or must be removed when
/// the loss would drive its health below zero.
pub fn resolve_contact(p: &Projectile, contact: Option<Contact>, push_force: i64) -> (v:
    ContactVerdict)
    requires
        p.wf(),
        0 <= push_force <= 0x4000_0000,
    ensures
        contact is None <==> v is Alive,
        contact matches Some(c) ==> v matches ContactVerdict::Destroyed { push, target } && {
            &&& if c.kind == Some(RigidKind::Movable) {
                push matches Some(pu) && pu.entity == c.entity && pu.delta@ == p.dir@.scaled(
                    push_force as int,
                )
            } else {
                push is None
            }
            &&& match c.health {
                None => target is Unharmed,
                Some(h) => {
                    &&& h.0 >= 1 ==> target == TargetFate::Damaged(Health((h.0 - 1) as u32))
                    &&& h.0 == 0 ==> target is Removed
                },
            }
        },
{
    match contact {
        None => ContactVerdict::Alive,
        Some(c) => {
            let push = match c.kind {
                Some(RigidKind::Movable) => Some(
                    PushImpulse { entity: c.entity, delta: p.dir.scaled(push_force) },
                ),
                _ => None,
            };
            let target = match c.health {
                None => TargetFate::Unharmed,
                Some(h) => match h.take_hit() {
                    Some(left) => TargetFate::Damaged(left),
                    None => TargetFate::Removed,
                },
            };
            ContactVerdict::Destroyed { push, target }
        },
    }
}

/// Where the aim ray meets the horizontal plane of the actor, if it does.
///
/// The ray starts at `(ox, oy, oz)` with direction `(rx, ry, rz)`, all
/// `UNIT`-scaled with a unit-or-shorter direction; the plane lies at height
/// `plane_z`. A ray running parallel to the plane (plane-ward slope below
/// `MIN_RAY_SLOPE`) or meeting it behind the origin yields `None`, and the
/// tick's aim-dependent actions are skipped.
pub fn aim_target(
    ox: i64,
    oy: i64,
    oz: i64,
    rx: i64,
    ry: i64,
    rz: i64,
    plane_z: i64,
) -> (r: Option<Vec2>)
    requires
        iabs(ox as int) <= POS_LIMIT,
        iabs(oy as int) <= POS_LIMIT,
        iabs(oz as int) <= POS_LIMIT,
        iabs(rx as int) <= UNIT,
        iabs(ry as int) <= UNIT,
        iabs(rz as int) <= UNIT,
        iabs(plane_z as int) <= POS_LIMIT,
    ensures
        ({
            let t = div_tz((plane_z - oz) * UNIT, rz as int);
            match r {
                None => iabs(rz as int) < MIN_RAY_SLOPE || t < 0,
                Some(p) => {
                    &&& iabs(rz as int) >= MIN_RAY_SLOPE
                    &&& t >= 0
                    &&& p@.x == ox + div_tz(rx * t, UNIT as int)
                    &&& p@.y == oy + div_tz(ry * t, UNIT as int)
                },
            }
        }),
{
    let slope: i64 = if rz >= 0 {
        rz
    } else {
        -rz
    };
    if slope < MIN_RAY_SLOPE {
        return None;
    }
    proof {
        lemma_mul_mag_bound((plane_z - oz) as int, UNIT as int, 2 * POS_LIMIT, UNIT as int);
        lemma_ray_parameter_bound((plane_z - oz) * UNIT, rz as int);
    }
    let t: i64 = crate::vec2::div_trunc((plane_z - oz) * UNIT, rz);
    if t < 0 {
        return None;
    }
    proof {
        lemma_mul_mag_bound(rx as int, t as int, UNIT as int, 0x40_0000_0000);
        lemma_mul_mag_bound(ry as int, t as int, UNIT as int, 0x40_0000_0000);
        crate::vec2::lemma_div_tz_sq(rx * t, UNIT as int);
        crate::vec2::lemma_div_tz_sq(ry * t, UNIT as int);
    }
    let px: i64 = ox + crate::vec2::div_trunc(rx * t, UNIT);
    let py: i64 = oy + crate::vec2::div_trunc(ry * t, UNIT);
    Some(Vec2 { x: px, y: py })
}

/// The ray parameter's magnitude is bounded once the slope is away from
/// zero.
proof fn lemma_ray_parameter_bound(num: int, rz: int)
    requires
        iabs(num) <= 2 * POS_LIMIT * UNIT,
        iabs(rz) >= MIN_RAY_SLOPE,
        rz != 0,
    ensures
        iabs(div_tz(num, rz)) <= 0x40_0000_0000,
{
    let mag = iabs(num);
    let slope = iabs(rz);
    vstd::arithmetic::div_mod::lemma_fundamental_div_mod(mag, slope);
    vstd::arithmetic::div_mod::lemma_mod_division_less_than_divisor(mag, slope);
    let q = mag / slope;
    let rem = mag % slope;
    assert(0 <= q && q <= 0x40_0000_0000) by (nonlinear_arith)
        requires
            mag == slope * q + rem,
            0 <= rem < slope,
            slope >= 655,
            0 <= mag <= 0x8000_0000_0000,
    ;
}

/// Spawn a projectile from the actor's position toward an aim point, at
/// the gun's starting speed. An aim point too close to the actor for a
/// meaningful direction spawns nothing.
pub fn fire_projectile(from: Vec2, at: Vec2, starting_speed: i64) -> (r: Option<Projectile>)
    requires
        in_bounds(from@),
        iabs(at@.x - from@.x) <= AIM_LIMIT,
        iabs(at@.y - from@.y) <= AIM_LIMIT,
        0 <= starting_speed <= SPEED_LIMIT,
    ensures
        ({
            let to = at@.minus(from@);
            match r {
                None => too_short(to),
                Some(p) => {
                    &&& !too_short(to)
                    &&& p.pos == from
                    &&& p.dir@ == normalized_spec(to)
                    &&& p.current_speed == starting_speed
                    &&& p.wf()
                },
            }
        }),
{
    let to = at.minus(from);
    match to.try_normalize() {
        None => None,
        Some(dir) => Some(Projectile { pos: from, dir, current_speed: starting_speed }),
    }
}

} // verus!
