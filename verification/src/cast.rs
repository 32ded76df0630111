//! Model of the external shape-cast service's reports.
//!
//! The broad-phase query itself lives outside this crate: a caller sweeps a
//! collider along a direction up to a distance and hands the nearest hit —
//! struck entity, distance to first contact, outward surface normal, and the
//! entity's rigid-body classification — back to the resolver. Entities are
//! opaque handles; distances and normals arrive in the same fixed-point
//! scale as everything else.

use vstd::prelude::*;

use crate::config::UNIT;
use crate::vec2::Vec2;

verus! {

/// Whether contact forces can displace an obstacle.
#[derive(Clone, Copy, PartialEq, Eq, Structural, Debug)]
pub enum RigidKind {
    /// Fixed in place regardless of contact (static or kinematic bodies).
    Immovable,
    /// Freely movable (dynamic bodies); carries a mutable linear velocity.
    Movable,
}

/// What a single shape cast reported. `kind` is `None` when the struck
/// entity has no retrievable rigid-body classification.
#[derive(Clone, Copy, PartialEq, Eq, Structural, Debug)]
pub enum CastOutcome {
    /// No obstruction within the cast distance.
    NoHit,
    /// The nearest obstruction along the cast.
    Hit { entity: u64, distance: i64, normal: Vec2, kind: Option<RigidKind> },
}

impl CastOutcome {
    /// What the resolver assumes of a report for a cast of length
    /// `max_distance`: a hit lies within the cast, and the surface normal is
    /// a unit-or-shorter fixed-point direction.
    pub open spec fn wf(self, max_distance: int) -> bool {
        self matches CastOutcome::Hit { distance, normal, .. } ==> {
            &&& 0 <= distance <= max_distance
            &&& normal@.norm_sq() <= (UNIT * UNIT) as int
        }
    }
}

/// An instantaneous velocity increment for a movable obstacle, to be added
/// to — never overwrite — the entity's stored linear velocity, so that
/// simultaneous contacts compose.
#[derive(Clone, Copy, PartialEq, Eq, Structural, Debug)]
pub struct PushImpulse {
    /// The struck movable entity.
    pub entity: u64,
    /// The `UNIT`-scaled velocity increment.
    pub delta: Vec2,
}

} // verus!
