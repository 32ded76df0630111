//! Named configuration constants of the motion layer.
//!
//! The tuning constants (`COLLISION_EPSILON`, `MAX_SLIDE_ITERATIONS`,
//! `CONTACT_PROBE`) are empirical: they are sized against the default actor
//! speed and tick rate and must be re-validated if either changes materially.
//! The remaining constants are machine limits that keep every product taken
//! by the resolver inside `i64`.

use vstd::prelude::*;

verus! {

/// Fixed-point scale: this many fractional steps make one world unit.
pub const UNIT: i64 = 65536;

/// Safety margin subtracted from a computed contact distance so that a move
/// never ends in exact, unstable contact with a surface. Roughly 0.0095
/// world units, sized to survive sharp-corner geometry at the default speed
/// and tick rate without visibly separating the actor from a wall it slides
/// along.
pub const COLLISION_EPSILON: i64 = 625;

/// Cap on collide-and-slide iterations per tick. Two are enough: the first
/// resolves the primary blocking surface, the second a secondary surface in
/// a corner. Higher caps reintroduce jitter against sharp colliders.
pub const MAX_SLIDE_ITERATIONS: u8 = 2;

/// Probe distance of the projectile contact test, roughly 0.001 world
/// units: a point-in-contact check at the post-move position, not a sweep
/// over the whole frame's travel.
pub const CONTACT_PROBE: i64 = 66;

/// A vector whose squared norm is below the square of this threshold is too
/// short to normalize: its direction would be dominated by rounding.
pub const MIN_NORMALIZE_NORM: i64 = 16;

/// Positions handed to the resolver stay within this magnitude per axis.
pub const POS_LIMIT: i64 = 0x4000_0000;

/// A single tick's travel budget never exceeds this magnitude (16 units).
pub const DIST_LIMIT: i64 = 0x10_0000;

/// Scalar speeds stay below this magnitude (256 units per second).
pub const SPEED_LIMIT: i64 = 0x100_0000;

/// Acceleration rates stay below this magnitude (16 per second).
pub const ACCEL_LIMIT: i64 = 0x10_0000;

/// Push-force multipliers stay below this magnitude (64).
pub const PUSH_LIMIT: i64 = 0x40_0000;

/// Tick durations stay at or below one second.
pub const DT_LIMIT: i64 = 65536;

/// Aim targets are taken at most this far from the actor per axis.
pub const AIM_LIMIT: i64 = 0x20_0000;

/// An aim ray whose plane-ward direction component is smaller than this is
/// treated as parallel to the aim plane (roughly 0.01 of a unit direction).
pub const MIN_RAY_SLOPE: i64 = 655;

/// Fixed-point component of a unit diagonal, the largest integer whose
/// doubled square stays at or below `UNIT * UNIT`.
pub const DIAGONAL_COMPONENT: i64 = 46340;

/// Ballistics configuration of the gun: how fast a projectile leaves,
/// how quickly it gains speed, and how hard it pushes what it strikes.
pub struct GunConfig {
    /// Speed of a freshly fired projectile, `UNIT`-scaled units per second.
    pub starting_speed: i64,
    /// Continuous compounding rate of speed growth, `UNIT`-scaled per second.
    pub acceleration: i64,
    /// Magnitude of the velocity increment a projectile imparts to a movable
    /// body it strikes, `UNIT`-scaled units per second.
    pub push_force: i64,
}

impl Default for GunConfig {
    /// Ten units per second at the muzzle, growing at rate six per second,
    /// pushing with magnitude two.
    fn default() -> (c: Self)
        ensures
            c.starting_speed == 10 * UNIT,
            c.acceleration == 6 * UNIT,
            c.push_force == 2 * UNIT,
    {
        GunConfig { starting_speed: 655360, acceleration: 393216, push_force: 131072 }
    }
}

} // verus!
