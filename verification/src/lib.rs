//! Collision-aware 2D motion resolution for a tick-based simulation.
//!
//! The crate moves a kinematic actor and ballistic projectiles through a
//! plane of obstacles, producing contact response (sliding along immovable
//! surfaces, pushing movable bodies) without letting a mover penetrate solid
//! geometry. The broad-phase shape-cast query itself is an external
//! collaborator: callers perform each cast and feed its report back in, and
//! every decision taken on such a report is verified here.
//!
//! All geometry is carried in signed fixed-point coordinates with
//! [`config::UNIT`] fractional steps per world unit, so every contract is an
//! exact statement about integers.

pub mod cast;
pub mod clock;
pub mod config;
pub mod health;
pub mod mover;
pub mod projectile;
pub mod vec2;
