//! The kinematic collide-and-slide mover.
//!
//! Each tick the actor's desired motion is resolved against the world
//! through at most [`MAX_SLIDE_ITERATIONS`] shape casts. The caller owns
//! the cast primitive: [`Player::begin_move`] opens the tick, and while the
//! returned action asks to continue, the caller casts the actor's collider
//! from `state.pos` along `state.dir` up to `state.remaining` and feeds the
//! report to [`resolve_cast`]. Every decision taken on a report — advancing
//! to a safety-shrunk contact distance, pushing a movable obstacle,
//! projecting the motion onto a wall's tangent plane — is verified: the
//! actor never advances past a reported contact minus the collision
//! epsilon, and its whole displacement for the tick never exceeds the
//! travel budget.

use vstd::prelude::*;

use crate::cast::CastOutcome;
use crate::cast::PushImpulse;
use crate::cast::RigidKind;
use crate::config::AIM_LIMIT;
use crate::config::COLLISION_EPSILON;
use crate::config::DIAGONAL_COMPONENT;
use crate::config::DIST_LIMIT;
use crate::config::DT_LIMIT;
use crate::config::MAX_SLIDE_ITERATIONS;
use crate::config::PUSH_LIMIT;
use crate::config::SPEED_LIMIT;
use crate::config::UNIT;
use crate::vec2::div_tz;
use crate::vec2::iabs;
use crate::vec2::in_bounds;
use crate::vec2::lemma_comp_le_norm;
use crate::vec2::lemma_div_tz_nonneg_le;
use crate::vec2::lemma_div_tz_sq;
use crate::vec2::lemma_mul_mag_bound;
use crate::vec2::lemma_scaled_norm;
use crate::vec2::lemma_sq_le_sq;
use crate::vec2::lemma_triangle_sq;
use crate::vec2::normalized_spec;
use crate::vec2::too_short;
use crate::vec2::Vec2;
use crate::vec2::Vec2Model;

verus! {

/// The kinematic actor: the one player-controlled mover of the simulation.
#[derive(Clone, Copy, PartialEq, Eq, Structural, Debug)]
pub struct Player {
    /// Current position, `UNIT`-scaled.
    pub pos: Vec2,
    /// In-plane facing direction, a fixed-point unit-or-shorter vector.
    pub facing: Vec2,
    /// Top speed, `UNIT`-scaled units per second.
    pub speed: i64,
    /// Multiplier applied to the speed when imparting an impulse to a
    /// movable obstacle.
    pub push_multiplier: i64,
}

/// Process-wide simulation state holding the one actor. Exactly one actor
/// exists during normal play; a system that asks for "the" actor while the
/// slot is empty, or spawns into an occupied slot, is told so instead of
/// being handed a silent default.
pub struct ActorSlot {
    actor: Option<Player>,
}

/// A misuse of the actor's lifecycle: the slot was empty where one actor
/// was required, or occupied where none was allowed.
#[derive(Clone, Copy, PartialEq, Eq, Structural, Debug)]
pub enum ActorSlotError {
    /// No actor is alive.
    Absent,
    /// An actor is already alive; a second one cannot be placed.
    AlreadyPresent,
}

impl ActorSlot {
    /// Whether an actor is alive in the slot.
    pub closed spec fn spec_occupied(self) -> bool {
        self.actor is Some
    }

    /// The actor held, meaningful only while occupied.
    pub closed spec fn spec_actor(self) -> Player
        recommends
            self.spec_occupied(),
    {
        self.actor->0
    }

    /// The world before the actor spawns: an empty slot.
    pub fn new() -> (s: ActorSlot)
        ensures
            !s.spec_occupied(),
    {
        ActorSlot { actor: None }
    }

    /// Spawn the actor into the slot; refused while one is alive.
    pub fn place(&mut self, p: Player) -> (r: Result<(), ActorSlotError>)
        ensures
            r is Ok <==> !old(self).spec_occupied(),
            r matches Err(e) ==> e == ActorSlotError::AlreadyPresent && *final(self) == *old(self),
            r is Ok ==> final(self).spec_occupied() && final(self).spec_actor() == p,
    {
        match self.actor {
            Some(_) => Err(ActorSlotError::AlreadyPresent),
            None => {
                self.actor = Some(p);
                Ok(())
            },
        }
    }

    /// The one live actor, or a report that none is.
    pub fn single(&self) -> (r: Result<&Player, ActorSlotError>)
        ensures
            r is Ok <==> self.spec_occupied(),
            r matches Ok(p) ==> *p == self.spec_actor(),
            r matches Err(e) ==> e == ActorSlotError::Absent,
    {
        match &self.actor {
            Some(p) => Ok(p),
            None => Err(ActorSlotError::Absent),
        }
    }

    /// Remove the actor from the world, handing it back.
    pub fn remove(&mut self) -> (r: Result<Player, ActorSlotError>)
        ensures
            r is Ok <==> old(self).spec_occupied(),
            r matches Ok(p) ==> p == old(self).spec_actor() && !final(self).spec_occupied(),
            r matches Err(e) ==> e == ActorSlotError::Absent && *final(self) == *old(self),
    {
        match self.actor {
            Some(p) => {
                self.actor = None;
                Ok(p)
            },
            None => Err(ActorSlotError::Absent),
        }
    }

    /// Put the actor back after a tick's mutation.
    pub fn store(&mut self, p: Player)
        ensures
            final(self).spec_occupied(),
            final(self).spec_actor() == p,
    {
        self.actor = Some(p);
    }
}

/// A failure of a tick's motion resolution.
#[derive(Clone, Copy, PartialEq, Eq, Structural, Debug)]
pub enum MotionError {
    /// A cast struck an entity with no retrievable rigid-body
    /// classification. Every collidable obstacle must be classified, so the
    /// tick's remaining motion is abandoned with this diagnosis instead of
    /// silently continuing.
    UnclassifiedObstacle,
}

/// What the caller should do next with a tick's motion resolution.
#[derive(Clone, Copy, PartialEq, Eq, Structural, Debug)]
pub enum MoveAction {
    /// Cast the actor's collider from `pos` along `dir` up to `remaining`
    /// and feed the report to [`resolve_cast`].
    Continue,
    /// The tick's motion is resolved; apply the state's position.
    Finished,
}

/// The in-progress resolution of one tick's motion.
#[derive(Clone, Copy, PartialEq, Eq, Structural, Debug)]
pub struct MoveState {
    /// The actor's position when the tick began.
    pub start: Vec2,
    /// The position resolved so far.
    pub pos: Vec2,
    /// Current movement direction, a fixed-point unit-or-shorter vector.
    pub dir: Vec2,
    /// Travel distance still available this tick.
    pub remaining: i64,
    /// The tick's whole travel budget, speed times tick duration.
    pub budget: i64,
    /// Magnitude of the velocity increment imparted to a movable obstacle
    /// on contact: budget times push multiplier.
    pub push_strength: i64,
    /// Slide iterations still allowed this tick.
    pub iterations_left: u8,
}

/// One resolved step of the slide loop.
#[derive(Clone, Copy, PartialEq, Eq, Structural, Debug)]
pub struct MoveStep {
    /// The resolution state after the step.
    pub state: MoveState,
    /// Whether the caller should cast again or stop.
    pub action: MoveAction,
    /// The impulse to add to a struck movable obstacle's velocity, if any.
    pub push: Option<PushImpulse>,
}

/// Well-formedness of an in-progress resolution. The last clause carries
/// the speed-bound argument: the displacement resolved so far never exceeds
/// the budget already consumed.
pub open spec fn wf_state(s: MoveState) -> bool {
    &&& in_bounds(s.start@)
    &&& 0 <= s.remaining <= s.budget
    &&& s.budget <= DIST_LIMIT
    &&& 0 <= s.push_strength <= 0x4000_0000
    &&& s.dir@.norm_sq() <= (UNIT * UNIT) as int
    &&& s.pos@.minus(s.start@).norm_sq() <= (s.budget - s.remaining) * (s.budget - s.remaining)
}

/// The fixed-point direction of a keyboard-style desired direction whose
/// components are each -1, 0 or 1.
pub open spec fn input_direction(dx: int, dy: int) -> Vec2Model {
    let u = UNIT as int;
    let diag = DIAGONAL_COMPONENT as int;
    if dx == 0 && dy == 0 {
        Vec2Model { x: 0, y: 0 }
    } else if dx == 0 {
        Vec2Model { x: 0, y: if dy > 0 { u } else { -u } }
    } else if dy == 0 {
        Vec2Model { x: if dx > 0 { u } else { -u }, y: 0 }
    } else {
        Vec2Model { x: if dx > 0 { diag } else { -diag }, y: if dy > 0 { diag } else { -diag } }
    }
}

/// The safety-shrunk advance toward a contact reported at `distance`: the
/// collision epsilon short of it, and never backward.
pub open spec fn advance_len(distance: int) -> int {
    if distance >= COLLISION_EPSILON {
        distance - COLLISION_EPSILON
    } else {
        0
    }
}

/// The slide vector at scale `UNIT * UNIT`: the raw intended displacement
/// minus its component along the surface normal.
pub open spec fn slide_scaled(raw: Vec2Model, n: Vec2Model) -> Vec2Model {
    let uu = (UNIT * UNIT) as int;
    Vec2Model { x: raw.x * uu - n.x * raw.dot(n), y: raw.y * uu - n.y * raw.dot(n) }
}

/// The slide vector brought back to displacement scale.
pub open spec fn slide_reduced(raw: Vec2Model, n: Vec2Model) -> Vec2Model {
    let uu = (UNIT * UNIT) as int;
    Vec2Model { x: div_tz(slide_scaled(raw, n).x, uu), y: div_tz(slide_scaled(raw, n).y, uu) }
}

/// The transition relation of one slide-loop step: exactly how the next
/// state, action and impulse follow from the current state and the cast's
/// report.
pub open spec fn step_ok(s: MoveState, outcome: CastOutcome, step: MoveStep) -> bool {
    &&& step.state.start == s.start
    &&& step.state.budget == s.budget
    &&& step.state.push_strength == s.push_strength
    &&& step.state.iterations_left == s.iterations_left - 1
    &&& match outcome {
        CastOutcome::NoHit => {
            &&& step.state.pos@ == s.pos@.plus(s.dir@.scaled(s.remaining as int))
            &&& step.state.remaining == 0
            &&& step.state.dir == s.dir
            &&& step.action is Finished
            &&& step.push is None
        },
        CastOutcome::Hit { entity, distance, normal, kind } => {
            let adv = advance_len(distance as int);
            &&& step.state.pos@ == s.pos@.plus(s.dir@.scaled(adv))
            &&& step.state.remaining == s.remaining - adv
            &&& match kind {
                Some(RigidKind::Movable) => {
                    &&& step.state.dir == s.dir
                    &&& step.action is Finished
                    &&& step.push matches Some(pu) && pu.entity == entity && pu.delta@ == s.dir@.scaled(
                        s.push_strength as int,
                    )
                },
                Some(RigidKind::Immovable) => {
                    let raw = s.dir@.scaled(s.remaining as int);
                    let slide = slide_reduced(raw, normal@);
                    &&& step.push is None
                    &&& if too_short(slide) {
                        &&& step.state.dir == s.dir
                        &&& step.action is Finished
                    } else {
                        &&& step.state.dir@ == normalized_spec(slide)
                        &&& (step.action is Continue <==> step.state.remaining > 0
                            && step.state.iterations_left >= 1)
                    }
                },
                None => false,
            }
        },
    }
}

impl Player {
    /// Well-formedness of the actor's record.
    pub open spec fn wf(self) -> bool {
        &&& in_bounds(self.pos@)
        &&& self.facing@.norm_sq() <= (UNIT * UNIT) as int
        &&& 0 <= self.speed <= SPEED_LIMIT
        &&& 0 <= self.push_multiplier <= PUSH_LIMIT
    }

    /// The actor as it enters the world: at `pos`, facing along the
    /// positive x axis, with top speed three units per second and push
    /// multiplier two.
    pub fn spawn(pos: Vec2) -> (p: Player)
        requires
            in_bounds(pos@),
        ensures
            p.wf(),
            p.pos == pos,
            p.facing@.x == UNIT && p.facing@.y == 0,
            p.speed == 3 * UNIT,
            p.push_multiplier == 2 * UNIT,
    {
        let p = Player {
            pos,
            facing: Vec2 { x: UNIT, y: 0 },
            speed: 196608,
            push_multiplier: 131072,
        };
        proof {
            crate::vec2::lemma_norm_sq_le_box(p.facing@, UNIT as int, 0);
        }
        p
    }

    /// Open a tick's motion resolution from a desired direction whose
    /// components are each -1, 0 or 1 and the tick duration `dt`.
    ///
    /// A zero desired direction resolves to no motion at all: the returned
    /// state already holds the unchanged position and the action is
    /// `Finished`.
    pub fn begin_move(&self, dx: i64, dy: i64, dt: i64) -> (r: (MoveState, MoveAction))
        requires
            self.wf(),
            -1 <= dx <= 1,
            -1 <= dy <= 1,
            0 <= dt <= DT_LIMIT,
            self.speed * dt <= DIST_LIMIT * UNIT,
        ensures
            wf_state(r.0),
            r.0.start == self.pos,
            r.0.pos == self.pos,
            r.0.budget == div_tz(self.speed * dt, UNIT as int),
            r.0.push_strength == div_tz(r.0.budget * self.push_multiplier, UNIT as int),
            r.0.iterations_left == MAX_SLIDE_ITERATIONS,
            (dx == 0 && dy == 0) ==> r.0.remaining == 0,
            !(dx == 0 && dy == 0) ==> r.0.dir@ == input_direction(dx as int, dy as int)
                && r.0.remaining == r.0.budget,
            r.1 is Continue <==> (!(dx == 0 && dy == 0) && r.0.budget > 0),
            r.1 is Continue ==> r.0.remaining > 0 && r.0.iterations_left >= 1,
    {
        proof {
            lemma_mul_mag_bound(self.speed as int, dt as int, SPEED_LIMIT as int, DT_LIMIT as int);
            vstd::arithmetic::mul::lemma_mul_nonnegative(self.speed as int, dt as int);
            lemma_div_tz_nonneg_le(
                self.speed * dt,
                UNIT as int,
                DIST_LIMIT as int,
            );
        }
        let budget = crate::vec2::div_trunc(self.speed * dt, UNIT);
        proof {
            lemma_mul_mag_bound(budget as int, self.push_multiplier as int, DIST_LIMIT as int, PUSH_LIMIT as int);
            vstd::arithmetic::mul::lemma_mul_nonnegative(budget as int, self.push_multiplier as int);
            lemma_div_tz_nonneg_le(
                budget * self.push_multiplier,
                UNIT as int,
                0x4000_0000,
            );
        }
        let push_strength = crate::vec2::div_trunc(budget * self.push_multiplier, UNIT);
        if dx == 0 && dy == 0 {
            let state = MoveState {
                start: self.pos,
                pos: self.pos,
                dir: Vec2::zero(),
                remaining: 0,
                budget,
                push_strength,
                iterations_left: MAX_SLIDE_ITERATIONS,
            };
            proof {
                lemma_sq_le_sq(0, budget as int);
                crate::vec2::lemma_norm_sq_le_box(state.dir@, 0, 0);
            }
            (state, MoveAction::Finished)
        } else {
            let dir = if dx == 0 {
                Vec2 { x: 0, y: if dy > 0 { UNIT } else { -UNIT } }
            } else if dy == 0 {
                Vec2 { x: if dx > 0 { UNIT } else { -UNIT }, y: 0 }
            } else {
                Vec2 {
                    x: if dx > 0 { DIAGONAL_COMPONENT } else { -DIAGONAL_COMPONENT },
                    y: if dy > 0 { DIAGONAL_COMPONENT } else { -DIAGONAL_COMPONENT },
                }
            };
            let state = MoveState {
                start: self.pos,
                pos: self.pos,
                dir,
                remaining: budget,
                budget,
                push_strength,
                iterations_left: MAX_SLIDE_ITERATIONS,
            };
            proof {
                let cx = state.dir@.x;
                let cy = state.dir@.y;
                if dx == 0 || dy == 0 {
                    assert(cx * cx + cy * cy <= 65536 * 65536) by (nonlinear_arith)
                        requires
                            cx == 0 || cy == 0,
                            -65536 <= cx <= 65536,
                            -65536 <= cy <= 65536,
                    ;
                } else {
                    assert(cx * cx + cy * cy <= 65536 * 65536) by (nonlinear_arith)
                        requires
                            cx == 46340 || cx == -46340,
                            cy == 46340 || cy == -46340,
                    ;
                }
            }
            let action = if budget > 0 {
                MoveAction::Continue
            } else {
                MoveAction::Finished
            };
            (state, action)
        }
    }

    /// Close a tick: adopt the resolved position. The actor's displacement
    /// for the tick is bounded by the tick's travel budget.
    pub fn apply_move(&mut self, s: MoveState)
        requires
            old(self).wf(),
            wf_state(s),
            s.start == old(self).pos,
        ensures
            final(self).pos == s.pos,
            final(self).facing == old(self).facing,
            final(self).speed == old(self).speed,
            final(self).push_multiplier == old(self).push_multiplier,
            final(self).pos@.minus(old(self).pos@).norm_sq() <= s.budget * s.budget,
    {
        proof {
            lemma_speed_bound(s);
        }
        self.pos = s.pos;
    }

    /// Turn to face a world-space target, typically the cursor's
    /// intersection with the actor's plane. A target too close to the
    /// actor for a meaningful direction leaves the facing unchanged.
    pub fn face_toward(&mut self, target: Vec2)
        requires
            old(self).wf(),
            iabs(target@.x - old(self).pos@.x) <= AIM_LIMIT,
            iabs(target@.y - old(self).pos@.y) <= AIM_LIMIT,
        ensures
            final(self).pos == old(self).pos,
            final(self).speed == old(self).speed,
            final(self).push_multiplier == old(self).push_multiplier,
            final(self).wf(),
            ({
                let to = target@.minus(old(self).pos@);
                if too_short(to) {
                    final(self).facing == old(self).facing
                } else {
                    final(self).facing@ == normalized_spec(to)
                }
            }),
    {
        let to = target.minus(self.pos);
        match to.try_normalize() {
            Some(d) => {
                self.facing = d;
            },
            None => {},
        }
    }
}

/// Resolve one shape-cast report into the next state of the slide loop.
///
/// No obstruction applies the full remaining displacement. A hit advances
/// to the safety-shrunk contact distance; a movable obstacle then receives
/// a push impulse and the loop stops, while an immovable one deflects the
/// motion onto its tangent plane and the loop continues if budget and
/// iterations remain. A hit without a rigid-body classification aborts the
/// tick's motion resolution with an error.
pub fn resolve_cast(s: MoveState, outcome: CastOutcome) -> (r: Result<MoveStep, MotionError>)
    requires
        wf_state(s),
        s.iterations_left >= 1,
        s.remaining > 0,
        outcome.wf(s.remaining as int),
    ensures
        r is Err <==> (outcome matches CastOutcome::Hit { kind, .. } && kind is None),
        r matches Err(e) ==> e == MotionError::UnclassifiedObstacle,
        r matches Ok(step) ==> {
            &&& step_ok(s, outcome, step)
            &&& wf_state(step.state)
            &&& (step.action is Continue ==> step.state.remaining > 0
                && step.state.iterations_left >= 1)
            &&& (outcome matches CastOutcome::Hit { distance, .. } ==> step.state.pos@.minus(
                s.pos@,
            ).norm_sq() <= advance_len(distance as int) * advance_len(distance as int))
        },
{
    proof {
        lemma_comp_le_norm(
            s.pos@.minus(s.start@),
            s.budget - s.remaining,
        );
    }
    match outcome {
        CastOutcome::NoHit => {
            let advance_vec = s.dir.scaled(s.remaining);
            proof {
                lemma_comp_le_norm(advance_vec@, s.remaining as int);
                lemma_triangle_sq(
                    s.pos@.minus(s.start@),
                    advance_vec@,
                    s.budget - s.remaining,
                    s.remaining as int,
                );
                assert(s.pos@.plus(advance_vec@).minus(s.start@) == s.pos@.minus(s.start@).plus(
                    advance_vec@,
                ));
            }
            let new_pos = s.pos.plus(advance_vec);
            Ok(
                MoveStep {
                    state: MoveState {
                        start: s.start,
                        pos: new_pos,
                        dir: s.dir,
                        remaining: 0,
                        budget: s.budget,
                        push_strength: s.push_strength,
                        iterations_left: s.iterations_left - 1,
                    },
                    action: MoveAction::Finished,
                    push: None,
                },
            )
        },
        CastOutcome::Hit { entity, distance, normal, kind } => {
            match kind {
                None => Err(MotionError::UnclassifiedObstacle),
                Some(k) => {
                    let adv: i64 = if distance >= COLLISION_EPSILON {
                        distance - COLLISION_EPSILON
                    } else {
                        0
                    };
                    let advance_vec = s.dir.scaled(adv);
                    proof {
                        lemma_comp_le_norm(advance_vec@, adv as int);
                        lemma_triangle_sq(
                            s.pos@.minus(s.start@),
                            advance_vec@,
                            s.budget - s.remaining,
                            adv as int,
                        );
                        assert(s.pos@.plus(advance_vec@).minus(s.start@) == s.pos@.minus(
                            s.start@,
                        ).plus(advance_vec@));
                    }
                    let new_pos = s.pos.plus(advance_vec);
                    let new_remaining = s.remaining - adv;
                    let iterations_left = s.iterations_left - 1;
                    match k {
                        RigidKind::Movable => {
                            let delta = s.dir.scaled(s.push_strength);
                            Ok(
                                MoveStep {
                                    state: MoveState {
                                        start: s.start,
                                        pos: new_pos,
                                        dir: s.dir,
                                        remaining: new_remaining,
                                        budget: s.budget,
                                        push_strength: s.push_strength,
                                        iterations_left,
                                    },
                                    action: MoveAction::Finished,
                                    push: Some(PushImpulse { entity, delta }),
                                },
                            )
                        },
                        RigidKind::Immovable => {
                            let raw = s.dir.scaled(s.remaining);
                            proof {
                                lemma_comp_le_norm(raw@, s.remaining as int);
                                lemma_comp_le_norm(normal@, UNIT as int);
                                lemma_mul_mag_bound(
                                    raw@.x,
                                    normal@.x,
                                    DIST_LIMIT as int,
                                    UNIT as int,
                                );
                                lemma_mul_mag_bound(
                                    raw@.y,
                                    normal@.y,
                                    DIST_LIMIT as int,
                                    UNIT as int,
                                );
                            }
                            let d = raw.dot(normal);
                            let uu: i64 = UNIT * UNIT;
                            proof {
                                lemma_mul_mag_bound(raw@.x, uu as int, DIST_LIMIT as int, uu as int);
                                lemma_mul_mag_bound(raw@.y, uu as int, DIST_LIMIT as int, uu as int);
                                lemma_mul_mag_bound(
                                    normal@.x,
                                    d as int,
                                    UNIT as int,
                                    0x20_0000_0000,
                                );
                                lemma_mul_mag_bound(
                                    normal@.y,
                                    d as int,
                                    UNIT as int,
                                    0x20_0000_0000,
                                );
                            }
                            let sx = raw.x * uu - normal.x * d;
                            let sy = raw.y * uu - normal.y * d;
                            proof {
                                lemma_div_tz_sq(sx as int, uu as int);
                                lemma_div_tz_sq(sy as int, uu as int);
                            }
                            let slide = Vec2 { x: crate::vec2::div_trunc(sx, uu), y: crate::vec2::div_trunc(sy, uu) };
                            assert(slide@ == slide_reduced(raw@, normal@));
                            match slide.try_normalize() {
                                None => Ok(
                                    MoveStep {
                                        state: MoveState {
                                            start: s.start,
                                            pos: new_pos,
                                            dir: s.dir,
                                            remaining: new_remaining,
                                            budget: s.budget,
                                            push_strength: s.push_strength,
                                            iterations_left,
                                        },
                                        action: MoveAction::Finished,
                                        push: None,
                                    },
                                ),
                                Some(new_dir) => {
                                    let action = if new_remaining > 0 && iterations_left >= 1 {
                                        MoveAction::Continue
                                    } else {
                                        MoveAction::Finished
                                    };
                                    Ok(
                                        MoveStep {
                                            state: MoveState {
                                                start: s.start,
                                                pos: new_pos,
                                                dir: new_dir,
                                                remaining: new_remaining,
                                                budget: s.budget,
                                                push_strength: s.push_strength,
                                                iterations_left,
                                            },
                                            action,
                                            push: None,
                                        },
                                    )
                                },
                            }
                        },
                    }
                },
            }
        },
    }
}

/// The speed bound: a well-formed resolution state never stands farther
/// from the tick's starting position than the tick's whole travel budget.
/// Since every resolved step preserves well-formedness, the actor's
/// per-tick displacement is bounded by speed times tick duration.
pub proof fn lemma_speed_bound(s: MoveState)
    requires
        wf_state(s),
    ensures
        s.pos@.minus(s.start@).norm_sq() <= s.budget * s.budget,
{
    lemma_sq_le_sq(s.budget - s.remaining, s.budget as int);
}

/// The speed bound against the raw speed and tick duration: scaled back to
/// their units, the tick's displacement never exceeds top speed times tick
/// duration, rounding included.
pub proof fn lemma_tick_displacement_within_speed(s: MoveState, speed: int, dt: int)
    requires
        wf_state(s),
        s.budget == div_tz(speed * dt, UNIT as int),
        0 <= speed,
        0 <= dt,
    ensures
        s.pos@.minus(s.start@).norm_sq() * ((UNIT * UNIT) as int) <= (speed * dt) * (speed * dt),
{
    lemma_speed_bound(s);
    lemma_div_tz_sq(speed * dt, UNIT as int);
    crate::vec2::lemma_norm_sq_nonneg(s.pos@.minus(s.start@));
    let disp = s.pos@.minus(s.start@).norm_sq();
    let b = s.budget as int;
    let uu = (UNIT * UNIT) as int;
    assert(disp * uu <= (speed * dt) * (speed * dt)) by (nonlinear_arith)
        requires
            0 <= disp <= b * b,
            b * b * uu <= (speed * dt) * (speed * dt),
            uu > 0,
    ;
}

/// No penetration: the advance resolved against a contact reported at
/// `distance` is never longer than the safety-shrunk distance, which stays
/// a full collision epsilon short of the contact whenever it moves at all;
/// in particular its projection onto the cast direction — the axis the
/// obstruction lies on — never reaches the contact. Each slide iteration
/// casts from the position the previous one resolved, so the bound holds
/// at every surface over any sequence of ticks.
pub proof fn lemma_no_penetration(dir: Vec2Model, distance: int)
    requires
        dir.norm_sq() <= (UNIT * UNIT) as int,
        0 <= distance,
    ensures
        dir.scaled(advance_len(distance)).norm_sq() <= advance_len(distance) * advance_len(
            distance,
        ),
        dir.scaled(advance_len(distance)).dot(dir) <= advance_len(distance) * (UNIT as int),
        advance_len(distance) + COLLISION_EPSILON <= distance || advance_len(distance) == 0,
        0 <= advance_len(distance) <= distance,
{
    let adv = advance_len(distance);
    let moved = dir.scaled(adv);
    lemma_scaled_norm(dir, adv);
    crate::vec2::lemma_cauchy_schwarz(moved, dir);
    crate::vec2::lemma_norm_sq_nonneg(moved);
    crate::vec2::lemma_norm_sq_nonneg(dir);
    let d = moved.dot(dir);
    assert(d <= adv * (UNIT as int)) by (nonlinear_arith)
        requires
            d * d <= moved.norm_sq() * dir.norm_sq(),
            0 <= moved.norm_sq() <= adv * adv,
            0 <= dir.norm_sq() <= (UNIT * UNIT) as int,
            0 <= adv,
            UNIT == 65536,
    ;
}

/// Slide conservation: at scale `UNIT * UNIT` the slide vector keeps the
/// raw displacement's full component parallel to the wall, and for an
/// exactly unit surface normal it carries no component into the wall.
pub proof fn lemma_slide_preserves_tangent(raw: Vec2Model, n: Vec2Model)
    ensures
        slide_scaled(raw, n).dot(n.perp()) == (UNIT * UNIT) * raw.dot(n.perp()),
        n.norm_sq() == (UNIT * UNIT) as int ==> slide_scaled(raw, n).dot(n) == 0,
{
    let u2 = (UNIT * UNIT) as int;
    let d = raw.dot(n);
    let a1 = n.x * d;
    let a2 = n.y * d;
    let px = raw.x * u2;
    let py = raw.y * u2;
    assert((px - a1) * (-n.y) + (py - a2) * n.x == (py * n.x - px * n.y) + (a1 * n.y - a2
        * n.x)) by (nonlinear_arith);
    assert(py * n.x == u2 * (raw.y * n.x)) by (nonlinear_arith)
        requires
            py == raw.y * u2,
    ;
    assert(px * n.y == u2 * (raw.x * n.y)) by (nonlinear_arith)
        requires
            px == raw.x * u2,
    ;
    assert(a1 * n.y == a2 * n.x) by (nonlinear_arith)
        requires
            a1 == n.x * d,
            a2 == n.y * d,
    ;
    assert(u2 * (raw.y * n.x) - u2 * (raw.x * n.y) == u2 * (raw.x * (-n.y) + raw.y * n.x)) by (
    nonlinear_arith);
    assert((px - a1) * n.x + (py - a2) * n.y == (px * n.x + py * n.y) - (a1 * n.x + a2
        * n.y)) by (nonlinear_arith);
    assert(px * n.x == u2 * (raw.x * n.x)) by (nonlinear_arith)
        requires
            px == raw.x * u2,
    ;
    assert(py * n.y == u2 * (raw.y * n.y)) by (nonlinear_arith)
        requires
            py == raw.y * u2,
    ;
    assert(a1 * n.x == d * (n.x * n.x)) by (nonlinear_arith)
        requires
            a1 == n.x * d,
    ;
    assert(a2 * n.y == d * (n.y * n.y)) by (nonlinear_arith)
        requires
            a2 == n.y * d,
    ;
    assert(u2 * (raw.x * n.x) + u2 * (raw.y * n.y) == u2 * (raw.x * n.x + raw.y * n.y)) by (
    nonlinear_arith);
    if n.norm_sq() == u2 {
        assert(d * (n.x * n.x) + d * (n.y * n.y) == d * (n.x * n.x + n.y * n.y)) by (
        nonlinear_arith);
        assert(u2 * d - d * u2 == 0) by (nonlinear_arith);
    }
}

/// Bringing the slide vector back to displacement scale loses at most two
/// fixed-point steps of its component parallel to the wall: the rounding
/// of each coordinate contributes less than one step through a
/// unit-or-shorter normal.
pub proof fn lemma_slide_reduction_tangent_error(raw: Vec2Model, n: Vec2Model)
    requires
        iabs(n.x) <= UNIT as int,
        iabs(n.y) <= UNIT as int,
    ensures
        iabs(slide_reduced(raw, n).dot(n.perp()) - raw.dot(n.perp())) <= 2 * UNIT,
{
    let uu = (UNIT * UNIT) as int;
    let s = slide_scaled(raw, n);
    let r = slide_reduced(raw, n);
    lemma_slide_preserves_tangent(raw, n);
    crate::vec2::lemma_div_tz_remainder(s.x, uu);
    crate::vec2::lemma_div_tz_remainder(s.y, uu);
    let ex = s.x - r.x * uu;
    let ey = s.y - r.y * uu;
    assert(uu * (r.x * (-n.y) + r.y * n.x) == (s.x - ex) * (-n.y) + (s.y - ey) * n.x) by (
    nonlinear_arith)
        requires
            s.x - ex == r.x * uu,
            s.y - ey == r.y * uu,
    ;
    assert((s.x - ex) * (-n.y) + (s.y - ey) * n.x == (s.x * (-n.y) + s.y * n.x) + (ex * n.y - ey
        * n.x)) by (nonlinear_arith);
    lemma_mul_mag_bound(ex, n.y as int, uu, UNIT as int);
    lemma_mul_mag_bound(ey, n.x as int, uu, UNIT as int);
    let delta = r.dot(n.perp()) - raw.dot(n.perp());
    assert(uu * delta == ex * n.y - ey * n.x) by (nonlinear_arith)
        requires
            uu * (r.x * (-n.y) + r.y * n.x) == uu * (raw.x * (-n.y) + raw.y * n.x) + (ex * n.y - ey
                * n.x),
            delta == (r.x * (-n.y) + r.y * n.x) - (raw.x * (-n.y) + raw.y * n.x),
    ;
    assert(-(2 * UNIT) <= delta <= 2 * UNIT) by (nonlinear_arith)
        requires
            uu * delta == ex * n.y - ey * n.x,
            -(uu * UNIT) <= ex * n.y <= uu * UNIT,
            -(uu * UNIT) <= ey * n.x <= uu * UNIT,
            uu == (UNIT * UNIT) as int,
            UNIT == 65536,
    ;
}

} // verus!
