use motion2d::cast::CastOutcome;
use motion2d::cast::RigidKind;
use motion2d::mover::resolve_cast;
use motion2d::mover::ActorSlot;
use motion2d::mover::ActorSlotError;
use motion2d::mover::MotionError;
use motion2d::mover::MoveAction;
use motion2d::mover::Player;
use motion2d::vec2::Vec2;

const UNIT: i64 = 65536;

fn spawned_at_origin() -> Player {
    Player::spawn(Vec2 { x: 0, y: 0 })
}

#[test]
fn begin_move_budget_is_speed_times_dt() {
    let player = spawned_at_origin();
    // speed 3 units/s at dt = 1/60 s: budget 0.05 units, exactly 3276 steps.
    let (state, action) = player.begin_move(1, 0, 1092);
    assert_eq!(state.budget, 3276);
    assert_eq!(state.remaining, 3276);
    // push strength: budget times multiplier 2.
    assert_eq!(state.push_strength, 6552);
    assert!(matches!(action, MoveAction::Continue));
}

#[test]
fn zero_direction_tick_keeps_position() {
    let mut player = Player::spawn(Vec2 { x: 100, y: 200 });
    let (state, action) = player.begin_move(0, 0, 1092);
    assert!(matches!(action, MoveAction::Finished));
    player.apply_move(state);
    assert_eq!(player.pos, Vec2 { x: 100, y: 200 });
}

#[test]
fn zero_duration_tick_has_no_budget() {
    let player = spawned_at_origin();
    let (state, action) = player.begin_move(1, 0, 0);
    assert_eq!(state.budget, 0);
    assert!(matches!(action, MoveAction::Finished));
}

#[test]
fn unobstructed_tick_travels_the_full_budget() {
    let mut player = spawned_at_origin();
    let (state, _) = player.begin_move(1, 0, 1092);
    let step = resolve_cast(state, CastOutcome::NoHit).unwrap();
    assert!(matches!(step.action, MoveAction::Finished));
    assert_eq!(step.state.remaining, 0);
    player.apply_move(step.state);
    assert_eq!(player.pos, Vec2 { x: 3276, y: 0 });
}

#[test]
fn head_on_wall_stops_an_epsilon_short() {
    // Immovable wall straight ahead, first contact 0.02 units away: the
    // actor advances to the safety-shrunk distance, the slide vector
    // degenerates (motion is purely along the wall's normal), and the tick
    // ends there.
    let mut player = spawned_at_origin();
    let (state, _) = player.begin_move(1, 0, 1092);
    let hit = CastOutcome::Hit {
        entity: 7,
        distance: 1311,
        normal: Vec2 { x: -UNIT, y: 0 },
        kind: Some(RigidKind::Immovable),
    };
    let step = resolve_cast(state, hit).unwrap();
    assert!(matches!(step.action, MoveAction::Finished));
    assert!(step.push.is_none());
    // 1311 - collision epsilon 625 = 686.
    assert_eq!(step.state.pos, Vec2 { x: 686, y: 0 });
    assert_eq!(step.state.remaining, 3276 - 686);
    player.apply_move(step.state);
    assert_eq!(player.pos, Vec2 { x: 686, y: 0 });
}

#[test]
fn contact_inside_epsilon_does_not_move_backward() {
    let player = spawned_at_origin();
    let (state, _) = player.begin_move(1, 0, 1092);
    let hit = CastOutcome::Hit {
        entity: 7,
        distance: 300,
        normal: Vec2 { x: -UNIT, y: 0 },
        kind: Some(RigidKind::Immovable),
    };
    let step = resolve_cast(state, hit).unwrap();
    assert_eq!(step.state.pos, Vec2 { x: 0, y: 0 });
    assert_eq!(step.state.remaining, 3276);
}

#[test]
fn pushing_a_movable_obstacle_imparts_the_impulse_and_stops() {
    // Head-on push at speed 3, multiplier 2, dt = 1/60: the obstacle's
    // velocity increment is budget * multiplier along the push axis —
    // 6552 steps, 0.09998 units — and no further slide is attempted.
    let player = spawned_at_origin();
    let (state, _) = player.begin_move(1, 0, 1092);
    let hit = CastOutcome::Hit {
        entity: 9,
        distance: 1311,
        normal: Vec2 { x: -UNIT, y: 0 },
        kind: Some(RigidKind::Movable),
    };
    let step = resolve_cast(state, hit).unwrap();
    assert!(matches!(step.action, MoveAction::Finished));
    let push = step.push.expect("movable contact must push");
    assert_eq!(push.entity, 9);
    assert_eq!(push.delta, Vec2 { x: 6552, y: 0 });
    assert_eq!(step.state.pos, Vec2 { x: 686, y: 0 });
}

#[test]
fn diagonal_slide_keeps_moving_along_the_wall() {
    // Moving up-right into a wall whose outward normal faces -x: the first
    // iteration advances to the contact, the slide deflects the motion to
    // straight up, and the second cast (unobstructed) spends the rest of
    // the budget along the wall.
    let mut player = spawned_at_origin();
    let (state, action) = player.begin_move(1, 1, 1092);
    assert!(matches!(action, MoveAction::Continue));
    let hit = CastOutcome::Hit {
        entity: 7,
        distance: 1311,
        normal: Vec2 { x: -UNIT, y: 0 },
        kind: Some(RigidKind::Immovable),
    };
    let step = resolve_cast(state, hit).unwrap();
    assert!(matches!(step.action, MoveAction::Continue));
    assert_eq!(step.state.pos, Vec2 { x: 485, y: 485 });
    assert_eq!(step.state.dir, Vec2 { x: 0, y: 65507 });
    assert_eq!(step.state.remaining, 2590);
    let second = resolve_cast(step.state, CastOutcome::NoHit).unwrap();
    assert!(matches!(second.action, MoveAction::Finished));
    assert_eq!(second.state.pos, Vec2 { x: 485, y: 3073 });
    player.apply_move(second.state);
    // The whole tick's displacement stays within the travel budget.
    let dx = i64::from(player.pos.x);
    let dy = i64::from(player.pos.y);
    assert!(dx * dx + dy * dy <= 3276 * 3276);
}

#[test]
fn iteration_cap_ends_the_tick_after_two_casts() {
    let player = spawned_at_origin();
    let (state, _) = player.begin_move(1, 1, 1092);
    let hit = CastOutcome::Hit {
        entity: 7,
        distance: 1311,
        normal: Vec2 { x: -UNIT, y: 0 },
        kind: Some(RigidKind::Immovable),
    };
    let step = resolve_cast(state, hit).unwrap();
    assert!(matches!(step.action, MoveAction::Continue));
    // A second wall grazed at a right angle: the slide direction stays
    // meaningful and budget remains, but the iteration cap ends the tick.
    let second_hit = CastOutcome::Hit {
        entity: 8,
        distance: 1000,
        normal: Vec2 { x: -UNIT, y: 0 },
        kind: Some(RigidKind::Immovable),
    };
    let second = resolve_cast(step.state, second_hit).unwrap();
    assert!(matches!(second.action, MoveAction::Finished));
    assert_eq!(second.state.iterations_left, 0);
    assert!(second.state.remaining > 0);
}

#[test]
fn unclassified_obstacle_aborts_the_tick() {
    let player = spawned_at_origin();
    let (state, _) = player.begin_move(1, 0, 1092);
    let hit = CastOutcome::Hit {
        entity: 11,
        distance: 1311,
        normal: Vec2 { x: -UNIT, y: 0 },
        kind: None,
    };
    let err = resolve_cast(state, hit).unwrap_err();
    assert_eq!(err, MotionError::UnclassifiedObstacle);
}

#[test]
fn displacement_stays_within_budget_over_many_ticks() {
    // Drive the actor through a mix of open space, walls at varying
    // angles and pushable obstacles; each tick's displacement must stay
    // within speed times dt.
    let mut player = spawned_at_origin();
    let directions = [(1, 0), (1, 1), (0, 1), (-1, 1), (-1, 0), (-1, -1), (0, -1), (1, -1)];
    let outcomes = |tick: usize, remaining: i64| match tick % 4 {
        0 => CastOutcome::NoHit,
        1 => CastOutcome::Hit {
            entity: 7,
            distance: (remaining / 2).min(remaining),
            normal: Vec2 { x: -UNIT, y: 0 },
            kind: Some(RigidKind::Immovable),
        },
        2 => CastOutcome::Hit {
            entity: 8,
            distance: remaining.min(900),
            normal: Vec2 { x: 0, y: -UNIT },
            kind: Some(RigidKind::Movable),
        },
        _ => CastOutcome::Hit {
            entity: 7,
            distance: 0,
            normal: Vec2 { x: -46340, y: -46340 },
            kind: Some(RigidKind::Immovable),
        },
    };
    for tick in 0..32 {
        let before = player.pos;
        let (dx, dy) = directions[tick % directions.len()];
        let (mut state, mut action) = player.begin_move(dx, dy, 1092);
        while matches!(action, MoveAction::Continue) {
            let step = resolve_cast(state, outcomes(tick, state.remaining)).unwrap();
            state = step.state;
            action = step.action;
        }
        player.apply_move(state);
        let ddx = player.pos.x - before.x;
        let ddy = player.pos.y - before.y;
        assert!(ddx * ddx + ddy * ddy <= 3276 * 3276);
    }
}

#[test]
fn actor_slot_holds_exactly_one_actor() {
    let mut slot = ActorSlot::new();
    assert_eq!(slot.single().err(), Some(ActorSlotError::Absent));
    slot.place(spawned_at_origin()).expect("empty slot accepts the actor");
    assert!(slot.single().is_ok());
    assert_eq!(
        slot.place(spawned_at_origin()).err(),
        Some(ActorSlotError::AlreadyPresent)
    );
    let actor = slot.remove().expect("occupied slot hands the actor back");
    assert_eq!(actor.pos, Vec2 { x: 0, y: 0 });
    assert_eq!(slot.remove().err(), Some(ActorSlotError::Absent));
    slot.store(actor);
    assert!(slot.single().is_ok());
}

#[test]
fn face_toward_normalizes_the_aim_direction() {
    let mut player = spawned_at_origin();
    player.face_toward(Vec2 { x: 0, y: 655360 });
    // 10 units straight up: root 655360, each component scaled by
    // UNIT / (root + 1).
    assert_eq!(player.facing, Vec2 { x: 0, y: 65535 });
}

#[test]
fn face_toward_ignores_a_target_on_top_of_the_actor() {
    let mut player = spawned_at_origin();
    let before = player.facing;
    player.face_toward(Vec2 { x: 3, y: 0 });
    assert_eq!(player.facing, before);
}
