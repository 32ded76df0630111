use motion2d::cast::RigidKind;
use motion2d::config::GunConfig;
use motion2d::health::Health;
use motion2d::projectile::aim_target;
use motion2d::projectile::fire_projectile;
use motion2d::projectile::resolve_contact;
use motion2d::projectile::Contact;
use motion2d::projectile::ContactVerdict;
use motion2d::projectile::Projectile;
use motion2d::projectile::TargetFate;
use motion2d::vec2::Vec2;

const UNIT: i64 = 65536;

fn flying_right() -> Projectile {
    Projectile { pos: Vec2 { x: 0, y: 0 }, dir: Vec2 { x: UNIT, y: 0 }, current_speed: 10 * UNIT }
}

#[test]
fn gun_defaults_match_the_tuning() {
    let gun = GunConfig::default();
    assert_eq!(gun.starting_speed, 10 * UNIT);
    assert_eq!(gun.acceleration, 6 * UNIT);
    assert_eq!(gun.push_force, 2 * UNIT);
}

#[test]
fn speed_compounds_every_tick() {
    // One tick at dt = 1/60 with acceleration 6/s multiplies the speed by
    // about 1.1; the rounded-up growth of 655360 is exactly 65520.
    let p = flying_right();
    let q = p.advance(1092, 6 * UNIT);
    assert_eq!(q.current_speed, 655360 + 65520);
    // The position advances by the new speed times dt.
    assert_eq!(q.pos, Vec2 { x: 12011, y: 0 });
    assert_eq!(q.dir, p.dir);
}

#[test]
fn speed_growth_is_strictly_monotonic() {
    let mut p = flying_right();
    for _ in 0..20 {
        let before = p.current_speed;
        p = p.advance(1092, 6 * UNIT);
        assert!(p.current_speed > before);
    }
}

#[test]
fn no_contact_keeps_the_projectile_alive() {
    let p = flying_right();
    let v = resolve_contact(&p, None, 2 * UNIT);
    assert!(matches!(v, ContactVerdict::Alive));
}

#[test]
fn plain_wall_contact_destroys_only_the_projectile() {
    let p = flying_right();
    let c = Contact { entity: 4, kind: Some(RigidKind::Immovable), health: None };
    match resolve_contact(&p, Some(c), 2 * UNIT) {
        ContactVerdict::Destroyed { push, target } => {
            assert!(push.is_none());
            assert!(matches!(target, TargetFate::Unharmed));
        }
        ContactVerdict::Alive => panic!("contact must destroy the projectile"),
    }
}

#[test]
fn movable_target_receives_the_fixed_push() {
    let p = flying_right();
    let c = Contact { entity: 5, kind: Some(RigidKind::Movable), health: None };
    match resolve_contact(&p, Some(c), 2 * UNIT) {
        ContactVerdict::Destroyed { push, target } => {
            let push = push.expect("movable target must be pushed");
            assert_eq!(push.entity, 5);
            assert_eq!(push.delta, Vec2 { x: 2 * UNIT, y: 0 });
            assert!(matches!(target, TargetFate::Unharmed));
        }
        ContactVerdict::Alive => panic!("contact must destroy the projectile"),
    }
}

#[test]
fn exhausted_health_target_is_removed_with_the_projectile() {
    // A target whose hit count is already zero cannot absorb another hit:
    // the decrement would go below zero, so the target must be removed in
    // the same tick, and no impulse is recorded for an unclassified body.
    let p = flying_right();
    let c = Contact { entity: 6, kind: None, health: Some(Health(0)) };
    match resolve_contact(&p, Some(c), 2 * UNIT) {
        ContactVerdict::Destroyed { push, target } => {
            assert!(push.is_none());
            assert!(matches!(target, TargetFate::Removed));
        }
        ContactVerdict::Alive => panic!("contact must destroy the projectile"),
    }
}

#[test]
fn health_saturates_instead_of_going_negative() {
    assert_eq!(Health(5).take_hit(), Some(Health(4)));
    assert_eq!(Health(1).take_hit(), Some(Health(0)));
    assert_eq!(Health(0).take_hit(), None);
}

#[test]
fn damaged_target_survives_with_one_less_hit() {
    let p = flying_right();
    let c = Contact { entity: 6, kind: None, health: Some(Health(1)) };
    match resolve_contact(&p, Some(c), 2 * UNIT) {
        ContactVerdict::Destroyed { push: _, target } => {
            assert_eq!(target, TargetFate::Damaged(Health(0)));
        }
        ContactVerdict::Alive => panic!("contact must destroy the projectile"),
    }
}

#[test]
fn aim_ray_meets_the_actor_plane() {
    // Camera ten units up, ray leaning half a unit forward per unit down:
    // it lands five units ahead on the plane.
    let hit = aim_target(0, 0, 10 * UNIT, UNIT / 2, 0, -UNIT, 0);
    assert_eq!(hit, Some(Vec2 { x: 5 * UNIT, y: 0 }));
}

#[test]
fn aim_ray_parallel_to_the_plane_is_skipped() {
    assert_eq!(aim_target(0, 0, 10 * UNIT, UNIT, 0, 0, 0), None);
}

#[test]
fn aim_ray_away_from_the_plane_is_skipped() {
    // The plane lies below the origin but the ray points up.
    assert_eq!(aim_target(0, 0, 10 * UNIT, 0, 0, UNIT, 0), None);
}

#[test]
fn fired_projectile_leaves_at_the_starting_speed() {
    let p = fire_projectile(Vec2 { x: 0, y: 0 }, Vec2 { x: 10 * UNIT, y: 0 }, 10 * UNIT)
        .expect("a distant aim point must spawn");
    assert_eq!(p.pos, Vec2 { x: 0, y: 0 });
    assert_eq!(p.dir, Vec2 { x: 65535, y: 0 });
    assert_eq!(p.current_speed, 10 * UNIT);
}

#[test]
fn firing_at_the_actor_itself_spawns_nothing() {
    assert!(fire_projectile(Vec2 { x: 0, y: 0 }, Vec2 { x: 3, y: 0 }, 10 * UNIT).is_none());
}

#[test]
fn first_tick_reaches_a_close_target() {
    // Starting speed 10 at dt = 1/60 crosses 0.18 units in the first tick,
    // within reach of a target 0.15 units ahead; the probe then resolves
    // the contact and the projectile dies on it.
    let p = flying_right();
    let p = p.advance(1092, 6 * UNIT);
    assert!(p.pos.x >= 9830);
    let c = Contact { entity: 6, kind: None, health: Some(Health(0)) };
    match resolve_contact(&p, Some(c), 2 * UNIT) {
        ContactVerdict::Destroyed { push, target } => {
            assert!(push.is_none());
            assert!(matches!(target, TargetFate::Removed));
        }
        ContactVerdict::Alive => panic!("contact must destroy the projectile"),
    }
}
