use motion2d::clock::SimulationClock;
use motion2d::vec2::div_trunc;
use motion2d::vec2::Vec2;

#[test]
fn truncating_division_rounds_toward_zero() {
    assert_eq!(div_trunc(7, 2), 3);
    assert_eq!(div_trunc(-7, 2), -3);
    assert_eq!(div_trunc(7, -2), -3);
    assert_eq!(div_trunc(-7, -2), 3);
    assert_eq!(div_trunc(0, 5), 0);
}

#[test]
fn integer_square_root_brackets_its_argument() {
    assert_eq!(Vec2::isqrt(0), 0);
    assert_eq!(Vec2::isqrt(15), 3);
    assert_eq!(Vec2::isqrt(16), 4);
    assert_eq!(Vec2::isqrt(65536 * 65536), 65536);
}

#[test]
fn normalization_stays_inside_the_unit_disc() {
    let v = Vec2 { x: 100, y: 0 };
    let d = v.try_normalize().expect("long enough to normalize");
    // root 100, components scaled by UNIT / 101.
    assert_eq!(d, Vec2 { x: 64887, y: 0 });
    let diag = Vec2 { x: 3000, y: 4000 };
    let d = diag.try_normalize().expect("long enough to normalize");
    let (x, y) = (i64::from(d.x), i64::from(d.y));
    assert!(x * x + y * y < 65536 * 65536);
    assert!(x > 0 && y > 0);
}

#[test]
fn a_vector_near_zero_has_no_direction() {
    assert!(Vec2 { x: 10, y: -10 }.try_normalize().is_none());
}

#[test]
fn clock_gate_toggles_between_paused_and_running() {
    let mut clock = SimulationClock::new();
    assert!(!clock.is_paused());
    clock.toggle();
    assert!(clock.is_paused());
    clock.toggle();
    assert!(!clock.is_paused());
    clock.pause();
    assert!(clock.is_paused());
    clock.unpause();
    assert!(!clock.is_paused());
}
