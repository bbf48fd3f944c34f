use chainvasion::math::{
    direction_to, distance_squared, div_toward_zero, is_closer_than, is_within, isqrt,
    normalize_or_zero, travel_along, add_coord, Vec2,
};
use chainvasion::movement::{apply_movement, apply_screen_wrap, MovementController, MAX_X};
use chainvasion::units::{advance_clock, COORD_MAX, DIR_ONE, TIME_MAX};

#[test]
fn isqrt_rounds_down() {
    assert_eq!(isqrt(0), 0);
    assert_eq!(isqrt(1), 1);
    assert_eq!(isqrt(2), 1);
    assert_eq!(isqrt(15), 3);
    assert_eq!(isqrt(16), 4);
    assert_eq!(isqrt(17), 4);
    assert_eq!(isqrt(500_000_000_000), 707_106);
    assert_eq!(isqrt(u128::MAX), 18_446_744_073_709_551_615);
}

#[test]
fn isqrt_brackets_its_argument() {
    let mut n: u128 = 0;
    while n < 5000 {
        let r = isqrt(n);
        assert!(r * r <= n);
        assert!((r + 1) * (r + 1) > n);
        n += 7;
    }
}

#[test]
fn division_rounds_towards_zero() {
    assert_eq!(div_toward_zero(7, 2), 3);
    assert_eq!(div_toward_zero(-7, 2), -3);
    assert_eq!(div_toward_zero(0, 5), 0);
    assert_eq!(div_toward_zero(-1, 5), 0);
}

#[test]
fn distance_squared_is_exact() {
    let a = Vec2::new(0, 0);
    let b = Vec2::new(3_000, -4_000);
    assert_eq!(distance_squared(a, b), 25_000_000);
    assert_eq!(distance_squared(b, a), 25_000_000);
    assert_eq!(distance_squared(b, b), 0);
    let far = Vec2::new(COORD_MAX, COORD_MAX);
    let near = Vec2::new(-COORD_MAX, -COORD_MAX);
    assert_eq!(distance_squared(far, near), 8_000_000_000_000_000_000_000_000u128);
}

#[test]
fn within_includes_the_rim_and_closer_than_does_not() {
    let a = Vec2::new(0, 0);
    let b = Vec2::new(5_000, 0);
    assert!(is_within(a, b, 5_000));
    assert!(!is_within(a, b, 4_999));
    assert!(!is_closer_than(a, b, 5_000));
    assert!(is_closer_than(a, b, 5_001));
    assert!(is_within(a, a, 0));
    assert!(!is_closer_than(a, a, 0));
    assert!(!is_within(a, a, -1));
}

#[test]
fn unit_vectors_are_rounded_towards_zero() {
    assert_eq!(normalize_or_zero(Vec2::new(1, 1)), Vec2::new(707_106, 707_106));
    assert_eq!(normalize_or_zero(Vec2::new(-1, 1)), Vec2::new(-707_106, 707_106));
    assert_eq!(normalize_or_zero(Vec2::new(0, -9)), Vec2::new(0, -DIR_ONE));
    assert_eq!(normalize_or_zero(Vec2::new(12, 0)), Vec2::new(DIR_ONE, 0));
    assert_eq!(
        direction_to(Vec2::new(0, 0), Vec2::new(-3_000, 4_000)),
        Vec2::new(-600_000, 800_000)
    );
    assert_eq!(
        direction_to(Vec2::new(0, 500_000), Vec2::new(100_000, 187_500)),
        Vec2::new(304_775, -952_424)
    );
}

#[test]
fn zero_vector_normalizes_to_zero() {
    assert_eq!(normalize_or_zero(Vec2::zero()), Vec2::new(0, 0));
    let p = Vec2::new(17, -4);
    assert_eq!(direction_to(p, p), Vec2::new(0, 0));
}

#[test]
fn travel_is_direction_times_speed_times_time() {
    assert_eq!(travel_along(DIR_ONE, 400_000, 16_000), 6_400);
    assert_eq!(travel_along(-DIR_ONE, 400_000, 16_000), -6_400);
    assert_eq!(travel_along(707_106, 400_000, 1_000_000), 282_842);
    assert_eq!(travel_along(-707_106, 400_000, 1_000_000), -282_842);
    assert_eq!(travel_along(0, 400_000, 16_000), 0);
    assert_eq!(travel_along(DIR_ONE, 0, 16_000), 0);
    assert_eq!(travel_along(DIR_ONE, 400_000, 0), 0);
    assert_eq!(travel_along(DIR_ONE, 1, 999_999), 0);
}

#[test]
fn movement_step_adds_velocity_times_delta() {
    let c = MovementController { intent: Vec2::new(DIR_ONE, 0), max_speed: 400_000 };
    let p = apply_movement(Vec2::new(1_000, -220_000), c, 16_000);
    assert_eq!(p, Vec2::new(7_400, -220_000));
    let d = MovementController { intent: Vec2::new(-600_000, 800_000), max_speed: 100_000 };
    let q = apply_movement(Vec2::new(0, 0), d, 500_000);
    assert_eq!(q, Vec2::new(-30_000, 40_000));
}

#[test]
fn movement_with_zero_intent_or_zero_delta_is_a_no_op() {
    let start = Vec2::new(12_345, -678);
    let idle = MovementController { intent: Vec2::zero(), max_speed: 400_000 };
    assert_eq!(apply_movement(start, idle, 16_000), start);
    let keen = MovementController { intent: Vec2::new(0, DIR_ONE), max_speed: 400_000 };
    assert_eq!(apply_movement(start, keen, 0), start);
}

#[test]
fn movement_stops_at_the_edge_of_the_world() {
    let c = MovementController { intent: Vec2::new(DIR_ONE, 0), max_speed: 1_000_000_000 };
    let p = apply_movement(Vec2::new(COORD_MAX - 5, 0), c, 1_000_000);
    assert_eq!(p, Vec2::new(COORD_MAX, 0));
    assert_eq!(add_coord(-COORD_MAX, -1), -COORD_MAX);
}

#[test]
fn default_movement_controller_rests_at_walking_speed() {
    let c = MovementController::new();
    assert_eq!(c.intent, Vec2::new(0, 0));
    assert_eq!(c.max_speed, 400_000);
}

#[test]
fn screen_wrap_returns_at_the_opposite_bound() {
    assert_eq!(apply_screen_wrap(Vec2::new(MAX_X + 1, 9), MAX_X), Vec2::new(-MAX_X, 9));
    assert_eq!(apply_screen_wrap(Vec2::new(-MAX_X - 1, 9), MAX_X), Vec2::new(MAX_X, 9));
    assert_eq!(apply_screen_wrap(Vec2::new(MAX_X, 9), MAX_X), Vec2::new(MAX_X, 9));
    assert_eq!(apply_screen_wrap(Vec2::new(0, 9), MAX_X), Vec2::new(0, 9));
}

#[test]
fn clock_saturates() {
    assert_eq!(advance_clock(0, 16_000), 16_000);
    assert_eq!(advance_clock(TIME_MAX - 5, 16_000), TIME_MAX);
}

#[test]
fn directions_are_of_unit_length_at_most() {
    assert!(Vec2::new(DIR_ONE, 0).is_a_direction());
    assert!(Vec2::new(707_106, -707_106).is_a_direction());
    assert!(Vec2::new(0, 0).is_a_direction());
    assert!(!Vec2::new(707_107, 707_107).is_a_direction());
    assert!(!Vec2::new(DIR_ONE, 1).is_a_direction());
    assert!(!Vec2::new(DIR_ONE + 1, 0).is_a_direction());
    // shorter than a unit by more than rounding
    assert!(!Vec2::new(707_106, 0).is_a_direction());
    assert!(!Vec2::new(707_105, 707_105).is_a_direction());
    assert!(!Vec2::new(1, 0).is_a_direction());
    assert!(Vec2::new(-600_000, 800_000).is_a_direction());
    let mut x: i64 = -40;
    while x <= 40 {
        let mut y: i64 = -40;
        while y <= 40 {
            let u = normalize_or_zero(Vec2::new(x * 977, y * 1_013));
            assert!(u.is_a_direction());
            if x != 0 || y != 0 {
                // shorter than a unit by rounding only
                assert!(u.x * u.x + u.y * u.y > 999_990_000_000);
            }
            y += 1;
        }
        x += 1;
    }
    assert!(Vec2::new(COORD_MAX, -COORD_MAX).is_in_world());
    assert!(!Vec2::new(COORD_MAX + 1, 0).is_in_world());
}

#[test]
fn backdrop_scrolls_and_starts_again() {
    let mut layer = chainvasion::background::bg_layer_1();
    assert_eq!(chainvasion::background::move_layer_1_around(&mut layer, 1_000_000), 10_000);
    assert_eq!(chainvasion::background::move_layer_1_around(&mut layer, 500_000), 15_000);
    layer.offset = 127_000;
    assert_eq!(chainvasion::background::move_layer_1_around(&mut layer, 99_999), 127_999);
    assert_eq!(chainvasion::background::move_layer_1_around(&mut layer, 100), 0);
    assert_eq!(layer.offset, 0);
}
