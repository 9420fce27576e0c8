//! Vectors, configurations and direction keys.

use predator_prey::{key_direction, Config, Vec2};

#[test]
fn squared_distance_is_exact() {
    assert_eq!(Vec2::new(1, 2).distance_squared(&Vec2::new(4, 6)), 25);
    assert_eq!(Vec2::new(4, 6).distance_squared(&Vec2::new(1, 2)), 25);
    assert_eq!(Vec2::new(-7, 3).distance_squared(&Vec2::new(-7, 3)), 0);
}

#[test]
fn squared_distance_across_the_whole_grid() {
    let low = Vec2::new(i32::MIN, i32::MIN);
    let high = Vec2::new(i32::MAX, i32::MAX);
    let side = u32::MAX as u128;
    assert_eq!(low.distance_squared(&high), 2 * side * side);
    assert_eq!(high.distance_squared(&low), 36893488130239234050);
}

#[test]
fn zero_vector() {
    assert!(Vec2::zero().is_zero());
    assert_eq!(Vec2::zero(), Vec2::new(0, 0));
    assert!(!Vec2::new(0, 1).is_zero());
    assert!(!Vec2::new(-1, 0).is_zero());
}

#[test]
fn config_with_ordered_radii_is_accepted() {
    let config = Config::new(100, 100, 1, 64).unwrap();
    assert_eq!(
        config,
        Config { map_size: 100, predator_view_radius_sq: 100, predator_strike_radius_sq: 1, prey_view_radius_sq: 64 }
    );
    assert!(config.is_valid());
    assert!(Config::new(1, 5, 5, 5).is_some());
    assert!(Config::new(1, 0, 0, 0).is_some());
}

#[test]
fn config_without_extent_is_refused() {
    assert_eq!(Config::new(0, 100, 1, 64), None);
    assert_eq!(Config::new(-100, 100, 1, 64), None);
}

#[test]
fn config_with_strike_beyond_view_is_refused() {
    assert_eq!(Config::new(100, 100, 101, 64), None);
}

#[test]
fn config_with_prey_seeing_farther_than_predators_is_refused() {
    assert_eq!(Config::new(100, 100, 1, 101), None);
}

#[test]
fn no_key_gives_no_direction() {
    assert_eq!(key_direction(false, false, false, false), Vec2::new(0, 0));
}

#[test]
fn single_keys_give_unit_directions() {
    assert_eq!(key_direction(true, false, false, false), Vec2::new(-1, 0));
    assert_eq!(key_direction(false, true, false, false), Vec2::new(1, 0));
    assert_eq!(key_direction(false, false, true, false), Vec2::new(0, -1));
    assert_eq!(key_direction(false, false, false, true), Vec2::new(0, 1));
}

#[test]
fn keys_on_both_axes_combine() {
    assert_eq!(key_direction(true, false, false, true), Vec2::new(-1, 1));
    assert_eq!(key_direction(false, true, true, false), Vec2::new(1, -1));
}

#[test]
fn left_wins_over_right_and_down_over_up() {
    assert_eq!(key_direction(true, true, false, false), Vec2::new(-1, 0));
    assert_eq!(key_direction(false, false, true, true), Vec2::new(0, -1));
    assert_eq!(key_direction(true, true, true, true), Vec2::new(-1, -1));
}

#[test]
fn turn_is_negative_below_the_axis_only() {
    assert_eq!(Vec2::new(3, -1).turn(), -1);
    assert_eq!(Vec2::new(-3, -7).turn(), -1);
    assert_eq!(Vec2::new(3, 1).turn(), 1);
    assert_eq!(Vec2::new(5, 0).turn(), 1);
    assert_eq!(Vec2::new(-5, 0).turn(), 1);
    assert_eq!(Vec2::new(0, 0).turn(), 1);
}
