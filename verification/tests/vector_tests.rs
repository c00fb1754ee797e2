use tower_defense::vector::{Vec2, Vec3};

#[test]
fn midpoint_rounds_down() {
    assert_eq!(Vec3::new(1, 1, 1).midpoint(Vec3::new(2, 4, 1)), Vec3::new(1, 2, 1));
    assert_eq!(Vec3::new(-1, -1, 0).midpoint(Vec3::new(-2, 1, 0)), Vec3::new(-2, 0, 0));
    assert_eq!(
        Vec3::new(i64::MAX, i64::MIN, 0).midpoint(Vec3::new(i64::MAX, i64::MIN, 0)),
        Vec3::new(i64::MAX, i64::MIN, 0)
    );
}

#[test]
fn lerp_moves_each_coordinate() {
    let from = Vec3::new(0, 1000, -1000);
    let to = Vec3::new(1000, 0, 1000);
    assert_eq!(from.lerp(to, 1, 4), Vec3::new(250, 750, -500));
    assert_eq!(from.lerp(to, 0, 4), from);
    assert_eq!(from.lerp(to, 4, 4), to);
}

#[test]
fn plus_saturates() {
    assert_eq!(Vec3::new(1, 2, 3).plus(Vec3::new(0, 1500, 0)), Vec3::new(1, 1502, 3));
    assert_eq!(
        Vec3::new(0, i64::MAX, 0).plus(Vec3::new(0, 500, 0)),
        Vec3::new(0, i64::MAX, 0)
    );
}

#[test]
fn clamp_raises_then_lowers() {
    let lo = Vec3::new(-45_000, 10_000, -30_000);
    let hi = Vec3::new(-10_000, 10_000, 32_000);
    assert_eq!(Vec3::new(0, 0, 0).clamp(lo, hi), Vec3::new(-10_000, 10_000, 0));
    assert_eq!(Vec3::new(-50_000, 20_000, 40_000).clamp(lo, hi), Vec3::new(-45_000, 10_000, 32_000));
    assert_eq!(Vec3::new(5, 5, 5).clamp(Vec3::new(9, 9, 9), Vec3::new(1, 1, 1)), Vec3::new(1, 1, 1));
}

#[test]
fn distance_is_measured_below_the_range_only() {
    let tower = Vec3::new(0, 0, 0);
    let enemy = Vec3::new(3000, 4000, 0);
    assert_eq!(tower.distance_within(enemy, 5001), Some(5000));
    assert_eq!(tower.distance_within(enemy, 5000), None);
    assert_eq!(tower.distance_within(enemy, 4000), None);
    assert_eq!(tower.distance_within(tower, 1), Some(0));
}

#[test]
fn distance_is_cut_off_to_thousandths() {
    let tower = Vec3::new(0, 0, 0);
    assert_eq!(tower.distance_within(Vec3::new(3000, 0, 20), 5000), Some(3000));
    assert_eq!(tower.distance_within(Vec3::new(1, 1, 1), 5000), Some(1));
    assert_eq!(tower.distance_within(Vec3::new(-2, -2, -1), 5000), Some(3));
}

#[test]
fn nothing_is_within_an_empty_range() {
    let tower = Vec3::new(0, 0, 0);
    assert_eq!(tower.distance_within(tower, 0), None);
    assert_eq!(tower.distance_within(tower, -5), None);
}

#[test]
fn distance_of_far_points_does_not_overflow() {
    let a = Vec3::new(i64::MIN, i64::MIN, i64::MIN);
    let b = Vec3::new(i64::MAX, i64::MAX, i64::MAX);
    assert_eq!(a.distance_within(b, i32::MAX), None);
    assert_eq!(
        Vec3::new(0, 0, 0).distance_within(Vec3::new(2_147_483_646, 0, 0), i32::MAX),
        Some(2_147_483_646)
    );
}

#[test]
fn screen_points_compare_by_coordinates() {
    assert_eq!(Vec2::new(3, 4), Vec2 { x: 3, y: 4 });
    assert_ne!(Vec2::new(3, 4), Vec2::new(4, 3));
}
