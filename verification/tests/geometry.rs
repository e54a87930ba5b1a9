use invaders::geometry::{approach, distance, isqrt, shift, Vector2};

#[test]
fn whole_square_roots() {
    assert_eq!(isqrt(0), 0);
    assert_eq!(isqrt(1), 1);
    assert_eq!(isqrt(2), 1);
    assert_eq!(isqrt(3), 1);
    assert_eq!(isqrt(4), 2);
    assert_eq!(isqrt(24), 4);
    assert_eq!(isqrt(25), 5);
    assert_eq!(isqrt(26), 5);
    assert_eq!(isqrt(13159477), 3627);
    assert_eq!(isqrt(u64::MAX as u128), 4294967295);
    assert_eq!(isqrt(1 << 64), 1 << 32);
    assert_eq!(isqrt(u128::MAX), u64::MAX);
}

#[test]
fn square_root_is_the_largest_whole_root() {
    for n in 0..5000u128 {
        let root = isqrt(n) as u128;
        assert!(root * root <= n);
        assert!((root + 1) * (root + 1) > n);
    }
}

#[test]
fn distances_round_down() {
    assert_eq!(distance(Vector2::new(0, 0), Vector2::new(3, 4)), 5);
    assert_eq!(distance(Vector2::new(3, 4), Vector2::new(0, 0)), 5);
    assert_eq!(distance(Vector2::new(0, 0), Vector2::new(1, 1)), 1);
    assert_eq!(distance(Vector2::new(7, 7), Vector2::new(7, 7)), 0);
    assert_eq!(distance(Vector2::new(-3, 0), Vector2::new(0, -4)), 5);
    assert_eq!(
        distance(Vector2::new(i32::MIN, i32::MIN), Vector2::new(i32::MAX, i32::MAX)),
        6074000998
    );
}

#[test]
fn shift_stops_at_the_edge_of_the_grid() {
    assert_eq!(shift(10, 5), 15);
    assert_eq!(shift(10, -25), -15);
    assert_eq!(shift(i32::MAX, 1), i32::MAX);
    assert_eq!(shift(i32::MAX - 3, 100), i32::MAX);
    assert_eq!(shift(i32::MIN, -1), i32::MIN);
    assert_eq!(shift(0, i64::MAX), i32::MAX);
    assert_eq!(shift(0, i64::MIN), i32::MIN);
    assert_eq!(shift(i32::MIN, i32::MAX as i64), -1);
}

#[test]
fn approach_takes_its_share_of_the_step() {
    // A way of 5 along (3, 4), one step of 1: each coordinate moves by its
    // share, rounded down.
    assert_eq!(approach(30, 0, 10, 50), 24);
    assert_eq!(approach(40, 0, 10, 50), 32);
    assert_eq!(approach(-30, 0, 10, 50), -24);
    assert_eq!(approach(0, 40, 10, 50), 8);
    assert_eq!(approach(3, 0, 1, 5), 3);
    assert_eq!(approach(4, 0, 2, 5), 3);
}

#[test]
fn approach_stops_at_the_target() {
    assert_eq!(approach(30, 0, 100, 50), 0);
    assert_eq!(approach(-30, 0, 100, 50), 0);
    assert_eq!(approach(7, 10, u64::MAX, 1), 10);
    assert_eq!(approach(i32::MIN, i32::MAX, u64::MAX, 1), i32::MAX);
    assert_eq!(approach(i32::MAX, i32::MIN, u64::MAX, 1), i32::MIN);
}

#[test]
fn approach_stays_when_there_is_no_way_to_go() {
    assert_eq!(approach(5, 5, 100, 0), 5);
    assert_eq!(approach(5, 9, 100, 0), 5);
    assert_eq!(approach(5, 5, 100, 7), 5);
    assert_eq!(approach(5, 9, 0, 4), 5);
}
