//! Exact-arithmetic properties: integration, steering clamp, collision
//! threshold, and the angle/forward-vector roundtrip.

use alone::math::{angle_to, clamp_i64, forward_vec, overlap, steer_heading, ANG_FULL, POS_PER_UNIT};

#[test]
fn forward_vectors_at_cardinals() {
    assert_eq!(forward_vec(0), (0, 1000)); // north
    assert_eq!(forward_vec(1000), (-1000, 0)); // west
    assert_eq!(forward_vec(2000), (0, -1000)); // south
    assert_eq!(forward_vec(3000), (1000, 0)); // east
    assert_eq!(forward_vec(500), (-500, 500)); // north-west diagonal
}

#[test]
fn angle_roundtrips_forward_vector() {
    for a in [0i64, 1, 250, 500, 999, 1000, 1500, 2000, 2345, 3000, 3999] {
        let (x, y) = forward_vec(a);
        assert_eq!(angle_to(x, y), a);
    }
}

#[test]
fn angle_to_axes() {
    assert_eq!(angle_to(0, 7), 0); // straight up
    assert_eq!(angle_to(-7, 0), 1000); // left
    assert_eq!(angle_to(0, -7), 2000); // down
    assert_eq!(angle_to(7, 0), 3000); // right
    assert_eq!(angle_to(-5, 5), 500); // up-left diagonal
}

#[test]
fn steering_clamps_to_allowed_step() {
    // difference 1000, allowed 300: moves exactly 300, difference 700 left
    assert_eq!(steer_heading(0, 1000, 300), 300);
    // allowed more than the difference: lands exactly on the target
    assert_eq!(steer_heading(0, 1000, 1500), 1000);
    // already aligned: no change
    assert_eq!(steer_heading(1000, 1000, 300), 1000);
    // allowed zero: no change
    assert_eq!(steer_heading(0, 1000, 0), 0);
}

#[test]
fn steering_target_behind_rotates_clockwise() {
    // target exactly half a turn away: the tie breaks clockwise
    assert_eq!(steer_heading(0, 2000, 300), 3700);
    // and a full-speed step still never overshoots
    assert_eq!(steer_heading(0, 2000, 2000), 2000);
}

#[test]
fn steering_takes_shorter_way_across_wrap() {
    // from 3900 to 100 is 200 counter-clockwise, not 3800 clockwise
    assert_eq!(steer_heading(3900, 100, 50), 3950);
    assert_eq!(steer_heading(3900, 100, 400), 100);
}

#[test]
fn collision_threshold_is_strict() {
    let r1 = 2 * POS_PER_UNIT;
    let r2 = 3 * POS_PER_UNIT;
    let d = r1 + r2;
    // at distance exactly r1 + r2: no collision
    assert!(!overlap(0, 0, d, 0, r1, r2));
    // one subunit closer: collision
    assert!(overlap(0, 0, d - 1, 0, r1, r2));
    // same along y, and diagonally via squared distance
    assert!(!overlap(0, 0, 0, d, r1, r2));
    assert!(overlap(0, 0, 0, d - 1, r1, r2));
}

#[test]
fn clamp_holds_range() {
    assert_eq!(clamp_i64(5, -10, 10), 5);
    assert_eq!(clamp_i64(-11, -10, 10), -10);
    assert_eq!(clamp_i64(11, -10, 10), 10);
}

#[test]
fn angle_units_cover_the_circle() {
    assert_eq!(ANG_FULL, 4000);
    for a in 0..ANG_FULL {
        let (x, y) = forward_vec(a);
        assert_eq!(x.abs() + y.abs(), 1000);
        assert_eq!(angle_to(x, y), a);
    }
}
