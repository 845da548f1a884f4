use placement_core::geometry::{clamp_pos, div_trunc_i128, isqrt_u64, Vec2, Vec3, POS_LIMIT};
use placement_core::orientation::{Dir, Orientation};

#[test]
fn geom_clamp_pos_bands_wide_values() {
    assert_eq!(clamp_pos(0), 0);
    assert_eq!(clamp_pos(123_456), 123_456);
    assert_eq!(clamp_pos(10_000_000_000), POS_LIMIT);
    assert_eq!(clamp_pos(-10_000_000_000), -POS_LIMIT);
    assert_eq!(clamp_pos(POS_LIMIT as i128), POS_LIMIT);
}

#[test]
fn geom_div_trunc_rounds_toward_zero() {
    assert_eq!(div_trunc_i128(7, 2), 3);
    assert_eq!(div_trunc_i128(-7, 2), -3);
    assert_eq!(div_trunc_i128(6, 2), 3);
    assert_eq!(div_trunc_i128(-6, 2), -3);
    assert_eq!(div_trunc_i128(1, 5), 0);
    assert_eq!(div_trunc_i128(-1, 5), 0);
}

#[test]
fn geom_isqrt_exact_and_floor() {
    assert_eq!(isqrt_u64(0), 0);
    assert_eq!(isqrt_u64(1), 1);
    assert_eq!(isqrt_u64(3), 1);
    assert_eq!(isqrt_u64(4), 2);
    assert_eq!(isqrt_u64(25_000_000), 5_000);
    assert_eq!(isqrt_u64(2_000_000_000_000), 1_414_213);
    assert_eq!(isqrt_u64(u64::MAX), 4_294_967_295);
}

#[test]
fn geom_lateral_round_trip() {
    let v = Vec3 { x: 5, y: 0, z: -9 };
    let lateral = v.lateral();
    assert_eq!(lateral, Vec2 { x: 5, y: -9 });
    assert_eq!(Vec3::from_lateral(lateral), v);
}

#[test]
fn orient_step_wraps_after_eight() {
    let start = Orientation::new(Dir::new(3, 4));
    let mut o = start;
    for turn in 1..=8 {
        o = o.step();
        if turn < 8 {
            assert_ne!(o, start);
        }
    }
    assert_eq!(o, start);
}

#[test]
fn orient_step_decrements_angle_by_eighth_turn() {
    // One step is a -45 degree increment: eight make a full turn.
    let o = Orientation::new(Dir::new(1, 0));
    assert_eq!(o.eighths, 0);
    assert_eq!(o.step().eighths, 1);
    assert_eq!(o.step().step().eighths, 2);
}
