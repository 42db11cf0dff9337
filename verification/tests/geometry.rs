use pong_core::geometry::{clamp_velocity, rotate_eighth, scale_velocity, Vec2};

#[test]
fn clamp_leaves_slow_velocity_unchanged() {
    let v = Vec2 { x: 20_000, y: 10_000 };
    let r = clamp_velocity(v, 30_000);
    assert_eq!(r, v);
}

#[test]
fn clamp_rescales_to_exact_maximum() {
    // |(40000, 30000)| = 50000, rescaled by 30000/50000
    let v = Vec2 { x: 40_000, y: 30_000 };
    let r = clamp_velocity(v, 30_000);
    assert_eq!(r, Vec2 { x: 24_000, y: 18_000 });
}

#[test]
fn clamp_preserves_signs() {
    let v = Vec2 { x: -40_000, y: 30_000 };
    let r = clamp_velocity(v, 30_000);
    assert_eq!(r, Vec2 { x: -24_000, y: 18_000 });
}

#[test]
fn clamp_is_idempotent_on_concrete_values() {
    let v = Vec2 { x: 123_456, y: -654_321 };
    let once = clamp_velocity(v, 30_000);
    let twice = clamp_velocity(once, 30_000);
    assert_eq!(twice, once);
}

#[test]
fn scale_by_paddle_factor_is_exact() {
    let v = Vec2 { x: 4_000, y: 2_000 };
    let r = scale_velocity(v, 21, 20);
    assert_eq!(r, Vec2 { x: 4_200, y: 2_100 });
}

#[test]
fn scale_truncates_toward_zero() {
    let v = Vec2 { x: 3, y: -3 };
    let r = scale_velocity(v, 5, 2);
    assert_eq!(r, Vec2 { x: 7, y: -7 });
}

#[test]
fn scale_round_trip_reconstructs_even_components() {
    // factor 5/2 (one stacked area bonus): even components survive exactly
    let v = Vec2 { x: 4_000, y: -2_346 };
    let up = scale_velocity(v, 5, 2);
    let down = scale_velocity(up, 2, 5);
    assert_eq!(down, v);
}

#[test]
fn scale_round_trip_loses_odd_remainder() {
    // component 3 under factor 5/2 scales to 7 and back to 2, not 3
    let v = Vec2 { x: 3, y: 0 };
    let up = scale_velocity(v, 5, 2);
    let down = scale_velocity(up, 2, 5);
    assert_eq!(down, Vec2 { x: 2, y: 0 });
}

#[test]
fn rotations_preserve_magnitude_exactly() {
    let v = Vec2 { x: 5_000, y: 0 };
    let n = (v.x as i128) * (v.x as i128) + (v.y as i128) * (v.y as i128);
    for k in 0..8 {
        let r = rotate_eighth(v, k);
        let rn = (r.x as i128) * (r.x as i128) + (r.y as i128) * (r.y as i128);
        assert_eq!(rn, n);
    }
}

#[test]
fn quarter_turn_rotation_moves_axes() {
    let v = Vec2 { x: 3, y: 4 };
    assert_eq!(rotate_eighth(v, 0), v);
    assert_eq!(rotate_eighth(v, 1), Vec2 { x: -4, y: 3 });
    assert_eq!(rotate_eighth(v, 2), Vec2 { x: -3, y: -4 });
    assert_eq!(rotate_eighth(v, 3), Vec2 { x: 4, y: -3 });
}
