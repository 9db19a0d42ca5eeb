use snowdrift::fixed::{clamp_component, isqrt, LIMIT, MICROS_PER_SECOND, SCALE};
use snowdrift::vec2::Vec2;

fn length_squared(v: Vec2) -> i128 {
    (v.x as i128) * (v.x as i128) + (v.y as i128) * (v.y as i128)
}

fn is_unit(v: Vec2) -> bool {
    let s = SCALE as i128;
    (s - 1) * (s - 1) <= length_squared(v) && length_squared(v) <= (s + 1) * (s + 1)
}

#[test]
fn scale_and_limit_are_as_documented() {
    assert_eq!(SCALE, 1_000_000);
    assert_eq!(LIMIT, 10_000_000 * SCALE);
    assert_eq!(MICROS_PER_SECOND, 1_000_000);
}

#[test]
fn isqrt_of_small_numbers() {
    assert_eq!(isqrt(0), 0);
    assert_eq!(isqrt(1), 1);
    assert_eq!(isqrt(2), 1);
    assert_eq!(isqrt(3), 1);
    assert_eq!(isqrt(4), 2);
    assert_eq!(isqrt(15), 3);
    assert_eq!(isqrt(16), 4);
    assert_eq!(isqrt(17), 4);
    assert_eq!(isqrt(99), 9);
    assert_eq!(isqrt(100), 10);
}

#[test]
fn isqrt_of_large_numbers() {
    assert_eq!(isqrt(1_000_000_000_000), 1_000_000);
    assert_eq!(isqrt(999_999_999_999), 999_999);
    assert_eq!(isqrt(2_000_000_000_000), 1_414_213);
    assert_eq!(isqrt(u64::MAX as u128), 4_294_967_295);
    assert_eq!(isqrt(1u128 << 64), 1u64 << 32);
    assert_eq!(isqrt(u128::MAX), u64::MAX);
}

#[test]
fn isqrt_is_the_floor_of_the_root() {
    for n in 0u128..5_000 {
        let r = isqrt(n) as u128;
        assert!(r * r <= n && n < (r + 1) * (r + 1));
    }
}

#[test]
fn clamp_component_keeps_what_is_in_range() {
    assert_eq!(clamp_component(0), 0);
    assert_eq!(clamp_component(-17), -17);
    assert_eq!(clamp_component(LIMIT as i128), LIMIT);
    assert_eq!(clamp_component(-(LIMIT as i128)), -LIMIT);
}

#[test]
fn clamp_component_cuts_what_is_beyond() {
    assert_eq!(clamp_component(LIMIT as i128 + 1), LIMIT);
    assert_eq!(clamp_component(-(LIMIT as i128) - 1), -LIMIT);
    assert_eq!(clamp_component(i128::MAX), LIMIT);
    assert_eq!(clamp_component(i128::MIN), -LIMIT);
}

#[test]
fn clamped_vector_is_in_range() {
    let v = Vec2::clamped(i64::MAX, i64::MIN);
    assert_eq!(v, Vec2 { x: LIMIT, y: -LIMIT });
    assert!(v.is_in_range());
    assert_eq!(Vec2::clamped(3, -4), Vec2 { x: 3, y: -4 });
    assert!(!(Vec2 { x: LIMIT + 1, y: 0 }).is_in_range());
    assert!(!(Vec2 { x: 0, y: -LIMIT - 1 }).is_in_range());
}

#[test]
fn plus_adds_by_component() {
    let a = Vec2 { x: 1_500_000, y: -2_000_000 };
    let b = Vec2 { x: -500_000, y: -250_000 };
    assert_eq!(a.plus(b), Vec2 { x: 1_000_000, y: -2_250_000 });
}

#[test]
fn plus_stops_at_the_limit() {
    let a = Vec2 { x: LIMIT - 1, y: -LIMIT + 1 };
    let b = Vec2 { x: 5, y: -5 };
    assert_eq!(a.plus(b), Vec2 { x: LIMIT, y: -LIMIT });
    let far = Vec2 { x: i64::MAX, y: i64::MIN };
    assert_eq!(far.plus(far), Vec2 { x: LIMIT, y: -LIMIT });
}

#[test]
fn moved_covers_speed_times_time() {
    let at = Vec2 { x: 10_000_000, y: 20_000_000 };
    let velocity = Vec2 { x: 1_500_000, y: -3_000_000 };
    // 16 ms at 1.5 and -3 units per second: 0.024 and -0.048 units.
    assert_eq!(at.moved(velocity, 16_000), Vec2 { x: 10_024_000, y: 19_952_000 });
    // a whole second
    assert_eq!(at.moved(velocity, 1_000_000), Vec2 { x: 11_500_000, y: 17_000_000 });
}

#[test]
fn moved_rounds_toward_zero() {
    let at = Vec2 { x: 0, y: 0 };
    assert_eq!(at.moved(Vec2 { x: 1, y: -1 }, 999_999), Vec2 { x: 0, y: 0 });
    assert_eq!(at.moved(Vec2 { x: 3, y: -3 }, 500_000), Vec2 { x: 1, y: -1 });
    assert_eq!(at.moved(Vec2 { x: 7, y: -7 }, 1_000_000), Vec2 { x: 7, y: -7 });
}

#[test]
fn moved_by_no_time_stays() {
    let at = Vec2 { x: -123, y: 456 };
    assert_eq!(at.moved(Vec2 { x: LIMIT, y: -LIMIT }, 0), at);
}

#[test]
fn moved_stops_at_the_limit() {
    let at = Vec2 { x: LIMIT - 10, y: -LIMIT + 10 };
    let velocity = Vec2 { x: LIMIT, y: -LIMIT };
    assert_eq!(at.moved(velocity, u64::MAX), Vec2 { x: LIMIT, y: -LIMIT });
    let extreme = Vec2 { x: i64::MIN, y: i64::MAX };
    assert_eq!(at.moved(extreme, u64::MAX), Vec2 { x: -LIMIT, y: LIMIT });
}

#[test]
fn try_normalize_of_exact_triangles() {
    assert_eq!(
        Vec2 { x: 3, y: 4 }.try_normalize(),
        Some(Vec2 { x: 600_000, y: 800_000 })
    );
    assert_eq!(
        Vec2 { x: -3_000_000, y: -4_000_000 }.try_normalize(),
        Some(Vec2 { x: -600_000, y: -800_000 })
    );
    assert_eq!(
        Vec2 { x: 5, y: -12 }.try_normalize(),
        Some(Vec2 { x: 384_615, y: -923_077 })
    );
}

#[test]
fn try_normalize_along_an_axis() {
    assert_eq!(Vec2 { x: 0, y: -5 }.try_normalize(), Some(Vec2 { x: 0, y: -SCALE }));
    assert_eq!(Vec2 { x: 0, y: 1 }.try_normalize(), Some(Vec2 { x: 0, y: SCALE }));
    assert_eq!(Vec2 { x: -LIMIT, y: 0 }.try_normalize(), Some(Vec2 { x: -SCALE, y: 0 }));
    assert_eq!(Vec2 { x: LIMIT, y: 0 }.try_normalize(), Some(Vec2 { x: SCALE, y: 0 }));
}

#[test]
fn try_normalize_on_the_diagonal() {
    // 1 / sqrt(2) = 0.70710678...
    assert_eq!(
        Vec2 { x: 1, y: 1 }.try_normalize(),
        Some(Vec2 { x: 707_107, y: 707_107 })
    );
    assert_eq!(
        Vec2 { x: LIMIT, y: -LIMIT }.try_normalize(),
        Some(Vec2 { x: 707_107, y: -707_107 })
    );
}

#[test]
fn try_normalize_rounds_to_the_nearest() {
    // 1 / sqrt(10) = 0.316227766..., 3 / sqrt(10) = 0.948683298...
    assert_eq!(
        Vec2 { x: 1, y: -3 }.try_normalize(),
        Some(Vec2 { x: 316_228, y: -948_683 })
    );
    // 2 / sqrt(13) = 0.554700196..., 3 / sqrt(13) = 0.832050294...
    assert_eq!(
        Vec2 { x: -2, y: 3 }.try_normalize(),
        Some(Vec2 { x: -554_700, y: 832_050 })
    );
}

#[test]
fn try_normalize_of_zero_is_none() {
    assert_eq!(Vec2 { x: 0, y: 0 }.try_normalize(), None);
}

#[test]
fn try_normalize_gives_unit_length() {
    let samples: [i64; 9] = [-LIMIT, -499_999, -1_000, -1, 0, 1, 7, 500_000, LIMIT];
    for &x in samples.iter() {
        for &y in samples.iter() {
            if x == 0 && y == 0 {
                continue;
            }
            let u = Vec2 { x, y }.try_normalize().unwrap();
            assert!(is_unit(u), "({}, {}) gave ({}, {})", x, y, u.x, u.y);
            assert!(u.x == 0 || (u.x > 0) == (x > 0));
            assert!(u.y == 0 || (u.y > 0) == (y > 0));
        }
    }
}
