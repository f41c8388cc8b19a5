use aerome::sizing::{effective_size, PolicyKind, SizingPolicy};

#[test]
fn fixed_matches_only_nominal_size_at_scale_one() {
    let p = SizingPolicy::Fixed(256);
    assert!(p.matches(256, 1));
    assert!(!p.matches(256, 2));
    assert!(!p.matches(128, 2));
    assert!(!p.matches(255, 1));
    assert!(!p.matches(257, 1));
    assert!(!p.matches(0, 1));
}

#[test]
fn fixed_matches_exhaustive_small_grid() {
    for n in [1, 16, 24, 48] {
        let p = SizingPolicy::Fixed(n);
        for size in 0..64 {
            for scale in 0..4 {
                assert_eq!(p.matches(size, scale), size == n && scale == 1);
            }
        }
    }
}

#[test]
fn scalable_matches_between_half_and_double() {
    let p = SizingPolicy::Scalable(32);
    assert!(p.matches(16, 1));
    assert!(p.matches(64, 1));
    assert!(p.matches(40, 1));
    assert!(p.matches(8, 2));
    assert!(p.matches(32, 2));
    assert!(!p.matches(15, 1));
    assert!(!p.matches(65, 1));
    assert!(!p.matches(33, 2));
    assert!(!p.matches(1000, 1));
}

#[test]
fn scalable_matches_exhaustive_small_grid() {
    for n in [0, 1, 7, 32, 33] {
        let p = SizingPolicy::Scalable(n);
        for size in 0..80 {
            for scale in 0..4 {
                let wanted = size * scale;
                assert_eq!(p.matches(size, scale), n / 2 <= wanted && wanted <= n * 2);
            }
        }
    }
}

#[test]
fn scalable_bounds_round_toward_zero() {
    assert_eq!(SizingPolicy::Scalable(33).bounds(), (16, 66));
    assert_eq!(SizingPolicy::Scalable(-33).bounds(), (-16, -66));
    assert_eq!(SizingPolicy::Threshold(10).bounds(), (8, 12));
    assert_eq!(SizingPolicy::Threshold(-10).bounds(), (-8, -12));
    assert_eq!(SizingPolicy::Fixed(48).bounds(), (48, 48));
}

#[test]
fn threshold_matches_within_a_quarter() {
    let p = SizingPolicy::Threshold(48);
    assert!(p.matches(36, 1));
    assert!(p.matches(60, 1));
    assert!(p.matches(48, 1));
    assert!(p.matches(24, 2));
    assert!(!p.matches(35, 1));
    assert!(!p.matches(61, 1));
    assert!(!p.matches(31, 2));
}

#[test]
fn scalable_distance_is_gap_to_nearest_bound() {
    let p = SizingPolicy::Scalable(32);
    assert_eq!(p.distance(10, 1), 6);
    assert_eq!(p.distance(15, 1), 1);
    assert_eq!(p.distance(65, 1), 1);
    assert_eq!(p.distance(1000, 1), 936);
    assert_eq!(p.distance(50, 2), 36);
    assert_eq!(p.distance(16, 1), 0);
    assert_eq!(p.distance(64, 1), 0);
    assert_eq!(p.distance(40, 1), 0);
}

#[test]
fn scalable_distance_positive_and_growing_outside_range() {
    let p = SizingPolicy::Scalable(32);
    let mut last = 0;
    for size in 65..200 {
        let d = p.distance(size, 1);
        assert!(d > last);
        last = d;
    }
    let mut last = 0;
    for size in (0..16).rev() {
        let d = p.distance(size, 1);
        assert!(d > last);
        last = d;
    }
}

#[test]
fn threshold_distance_is_gap_to_nearest_bound() {
    let p = SizingPolicy::Threshold(48);
    assert_eq!(p.distance(30, 1), 6);
    assert_eq!(p.distance(70, 1), 10);
    assert_eq!(p.distance(36, 1), 0);
    assert_eq!(p.distance(40, 2), 20);
}

#[test]
fn fixed_distance_is_gap_to_scaled_nominal_size() {
    let p = SizingPolicy::Fixed(256);
    assert_eq!(p.distance(256, 1), 0);
    assert_eq!(p.distance(256, 2), 256);
    assert_eq!(p.distance(100, 1), 156);
    assert_eq!(p.distance(600, 2), 88);
}

#[test]
fn distance_does_not_overflow_at_the_extremes() {
    let p = SizingPolicy::Scalable(i32::MAX);
    assert_eq!(p.distance(i32::MIN, i32::MAX), 1073741823i64 + 4611686016279904256i64);
    assert_eq!(effective_size(i32::MIN, i32::MIN), 4611686018427387904i64);
    assert_eq!(effective_size(i32::MIN, i32::MAX), -4611686016279904256i64);
    let q = SizingPolicy::Fixed(i32::MIN);
    assert_eq!(q.distance(i32::MAX, i32::MIN), 4611686018427387904i64 - 2147483647i64);
    assert!(!SizingPolicy::Threshold(i32::MAX).matches(i32::MAX, i32::MAX));
}

#[test]
fn policy_is_rebuilt_from_kind_and_size() {
    let p = SizingPolicy::new(PolicyKind::Threshold, 22);
    assert_eq!(p, SizingPolicy::Threshold(22));
    assert_eq!(p.policy_kind(), PolicyKind::Threshold);
    assert_eq!(p.nominal_size(), 22);
    assert_eq!(SizingPolicy::new(PolicyKind::Fixed, 1), SizingPolicy::Fixed(1));
    assert_eq!(SizingPolicy::new(PolicyKind::Scalable, -1), SizingPolicy::Scalable(-1));
}
