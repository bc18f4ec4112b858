use chimera_rancher::random::{draw_idle_duration, idle_duration_from_offset};

#[test]
fn idle_durations_spread_around_base() {
    let n = 10_000u64;
    let mut total: u64 = 0;
    let mut lo = u64::MAX;
    let mut hi = 0u64;
    for _ in 0..n {
        let d = draw_idle_duration(2_000, 1_000);
        assert!((1_000..=3_000).contains(&d));
        total += d;
        lo = lo.min(d);
        hi = hi.max(d);
    }
    let mean = total as f64 / n as f64;
    assert!((mean - 2_000.0).abs() < 30.0, "mean {}", mean);
    assert!(lo < 1_100 && hi > 2_900);
}

#[test]
fn idle_duration_without_spread_is_base() {
    for _ in 0..50 {
        assert_eq!(draw_idle_duration(1_234, 0), 1_234);
    }
}

#[test]
fn idle_duration_subtracts_the_offset() {
    assert_eq!(idle_duration_from_offset(2_000, 1_000, 300), 1_700);
    assert_eq!(idle_duration_from_offset(2_000, 1_000, -1_000), 3_000);
    assert_eq!(idle_duration_from_offset(2_000, 1_000, 1_000), 1_000);
}
