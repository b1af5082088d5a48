use ferromon::metrics::{color_for_pct, gauge_fill, percent, round_to_tenths, GaugeColor};

#[test]
fn percent_of_nothing_is_zero() {
    assert_eq!(percent(0, 0), 0);
    assert_eq!(percent(5, 0), 0);
    assert_eq!(percent(u64::MAX, 0), 0);
}

#[test]
fn percent_exact_values() {
    assert_eq!(percent(0, 10), 0);
    assert_eq!(percent(1, 2), 500);
    assert_eq!(percent(1, 4), 250);
    assert_eq!(percent(10, 10), 1000);
    assert_eq!(percent(3, 2), 1500);
    assert_eq!(percent(u64::MAX, u64::MAX), 1000);
    assert_eq!(percent(u64::MAX / 2, u64::MAX), 500);
}

#[test]
fn percent_rounds_to_the_nearest_tenth_halves_up() {
    // 1/3 = 33.33..%, 2/3 = 66.66..%
    assert_eq!(percent(1, 3), 333);
    assert_eq!(percent(2, 3), 667);
    // 1/2000 = 0.05% is half a tenth and goes up; 1/2001 stays below.
    assert_eq!(percent(1, 2000), 1);
    assert_eq!(percent(1, 2001), 0);
    // 3/2000 = 0.15%
    assert_eq!(percent(3, 2000), 2);
}

#[test]
fn percent_saturates_where_the_share_does_not_fit() {
    assert_eq!(percent(u64::MAX, 1), u64::MAX);
    assert_eq!(percent(1 << 60, 1), u64::MAX);
    assert_eq!(percent(1_000_000, 1), 1_000_000_000);
}

#[test]
fn percent_is_within_half_a_tenth_of_the_quotient() {
    let mut x: u64 = 0x2545_f491_4f6c_dd1d;
    for _ in 0..5000 {
        x ^= x << 13;
        x ^= x >> 7;
        x ^= x << 17;
        let total = (x >> 20) | 1;
        let used = (x.rotate_left(17) >> 20) % (total + 1);
        let tenths = percent(used, total) as u128;
        let exact = 2000 * used as u128;
        assert!(2 * tenths * total as u128 <= exact + total as u128);
        assert!(exact + (total as u128) < 2 * (tenths + 1) * total as u128);
        let floats = (used as f64 / total as f64) * 100.0;
        assert!((floats * 10.0 - tenths as f64).abs() <= 0.5 + 1e-6);
    }
}

#[test]
fn round_to_tenths_goes_half_up() {
    assert_eq!(round_to_tenths(0), 0);
    assert_eq!(round_to_tenths(49), 0);
    assert_eq!(round_to_tenths(50), 1);
    assert_eq!(round_to_tenths(149), 1);
    assert_eq!(round_to_tenths(150), 2);
    assert_eq!(round_to_tenths(12_345), 123);
    assert_eq!(round_to_tenths(100_000), 1000);
    assert_eq!(round_to_tenths(u64::MAX), u64::MAX / 100);
    assert_eq!(round_to_tenths(u64::MAX - 115 + 50), u64::MAX / 100);
}

#[test]
fn gauge_colours() {
    assert_eq!(color_for_pct(0), GaugeColor::Green);
    assert_eq!(color_for_pct(749), GaugeColor::Green);
    assert_eq!(color_for_pct(750), GaugeColor::Yellow);
    assert_eq!(color_for_pct(899), GaugeColor::Yellow);
    assert_eq!(color_for_pct(900), GaugeColor::Red);
    assert_eq!(color_for_pct(u64::MAX), GaugeColor::Red);
}

#[test]
fn gauge_fill_stops_at_the_whole() {
    assert_eq!(gauge_fill(0), 0);
    assert_eq!(gauge_fill(333), 333);
    assert_eq!(gauge_fill(1000), 1000);
    assert_eq!(gauge_fill(1001), 1000);
    assert_eq!(gauge_fill(u64::MAX), 1000);
}
