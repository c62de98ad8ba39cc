use strata::decimal::Decimal;

fn d(mantissa: i128, scale: u32) -> Decimal {
    Decimal { mantissa, scale }
}

#[test]
fn round_dp_keeps_values_with_few_digits() {
    assert_eq!(d(1234, 2).round_dp(2), d(1234, 2));
    assert_eq!(d(1234, 2).round_dp(5), d(1234, 2));
    assert_eq!(d(7, 0).round_dp(0), d(7, 0));
}

#[test]
fn round_dp_rounds_midpoints_to_even() {
    assert_eq!(d(12345, 3).round_dp(2), d(1234, 2));
    assert_eq!(d(12355, 3).round_dp(2), d(1236, 2));
    assert_eq!(d(-12355, 3).round_dp(2), d(-1236, 2));
    assert_eq!(d(5, 1).round_dp(0), d(0, 0));
    assert_eq!(d(15, 1).round_dp(0), d(2, 0));
    assert_eq!(d(25, 1).round_dp(0), d(2, 0));
}

#[test]
fn round_dp_rounds_away_from_midpoints() {
    assert_eq!(d(12346, 3).round_dp(2), d(1235, 2));
    assert_eq!(d(12344, 3).round_dp(2), d(1234, 2));
    assert_eq!(d(-6004999, 5).round_dp(0), d(-60, 0));
    assert_eq!(d(100049, 3).round_dp(0), d(100, 0));
}

#[test]
fn round_dp_twice_is_round_dp_once() {
    let once = d(123456789, 6).round_dp(2);
    assert_eq!(once.round_dp(2), once);
    assert_eq!(once, d(12346, 2));
}

#[test]
fn round_dp_of_small_negative_gives_unsigned_zero() {
    assert_eq!(d(-1, 3).round_dp(2), d(0, 2));
}

#[test]
fn zero_test_reads_the_mantissa() {
    assert!(d(0, 5).is_zero());
    assert!(!d(1, 28).is_zero());
    assert_eq!(Decimal::new(100, 0), d(100, 0));
}
