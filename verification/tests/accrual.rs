use lending::error::ErrorCode;
use lending::interest::accrue;

#[test]
fn zero_rate_leaves_principal_unchanged() {
    assert_eq!(accrue(1000, 0, 123_456), Ok(1000));
}

#[test]
fn zero_elapsed_time_leaves_principal_unchanged() {
    assert_eq!(accrue(1000, 5, 0), Ok(1000));
}

#[test]
fn unit_exponent_grows_by_the_series_value_of_e() {
    // rate * elapsed equals one scale unit; the sixteen-term series gives
    // 2.718277 in fixed point, truncated from e == 2.71828...
    assert_eq!(accrue(1_000_000, 1, 1_000_000), Ok(2_718_277));
}

#[test]
fn accrual_is_monotonic_in_elapsed_time() {
    let times: [u64; 6] = [0, 100_000, 500_000, 1_000_000, 2_000_000, 4_000_000];
    let mut last: u64 = 0;
    for t in times {
        let v = accrue(1_000_000, 1, t).unwrap();
        assert!(v >= last);
        last = v;
    }
}

#[test]
fn exponent_beyond_the_domain_is_an_overflow() {
    assert_eq!(accrue(1000, 1, 4_000_001), Err(ErrorCode::ArithmeticOverflow));
    assert_eq!(accrue(1000, 2, 2_000_001), Err(ErrorCode::ArithmeticOverflow));
}

#[test]
fn result_beyond_the_ledger_range_is_an_overflow() {
    assert_eq!(accrue(u64::MAX, 1, 1_000_000), Err(ErrorCode::ArithmeticOverflow));
}

#[test]
fn accrued_value_never_falls_below_principal() {
    for t in [0u64, 1, 10, 1_000, 1_000_000] {
        assert!(accrue(777, 1, t).unwrap() >= 777);
    }
}

#[test]
fn zero_principal_accrues_to_zero_at_any_exponent() {
    assert_eq!(accrue(0, 2, 4_000_000), Ok(0));
    assert_eq!(accrue(0, 1, 4_000_001), Ok(0));
    assert_eq!(accrue(0, u64::MAX, u64::MAX), Ok(0));
}
