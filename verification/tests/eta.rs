use pixai_auto_claimer::claimer::eta::{time_left, Timestamp, NANOS_PER_SEC};

#[test]
fn timestamp_counts_nanoseconds() {
    assert_eq!(NANOS_PER_SEC, 1_000_000_000);
    assert_eq!(Timestamp::from_secs(0).nanos, 0);
    assert_eq!(Timestamp::from_secs(3).nanos, 3_000_000_000);
    assert_eq!(Timestamp::from_parts(3, 7).nanos, 3_000_000_007);
    assert_eq!(
        Timestamp::from_parts(u64::MAX, u32::MAX).nanos,
        u64::MAX as u128 * 1_000_000_000 + u32::MAX as u128
    );
}

#[test]
fn seconds_since_drops_fractions() {
    let a = Timestamp::from_parts(10, 500_000_000);
    assert_eq!(Timestamp::from_parts(10, 500_000_000).seconds_since(a), Some(0));
    assert_eq!(Timestamp::from_parts(11, 499_999_999).seconds_since(a), Some(0));
    assert_eq!(Timestamp::from_parts(11, 500_000_000).seconds_since(a), Some(1));
    assert_eq!(Timestamp::from_secs(100).seconds_since(a), Some(89));
}

#[test]
fn seconds_since_an_earlier_time_only() {
    let a = Timestamp::from_secs(10);
    assert_eq!(Timestamp::from_parts(9, 999_999_999).seconds_since(a), None);
    assert_eq!(Timestamp::from_secs(0).seconds_since(a), None);
}

#[test]
fn seconds_since_must_fit_64_bits() {
    let origin = Timestamp { nanos: 0 };
    let fits = Timestamp { nanos: u64::MAX as u128 * 1_000_000_000 + 999_999_999 };
    assert_eq!(fits.seconds_since(origin), Some(u64::MAX));
    let too_late = Timestamp { nanos: (u64::MAX as u128 + 1) * 1_000_000_000 };
    assert_eq!(too_late.seconds_since(origin), None);
}

#[test]
fn time_left_multiplies_interval_by_remaining() {
    let t1 = Timestamp::from_secs(40);
    let t2 = Timestamp::from_secs(47);
    assert_eq!(time_left(t1, t2, 3), Some(21));
    assert_eq!(time_left(t1, t2, 1), Some(7));
    assert_eq!(time_left(t1, t2, 0), Some(0));
    assert_eq!(time_left(t1, t1, 9), Some(0));
}

#[test]
fn time_left_is_absent_when_time_runs_backwards() {
    assert_eq!(time_left(Timestamp::from_secs(47), Timestamp::from_secs(40), 3), None);
    assert_eq!(time_left(Timestamp::from_secs(47), Timestamp::from_secs(40), 0), None);
}

#[test]
fn time_left_is_absent_when_it_does_not_fit() {
    let origin = Timestamp::from_secs(0);
    assert_eq!(time_left(origin, Timestamp::from_secs(u64::MAX), 1), Some(u64::MAX));
    assert_eq!(time_left(origin, Timestamp::from_secs(u64::MAX), 2), None);
    assert_eq!(time_left(origin, Timestamp::from_secs(1 << 32), u32::MAX), Some(((1u64 << 32) - 1) << 32));
    let too_late = Timestamp { nanos: (u64::MAX as u128 + 1) * 1_000_000_000 };
    assert_eq!(time_left(origin, too_late, 1), None);
    assert_eq!(time_left(origin, too_late, 0), Some(0));
}
