use moka::builder::{check_expirations, is_valid_segment_count, ConfigError};
use moka::cache::next_power_of_two;
use moka::duration::Duration;

#[test]
fn expirations_of_exactly_1000_years_pass() {
    let thousand_years_secs: u64 = 1000 * 365 * 24 * 3600;
    let bound = Duration::from_secs(thousand_years_secs);
    assert_eq!(check_expirations(Some(bound), Some(bound)), Ok(()));
    assert_eq!(check_expirations(None, None), Ok(()));
}

#[test]
fn too_long_ttl_is_named() {
    let thousand_years_secs: u64 = 1000 * 365 * 24 * 3600;
    let over = Duration::from_secs(thousand_years_secs + 1);
    assert_eq!(
        check_expirations(Some(over), None),
        Err(ConfigError::TimeToLiveTooLong)
    );
    // one nanosecond over the bound is already too long
    let barely_over = Duration::from_nanos(over.as_nanos() - 999_999_999);
    assert_eq!(
        check_expirations(Some(barely_over), Some(barely_over)),
        Err(ConfigError::TimeToLiveTooLong)
    );
}

#[test]
fn too_long_tti_is_named() {
    let thousand_years_secs: u64 = 1000 * 365 * 24 * 3600;
    let over = Duration::from_secs(thousand_years_secs + 1);
    let fine = Duration::from_secs(45 * 60);
    assert_eq!(
        check_expirations(Some(fine), Some(over)),
        Err(ConfigError::TimeToIdleTooLong)
    );
    assert_eq!(
        check_expirations(None, Some(over)),
        Err(ConfigError::TimeToIdleTooLong)
    );
}

#[test]
fn zero_segments_are_rejected() {
    assert!(!is_valid_segment_count(0));
    assert!(is_valid_segment_count(1));
    assert!(is_valid_segment_count(16));
}

#[test]
fn segment_counts_round_to_powers_of_two() {
    assert_eq!(next_power_of_two(1), 1);
    assert_eq!(next_power_of_two(2), 2);
    assert_eq!(next_power_of_two(3), 4);
    assert_eq!(next_power_of_two(16), 16);
    assert_eq!(next_power_of_two(17), 32);
}

#[test]
fn durations_count_nanoseconds() {
    let d = Duration::from_secs(2);
    assert_eq!(d.as_nanos(), 2_000_000_000);
    assert_eq!(Duration::from_nanos(5).as_nanos(), 5);
    assert_eq!(Duration::from_secs(2), Duration::from_nanos(2_000_000_000));
    assert!(d.within_expiration_bound());
}
