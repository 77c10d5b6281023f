use pulse::clock::{millis_since_epoch, nanos_since_epoch};
use std::time::{Duration, SystemTime, UNIX_EPOCH};

#[test]
fn a_reading_after_the_epoch_gives_its_whole_duration() {
    assert_eq!(millis_since_epoch(Ok(Duration::from_millis(1_500))), 1_500);
    assert_eq!(millis_since_epoch(Ok(Duration::from_micros(2_999))), 2);
    assert_eq!(millis_since_epoch(Ok(Duration::ZERO)), 0);
    assert_eq!(nanos_since_epoch(Ok(Duration::new(1, 5))), 1_000_000_005);
    assert_eq!(nanos_since_epoch(Ok(Duration::from_secs(u64::MAX))), u64::MAX as u128 * 1_000_000_000);
}

#[test]
fn milliseconds_keep_the_low_64_bits() {
    // u64::MAX seconds are u64::MAX * 1000 milliseconds, which is 2^64 - 1000 modulo 2^64
    assert_eq!(millis_since_epoch(Ok(Duration::from_secs(u64::MAX))), u64::MAX - 999);
}

#[test]
fn a_reading_before_the_epoch_gives_zero() {
    let later = UNIX_EPOCH + Duration::from_secs(10);
    let before_epoch = UNIX_EPOCH.duration_since(later);
    assert!(before_epoch.is_err());
    assert_eq!(millis_since_epoch(before_epoch), 0);
    let before_epoch = UNIX_EPOCH.duration_since(later);
    assert_eq!(nanos_since_epoch(before_epoch), 0);
}

#[test]
fn the_current_reading_is_after_the_epoch() {
    let elapsed = SystemTime::now().duration_since(UNIX_EPOCH);
    assert!(millis_since_epoch(elapsed) > 1_600_000_000_000);
}
