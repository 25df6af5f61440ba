use std::time::{SystemTime, UNIX_EPOCH};
use task_scheduler::clock::{millis_of_reading, unix_millis};

#[test]
fn reading_before_the_epoch_is_zero() {
    assert_eq!(millis_of_reading(None), 0);
}

#[test]
fn reading_keeps_whole_milliseconds_that_fit() {
    assert_eq!(millis_of_reading(Some(0)), 0);
    assert_eq!(millis_of_reading(Some(1_700_000_000_123)), 1_700_000_000_123);
    assert_eq!(millis_of_reading(Some(u64::MAX as u128)), u64::MAX);
}

#[test]
fn reading_is_reduced_to_its_low_64_bits() {
    assert_eq!(millis_of_reading(Some(1u128 << 64)), 0);
    assert_eq!(millis_of_reading(Some((1u128 << 64) + 7)), 7);
    assert_eq!(millis_of_reading(Some(u128::MAX)), u64::MAX);
}

#[test]
fn unix_millis_reads_the_system_clock() {
    let before = SystemTime::now().duration_since(UNIX_EPOCH).unwrap().as_millis() as u64;
    let read = unix_millis();
    let after = SystemTime::now().duration_since(UNIX_EPOCH).unwrap().as_millis() as u64;
    assert!(before <= read && read <= after);
}
