//! Wall-clock time as milliseconds since the Unix epoch.

use std::time::{Duration, SystemTime, SystemTimeError, UNIX_EPOCH};
use vstd::prelude::*;

verus! {

/// `std::time::SystemTime`, an opaque point in time.
#[verifier::external_type_specification]
#[verifier::external_body]
pub struct ExSystemTime(SystemTime);

/// `std::time::SystemTimeError`, returned when a time lies before the one it
/// is measured from.
#[verifier::external_type_specification]
#[verifier::external_body]
pub struct ExSystemTimeError(SystemTimeError);

/// `SystemTime::clone` copies the point in time: the copy is the same point.
pub assume_specification[ <SystemTime as Clone>::clone ](time: &SystemTime) -> (copy: SystemTime)
    ensures
        copy == *time,
;

/// `SystemTime::now` reads the system clock. Nothing is claimed of the value.
pub assume_specification[ SystemTime::now ]() -> (now: SystemTime);

/// `SystemTime::duration_since` measures the time from `earlier` to `time`,
/// or fails when `earlier` is the later of the two. Nothing is claimed of
/// which it is.
pub assume_specification[ SystemTime::duration_since ](
    time: &SystemTime,
    earlier: SystemTime,
) -> (elapsed: Result<Duration, SystemTimeError>);

/// `Duration::as_millis` gives the whole milliseconds in a duration. Nothing
/// is claimed of the number.
pub assume_specification[ Duration::as_millis ](duration: &Duration) -> (millis: u128);

/// The constant `std::time::UNIX_EPOCH`.
#[verifier::external_body]
fn unix_epoch() -> (epoch: SystemTime) {
    UNIX_EPOCH
}

/// Milliseconds elapsed since the Unix epoch, as [`millis_of_reading`]
/// gives them for what the clock reads. What the clock reads is not for
/// the library to say.
pub fn unix_millis() -> (millis: u64) {
    let now = SystemTime::now();
    let since_epoch = match now.duration_since(unix_epoch()) {
        Ok(elapsed) => Some(elapsed.as_millis()),
        Err(_) => None,
    };
    millis_of_reading(since_epoch)
}

/// What a reading of the clock comes to in milliseconds: the whole
/// milliseconds since the Unix epoch reduced to their low 64 bits, and `0`
/// for a clock set before the epoch, which has no such count.
pub open spec fn reading_millis(since_epoch: Option<u128>) -> u64 {
    match since_epoch {
        Some(wide) => (wide % 0x1_0000_0000_0000_0000) as u64,
        None => 0,
    }
}

/// Turns a reading of the clock, the whole milliseconds since the Unix
/// epoch or `None` for a clock set before it, into the 64-bit time stamp
/// that tasks carry.
pub fn millis_of_reading(since_epoch: Option<u128>) -> (millis: u64)
    ensures
        millis == reading_millis(since_epoch),
{
    match since_epoch {
        Some(wide) => {
            assert(wide as u64 == (wide % 0x1_0000_0000_0000_0000) as u64) by (bit_vector);
            #[verifier::truncate]
            (wide as u64)
        },
        None => 0,
    }
}

} // verus!
