//! The wall clock, read in whole seconds since the Unix epoch.

use std::time::{Duration, SystemTime, SystemTimeError};
use vstd::prelude::*;

verus! {

/// `std::time::SystemTime`, a point on the system clock. Nothing is known
/// of a value but that it can be handed on.
#[verifier::external_type_specification]
#[verifier::external_body]
pub struct ExSystemTime(SystemTime);

/// `std::time::SystemTimeError`, returned where the earlier of two points
/// turns out to be the later one.
#[verifier::external_type_specification]
#[verifier::external_body]
pub struct ExSystemTimeError(SystemTimeError);

/// `SystemTime::now` reads the system clock. Nothing is claimed of the
/// point it returns.
pub assume_specification[ SystemTime::now ]() -> SystemTime;

/// `SystemTime::duration_since` gives the time that passed from `earlier`
/// to `later`, or an error where `earlier` is the later of the two. Nothing
/// is claimed of which it is.
pub assume_specification[ SystemTime::duration_since ](
    later: &SystemTime,
    earlier: SystemTime,
) -> Result<Duration, SystemTimeError>;

/// `Duration::as_secs` gives the whole seconds of a duration. Nothing is
/// claimed of their number.
pub assume_specification[ Duration::as_secs ](duration: &Duration) -> u64;

/// The constant `SystemTime::UNIX_EPOCH`, the point from which Unix time is
/// counted. Nothing is claimed of it.
#[verifier::external_body]
fn unix_epoch() -> SystemTime {
    SystemTime::UNIX_EPOCH
}

/// Seconds since the Unix epoch by the system clock, or `None` where the
/// clock stands before the epoch.
pub(crate) fn unix_seconds() -> Option<u64> {
    let now = SystemTime::now();
    match now.duration_since(unix_epoch()) {
        Ok(elapsed) => Some(elapsed.as_secs()),
        Err(_) => None,
    }
}

} // verus!
