//! Clock readings and their rendering.
//!
//! Monotonic time is carried as nanoseconds since a [`MonotonicClock`] was
//! started, so that ages are plain integer arithmetic.

use std::time::SystemTime;
use tokio::time::Instant;
use vstd::prelude::*;
use vstd::string::StringExecFns;

verus! {

pub const NANOS_PER_SECOND: u128 = 1_000_000_000;

pub const NANOS_PER_MILLISECOND: u128 = 1_000_000;

/// `tokio::time::Instant`: an opaque reading of tokio's monotonic clock.
#[verifier::external_type_specification]
#[verifier::external_body]
pub struct ExInstant(tokio::time::Instant);

/// `std::time::SystemTime`: an opaque reading of the wall clock.
#[verifier::external_type_specification]
#[verifier::external_body]
pub struct ExSystemTime(std::time::SystemTime);

/// Calls `tokio::time::Instant::now`. The reading depends on when the call is
/// made, so nothing is claimed about it.
#[verifier::external_body]
fn instant_now() -> Instant {
    Instant::now()
}

/// Calls `tokio::time::Instant::elapsed` and hands the duration back as whole
/// nanoseconds. The amount depends on when the call is made, so nothing is
/// claimed about it.
#[verifier::external_body]
fn instant_elapsed_nanos(origin: &Instant) -> u128 {
    origin.elapsed().as_nanos()
}

/// Calls `std::time::SystemTime::now`. The reading depends on when the call
/// is made, so nothing is claimed about it.
#[verifier::external_body]
fn system_time_now() -> SystemTime {
    SystemTime::now()
}

/// Calls `jiff::Zoned::try_from` on a wall-clock reading and renders the zoned
/// time as text; `None` when jiff cannot represent the reading. The text
/// depends on the time zone of the machine, so nothing is claimed about it.
#[verifier::external_body]
fn zoned_text(system_time: SystemTime) -> Option<String> {
    match jiff::Zoned::try_from(system_time) {
        Ok(zoned) => Some(zoned.to_string()),
        Err(_) => None,
    }
}

/// A monotonic clock that counts nanoseconds from the moment it was started.
pub struct MonotonicClock {
    origin: Instant,
}

impl MonotonicClock {
    /// Starts a clock at the current instant.
    pub fn start() -> Self {
        MonotonicClock { origin: instant_now() }
    }

    /// Nanoseconds elapsed since the clock was started.
    pub fn elapsed_nanos(&self) -> u128 {
        instant_elapsed_nanos(&self.origin)
    }
}

/// The time from `earlier` to `later`, or zero when `later` lies before
/// `earlier`.
pub open spec fn elapsed_between(earlier: u128, later: u128) -> u128 {
    if later >= earlier {
        (later - earlier) as u128
    } else {
        0
    }
}

/// Computes [`elapsed_between`].
pub fn saturating_elapsed(earlier: u128, later: u128) -> (elapsed: u128)
    ensures
        elapsed == elapsed_between(earlier, later),
{
    if later >= earlier {
        later - earlier
    } else {
        0
    }
}

/// A span of nanoseconds cut down to whole seconds, capped at `u64::MAX`.
pub open spec fn whole_seconds(nanos: u128) -> u64 {
    if nanos / NANOS_PER_SECOND > u64::MAX {
        u64::MAX
    } else {
        (nanos / NANOS_PER_SECOND) as u64
    }
}

/// Computes [`whole_seconds`].
pub fn truncate_to_seconds(nanos: u128) -> (seconds: u64)
    ensures
        seconds == whole_seconds(nanos),
{
    let seconds: u128 = nanos / NANOS_PER_SECOND;
    if seconds > u64::MAX as u128 {
        u64::MAX
    } else {
        seconds as u64
    }
}

/// A span of nanoseconds cut down to whole milliseconds.
pub open spec fn whole_milliseconds(nanos: u128) -> u128 {
    nanos / NANOS_PER_MILLISECOND
}

/// Computes [`whole_milliseconds`].
pub fn truncate_to_milliseconds(nanos: u128) -> (milliseconds: u128)
    ensures
        milliseconds == whole_milliseconds(nanos),
{
    nanos / NANOS_PER_MILLISECOND
}

/// The text shown for a wall-clock reading: the zoned rendering when there is
/// one, `UNKNOWN` otherwise.
pub open spec fn timestamp_text(zoned: Option<String>) -> Seq<char> {
    match zoned {
        Some(text) => text@,
        None => "UNKNOWN"@,
    }
}

/// Computes [`timestamp_text`].
pub fn timestamp_or_unknown(zoned: Option<String>) -> (text: String)
    ensures
        text@ == timestamp_text(zoned),
{
    match zoned {
        Some(text) => text,
        None => String::from_str("UNKNOWN"),
    }
}

/// Renders a wall-clock reading in the time zone of the machine, or as
/// `UNKNOWN` when it cannot be represented.
pub fn system_time_to_string(system_time: SystemTime) -> String {
    timestamp_or_unknown(zoned_text(system_time))
}

/// Renders the current wall-clock time in the time zone of the machine.
pub fn current_timestamp_string() -> String {
    system_time_to_string(system_time_now())
}

} // verus!
