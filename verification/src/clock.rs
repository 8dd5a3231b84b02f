//! The production clock readings: wall-clock and monotonic time in
//! microseconds.  Only the readings live here — a host performs its own
//! blocking waits, aiming them with
//! [`crate::timing::fraction_wait_target`].

use vstd::prelude::*;

verus! {

#[verifier::external_type_specification]
#[verifier::external_body]
pub struct ExInstant(std::time::Instant);

#[verifier::external_type_specification]
#[verifier::external_body]
pub struct ExSystemTime(std::time::SystemTime);

/// Relies on `std::time::Instant::now`: an opaque monotonic reading.
#[verifier::external_body]
fn instant_now() -> (i: std::time::Instant) {
    std::time::Instant::now()
}

/// Relies on `std::time::Instant::elapsed`: the time since the reading
/// was taken, never negative; saturates far beyond any real duration.
#[verifier::external_body]
fn instant_elapsed_micros(epoch: &std::time::Instant) -> (t: i64)
    ensures
        0 <= t,
{
    i64::try_from(epoch.elapsed().as_micros()).unwrap_or(i64::MAX)
}

/// Relies on `std::time::SystemTime::now`: an opaque wall-clock reading.
#[verifier::external_body]
fn system_time_now() -> (t: std::time::SystemTime) {
    std::time::SystemTime::now()
}

/// Relies on `SystemTime::duration_since`: the reading's distance past
/// the Unix epoch, never negative; a reading before the epoch counts as
/// the epoch itself.
#[verifier::external_body]
fn system_time_epoch_micros(t: &std::time::SystemTime) -> (micros: i64)
    ensures
        0 <= micros,
{
    match t.duration_since(std::time::UNIX_EPOCH) {
        Ok(d) => i64::try_from(d.as_micros()).unwrap_or(i64::MAX),
        Err(_) => 0,
    }
}

/// The production clock: wall-clock time from the system clock, and
/// monotonic time as the distance from a fixed origin taken at
/// construction.
pub struct RealClock {
    epoch: std::time::Instant,
}

impl RealClock {
    /// A clock whose monotonic origin is the moment of construction.
    pub fn new() -> (c: RealClock) {
        RealClock { epoch: instant_now() }
    }

    /// Wall-clock microseconds since the Unix epoch.
    pub fn system_time_micros(&self) -> (t: i64)
        ensures
            0 <= t,
    {
        let now = system_time_now();
        system_time_epoch_micros(&now)
    }

    /// Monotonic microseconds since this clock was constructed.
    pub fn monotonic_micros(&self) -> (t: i64)
        ensures
            0 <= t,
    {
        instant_elapsed_micros(&self.epoch)
    }
}

} // verus!
