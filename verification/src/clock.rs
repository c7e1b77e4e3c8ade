//! The current time, in milliseconds since the Unix epoch.

use vstd::prelude::*;
use crate::config::millis;

verus! {

#[verifier::external_type_specification]
#[verifier::external_body]
pub struct ExSystemTime(std::time::SystemTime);

/// The current time in milliseconds since the Unix epoch. Tests pass their
/// own clock to move time without sleeping.
pub trait Clock {
    /// Milliseconds since the Unix epoch.
    fn now_ms(&self) -> u64;
}

/// The system clock.
#[derive(Clone, Copy, Debug, Default)]
pub struct SystemClock;

/// `std::time::SystemTime::now`. What it returns depends on when it runs.
#[verifier::external_body]
fn system_now() -> std::time::SystemTime {
    std::time::SystemTime::now()
}

/// `SystemTime::duration_since(UNIX_EPOCH)`, split into whole seconds and
/// the nanoseconds below one second, which are fewer than a billion; `None`
/// for a time before the epoch.
#[verifier::external_body]
fn since_epoch(time: std::time::SystemTime) -> (parts: Option<(u64, u32)>)
    ensures
        parts matches Some((_, nanos)) ==> nanos < 1_000_000_000,
{
    time.duration_since(std::time::UNIX_EPOCH).ok().map(|d| (d.as_secs(), d.subsec_nanos()))
}

impl Clock for SystemClock {
    /// The system time in whole milliseconds since the epoch, `0` before it.
    fn now_ms(&self) -> u64 {
        match since_epoch(system_now()) {
            Some((secs, nanos)) => millis(secs, nanos),
            None => 0,
        }
    }
}

} // verus!
