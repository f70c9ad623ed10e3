//! PING/PONG keepalive timing and the wall clock in microseconds.

use vstd::prelude::*;
use std::time::{Duration, SystemTime};

verus! {

/// Interval between keepalive PINGs (2 s), in nanoseconds.
pub const KEEPALIVE_INTERVAL_NS: u64 = 2_000_000_000u64;

/// A peer silent for longer than this (6 s) is dead, in nanoseconds.
pub const DEAD_PEER_AFTER_NS: u64 = 6_000_000_000u64;

/// `std::time::SystemTime`, carried through opaquely.
#[verifier::external_type_specification]
#[verifier::external_body]
pub struct ExSystemTime(SystemTime);

/// `SystemTime::now`: the current wall-clock time (nothing is promised of it).
#[verifier::external_body]
fn system_now() -> SystemTime {
    SystemTime::now()
}

/// `SystemTime::duration_since(UNIX_EPOCH)`: the time since the epoch, or
/// `None` for a time before it (nothing more is promised).
#[verifier::external_body]
fn since_unix_epoch(t: &SystemTime) -> Option<Duration> {
    t.duration_since(std::time::UNIX_EPOCH).ok()
}

/// `Duration::as_nanos`: whole nanoseconds of a duration. Nothing is
/// promised of the value here: the only durations read are clock readings.
#[verifier::external_body]
fn duration_nanos(d: &Duration) -> u128 {
    d.as_nanos()
}

/// The wall clock as nanoseconds since the Unix epoch, or `None` for a clock
/// set before the epoch. Nothing is promised of the reading itself.
pub(crate) fn epoch_nanos_now() -> Option<u128> {
    let now = system_now();
    match since_unix_epoch(&now) {
        None => None,
        Some(d) => Some(duration_nanos(&d)),
    }
}

/// A count clamped to `u64`.
pub open spec fn clamp_u64(x: int) -> u64 {
    if x <= u64::MAX { x as u64 } else { u64::MAX }
}

/// The clamp of a microsecond count to `u64`.
pub fn clamp_micros(us: u128) -> (r: u64)
    ensures
        r == clamp_u64(us as int),
{
    if us <= u64::MAX as u128 {
        us as u64
    } else {
        u64::MAX
    }
}

/// The microsecond timestamp of a clock reading (nanoseconds since the Unix
/// epoch): 0 for a clock before the epoch, the whole microseconds clamped to
/// `u64` otherwise.
pub fn usec_of(reading: Option<u128>) -> (r: u64)
    ensures
        r == match reading {
            None => 0u64,
            Some(ns) => clamp_u64((ns / 1000) as int),
        },
{
    match reading {
        None => 0,
        Some(ns) => clamp_micros(ns / 1000),
    }
}

/// Microseconds since the Unix epoch, read from the wall clock: the
/// microsecond timestamp ([`usec_of`]) of the current reading. The reading
/// itself depends on the clock, so no value is promised.
pub fn now_usec() -> u64 {
    usec_of(epoch_nanos_now())
}

/// Whether a peer silent for `idle_ns` is dead.
pub fn peer_is_dead(idle_ns: u64) -> (b: bool)
    ensures
        b == (idle_ns > DEAD_PEER_AFTER_NS),
{
    idle_ns > DEAD_PEER_AFTER_NS
}

} // verus!
