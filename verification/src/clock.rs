//! Readings of the monotonic clock and of the wall clock.

use std::time::{Duration, Instant, SystemTime, UNIX_EPOCH};
use vstd::prelude::*;

verus! {

/// A reading of the monotonic clock.
#[verifier::external_type_specification]
#[verifier::external_body]
pub struct ExInstant(std::time::Instant);

/// A reading of the wall clock.
#[verifier::external_type_specification]
#[verifier::external_body]
pub struct ExSystemTime(std::time::SystemTime);

/// The first second after the last one that has a timestamp with a four-digit year.
pub const TIMESTAMP_END_SECS: u64 = 253_402_300_800;

/// The nanoseconds in a second.
pub const NANOS_PER_SEC: u32 = 1_000_000_000;

/// The RFC 3339 timestamp, with milliseconds and in UTC, of an instant that is given in
/// seconds and nanoseconds since the Unix epoch.
pub uninterp spec fn rfc3339_millis(secs: u64, nanos: u32) -> Seq<char>;

/// Reads the monotonic clock with `Instant::now`. Nothing is claimed of the reading.
#[verifier::external_body]
pub fn instant_now() -> (now: Instant) {
    Instant::now()
}

/// The time since a reading of the monotonic clock, from `Instant::elapsed`, in nanoseconds.
/// Nothing is claimed of it: it depends on when the call is made.
#[verifier::external_body]
pub fn elapsed_nanos(since: &Instant) -> (nanos: u128) {
    since.elapsed().as_nanos()
}

/// Reads the wall clock with `SystemTime::now`. Nothing is claimed of the reading.
#[verifier::external_body]
pub fn system_now() -> (now: SystemTime) {
    SystemTime::now()
}

/// The seconds and nanoseconds from the Unix epoch to `time`, from
/// `SystemTime::duration_since`, or `None` for a time before the epoch.
///
/// The nanoseconds are the part that does not make up a whole second.
#[verifier::external_body]
pub fn since_unix_epoch(time: SystemTime) -> (parts: Option<(u64, u32)>)
    ensures
        parts matches Some((_, nanos)) ==> nanos < NANOS_PER_SEC,
{
    match time.duration_since(UNIX_EPOCH) {
        Ok(since) => Some((since.as_secs(), since.subsec_nanos())),
        Err(_) => None,
    }
}

/// Renders a time with `humantime::format_rfc3339_millis`.
///
/// The text is a function of the time alone and always has 24 characters, the last of which
/// is `Z`. A time past the year 9999 cannot be rendered and is ruled out.
#[verifier::external_body]
pub(crate) fn format_rfc3339_millis(secs: u64, nanos: u32) -> (text: String)
    requires
        secs < TIMESTAMP_END_SECS,
        nanos < NANOS_PER_SEC,
    ensures
        text@ == rfc3339_millis(secs, nanos),
        text@.len() == 24,
        text@.last() == 'Z',
{
    humantime::format_rfc3339_millis(UNIX_EPOCH + Duration::new(secs, nanos)).to_string()
}

/// Whether `text` is the timestamp of a wall clock reading: there is none before the Unix epoch
/// or past the year 9999.
pub open spec fn is_timestamp(text: Option<String>, reading: Option<(u64, u32)>) -> bool {
    match reading {
        Some((secs, nanos)) if secs < TIMESTAMP_END_SECS => {
            &&& text matches Some(ts)
            &&& ts@ == rfc3339_millis(secs, nanos)
            &&& ts@.len() == 24
            &&& ts@.last() == 'Z'
        },
        _ => text is None,
    }
}

/// The timestamp of a wall clock reading, or `None` where it has none: before the Unix epoch
/// or past the year 9999.
pub fn timestamp(reading: Option<(u64, u32)>) -> (text: Option<String>)
    requires
        reading matches Some((_, nanos)) ==> nanos < NANOS_PER_SEC,
    ensures
        is_timestamp(text, reading),
{
    match reading {
        Some((secs, nanos)) => {
            if secs < TIMESTAMP_END_SECS {
                Some(format_rfc3339_millis(secs, nanos))
            } else {
                None
            }
        },
        None => None,
    }
}

/// The timestamp of the present moment, or `None` where the wall clock stands at a time that
/// has none. Which moment that is, and so whether it has one, is left open here; [`timestamp`]
/// says what becomes of each reading.
pub fn timestamp_now() -> (text: Option<String>)
    ensures
        exists|now: SystemTime, reading: Option<(u64, u32)>|
            {
                &&& #[trigger] call_ensures(system_now, (), now)
                &&& #[trigger] call_ensures(since_unix_epoch, (now,), reading)
                &&& is_timestamp(text, reading)
            },
{
    let read = system_now;
    let since = since_unix_epoch;
    timestamp(since(read()))
}

}
