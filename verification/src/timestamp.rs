//! Instants on the UTC calendar, as block headers hold them.

use crate::clock::NANOS_PER_SEC;
use chrono::{DateTime, TimeDelta, Utc};
use vstd::prelude::*;

verus! {

/// The first second of the calendar, counted from the Unix epoch: the start of the year
/// -262143.
pub const FIRST_SECOND: i64 = -8_334_601_228_800;

/// The last second of the calendar, counted from the Unix epoch: the end of the year 262142.
pub const LAST_SECOND: i64 = 8_210_266_876_799;

/// Whether there is an instant at these seconds since the Unix epoch and these nanoseconds.
///
/// A billion nanoseconds or more stand for a leap second, which only the last second of a
/// minute has.
pub open spec fn is_instant(secs: int, nanos: int) -> bool {
    &&& FIRST_SECOND <= secs <= LAST_SECOND
    &&& 0 <= nanos < 2 * NANOS_PER_SEC
    &&& nanos >= NANOS_PER_SEC ==> secs % 60 == 59
}

/// The seconds and nanoseconds of the instant that lies `delta` seconds from the given one.
///
/// Moving away from a leap second ends in an ordinary second: going forward, it counts as the
/// second that it extends, and going back, as the one after that.
pub open spec fn moved(secs: int, nanos: int, delta: int) -> (int, int) {
    if nanos < NANOS_PER_SEC || delta == 0 {
        (secs + delta, nanos)
    } else if delta > 0 {
        (secs + delta, nanos - NANOS_PER_SEC)
    } else {
        (secs + 1 + delta, nanos - NANOS_PER_SEC)
    }
}

/// Makes an instant with `DateTime::from_timestamp` of the `chrono` crate, and reads it back
/// with `timestamp` and `timestamp_subsec_nanos`.
///
/// There is an instant exactly within the calendar and, for a leap second, at the end of a
/// minute; it reads back as it was given.
#[verifier::external_body]
fn calendar_instant(secs: i64, nanos: u32) -> (instant: Option<(i64, u32)>)
    ensures
        instant == if is_instant(secs as int, nanos as int) {
            Some((secs, nanos))
        } else {
            None
        },
{
    DateTime::from_timestamp(secs, nanos).map(|t| (t.timestamp(), t.timestamp_subsec_nanos()))
}

/// Moves an instant with `DateTime::checked_add_signed` of the `chrono` crate, by the seconds
/// that `TimeDelta::try_seconds` makes.
///
/// Nothing comes back exactly where the move leaves the calendar.
#[verifier::external_body]
fn add_seconds(secs: i64, nanos: u32, delta: i64) -> (instant: Option<(i64, u32)>)
    requires
        is_instant(secs as int, nanos as int),
    ensures
        ({
            let (s, n) = moved(secs as int, nanos as int, delta as int);
            match instant {
                Some((secs, nanos)) => secs == s && nanos == n && FIRST_SECOND <= s <= LAST_SECOND,
                None => !(FIRST_SECOND <= s <= LAST_SECOND),
            }
        }),
{
    let instant: DateTime<Utc> = DateTime::from_timestamp(secs, nanos)?;
    let moved = instant.checked_add_signed(TimeDelta::try_seconds(delta)?)?;
    Some((moved.timestamp(), moved.timestamp_subsec_nanos()))
}

/// An instant on the UTC calendar.
#[derive(Clone, Copy, Debug, PartialEq, Eq, Structural)]
pub struct Timestamp {
    secs: i64,
    nanos: u32,
}

impl Timestamp {
    #[verifier::type_invariant]
    spec fn lies_on_the_calendar(self) -> bool {
        is_instant(self.secs as int, self.nanos as int)
    }

    /// The whole seconds since the Unix epoch.
    pub closed spec fn secs_view(self) -> int {
        self.secs as int
    }

    /// The nanoseconds since the last whole second.
    pub closed spec fn nanos_view(self) -> int {
        self.nanos as int
    }

    /// Whether the instant `delta` seconds from this one lies on the calendar.
    pub open spec fn can_move(self, delta: int) -> bool {
        FIRST_SECOND <= moved(self.secs_view(), self.nanos_view(), delta).0 <= LAST_SECOND
    }

    /// The instant at these seconds since the Unix epoch and these nanoseconds, if there is
    /// one.
    pub fn new(secs: i64, nanos: u32) -> (timestamp: Option<Timestamp>)
        ensures
            match timestamp {
                Some(t) => is_instant(secs as int, nanos as int) && t.secs_view() == secs
                    && t.nanos_view() == nanos,
                None => !is_instant(secs as int, nanos as int),
            },
    {
        match calendar_instant(secs, nanos) {
            Some((secs, nanos)) => Some(Timestamp { secs, nanos }),
            None => None,
        }
    }

    /// The whole seconds since the Unix epoch.
    pub fn secs(&self) -> (secs: i64)
        ensures
            secs == self.secs_view(),
    {
        self.secs
    }

    /// The nanoseconds since the last whole second; a billion or more in a leap second.
    pub fn nanos(&self) -> (nanos: u32)
        ensures
            nanos == self.nanos_view(),
    {
        self.nanos
    }

    /// The instant `delta` seconds from this one, if it lies on the calendar.
    pub fn moved_by(&self, delta: i64) -> (timestamp: Option<Timestamp>)
        ensures
            match timestamp {
                Some(t) => self.can_move(delta as int) && (t.secs_view(), t.nanos_view()) == moved(
                    self.secs_view(),
                    self.nanos_view(),
                    delta as int,
                ),
                None => !self.can_move(delta as int),
            },
    {
        proof {
            use_type_invariant(self);
        }
        match add_seconds(self.secs, self.nanos, delta) {
            Some((secs, nanos)) => Some(Timestamp { secs, nanos }),
            None => None,
        }
    }
}

/// Instants with the same seconds and nanoseconds are the same.
pub proof fn law_instants_are_told_by_their_parts(a: Timestamp, b: Timestamp)
    requires
        a.secs_view() == b.secs_view(),
        a.nanos_view() == b.nanos_view(),
    ensures
        a == b,
{
}

/// Moving forward from an instant makes it later, by as many seconds.
pub proof fn law_moving_forward_is_later(secs: int, nanos: int, delta: int)
    requires
        is_instant(secs, nanos),
        delta > 0,
    ensures
        moved(secs, nanos, delta).0 == secs + delta,
        0 <= moved(secs, nanos, delta).1 < NANOS_PER_SEC,
{
}

}
