//! Points in time as plain integers, and the clock.

use vstd::prelude::*;

verus! {

/// Seconds in the lifetime of a session: twenty-four hours.
pub const SESSION_SECONDS: i64 = 86_400;

/// The earliest second that the calendar can represent (1 January 262144 BCE, 00:00:00 UTC).
pub const MIN_CALENDAR_SECOND: i64 = -8_334_601_228_800;

/// The latest second that the calendar can represent (31 December 262142 CE, 23:59:59 UTC).
pub const MAX_CALENDAR_SECOND: i64 = 8_210_266_876_799;

/// An instant in UTC: whole seconds since 1 January 1970 and the nanoseconds
/// into that second. Instants are ordered by seconds first, nanoseconds second.
#[derive(Clone, Copy, Debug, PartialEq, Eq, Structural)]
pub struct Timestamp {
    pub secs: i64,
    pub nanos: u32,
}

impl Timestamp {
    /// `self` is strictly earlier than `other`.
    pub open spec fn before(self, other: Timestamp) -> bool {
        self.secs < other.secs || (self.secs == other.secs && self.nanos < other.nanos)
    }

    /// `self` is not later than `other`.
    pub open spec fn at_or_before(self, other: Timestamp) -> bool {
        !other.before(self)
    }

    /// What every reading of the clock meets: it lies between the Unix epoch
    /// and the last second of the calendar, with whole nanoseconds below one
    /// second.
    pub open spec fn on_the_clock(self) -> bool {
        0 <= self.secs <= MAX_CALENDAR_SECOND && self.nanos < 1_000_000_000
    }

    /// The instant `seconds` after `self`; where the seconds cannot count
    /// that far, the last (or the first) second that they can count.
    pub open spec fn plus_seconds(self, seconds: int) -> Timestamp {
        let sum = self.secs + seconds;
        Timestamp {
            secs: if sum > i64::MAX {
                i64::MAX
            } else if sum < i64::MIN {
                i64::MIN
            } else {
                sum as i64
            },
            nanos: self.nanos,
        }
    }

    pub fn new(secs: i64, nanos: u32) -> (t: Timestamp)
        ensures
            t == (Timestamp { secs, nanos }),
    {
        Timestamp { secs, nanos }
    }

    /// Whether `self` is strictly earlier than `other`.
    pub fn is_before(&self, other: &Timestamp) -> (b: bool)
        ensures
            b == self.before(*other),
    {
        self.secs < other.secs || (self.secs == other.secs && self.nanos < other.nanos)
    }

    /// Whether `self` is strictly later than `other`.
    pub fn is_after(&self, other: &Timestamp) -> (b: bool)
        ensures
            b == other.before(*self),
    {
        other.is_before(self)
    }

    /// The instant at which a session issued at `self` expires.
    pub fn session_expiry(&self) -> (t: Timestamp)
        requires
            self.secs + SESSION_SECONDS <= i64::MAX,
        ensures
            t == self.plus_seconds(SESSION_SECONDS as int),
            t.secs == self.secs + SESSION_SECONDS,
            t.nanos == self.nanos,
    {
        Timestamp { secs: self.secs + SESSION_SECONDS, nanos: self.nanos }
    }
}

/// The current instant, as `chrono::Utc::now` reads it from the system clock.
///
/// Trusted: the clock is read as a span since the Unix epoch, so the seconds
/// are not negative and the nanoseconds stay below one second; and what
/// comes back is an instant of the calendar, so the seconds do not exceed
/// its last second.
#[verifier::external_body]
pub(crate) fn clock_now() -> (t: Timestamp)
    ensures
        t.on_the_clock(),
{
    let now = chrono::Utc::now();
    Timestamp { secs: now.timestamp(), nanos: now.timestamp_subsec_nanos() }
}

/// The calendar's instant for a whole number of seconds since the Unix epoch,
/// as `chrono::DateTime::from_timestamp` gives it with zero nanoseconds.
///
/// Trusted: the call answers exactly for the seconds between the first and
/// the last second of the calendar, and the instant it builds reads back as
/// the same seconds and no nanoseconds.
#[verifier::external_body]
pub(crate) fn calendar_instant(secs: i64) -> (r: Option<Timestamp>)
    ensures
        r == calendar_instant_of(secs),
{
    match chrono::DateTime::from_timestamp(secs, 0) {
        Some(moment) => Some(
            Timestamp { secs: moment.timestamp(), nanos: moment.timestamp_subsec_nanos() },
        ),
        None => None,
    }
}

/// The instant that the calendar has for `secs` seconds since the Unix epoch:
/// none outside the calendar's range.
pub open spec fn calendar_instant_of(secs: i64) -> Option<Timestamp> {
    if MIN_CALENDAR_SECOND <= secs <= MAX_CALENDAR_SECOND {
        Some(Timestamp { secs, nanos: 0 })
    } else {
        None
    }
}

/// The order on instants is strict and total.
pub proof fn lemma_instants_totally_ordered(a: Timestamp, b: Timestamp, c: Timestamp)
    ensures
        !a.before(a),
        a.before(b) && b.before(c) ==> a.before(c),
        a.before(b) || b.before(a) || a == b,
        a.at_or_before(b) && b.at_or_before(c) ==> a.at_or_before(c),
{
}

} // verus!
