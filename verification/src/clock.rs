//! Points in time, and what the calendar library makes of them.

use crate::strings;
use chrono::{DateTime, Utc};
use vstd::prelude::*;

verus! {

/// The first second that the calendar reaches, in seconds since 1970.
pub const MIN_SECS: i64 = -8_334_601_228_800;

/// The last second that the calendar reaches, in seconds since 1970.
pub const MAX_SECS: i64 = 8_210_266_876_799;

/// Seconds of a day.
pub const DAY_SECS: i64 = 86_400;

/// Nanoseconds of a second.
pub const SECOND_NANOS: u64 = 1_000_000_000;

/// A point in time in UTC: whole seconds since 1970 and the nanoseconds of the second. During a
/// leap second the nanoseconds run on past a thousand million.
#[derive(Clone, Copy, Debug, PartialEq, Eq, Structural)]
pub struct Timestamp {
    pub secs: i64,
    pub nanos: u32,
}

/// The pair is a point in time that the calendar can represent.
pub open spec fn valid_time(secs: i64, nanos: u32) -> bool {
    &&& MIN_SECS <= secs <= MAX_SECS
    &&& nanos < 1_000_000_000 || (nanos < 2_000_000_000 && secs as int % 60 == 59)
}

impl Timestamp {
    /// The calendar can represent the point in time.
    pub open spec fn wf(self) -> bool {
        valid_time(self.secs, self.nanos)
    }

    /// The point in time lies in a leap second.
    pub open spec fn is_leap(self) -> bool {
        self.nanos >= 1_000_000_000
    }

    /// Nanoseconds since 1970, leap seconds not counted.
    pub open spec fn total_nanos(self) -> int {
        self.secs * 1_000_000_000 + self.nanos
    }

    /// Not earlier than another point in time.
    pub open spec fn not_before(self, other: Timestamp) -> bool {
        self.secs > other.secs || (self.secs == other.secs && self.nanos >= other.nanos)
    }

    /// Whether the point in time is not earlier than another.
    pub fn is_not_before(self, other: Timestamp) -> (result: bool)
        ensures
            result == self.not_before(other),
    {
        self.secs > other.secs || (self.secs == other.secs && self.nanos >= other.nanos)
    }

    /// The same time of day some days earlier; a leap second counts as the second after it.
    pub open spec fn days_earlier(self, days: int) -> Timestamp {
        if self.is_leap() {
            Timestamp {
                secs: (self.secs + 1 - days * DAY_SECS) as i64,
                nanos: (self.nanos - 1_000_000_000) as u32,
            }
        } else {
            Timestamp { secs: (self.secs - days * DAY_SECS) as i64, nanos: self.nanos }
        }
    }

    /// The same time of day some days earlier.
    pub fn minus_days(self, days: i64) -> (earlier: Timestamp)
        requires
            self.wf(),
            0 < days,
            self.secs - days * DAY_SECS >= MIN_SECS,
        ensures
            earlier == self.days_earlier(days as int),
            earlier.wf(),
    {
        if self.nanos >= 1_000_000_000 {
            Timestamp {
                secs: self.secs + 1 - days * 86_400,
                nanos: self.nanos - 1_000_000_000,
            }
        } else {
            Timestamp { secs: self.secs - days * 86_400, nanos: self.nanos }
        }
    }
}

/// The moment at which an event is handled: the calendar time, and a monotonic clock in
/// nanoseconds.
#[derive(Clone, Copy, Debug, PartialEq, Eq, Structural)]
pub struct Clock {
    pub utc: Timestamp,
    pub instant: u64,
}

impl Clock {
    /// Thirty days before the time are still within the calendar, and a banner that is shown now
    /// can end.
    pub open spec fn wf(self) -> bool {
        &&& self.utc.wf()
        &&& self.utc.secs - 30 * DAY_SECS >= MIN_SECS
        &&& self.instant <= u64::MAX - 3 * SECOND_NANOS
    }
}

/// Nanoseconds from `earlier` to `now` on the monotonic clock; zero if `earlier` is later.
pub open spec fn nanos_since(now: u64, earlier: u64) -> int {
    if now > earlier {
        now - earlier
    } else {
        0
    }
}

/// The point in time that an RFC 3339 text stands for, as seconds and nanoseconds in UTC.
pub uninterp spec fn rfc3339_time(text: Seq<char>) -> Option<(i64, u32)>;

/// `chrono::DateTime::parse_from_rfc3339`, converted to UTC. The result depends on the text alone
/// and is named [`rfc3339_time`]; what it returns is a point in time that the calendar can
/// represent. The grammar of RFC 3339 is not stated.
#[verifier::external_body]
fn parse_rfc3339_pair(text: &str) -> (time: Option<(i64, u32)>)
    ensures
        time == rfc3339_time(text@),
        time matches Some((secs, nanos)) ==> valid_time(secs, nanos),
{
    match DateTime::parse_from_rfc3339(text) {
        Ok(time) => {
            let utc = time.with_timezone(&Utc);
            Some((utc.timestamp(), utc.timestamp_subsec_nanos()))
        },
        Err(_) => None,
    }
}

/// What [`rfc3339_time`] names, as a timestamp.
pub open spec fn parsed_time(text: Seq<char>) -> Option<Timestamp> {
    match rfc3339_time(text) {
        Some((secs, nanos)) => Some(Timestamp { secs, nanos }),
        None => None,
    }
}

/// Parses an RFC 3339 text.
pub fn parse_rfc3339(text: &str) -> (time: Option<Timestamp>)
    ensures
        time == parsed_time(text@),
        time matches Some(time) ==> time.wf(),
{
    match parse_rfc3339_pair(text) {
        Some((secs, nanos)) => Some(Timestamp { secs, nanos }),
        None => None,
    }
}

/// The time between two points in time, as seconds and nanoseconds of the same sign.
pub uninterp spec fn time_between(now: (i64, u32), then: (i64, u32)) -> (i64, i32);

/// `chrono::DateTime::signed_duration_since`, as `num_seconds` and `subsec_nanos` of the duration.
/// Outside leap seconds the two make up the plain difference; how leap seconds count is not
/// stated, only that the result depends on the two points in time alone.
#[verifier::external_body]
fn signed_duration_since(now: (i64, u32), then: (i64, u32)) -> (span: (i64, i32))
    requires
        valid_time(now.0, now.1),
        valid_time(then.0, then.1),
    ensures
        span == time_between(now, then),
        -1_000_000_000 < span.1 < 1_000_000_000,
        span.0 > 0 ==> span.1 >= 0,
        span.0 < 0 ==> span.1 <= 0,
        now.1 < 1_000_000_000 && then.1 < 1_000_000_000 ==> span.0 * 1_000_000_000 + span.1 == (
        now.0 - then.0) * 1_000_000_000 + (now.1 - then.1),
{
    let now = DateTime::<Utc>::from_timestamp(now.0, now.1).unwrap();
    let then = DateTime::<Utc>::from_timestamp(then.0, then.1).unwrap();
    let span = now.signed_duration_since(then);
    (span.num_seconds(), span.subsec_nanos())
}

/// A signed span of time.
#[derive(Clone, Copy, Debug, PartialEq, Eq, Structural)]
pub struct Span {
    /// Whole seconds, cut off towards zero.
    pub secs: i64,
    /// The rest, of the same sign.
    pub nanos: i32,
}

impl Span {
    /// The span in nanoseconds.
    pub open spec fn total_nanos(self) -> int {
        self.secs * 1_000_000_000 + self.nanos
    }

    /// The rest is below a second and has the sign of the whole.
    pub open spec fn wf(self) -> bool {
        &&& -1_000_000_000 < self.nanos < 1_000_000_000
        &&& self.secs > 0 ==> self.nanos >= 0
        &&& self.secs < 0 ==> self.nanos <= 0
    }
}

/// The time that has passed at `now` since `then`.
pub open spec fn span_between(now: Timestamp, then: Timestamp) -> Span {
    let span = time_between((now.secs, now.nanos), (then.secs, then.nanos));
    Span { secs: span.0, nanos: span.1 }
}

/// The time that has passed at `now` since `then`; outside leap seconds, the plain difference.
pub fn span_since(now: Timestamp, then: Timestamp) -> (span: Span)
    requires
        now.wf(),
        then.wf(),
    ensures
        span == span_between(now, then),
        span.wf(),
        !now.is_leap() && !then.is_leap() ==> span.total_nanos() == now.total_nanos()
            - then.total_nanos(),
{
    let span = signed_duration_since((now.secs, now.nanos), (then.secs, then.nanos));
    Span { secs: span.0, nanos: span.1 }
}

/// A point in time in RFC 3339.
pub uninterp spec fn rfc3339_text(secs: i64, nanos: u32) -> Seq<char>;

/// `chrono::DateTime::to_rfc3339` in UTC. The result depends on the point in time alone and is
/// named [`rfc3339_text`].
#[verifier::external_body]
pub(crate) fn to_rfc3339(time: Timestamp) -> (text: String)
    requires
        time.wf(),
    ensures
        text@ == rfc3339_text(time.secs, time.nanos),
{
    DateTime::<Utc>::from_timestamp(time.secs, time.nanos).unwrap().to_rfc3339()
}

/// The patterns that points in time are written with.
pub open spec fn known_pattern(pattern: Seq<char>) -> bool {
    pattern == "%b-%d %H:%M"@ || pattern == "%Y%m%d-%H%M%S"@ || pattern == "%Y-%m-%d"@ || pattern
        == "%H:%M:%S"@
}

/// A point in time in UTC, written with a pattern.
pub uninterp spec fn pattern_text(secs: i64, nanos: u32, pattern: Seq<char>) -> Seq<char>;

/// The time of day in UTC: hour, minute and second, in two digits each. A leap second is the
/// second sixty of its minute.
pub open spec fn time_of_day(time: Timestamp) -> Seq<char> {
    let second = time.secs as int % DAY_SECS as int;
    let leap: int = if time.is_leap() {
        1
    } else {
        0
    };
    strings::two_digits((second / 3600) as nat) + ":"@ + strings::two_digits(
        (second / 60 % 60) as nat,
    ) + ":"@ + strings::two_digits((second % 60 + leap) as nat)
}

/// `chrono::DateTime::format` in UTC. The result depends on the point in time and the pattern
/// alone and is named [`pattern_text`]; with the pattern of the time of day it is
/// [`time_of_day`].
#[verifier::external_body]
pub(crate) fn format_time(time: Timestamp, pattern: &str) -> (text: String)
    requires
        time.wf(),
        known_pattern(pattern@),
    ensures
        text@ == pattern_text(time.secs, time.nanos, pattern@),
        pattern@ == "%H:%M:%S"@ ==> text@ == time_of_day(time),
{
    DateTime::<Utc>::from_timestamp(time.secs, time.nanos).unwrap().format(pattern).to_string()
}

} // verus!
