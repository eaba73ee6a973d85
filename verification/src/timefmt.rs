//! How the age of a message is shown.

use crate::clock;
use crate::clock::{format_time, parse_rfc3339, span_since, Span, Timestamp};
use crate::strings;
use crate::strings::{concat2, decimal_u64};
use vstd::prelude::*;

verus! {

/// How an age is shown: minutes below an hour, hours below a day, else the absolute time. A time
/// in the future is shown as an absolute time too.
pub open spec fn age_text(age: Span, absolute: Seq<char>) -> Seq<char> {
    if age.total_nanos() < 0 {
        absolute
    } else if age.secs < 3_600 {
        strings::decimal((age.secs as int / 60) as nat) + "m ago"@
    } else if age.secs < 86_400 {
        strings::decimal((age.secs as int / 3_600) as nat) + "h ago"@
    } else {
        absolute
    }
}

/// Shows an age, given the absolute time to fall back to.
pub fn format_age(age: Span, absolute: &str) -> (text: String)
    requires
        age.wf(),
    ensures
        text@ == age_text(age, absolute@),
{
    if age.secs < 0 || age.nanos < 0 {
        return absolute.to_owned();
    }
    if age.secs < 3_600 {
        let minutes = decimal_u64((age.secs / 60) as u64);
        return concat2(minutes.as_str(), "m ago");
    }
    if age.secs < 86_400 {
        let hours = decimal_u64((age.secs / 3_600) as u64);
        return concat2(hours.as_str(), "h ago");
    }
    absolute.to_owned()
}

/// The age of a message as it is shown in its header. A text that is no RFC 3339 time is shown as
/// it is.
pub fn format_timestamp(created_at: &str, now: Timestamp) -> (text: String)
    requires
        now.wf(),
    ensures
        text@ == match clock::parsed_time(created_at@) {
            None => created_at@,
            Some(then) => age_text(
                clock::span_between(now, then),
                clock::pattern_text(then.secs, then.nanos, "%b-%d %H:%M"@),
            ),
        },
{
    match parse_rfc3339(created_at) {
        None => created_at.to_owned(),
        Some(then) => {
            let absolute = format_time(then, "%b-%d %H:%M");
            format_age(span_since(now, then), absolute.as_str())
        },
    }
}

/// The text is a time that lies at most `window` before `now`, or after it.
pub open spec fn lies_within(created_at: Seq<char>, now: Timestamp, window: Span) -> bool {
    match clock::parsed_time(created_at) {
        None => false,
        Some(then) => clock::span_between(now, then).total_nanos() <= window.total_nanos(),
    }
}

/// Whether a time lies at most `window` before `now`, or after it.
pub fn is_within(created_at: &str, now: Timestamp, window: Span) -> (within: bool)
    requires
        now.wf(),
        window.wf(),
    ensures
        within == lies_within(created_at@, now, window),
{
    match parse_rfc3339(created_at) {
        None => false,
        Some(then) => {
            let span = span_since(now, then);
            span.secs < window.secs || (span.secs == window.secs && span.nanos <= window.nanos)
        },
    }
}

} // verus!
