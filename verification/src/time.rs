//! Spans of time and points in time as plain numbers, and their texts.

use vstd::prelude::*;
use vstd::string::*;

use crate::text::{decimal, decimal_text, option_text};

verus! {

/// Nanoseconds in one second.
pub const NANOS_PER_SEC: u32 = 1_000_000_000;

/// A span of time: whole seconds and the nanoseconds beyond them, which are
/// less than a second.
#[derive(Clone, Copy, Debug, PartialEq, Eq, Structural)]
pub struct Duration {
    secs: u64,
    nanos: u32,
}

impl Duration {
    #[verifier::type_invariant]
    spec fn wf(self) -> bool {
        self.nanos < NANOS_PER_SEC
    }

    /// The whole seconds of the span.
    pub closed spec fn secs(self) -> u64 {
        self.secs
    }

    /// The nanoseconds beyond the whole seconds.
    pub closed spec fn nanos(self) -> u32 {
        self.nanos
    }

    /// The length in nanoseconds.
    pub open spec fn total_nanos(self) -> nat {
        self.secs() as nat * 1_000_000_000 + self.nanos() as nat
    }

    /// The span of the given seconds and nanoseconds.
    pub fn new(secs: u64, nanos: u32) -> (r: Self)
        requires
            nanos < NANOS_PER_SEC,
        ensures
            r.secs() == secs,
            r.nanos() == nanos,
    {
        Duration { secs, nanos }
    }

    /// The span of a number of seconds.
    pub fn from_secs(secs: u64) -> (r: Self)
        ensures
            r.secs() == secs,
            r.nanos() == 0,
    {
        Duration { secs, nanos: 0 }
    }

    /// The span of a number of milliseconds.
    pub fn from_millis(millis: u64) -> (r: Self)
        ensures
            r.secs() == millis / 1000,
            r.nanos() == (millis % 1000) * 1_000_000,
            r.total_nanos() == millis * 1_000_000,
    {
        Duration { secs: millis / 1000, nanos: (millis % 1000) as u32 * 1_000_000 }
    }

    /// The whole seconds of the span.
    pub fn as_secs(&self) -> (r: u64)
        ensures
            r == self.secs(),
    {
        self.secs
    }

    /// The nanoseconds beyond the whole seconds.
    pub fn subsec_nanos(&self) -> (r: u32)
        ensures
            r == self.nanos(),
            r < NANOS_PER_SEC,
    {
        proof {
            use_type_invariant(self);
        }
        self.nanos
    }

    /// The length in whole milliseconds.
    pub fn as_millis(&self) -> (r: u128)
        ensures
            r == self.total_nanos() / 1_000_000,
    {
        proof {
            use_type_invariant(self);
        }
        self.secs as u128 * 1000 + (self.nanos / 1_000_000) as u128
    }
}

/// The short text of a span: whole seconds from one second up, else
/// milliseconds.
pub open spec fn span_text(d: Duration) -> Seq<char> {
    if d.secs() > 0 {
        decimal(d.secs() as nat) + "s"@
    } else {
        decimal(d.total_nanos() / 1_000_000) + "ms"@
    }
}

/// Writes a span in seconds, or in milliseconds where it is under a second.
pub fn format_duration(duration: Duration) -> (r: String)
    ensures
        r@ == span_text(duration),
{
    if duration.as_secs() > 0 {
        decimal_text(duration.as_secs() as u128).concat("s")
    } else {
        decimal_text(duration.as_millis()).concat("ms")
    }
}

/// The text that Rust's `{:?}` gives for a span of so many seconds and
/// nanoseconds.
pub uninterp spec fn debug_span(secs: u64, nanos: u32) -> Seq<char>;

/// `format!` with `{:?}` on `std::time::Duration`; the text is left to the
/// standard library and only named.
#[verifier::external_body]
fn debug_span_text(secs: u64, nanos: u32) -> (r: String)
    requires
        nanos < NANOS_PER_SEC,
    ensures
        r@ == debug_span(secs, nanos),
{
    format!("{:?}", std::time::Duration::new(secs, nanos))
}

/// Prints a span as `{:?}` does.
pub fn debug_duration(duration: Duration) -> (r: String)
    ensures
        r@ == debug_span(duration.secs(), duration.nanos()),
{
    let nanos: u32 = duration.subsec_nanos();
    debug_span_text(duration.as_secs(), nanos)
}

/// A point in time: seconds since the start of 1970 UTC, negative before it,
/// and the nanoseconds beyond them, which are less than a second.
#[derive(Clone, Copy, Debug, PartialEq, Eq, Structural)]
pub struct SystemTime {
    secs: i64,
    nanos: u32,
}

impl SystemTime {
    #[verifier::type_invariant]
    spec fn wf(self) -> bool {
        self.nanos < NANOS_PER_SEC
    }

    /// The whole seconds since the start of 1970, rounded down.
    pub closed spec fn secs(self) -> i64 {
        self.secs
    }

    /// The nanoseconds beyond the whole seconds.
    pub closed spec fn nanos(self) -> u32 {
        self.nanos
    }

    /// The distance from the start of 1970 in nanoseconds.
    pub open spec fn total_nanos(self) -> int {
        self.secs() * 1_000_000_000 + self.nanos()
    }

    /// The point so many seconds and nanoseconds after the start of 1970.
    pub fn new(secs: i64, nanos: u32) -> (r: Self)
        requires
            nanos < NANOS_PER_SEC,
        ensures
            r.secs() == secs,
            r.nanos() == nanos,
    {
        SystemTime { secs, nanos }
    }

    /// The start of 1970 UTC.
    pub fn unix_epoch() -> (r: Self)
        ensures
            r.secs() == 0,
            r.nanos() == 0,
    {
        SystemTime { secs: 0, nanos: 0 }
    }

    /// The span from an earlier point to this one; nothing where the other
    /// point is the later.
    pub fn duration_since(&self, earlier: SystemTime) -> (r: Option<Duration>)
        ensures
            r is Some <==> earlier.total_nanos() <= self.total_nanos(),
            r is Some ==> r->0.total_nanos() == self.total_nanos() - earlier.total_nanos(),
            r is Some ==> r->0.secs() == (self.total_nanos() - earlier.total_nanos())
                / 1_000_000_000,
            r is Some ==> r->0.nanos() == (self.total_nanos() - earlier.total_nanos())
                % 1_000_000_000,
    {
        proof {
            use_type_invariant(self);
            use_type_invariant(&earlier);
        }
        let mut secs: i128 = self.secs as i128 - earlier.secs as i128;
        let mut nanos: i64 = self.nanos as i64 - earlier.nanos as i64;
        if nanos < 0 {
            nanos = nanos + 1_000_000_000;
            secs = secs - 1;
        }
        if secs < 0 {
            None
        } else {
            Some(Duration { secs: secs as u64, nanos: nanos as u32 })
        }
    }
}

/// The RFC 3339 text of a UNIX timestamp in UTC; nothing where the
/// timestamp is out of the calendar's range.
pub uninterp spec fn rfc3339(secs: i64) -> Option<Seq<char>>;

/// `chrono::DateTime::from_timestamp` with no nanoseconds, printed by
/// `to_rfc3339`. Which timestamps are in range, and the calendar text of
/// those, is left to chrono and only named.
#[verifier::external_body]
fn rfc3339_text(secs: i64) -> (r: Option<String>)
    ensures
        r is Some <==> rfc3339(secs) is Some,
        r is Some ==> r->0@ == rfc3339(secs)->0,
{
    match chrono::DateTime::from_timestamp(secs, 0) {
        Some(time) => Some(time.to_rfc3339()),
        None => None,
    }
}

/// The text of a point in time, given the RFC 3339 text of its whole seconds
/// if there is one: `unknown` before 1970, and where there is none.
pub open spec fn time_text(time: SystemTime, calendar: Option<Seq<char>>) -> Seq<char> {
    if time.total_nanos() < 0 || calendar is None {
        "unknown"@
    } else {
        calendar->0
    }
}

/// The text of a point in time, from the RFC 3339 text of its whole seconds.
pub fn time_or_unknown(time: SystemTime, calendar: Option<String>) -> (r: String)
    ensures
        r@ == time_text(time, option_text(calendar)),
{
    match time.duration_since(SystemTime::unix_epoch()) {
        Some(_) => match calendar {
            Some(text) => text,
            None => "unknown".to_owned(),
        },
        None => "unknown".to_owned(),
    }
}

/// Formats a point in time as RFC 3339, to the second, or as `unknown`.
pub fn format_system_time(time: SystemTime) -> (r: String)
    ensures
        r@ == time_text(time, rfc3339(time.secs())),
{
    let calendar = rfc3339_text(time.secs);
    time_or_unknown(time, calendar)
}

/// A span of at least a second is told in whole seconds, a shorter one in
/// whole milliseconds; what is beyond them is cut off.
pub proof fn law_short_text_of_a_span(span: Duration)
    ensures
        span.secs() >= 1 ==> span_text(span) == decimal(span.secs() as nat) + "s"@,
        span.secs() == 0 ==> span_text(span) == decimal(span.nanos() as nat / 1_000_000) + "ms"@,
        span.total_nanos() == span.secs() * 1_000_000_000 + span.nanos(),
{
}

/// A point in time from the start of 1970 on has the calendar's text where
/// there is one; every other is unknown.
pub proof fn law_text_of_a_time(time: SystemTime, calendar: Option<Seq<char>>)
    ensures
        time.total_nanos() == time.secs() * 1_000_000_000 + time.nanos(),
        time.secs() >= 0 && calendar is Some ==> time_text(time, calendar) == calendar->0,
        time.total_nanos() < 0 || calendar is None ==> time_text(time, calendar) == "unknown"@,
{
}

} // verus!
