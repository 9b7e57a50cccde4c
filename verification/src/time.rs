//! Instants and spans of time.

use vstd::prelude::*;
use vstd::string::*;

verus! {

/// An instant in UTC: whole seconds since 1970, and nanoseconds of the second
/// that follows. Within a leap second the nanoseconds go past one second.
#[derive(Debug, Clone, Copy, PartialEq, Eq, Structural)]
pub struct Instant {
    pub secs: i64,
    pub nanos: u32,
}

impl Instant {
    /// Whether this instant comes before `other`.
    pub open spec fn before(self, other: Instant) -> bool {
        self.secs < other.secs || self.secs == other.secs && self.nanos < other.nanos
    }

    /// Whether this instant comes before `other`.
    pub fn is_before(&self, other: &Instant) -> (r: bool)
        ensures
            r == self.before(*other),
            self.secs < other.secs ==> r,
            self.secs > other.secs ==> !r,
            self.secs == other.secs ==> r == (self.nanos < other.nanos),
    {
        self.secs < other.secs || self.secs == other.secs && self.nanos < other.nanos
    }
}

/// The seconds and nanoseconds of the instant that an RFC 3339 text stands for,
/// or what is wrong with the text.
pub uninterp spec fn rfc3339_instant(s: Seq<char>) -> Result<(i64, u32), Seq<char>>;

/// The RFC 3339 text of an instant, with an offset of zero; `None` where the
/// instant is out of the calendar's range.
pub uninterp spec fn rfc3339_text(secs: i64, nanos: u32) -> Option<Seq<char>>;

/// Whether a span of this many seconds can be represented: its milliseconds
/// fit a signed 64-bit number.
pub open spec fn in_span(secs: int) -> bool {
    -9_223_372_036_854_775 <= secs <= 9_223_372_036_854_775
}

/// A span of this many seconds, where it can be represented.
pub open spec fn span(secs: int) -> Option<i64> {
    if in_span(secs) {
        Some(secs as i64)
    } else {
        None
    }
}

/// The instant that an RFC 3339 text stands for:
/// `chrono::DateTime::parse_from_rfc3339`, its result taken to UTC. Which texts
/// it accepts, and its words for the others, are named and not described here.
#[verifier::external_body]
pub(crate) fn parse_rfc3339(s: &str) -> (r: Result<Instant, String>)
    ensures
        match r {
            Ok(t) => rfc3339_instant(s@) == Ok::<(i64, u32), Seq<char>>((t.secs, t.nanos)),
            Err(e) => rfc3339_instant(s@) == Err::<(i64, u32), Seq<char>>(e@),
        },
{
    match chrono::DateTime::parse_from_rfc3339(s) {
        Ok(t) => Ok(Instant { secs: t.timestamp(), nanos: t.timestamp_subsec_nanos() }),
        Err(e) => Err(e.to_string()),
    }
}

/// The RFC 3339 text of an instant: `chrono::DateTime::to_rfc3339` of the
/// instant in UTC, which `chrono::DateTime::from_timestamp` makes where it is in
/// range. The text is named and not described here.
#[verifier::external_body]
pub(crate) fn format_rfc3339(t: Instant) -> (r: Option<String>)
    ensures
        match r {
            Some(s) => rfc3339_text(t.secs, t.nanos) == Some(s@),
            None => rfc3339_text(t.secs, t.nanos) is None,
        },
{
    chrono::DateTime::from_timestamp(t.secs, t.nanos).map(|d| d.to_rfc3339())
}

/// A span of `n` days in seconds: `chrono::TimeDelta::try_days`, which gives
/// `n` times 86400 seconds, and nothing where that cannot be represented.
#[verifier::external_body]
pub(crate) fn span_of_days(n: i64) -> (r: Option<i64>)
    ensures
        r == span(n * 86_400),
{
    chrono::TimeDelta::try_days(n).map(|d| d.num_seconds())
}

/// A span of `n` hours in seconds: `chrono::TimeDelta::try_hours`, which gives
/// `n` times 3600 seconds, and nothing where that cannot be represented.
#[verifier::external_body]
pub(crate) fn span_of_hours(n: i64) -> (r: Option<i64>)
    ensures
        r == span(n * 3_600),
{
    chrono::TimeDelta::try_hours(n).map(|d| d.num_seconds())
}

/// A span of `n` minutes in seconds: `chrono::TimeDelta::try_minutes`, which
/// gives `n` times 60 seconds, and nothing where that cannot be represented.
#[verifier::external_body]
pub(crate) fn span_of_minutes(n: i64) -> (r: Option<i64>)
    ensures
        r == span(n * 60),
{
    chrono::TimeDelta::try_minutes(n).map(|d| d.num_seconds())
}

/// Of two instants that differ exactly one comes first.
pub proof fn instants_are_ordered(a: Instant, b: Instant)
    ensures
        a != b ==> (a.before(b) <==> !b.before(a)),
        !a.before(a),
{
}

/// The second decides first, then the nanoseconds within it; what comes before
/// an earlier instant comes before a later one.
pub proof fn seconds_come_first(a: Instant, b: Instant, c: Instant)
    ensures
        a.secs < b.secs ==> a.before(b),
        a.secs > b.secs ==> !a.before(b),
        a.secs == b.secs ==> (a.before(b) <==> a.nanos < b.nanos),
        a.before(b) && b.before(c) ==> a.before(c),
{
}

/// A span is the number of seconds it was made of; only one whose milliseconds
/// do not fit is none.
pub proof fn spans_are_exact(secs: int)
    ensures
        span(secs) is Some <==> -0x7fff_ffff_ffff_ffff <= secs * 1000 <= 0x7fff_ffff_ffff_ffff,
        span(secs) is Some ==> span(secs)->0 == secs,
{
}

} // verus!
