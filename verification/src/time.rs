//! Points in time (UTC), as seconds and nanoseconds since the Unix epoch, and
//! the calls into `chrono` that read the clock, parse and format them.
use vstd::prelude::*;

use chrono::{DateTime, Local, SecondsFormat, TimeDelta, Utc};
use chrono_humanize::{Accuracy, HumanTime, Tense};

verus! {

/// A UTC instant: whole seconds since the Unix epoch and the nanoseconds past them.
#[derive(Debug, Clone, Copy, PartialEq, Eq, Hash, Structural)]
pub struct UtcDateTime {
    pub secs: i64,
    pub nanos: u32,
}

/// `a` is strictly earlier than `b`.
pub open spec fn before(a: UtcDateTime, b: UtcDateTime) -> bool {
    a.secs < b.secs || (a.secs == b.secs && a.nanos < b.nanos)
}

impl UtcDateTime {
    /// Whether `self` is strictly earlier than `other`.
    pub fn lt(&self, other: &UtcDateTime) -> (r: bool)
        ensures
            r == before(*self, *other),
    {
        self.secs < other.secs || (self.secs == other.secs && self.nanos < other.nanos)
    }
}

/// Whether `chrono` can represent the instant `secs` seconds and `nanos`
/// nanoseconds after the Unix epoch.
pub uninterp spec fn spec_chrono_valid(secs: i64, nanos: u32) -> bool;

/// `chrono::DateTime::from_timestamp(secs, 0)`: the instant `secs` seconds
/// after the epoch, `None` when out of chrono's range.
#[verifier::external_body]
pub fn from_timestamp(secs: i64) -> (r: Option<UtcDateTime>)
    ensures
        r is Some <==> spec_chrono_valid(secs, 0),
        r matches Some(t) ==> t.secs == secs && t.nanos == 0,
{
    match DateTime::from_timestamp(secs, 0) {
        Some(d) => Some(UtcDateTime { secs: d.timestamp(), nanos: d.timestamp_subsec_nanos() }),
        None => None,
    }
}

/// `chrono::Utc::now()`: the current instant; nothing is known of it but
/// that chrono can represent it.
#[verifier::external_body]
pub fn now() -> (r: UtcDateTime)
    ensures
        spec_chrono_valid(r.secs, r.nanos),
{
    let d = Utc::now();
    UtcDateTime { secs: d.timestamp(), nanos: d.timestamp_subsec_nanos() }
}

/// The instant an RFC 3339 text denotes, if chrono accepts it.
pub uninterp spec fn spec_parse_rfc3339(text: Seq<char>) -> Option<UtcDateTime>;

/// `chrono::DateTime::parse_from_rfc3339(text)` converted to UTC; `None`
/// where chrono reports a parse error.
#[verifier::external_body]
pub fn parse_rfc3339(text: &str) -> (r: Option<UtcDateTime>)
    ensures
        r == spec_parse_rfc3339(text@),
        r matches Some(t) ==> spec_chrono_valid(t.secs, t.nanos),
{
    match DateTime::parse_from_rfc3339(text) {
        Ok(d) => {
            let d = d.to_utc();
            Some(UtcDateTime { secs: d.timestamp(), nanos: d.timestamp_subsec_nanos() })
        },
        Err(_) => None,
    }
}

/// RFC 3339 text of an instant with whole seconds and a `Z` suffix.
pub uninterp spec fn spec_rfc3339_secs(t: UtcDateTime) -> Seq<char>;

/// `DateTime::<Utc>::to_rfc3339_opts(SecondsFormat::Secs, true)`.
#[verifier::external_body]
pub fn rfc3339_secs(t: UtcDateTime) -> (s: String)
    requires
        spec_chrono_valid(t.secs, t.nanos),
    ensures
        s@ == spec_rfc3339_secs(t),
{
    DateTime::from_timestamp(t.secs, t.nanos).unwrap().to_rfc3339_opts(SecondsFormat::Secs, true)
}

/// Text of a naive (zone-less) date-time as `chrono` renders it with one of
/// the patterns of [`is_local_pattern`] (none of which prints an offset or a
/// timestamp): `pattern` applied to the date and time `local_secs` seconds
/// (and `nanos` nanoseconds, above a billion in a leap second) after
/// 1970-01-01 00:00:00.
pub uninterp spec fn spec_naive_format(pattern: Seq<char>, local_secs: int, nanos: u32) -> Seq<char>;

/// The patterns instants are shown with: weekday, date and time; weekday
/// and date; time of day. Each is a valid strftime pattern.
pub open spec fn is_local_pattern(pattern: Seq<char>) -> bool {
    pattern == "%a, %d %b %Y %H:%M:%S"@ || pattern == "%a, %d %b %Y"@ || pattern == "%H:%M:%S"@
}

/// An offset from UTC that chrono can hold: strictly within a day.
pub open spec fn utc_offset(offset: int) -> bool {
    -86400 < offset < 86400
}

/// `text` is `pattern` rendered on the local date-time of `t`, for some
/// offset from UTC that chrono can hold.
pub open spec fn local_rendering(text: Seq<char>, pattern: Seq<char>, t: UtcDateTime) -> bool {
    exists|offset: int| utc_offset(offset) && text == #[trigger] spec_naive_format(pattern, t.secs + offset, t.nanos)
}

/// `DateTime::with_timezone(&Local)` and its `format(pattern)`: the text of
/// the instant shifted by the machine's offset from UTC, and that offset in
/// seconds (`FixedOffset::local_minus_utc`, which chrono keeps strictly
/// within a day). Which offset the machine's time zone gives is left unsaid.
#[verifier::external_body]
fn format_local(t: UtcDateTime, pattern: &str) -> (r: (String, i32))
    requires
        spec_chrono_valid(t.secs, t.nanos),
        is_local_pattern(pattern@),
    ensures
        utc_offset(r.1 as int),
        r.0@ == spec_naive_format(pattern@, t.secs + r.1, t.nanos),
{
    let local = DateTime::from_timestamp(t.secs, t.nanos).unwrap().with_timezone(&Local);
    (local.format(pattern).to_string(), local.offset().local_minus_utc())
}

/// Local-time renderings of an instant.
pub trait FormatDateTime {
    spec fn formattable(&self) -> bool;

    /// Weekday, date and time, as in `Mon, 01 Jan 2024 10:00:00`.
    fn format_date_time(&self) -> String
        requires
            self.formattable(),
    ;

    /// Weekday and date, as in `Mon, 01 Jan 2024`.
    fn format_date(&self) -> String
        requires
            self.formattable(),
    ;

    /// Time of day, as in `10:00:00`.
    fn format_time(&self) -> String
        requires
            self.formattable(),
    ;
}

impl FormatDateTime for UtcDateTime {
    open spec fn formattable(&self) -> bool {
        spec_chrono_valid(self.secs, self.nanos)
    }

    fn format_date_time(&self) -> (s: String)
        ensures
            local_rendering(s@, "%a, %d %b %Y %H:%M:%S"@, *self),
    {
        let (s, offset) = format_local(*self, "%a, %d %b %Y %H:%M:%S");
        assert(utc_offset(offset as int) && s@ == spec_naive_format("%a, %d %b %Y %H:%M:%S"@, self.secs + offset, self.nanos));
        s
    }

    fn format_date(&self) -> (s: String)
        ensures
            local_rendering(s@, "%a, %d %b %Y"@, *self),
    {
        let (s, offset) = format_local(*self, "%a, %d %b %Y");
        assert(utc_offset(offset as int) && s@ == spec_naive_format("%a, %d %b %Y"@, self.secs + offset, self.nanos));
        s
    }

    fn format_time(&self) -> (s: String)
        ensures
            local_rendering(s@, "%H:%M:%S"@, *self),
    {
        let (s, offset) = format_local(*self, "%H:%M:%S");
        assert(utc_offset(offset as int) && s@ == spec_naive_format("%H:%M:%S"@, self.secs + offset, self.nanos));
        s
    }
}


/// Precise English text of a span of `ms` milliseconds, as `chrono_humanize`
/// writes it.
pub uninterp spec fn spec_humanize_ms(ms: u64) -> Seq<char>;

/// `HumanTime::from(TimeDelta::from_std(Duration::from_millis(ms))).to_text_en(Accuracy::Precise, Tense::Present)`.
#[verifier::external_body]
pub fn humanize_ms(ms: u64) -> (s: String)
    requires
        ms <= i64::MAX,
    ensures
        s@ == spec_humanize_ms(ms),
{
    HumanTime::from(TimeDelta::from_std(std::time::Duration::from_millis(ms)).unwrap()).to_text_en(
        Accuracy::Precise,
        Tense::Present,
    )
}


/// Whole seconds from `then` to `now` as chrono counts them.
pub uninterp spec fn spec_seconds_between(now: UtcDateTime, then: UtcDateTime) -> i64;

/// `a / b` rounded toward zero, as Rust's integer division does.
pub open spec fn trunc_div(a: int, b: int) -> int {
    if a >= 0 {
        a / b
    } else {
        -((-a) / b)
    }
}

/// `DateTime::from_timestamp(secs, nanos).is_some()`: whether chrono can
/// represent the instant.
#[verifier::external_body]
pub fn is_representable(t: UtcDateTime) -> (r: bool)
    ensures
        r == spec_chrono_valid(t.secs, t.nanos),
{
    DateTime::from_timestamp(t.secs, t.nanos).is_some()
}

/// `(now - then).num_seconds()`: the span between two instants in whole
/// seconds, rounded toward zero. Outside leap seconds (nanoseconds below one
/// billion) this is the exact difference divided by a billion nanoseconds.
#[verifier::external_body]
pub(crate) fn seconds_between(now: UtcDateTime, then: UtcDateTime) -> (r: i64)
    requires
        spec_chrono_valid(now.secs, now.nanos),
        spec_chrono_valid(then.secs, then.nanos),
    ensures
        r == spec_seconds_between(now, then),
        now.nanos < 1_000_000_000 && then.nanos < 1_000_000_000 ==> r == trunc_div(
            (now.secs - then.secs) * 1_000_000_000 + now.nanos - then.nanos,
            1_000_000_000,
        ),
{
    let now = DateTime::from_timestamp(now.secs, now.nanos).unwrap();
    let then = DateTime::from_timestamp(then.secs, then.nanos).unwrap();
    (now - then).num_seconds()
}


/// Precise English text of the span from `start` to `end`, as
/// `chrono_humanize` writes it.
pub uninterp spec fn spec_humanize_span(start: UtcDateTime, end: UtcDateTime) -> Seq<char>;

/// `HumanTime::from(end - start).to_text_en(Accuracy::Precise, Tense::Present)`.
#[verifier::external_body]
pub(crate) fn humanize_span(start: UtcDateTime, end: UtcDateTime) -> (s: String)
    requires
        spec_chrono_valid(start.secs, start.nanos),
        spec_chrono_valid(end.secs, end.nanos),
    ensures
        s@ == spec_humanize_span(start, end),
{
    let start = DateTime::from_timestamp(start.secs, start.nanos).unwrap();
    let end = DateTime::from_timestamp(end.secs, end.nanos).unwrap();
    HumanTime::from(end - start).to_text_en(Accuracy::Precise, Tense::Present)
}

} // verus!
