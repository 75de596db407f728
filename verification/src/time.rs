//! Points in time as plain numbers, and their textual forms.
//!
//! The calendar is left to `chrono`: a [`Timestamp`] holds what identifies
//! an instant and the offset it is shown in, and the conversions to and from
//! text go through `chrono`.

use std::fmt::Write;
use vstd::prelude::*;

verus! {

/// An instant, with the offset from UTC in which it is presented.
#[derive(Debug, Clone, Copy, PartialEq, Eq, Hash, Structural)]
pub struct Timestamp {
    /// Seconds since 1970-01-01T00:00:00Z, leap seconds not counted.
    pub secs: i64,
    /// Nanoseconds since the last full second.
    pub nanos: u32,
    /// Seconds to add to UTC for the local time.
    pub offset: i32,
}

/// What `chrono` reads out of an RFC 3339 text: seconds, nanoseconds and
/// offset, if the text is a date and time in that syntax.
pub uninterp spec fn rfc3339_parsed(s: Seq<char>) -> Option<(i64, u32, i32)>;

/// What `chrono` reads out of a text under a `strftime` pattern.
pub uninterp spec fn strftime_parsed(s: Seq<char>, fmt: Seq<char>) -> Option<(i64, u32, i32)>;

/// The RFC 3339 text that `chrono` writes for an instant and offset, if it
/// can represent them.
pub uninterp spec fn rfc3339_text(secs: i64, nanos: u32, offset: i32) -> Option<Seq<char>>;

/// The text that `chrono` writes for an instant and offset under a
/// `strftime` pattern, if it can represent them and knows the pattern.
pub uninterp spec fn strftime_text(secs: i64, nanos: u32, offset: i32, fmt: Seq<char>) -> Option<
    Seq<char>,
>;

/// The view of an optional string.
pub open spec fn opt_text(s: Option<String>) -> Option<Seq<char>> {
    match s {
        Some(t) => Some(t@),
        None => None,
    }
}

/// The timestamp made of three numbers.
pub open spec fn stamp_of(parts: Option<(i64, u32, i32)>) -> Option<Timestamp> {
    match parts {
        Some((secs, nanos, offset)) => Some(Timestamp { secs, nanos, offset }),
        None => None,
    }
}

/// `chrono::DateTime::parse_from_rfc3339`, the result taken apart with
/// `timestamp`, `timestamp_subsec_nanos` and `offset().local_minus_utc()`.
/// The outcome depends on the text alone.
#[verifier::external_body]
fn chrono_parse_rfc3339(s: &str) -> (r: Option<Timestamp>)
    ensures
        r == stamp_of(rfc3339_parsed(s@)),
{
    let t = chrono::DateTime::parse_from_rfc3339(s).ok()?;
    Some(
        Timestamp {
            secs: t.timestamp(),
            nanos: t.timestamp_subsec_nanos(),
            offset: t.offset().local_minus_utc(),
        },
    )
}

/// `chrono::DateTime::parse_from_str`, the result taken apart in the same
/// way.  The outcome depends on the text and the pattern alone.
#[verifier::external_body]
fn chrono_parse_from_str(s: &str, fmt: &str) -> (r: Option<Timestamp>)
    ensures
        r == stamp_of(strftime_parsed(s@, fmt@)),
{
    let t = chrono::DateTime::parse_from_str(s, fmt).ok()?;
    Some(
        Timestamp {
            secs: t.timestamp(),
            nanos: t.timestamp_subsec_nanos(),
            offset: t.offset().local_minus_utc(),
        },
    )
}

/// `chrono::DateTime::to_rfc3339` on the date and time that
/// `DateTime::from_timestamp` and `FixedOffset::east_opt` make of the three
/// numbers; `None` where either refuses them.
#[verifier::external_body]
fn chrono_to_rfc3339(t: &Timestamp) -> (r: Option<String>)
    ensures
        opt_text(r) == rfc3339_text(t.secs, t.nanos, t.offset),
{
    let utc = chrono::DateTime::from_timestamp(t.secs, t.nanos)?;
    let tz = chrono::FixedOffset::east_opt(t.offset)?;
    Some(utc.with_timezone(&tz).to_rfc3339())
}

/// `chrono::DateTime::format` on the same date and time, written out;
/// `None` where the numbers are refused or the pattern cannot be written.
#[verifier::external_body]
fn chrono_format(t: &Timestamp, fmt: &str) -> (r: Option<String>)
    ensures
        opt_text(r) == strftime_text(t.secs, t.nanos, t.offset, fmt@),
{
    let utc = chrono::DateTime::from_timestamp(t.secs, t.nanos)?;
    let tz = chrono::FixedOffset::east_opt(t.offset)?;
    let mut out = String::new();
    write!(&mut out, "{}", utc.with_timezone(&tz).format(fmt)).ok()?;
    Some(out)
}

impl Timestamp {
    /// Whether this instant is later than `other`, whatever their offsets.
    pub open spec fn later_than(self, other: Timestamp) -> bool {
        self.secs > other.secs || (self.secs == other.secs && self.nanos > other.nanos)
    }

    /// Whether both are the same instant, whatever their offsets.
    pub open spec fn same_instant(self, other: Timestamp) -> bool {
        self.secs == other.secs && self.nanos == other.nanos
    }

    /// This instant without its fraction of a second.
    pub open spec fn whole_seconds(self) -> Timestamp {
        Timestamp { secs: self.secs, nanos: 0, offset: self.offset }
    }

    /// The instant `n` seconds after this one, if its count of seconds can
    /// be held.
    pub open spec fn plus_seconds(self, n: int) -> Option<Timestamp> {
        if i64::MIN <= self.secs + n <= i64::MAX {
            Some(Timestamp { secs: (self.secs + n) as i64, nanos: self.nanos, offset: self.offset })
        } else {
            None
        }
    }

    pub fn new(secs: i64, nanos: u32, offset: i32) -> (t: Timestamp)
        ensures
            t == (Timestamp { secs, nanos, offset }),
    {
        Timestamp { secs, nanos, offset }
    }

    /// Whether this instant is later than `other`.
    pub fn is_after(&self, other: &Timestamp) -> (r: bool)
        ensures
            r == self.later_than(*other),
    {
        self.secs > other.secs || (self.secs == other.secs && self.nanos > other.nanos)
    }

    /// Whether this instant is earlier than `other`.
    pub fn is_before(&self, other: &Timestamp) -> (r: bool)
        ensures
            r == other.later_than(*self),
    {
        other.is_after(self)
    }

    /// Drops the fraction of a second.
    pub fn without_subsecs(&self) -> (t: Timestamp)
        ensures
            t == self.whole_seconds(),
    {
        Timestamp { secs: self.secs, nanos: 0, offset: self.offset }
    }

    /// Moves forward by `n` seconds.
    pub fn add_seconds(&self, n: u64) -> (r: Option<Timestamp>)
        ensures
            r == self.plus_seconds(n as int),
    {
        let sum: i128 = self.secs as i128 + n as i128;
        if sum <= i64::MAX as i128 {
            Some(Timestamp { secs: sum as i64, nanos: self.nanos, offset: self.offset })
        } else {
            None
        }
    }

    /// Reads an RFC 3339 date and time.
    pub fn parse_rfc3339(s: &str) -> (r: Option<Timestamp>)
        ensures
            r == stamp_of(rfc3339_parsed(s@)),
    {
        chrono_parse_rfc3339(s)
    }

    /// Reads a date and time written under a `strftime` pattern that
    /// includes the offset.
    pub fn parse_with(s: &str, fmt: &str) -> (r: Option<Timestamp>)
        ensures
            r == stamp_of(strftime_parsed(s@, fmt@)),
    {
        chrono_parse_from_str(s, fmt)
    }

    /// Writes this instant as an RFC 3339 date and time in its offset.
    pub fn to_rfc3339(&self) -> (r: Option<String>)
        ensures
            opt_text(r) == rfc3339_text(self.secs, self.nanos, self.offset),
    {
        chrono_to_rfc3339(self)
    }

    /// Writes this instant under a `strftime` pattern, in its offset.
    pub fn format(&self, fmt: &str) -> (r: Option<String>)
        ensures
            opt_text(r) == strftime_text(self.secs, self.nanos, self.offset, fmt@),
    {
        chrono_format(self, fmt)
    }
}

} // verus!
