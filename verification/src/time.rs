//! Capture timestamps: a UTC instant held as whole seconds since the Unix
//! epoch and the nanoseconds past that second, as chrono counts them.
use chrono::{DateTime, Utc};
use crate::text::digit_char;
use vstd::prelude::*;

verus! {

/// Whether `DateTime::<Utc>::from_timestamp(secs, nanos)` gives an instant:
/// its day lies in chrono's date range (January 1 of the year -262143 to
/// December 31 of 262142, days -96465292 to 95026236 from the epoch), the
/// nanoseconds are below two seconds, and a second or more of them (a leap
/// second) only in the last second of a minute.
pub open spec fn utc_instant_exists(secs: i64, nanos: u32) -> bool {
    &&& -96_465_292 <= secs / 86_400 <= 95_026_236
    &&& nanos < 2_000_000_000
    &&& nanos >= 1_000_000_000 ==> secs % 60 == 59
}

/// The text of `DateTime::<Utc>::to_rfc3339` for that instant.
pub uninterp spec fn rfc3339_text(secs: i64, nanos: u32) -> Seq<char>;

/// Two zero-padded decimal digits of `v` (below a hundred).
pub open spec fn two_digits(v: nat) -> Seq<char> {
    seq![digit_char(v / 10), digit_char(v % 10)]
}

/// Three zero-padded decimal digits of `v` (below a thousand).
pub open spec fn three_digits(v: nat) -> Seq<char> {
    seq![digit_char(v / 100), digit_char(v / 10 % 10), digit_char(v % 10)]
}

/// The instant `secs` seconds and `nanos` nanoseconds past the Unix epoch,
/// formatted with chrono's `"%H:%M:%S%.3f"` in UTC: hour, minute and second of
/// its day (second 60 during a leap second, when `nanos` is a second or more),
/// then a point and the milliseconds.
pub open spec fn clock_text(secs: i64, nanos: u32) -> Seq<char> {
    let t = (secs % 86400) as nat;
    two_digits(t / 3600) + ":"@ + two_digits(t % 3600 / 60) + ":"@ + two_digits(
        t % 60 + (nanos / 1_000_000_000) as nat,
    ) + "."@ + three_digits((nanos / 1_000_000 % 1000) as nat)
}

/// Calls `chrono::DateTime::<Utc>::from_timestamp` and tells whether it gave
/// an instant; claims that it did exactly when `utc_instant_exists` holds: the
/// day `secs.div_euclid(86400)` within the date range, and `nanos` accepted
/// for the second `secs.rem_euclid(86400)` of that day.
#[verifier::external_body]
fn instant_exists(secs: i64, nanos: u32) -> (b: bool)
    ensures
        b == utc_instant_exists(secs, nanos),
{
    DateTime::<Utc>::from_timestamp(secs, nanos).is_some()
}

/// Calls `chrono::DateTime::<Utc>::to_rfc3339` on the instant built by
/// `DateTime::<Utc>::from_timestamp`; claims that the text is the one named by
/// `rfc3339_text`.
#[verifier::external_body]
fn rfc3339(secs: i64, nanos: u32) -> (s: String)
    requires
        utc_instant_exists(secs, nanos),
    ensures
        s@ == rfc3339_text(secs, nanos),
{
    DateTime::<Utc>::from_timestamp(secs, nanos).unwrap().to_rfc3339()
}

/// Calls `chrono::DateTime::<Utc>::format("%H:%M:%S%.3f")` on the instant
/// built by `DateTime::<Utc>::from_timestamp` and renders it; claims that the
/// text is `clock_text`: the zero-padded hour, minute and second of the day
/// (`secs.rem_euclid(86400)`, the second counting the leap second), a point
/// and the zero-padded milliseconds of `nanos`.
#[verifier::external_body]
fn clock(secs: i64, nanos: u32) -> (s: String)
    requires
        utc_instant_exists(secs, nanos),
    ensures
        s@ == clock_text(secs, nanos),
{
    DateTime::<Utc>::from_timestamp(secs, nanos).unwrap().format("%H:%M:%S%.3f").to_string()
}

/// A UTC instant that chrono can represent.
#[derive(Clone, Copy, Debug)]
pub struct Timestamp {
    secs: i64,
    nanos: u32,
}

impl Timestamp {
    #[verifier::type_invariant]
    closed spec fn representable(self) -> bool {
        utc_instant_exists(self.secs, self.nanos)
    }

    /// Whole seconds since the Unix epoch.
    pub closed spec fn seconds(self) -> i64 {
        self.secs
    }

    /// Nanoseconds past `seconds` (above 999,999,999 only within a leap second).
    pub closed spec fn subsec(self) -> u32 {
        self.nanos
    }

    /// The instant at `secs` seconds and `nanos` nanoseconds past the epoch,
    /// when chrono can represent it.
    pub fn from_parts(secs: i64, nanos: u32) -> (t: Option<Timestamp>)
        ensures
            t is Some <==> utc_instant_exists(secs, nanos),
            t matches Some(t) ==> t.seconds() == secs && t.subsec() == nanos,
    {
        if instant_exists(secs, nanos) {
            Some(Timestamp { secs, nanos })
        } else {
            None
        }
    }

    pub fn secs(&self) -> (r: i64)
        ensures
            r == self.seconds(),
    {
        self.secs
    }

    pub fn nanos(&self) -> (r: u32)
        ensures
            r == self.subsec(),
    {
        self.nanos
    }

    /// Whether `self` is strictly later than `other`.
    pub fn is_after(&self, other: &Timestamp) -> (b: bool)
        ensures
            b == later_than(*self, *other),
    {
        self.secs > other.secs || (self.secs == other.secs && self.nanos > other.nanos)
    }

    /// Whether both stand for the same instant.
    pub fn same_instant(&self, other: &Timestamp) -> (b: bool)
        ensures
            b == (*self == *other),
    {
        proof {
            lemma_instant_eq(*self, *other);
        }
        self.secs == other.secs && self.nanos == other.nanos
    }

    /// The RFC 3339 text of the instant, as chrono writes it.
    pub fn to_rfc3339(&self) -> (s: String)
        ensures
            s@ == rfc3339_text(self.seconds(), self.subsec()),
    {
        proof {
            use_type_invariant(self);
        }
        rfc3339(self.secs, self.nanos)
    }

    /// The time of day with milliseconds (`HH:MM:SS.mmm`), as chrono writes it.
    pub fn clock_millis(&self) -> (s: String)
        ensures
            s@ == clock_text(self.seconds(), self.subsec()),
    {
        proof {
            use_type_invariant(self);
        }
        clock(self.secs, self.nanos)
    }
}

/// `a` is strictly later than `b`.
pub open spec fn later_than(a: Timestamp, b: Timestamp) -> bool {
    a.seconds() > b.seconds() || (a.seconds() == b.seconds() && a.subsec() > b.subsec())
}

/// Two timestamps are equal exactly when their seconds and nanoseconds are.
pub proof fn lemma_instant_eq(a: Timestamp, b: Timestamp)
    ensures
        (a == b) <==> (a.seconds() == b.seconds() && a.subsec() == b.subsec()),
{
}

/// Of two different instants one is later than the other.
pub proof fn lemma_instant_total(a: Timestamp, b: Timestamp)
    ensures
        a == b || later_than(a, b) || later_than(b, a),
        !(later_than(a, b) && later_than(b, a)),
        later_than(a, b) ==> a != b,
{
    lemma_instant_eq(a, b);
}

} // verus!
