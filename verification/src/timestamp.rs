//! Points in time, as the semantic layer reports them.

use vstd::prelude::*;

verus! {

/// A date and a time of day without a time zone: whole seconds since
/// 1970-01-01T00:00:00, and the nanoseconds since the last whole second.
/// During a leap second the nanoseconds go on counting beyond a billion.
#[derive(Debug, Clone, Copy, PartialEq, Eq, Structural)]
pub struct Timestamp {
    pub secs: i64,
    pub nanos: u32,
}

/// The date and time that `chrono` reads from a text under a format, where it
/// reads one.
pub uninterp spec fn datetime_of_text(text: Seq<char>, format: Seq<char>) -> Option<Timestamp>;

/// `chrono::NaiveDateTime::parse_from_str`, with the result handed back as
/// the seconds (`and_utc().timestamp()`) and nanoseconds
/// (`and_utc().timestamp_subsec_nanos()`) that `chrono` gives for it: the
/// result depends on the text and the format alone.
#[verifier::external_body]
fn parse_datetime(text: &str, format: &str) -> (r: Option<Timestamp>)
    ensures
        r == datetime_of_text(text@, format@),
{
    match chrono::NaiveDateTime::parse_from_str(text, format) {
        Ok(t) => Some(
            Timestamp { secs: t.and_utc().timestamp(), nanos: t.and_utc().timestamp_subsec_nanos() },
        ),
        Err(_) => None,
    }
}

impl Timestamp {
    /// Whether `self` is earlier than `other`.
    pub open spec fn before(self, other: Timestamp) -> bool {
        self.secs < other.secs || (self.secs == other.secs && self.nanos < other.nanos)
    }

    /// The timestamp that a text holds. Two forms are read: seconds with an
    /// optional fraction (`2024-01-31T10:00:00.000000`), and the same with
    /// milliseconds, or no fraction, before a closing `Z`
    /// (`2024-01-31T10:00:00.000Z`).
    pub open spec fn of_text(text: Seq<char>) -> Option<Timestamp> {
        match datetime_of_text(text, "%Y-%m-%dT%H:%M:%S%.f"@) {
            Some(t) => Some(t),
            None => datetime_of_text(text, "%Y-%m-%dT%H:%M:%S%.3fZ"@),
        }
    }

    /// The place of the timestamp among all timestamps, as one number: the
    /// earlier the timestamp, the lower the number.
    pub open spec fn rank(self) -> int {
        self.secs * 0x1_0000_0000 + self.nanos
    }

    /// The number by which timestamps are kept in order.
    pub fn key(&self) -> (r: i128)
        ensures
            r == self.rank(),
    {
        (self.secs as i128) * 0x1_0000_0000 + (self.nanos as i128)
    }

    /// Timestamps are ordered as their ranks are, and no two share a rank.
    pub proof fn lemma_rank(a: Timestamp, b: Timestamp)
        ensures
            a.before(b) <==> a.rank() < b.rank(),
            a == b <==> a.rank() == b.rank(),
    {
    }

    /// Whether `self` is earlier than `other`.
    pub fn is_before(&self, other: &Timestamp) -> (r: bool)
        ensures
            r == self.before(*other),
    {
        self.secs < other.secs || (self.secs == other.secs && self.nanos < other.nanos)
    }

    /// Reads a timestamp.
    pub fn parse(text: &str) -> (r: Option<Timestamp>)
        ensures
            r == Timestamp::of_text(text@),
    {
        match parse_datetime(text, "%Y-%m-%dT%H:%M:%S%.f") {
            Some(t) => Some(t),
            None => parse_datetime(text, "%Y-%m-%dT%H:%M:%S%.3fZ"),
        }
    }

    /// Of two different timestamps one is earlier than the other, and never
    /// both ways.
    pub proof fn lemma_total_order(a: Timestamp, b: Timestamp, c: Timestamp)
        ensures
            !a.before(a),
            a.before(b) || b.before(a) || a == b,
            !(a.before(b) && b.before(a)),
            a.before(b) && b.before(c) ==> a.before(c),
    {
    }
}

} // verus!
