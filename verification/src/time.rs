//! Instants in UTC, as plain values.
use std::fmt::Write;
use vstd::prelude::*;

verus! {

/// An instant in UTC: whole seconds since the Unix epoch and the nanoseconds
/// past them (at or above 1e9 only within a leap second).
#[derive(Clone, Copy, Debug, PartialEq, Eq, Structural)]
pub struct UtcTime {
    pub secs: i64,
    pub nanos: u32,
}

/// `a` is at or after `b`: instants are ordered by their seconds, then by
/// their nanoseconds.
pub open spec fn at_or_after(a: UtcTime, b: UtcTime) -> bool {
    a.secs > b.secs || (a.secs == b.secs && a.nanos >= b.nanos)
}

impl UtcTime {
    /// Whether `self` is at or after `other`.
    pub fn is_at_or_after(&self, other: &UtcTime) -> (r: bool)
        ensures
            r == at_or_after(*self, *other),
    {
        self.secs > other.secs || (self.secs == other.secs && self.nanos >= other.nanos)
    }
}

/// What chrono writes for the UTC instant `t` in the format `fmt`: `None`
/// when chrono cannot represent the instant or the format is not valid.
pub uninterp spec fn utc_format(t: UtcTime, fmt: Seq<char>) -> Option<Seq<char>>;

/// `chrono::DateTime::<Utc>::from_timestamp` then `format`, written into a
/// `String`. The contract names the result; chrono's format language is not
/// restated.
#[verifier::external_body]
pub(crate) fn format_utc(t: UtcTime, fmt: &str) -> (r: Option<String>)
    ensures
        match r {
            Some(s) => utc_format(t, fmt@) == Some(s@),
            None => utc_format(t, fmt@) is None,
        },
{
    let time = chrono::DateTime::<chrono::Utc>::from_timestamp(t.secs, t.nanos)?;
    let mut out = String::new();
    write!(out, "{}", time.format(fmt)).ok()?;
    Some(out)
}

} // verus!
