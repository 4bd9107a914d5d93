//! What the library reads from the operating system's process listing.
use crate::text::{chars_of, string_from_chars, trim, trimmed};
use crate::time::UtcTime;
use vstd::prelude::*;

verus! {

/// The format in which `ps -o lstart=` prints a process's start time, as
/// chrono reads it.
pub const PS_LSTART_FORMAT: &'static str = "%a %b %e %T %Y";

/// Why a process's start time could not be read.
#[derive(Clone, Copy, Debug, PartialEq, Eq, Structural)]
pub enum ProcessQueryError {
    NotFound,
    InvalidData,
}

/// What `chrono::NaiveDateTime::parse_from_str` makes of `text` read with
/// `fmt`, taken as a UTC instant: `None` when the text does not match.
pub uninterp spec fn naive_utc_parse(text: Seq<char>, fmt: Seq<char>) -> Option<UtcTime>;

/// `chrono::NaiveDateTime::parse_from_str`, the result taken as UTC
/// (`and_utc`) and read as seconds and nanoseconds since the epoch. The
/// contract names the result; chrono's format language is not restated.
#[verifier::external_body]
fn parse_naive_utc(text: &str, fmt: &str) -> (r: Option<UtcTime>)
    ensures
        r == naive_utc_parse(text@, fmt@),
{
    chrono::NaiveDateTime::parse_from_str(text, fmt).ok().map(|t| {
        let u = t.and_utc();
        UtcTime { secs: u.timestamp(), nanos: u.timestamp_subsec_nanos() }
    })
}

/// A process's start time from what `ps -p <pid> -o lstart=` printed: no
/// such process when `ps` failed or printed nothing but whitespace;
/// otherwise the trimmed text read in `PS_LSTART_FORMAT` as a UTC time, or
/// invalid data when it does not match.
pub fn started_at_from_ps(exited_ok: bool, stdout: &str) -> (r: Result<UtcTime, ProcessQueryError>)
    ensures
        (!exited_ok || trim(stdout@).len() == 0) ==> r == Err::<UtcTime, ProcessQueryError>(
            ProcessQueryError::NotFound,
        ),
        exited_ok && trim(stdout@).len() > 0 ==> r == match naive_utc_parse(
            trim(stdout@),
            PS_LSTART_FORMAT@,
        ) {
            Some(t) => Ok::<UtcTime, ProcessQueryError>(t),
            None => Err(ProcessQueryError::InvalidData),
        },
{
    if !exited_ok {
        return Err(ProcessQueryError::NotFound);
    }
    let raw = trimmed(chars_of(stdout).as_slice());
    if raw.len() == 0 {
        return Err(ProcessQueryError::NotFound);
    }
    let text = string_from_chars(raw.as_slice());
    match parse_naive_utc(text.as_str(), PS_LSTART_FORMAT) {
        Some(t) => Ok(t),
        None => Err(ProcessQueryError::InvalidData),
    }
}

} // verus!
