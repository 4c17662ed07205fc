//! Reading the start time of a broadcast, as Unix seconds.
use vstd::prelude::*;
use vstd::string::StringExecFns;
use crate::text::{all_digits, chars_of, contains, contains_text, digits_value, parse_digits};

verus! {

/// Why a timestamp could not be read.
#[derive(Debug, Clone, Copy, PartialEq, Eq, Structural)]
pub enum TimestampError {
    /// Only digits, but no number that fits in an `i64` (or none at all).
    InvalidNumber,
    /// Not a date and time in any of the accepted layouts.
    InvalidDate,
}

/// Seconds since the Unix epoch of `input` read, as UTC, in the layout
/// that the `time` format description `description` gives.
pub uninterp spec fn described_seconds_of(input: Seq<char>, description: Seq<char>) -> Option<i64>;

/// Seconds since the Unix epoch of `input` read as an RFC 3339 date and time,
/// its offset taken into account.
pub uninterp spec fn rfc3339_seconds_of(input: Seq<char>) -> Option<i64>;

/// Relies on `time::format_description::parse` to read the format description
/// and `time::PrimitiveDateTime::parse` to read the input by it; the result
/// is taken as UTC (`assume_utc`) and given in Unix seconds.
#[verifier::external_body]
fn parse_described(input: &str, description: &str) -> (r: Option<i64>)
    ensures
        r == described_seconds_of(input@, description@),
{
    let items = time::format_description::parse(description).ok()?;
    time::PrimitiveDateTime::parse(input, &items).ok().map(|d| d.assume_utc().unix_timestamp())
}

/// Relies on `time::OffsetDateTime::parse` with the `Rfc3339` description
/// and `OffsetDateTime::unix_timestamp`, which counts from UTC.
#[verifier::external_body]
fn parse_rfc3339(input: &str) -> (r: Option<i64>)
    ensures
        r == rfc3339_seconds_of(input@),
{
    time::OffsetDateTime::parse(input, &time::format_description::well_known::Rfc3339).ok().map(
        |d| d.unix_timestamp(),
    )
}

/// `YYYY-MM-DD HH:MM:SS UTC`
pub open spec fn with_utc_layout() -> Seq<char> {
    "[year]-[month]-[day] [hour]:[minute]:[second] UTC"@
}

/// `YYYY-MM-DD HH:MM:SS`
pub open spec fn without_utc_layout() -> Seq<char> {
    "[year]-[month]-[day] [hour]:[minute]:[second]"@
}

/// `DD-MM-YYYY HH:MM`
pub open spec fn day_first_layout() -> Seq<char> {
    "[day]-[month]-[year] [hour]:[minute]"@
}

pub open spec fn date_result(seconds: Option<i64>) -> Result<i64, TimestampError> {
    match seconds {
        Some(v) => Ok(v),
        None => Err(TimestampError::InvalidDate),
    }
}

/// What a timestamp reads as. A text of digits only is Unix seconds. One that
/// holds `UTC` is read in the layout with that tag. Anything else is tried as
/// RFC 3339 (offset included), then in the layout without the tag, then day
/// first without seconds.
pub open spec fn timestamp_value(s: Seq<char>) -> Result<i64, TimestampError> {
    if all_digits(s) {
        if s.len() > 0 && digits_value(s) <= i64::MAX {
            Ok(digits_value(s) as i64)
        } else {
            Err(TimestampError::InvalidNumber)
        }
    } else if contains(s, "UTC"@) {
        date_result(described_seconds_of(s, with_utc_layout()))
    } else if rfc3339_seconds_of(s) is Some {
        Ok(rfc3339_seconds_of(s)->0)
    } else if described_seconds_of(s, without_utc_layout()) is Some {
        Ok(described_seconds_of(s, without_utc_layout())->0)
    } else {
        date_result(described_seconds_of(s, day_first_layout()))
    }
}

/// Whether every character of `s` is an ASCII digit.
fn only_digits(s: &Vec<char>) -> (r: bool)
    ensures
        r == all_digits(s@),
{
    let mut i: usize = 0;
    while i < s.len()
        invariant
            0 <= i <= s@.len(),
            forall|j: int| 0 <= j < i ==> crate::text::is_ascii_digit(#[trigger] s@[j]),
        decreases s@.len() - i,
    {
        let c = s[i];
        if !('0' <= c && c <= '9') {
            return false;
        }
        i = i + 1;
    }
    true
}

/// Reads a timestamp: Unix seconds in decimal, `YYYY-MM-DD HH:MM:SS UTC`,
/// RFC 3339 (at its offset), `YYYY-MM-DD HH:MM:SS` or `DD-MM-YYYY HH:MM`;
/// the layouts without an offset are read as UTC.
pub fn parse_timestamp(timestamp: &str) -> (r: Result<i64, TimestampError>)
    ensures
        r == timestamp_value(timestamp@),
{
    let chars = chars_of(timestamp);
    if only_digits(&chars) {
        return match parse_digits(&chars, i64::MAX as u64) {
            Some(v) => Ok(v as i64),
            None => Err(TimestampError::InvalidNumber),
        };
    }
    if contains_text(timestamp, "UTC") {
        return match parse_described(timestamp, "[year]-[month]-[day] [hour]:[minute]:[second] UTC") {
            Some(v) => Ok(v),
            None => Err(TimestampError::InvalidDate),
        };
    }
    if let Some(v) = parse_rfc3339(timestamp) {
        return Ok(v);
    }
    if let Some(v) = parse_described(timestamp, "[year]-[month]-[day] [hour]:[minute]:[second]") {
        return Ok(v);
    }
    match parse_described(timestamp, "[day]-[month]-[year] [hour]:[minute]") {
        Some(v) => Ok(v),
        None => Err(TimestampError::InvalidDate),
    }
}

impl TimestampError {
    /// What went wrong, in words.
    pub fn message(&self) -> (r: String)
        ensures
            r@ == (match self {
                TimestampError::InvalidNumber => "couldn't parse the unix timestamp"@,
                TimestampError::InvalidDate => "couldn't parse the string timestamp"@,
            }),
    {
        match self {
            TimestampError::InvalidNumber => String::from_str("couldn't parse the unix timestamp"),
            TimestampError::InvalidDate => String::from_str("couldn't parse the string timestamp"),
        }
    }
}

} // verus!
