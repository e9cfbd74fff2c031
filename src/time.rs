use chrono::NaiveDateTime;
use vstd::prelude::*;

use crate::types::{ShiftEndTime, ShiftStartTime, TimeParseError};

verus! {

/// Seconds since 1970-01-01 00:00 of the naive date and time that `text`
/// spells under the strftime-style `format`; `None` where it spells none.
pub uninterp spec fn naive_timestamp(text: Seq<char>, format: Seq<char>) -> Option<i64>;

/// Relies on chrono's `NaiveDateTime::parse_from_str`, read as UTC by
/// `and_utc` and counted in seconds by `DateTime::timestamp`: the outcome
/// depends on the two strings alone.
#[verifier::external_body]
fn parse_naive_timestamp(text: &str, format: &str) -> (r: Option<i64>)
    ensures
        r == naive_timestamp(text@, format@),
{
    match NaiveDateTime::parse_from_str(text, format) {
        Ok(t) => Some(t.and_utc().timestamp()),
        Err(_) => None,
    }
}

/// The accepted text form of a time: `YYYY-MM-DD HH:MM`.
pub open spec fn time_format() -> Seq<char> {
    "%Y-%m-%d %H:%M"@
}

/// Seconds since 1970-01-01 00:00 of a time written `YYYY-MM-DD HH:MM`.
pub fn parse_time(text: &str) -> (r: Result<i64, TimeParseError>)
    ensures
        match naive_timestamp(text@, time_format()) {
            Some(t) => r == Ok::<i64, TimeParseError>(t),
            None => r == Err::<i64, TimeParseError>(TimeParseError),
        },
{
    match parse_naive_timestamp(text, "%Y-%m-%d %H:%M") {
        Some(t) => Ok(t),
        None => Err(TimeParseError),
    }
}

impl<'a> TryFrom<&'a str> for ShiftStartTime {
    type Error = TimeParseError;

    fn try_from(text: &'a str) -> (r: Result<ShiftStartTime, TimeParseError>) {
        match parse_time(text) {
            Ok(t) => Ok(ShiftStartTime(t)),
            Err(e) => Err(e),
        }
    }
}

impl<'a> vstd::std_specs::convert::TryFromSpecImpl<&'a str> for ShiftStartTime {
    open spec fn obeys_try_from_spec() -> bool {
        true
    }

    open spec fn try_from_spec(text: &'a str) -> Result<ShiftStartTime, TimeParseError> {
        match naive_timestamp(text@, time_format()) {
            Some(t) => Ok(ShiftStartTime(t)),
            None => Err(TimeParseError),
        }
    }
}

impl<'a> TryFrom<&'a str> for ShiftEndTime {
    type Error = TimeParseError;

    fn try_from(text: &'a str) -> (r: Result<ShiftEndTime, TimeParseError>) {
        match parse_time(text) {
            Ok(t) => Ok(ShiftEndTime(t)),
            Err(e) => Err(e),
        }
    }
}

impl<'a> vstd::std_specs::convert::TryFromSpecImpl<&'a str> for ShiftEndTime {
    open spec fn obeys_try_from_spec() -> bool {
        true
    }

    open spec fn try_from_spec(text: &'a str) -> Result<ShiftEndTime, TimeParseError> {
        match naive_timestamp(text@, time_format()) {
            Some(t) => Ok(ShiftEndTime(t)),
            None => Err(TimeParseError),
        }
    }
}

} // verus!
