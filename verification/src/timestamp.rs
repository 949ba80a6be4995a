//! Reading the calendar day of a record's timestamp.
//!
//! A calendar day is carried as its day number in the proleptic Gregorian calendar,
//! where 1 January of year 1 is day 1. Consecutive days have consecutive numbers, so
//! moving a date by some days is an addition.

use vstd::prelude::*;

verus! {

#[verifier::external_type_specification]
#[verifier::external_body]
pub struct ExParseError(chrono::format::ParseError);

/// The day number of the local calendar date that `chrono` reads from `text` as an
/// RFC 3339 date and time, or `None` where it rejects the text.
pub uninterp spec fn rfc3339_day(text: Seq<char>) -> Option<i32>;

/// Calls `chrono::DateTime::parse_from_rfc3339` and takes the day number of the local
/// date of what it read (`date_naive`, then `num_days_from_ce`). Trusted: the outcome
/// depends on the text alone, so it is `rfc3339_day(text@)`; an error is returned
/// exactly where that is `None`.
#[verifier::external_body]
pub(crate) fn parse_day(text: &str) -> (parsed: Result<i32, chrono::format::ParseError>)
    ensures
        match parsed {
            Ok(day) => rfc3339_day(text@) == Some(day),
            Err(_) => rfc3339_day(text@) is None,
        },
{
    match chrono::DateTime::parse_from_rfc3339(text) {
        Ok(moment) => Ok(chrono::Datelike::num_days_from_ce(&moment.date_naive())),
        Err(error) => Err(error),
    }
}

} // verus!
