//! The dates of posts: how a stored date is read, and the minute it falls in.

use vstd::prelude::*;

verus! {

/// The Unix timestamp of the date and time that
/// `chrono::NaiveDateTime::parse_from_str` reads from `text` under `format`,
/// taken as UTC; `None` where it refuses the text.
pub uninterp spec fn parsed_timestamp(text: Seq<char>, format: Seq<char>) -> Option<i64>;

/// Reads a date and time with `chrono::NaiveDateTime::parse_from_str` and
/// gives it as seconds since the Unix epoch, taken as UTC. Nothing is proved
/// of it: the contract only names the result.
#[verifier::external_body]
fn parse_timestamp(text: &str, format: &str) -> (r: Option<i64>)
    ensures
        r == parsed_timestamp(text@, format@),
{
    match chrono::NaiveDateTime::parse_from_str(text, format) {
        Ok(t) => Some(
            chrono::DateTime::<chrono::Utc>::from_naive_utc_and_offset(t, chrono::Utc).timestamp(),
        ),
        Err(_) => None,
    }
}

/// The form in which the archive stores a date, such as
/// `2024-03-01 12:00:05 UTC`.
pub open spec fn date_format() -> Seq<char> {
    "%Y-%m-%d %H:%M:%S UTC"@
}

/// The Unix timestamp of a stored date, or `None` if it is not of the form
/// in which the archive stores dates.
pub open spec fn timestamp_of(date: Seq<char>) -> Option<i64> {
    parsed_timestamp(date, date_format())
}

/// Reads a stored date as seconds since the Unix epoch.
pub fn parse_date(date: &str) -> (r: Option<i64>)
    ensures
        r == timestamp_of(date@),
{
    parse_timestamp(date, "%Y-%m-%d %H:%M:%S UTC")
}

/// The number of the minute that a timestamp falls in, counted from the Unix
/// epoch: the timestamp with its seconds cut off.
pub open spec fn minute_of(timestamp: int) -> int {
    timestamp / 60
}

/// The number of the minute that a timestamp falls in.
pub fn round_to_minute(timestamp: i64) -> (r: i64)
    ensures
        r == minute_of(timestamp as int),
        r * 60 <= timestamp < r * 60 + 60,
{
    // Flooring division; the quotient of a division by 60 always fits.
    timestamp.checked_div_euclid(60).unwrap()
}

} // verus!
