//! Wall-clock time and timestamp parsing, in milliseconds since the Unix epoch.

use vstd::prelude::*;

verus! {

/// The current time. Relies on chrono's `Utc::now` and
/// `DateTime::timestamp_millis`; nothing is promised of the value.
#[verifier::external_body]
pub fn now_millis() -> i64 {
    chrono::Utc::now().timestamp_millis()
}

/// The instant that `text` names under the chrono format `format`, in
/// milliseconds since the Unix epoch; none where the text does not parse.
pub uninterp spec fn utc_millis_of(text: Seq<char>, format: Seq<char>) -> Option<i64>;

/// Parses a UTC timestamp. Relies on chrono's `TimeZone::datetime_from_str`
/// for `Utc` and `DateTime::timestamp_millis`: the result depends on the text
/// and the format alone.
#[verifier::external_body]
#[allow(deprecated)]
pub fn parse_utc_millis(text: &str, format: &str) -> (r: Option<i64>)
    ensures
        r == utc_millis_of(text@, format@),
{
    match chrono::TimeZone::datetime_from_str(&chrono::Utc, text, format) {
        Ok(d) => Some(d.timestamp_millis()),
        Err(_) => None,
    }
}

} // verus!
