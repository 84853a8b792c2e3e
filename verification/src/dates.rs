//! Dates as they stand in front matter.

use vstd::prelude::*;

use crate::text;

verus! {

/// A moment, given in seconds since the Unix epoch, as RFC 3339 writes it; none where no calendar
/// date stands for it.
pub uninterp spec fn rfc3339_of(seconds: i64) -> Option<Seq<char>>;

/// A date or time as TOML writes it, where the text is one.
pub uninterp spec fn toml_date_of(text: Seq<char>) -> Option<Seq<char>>;

/// The date that the time of a commit gives.
pub open spec fn commit_date(seconds: i64) -> Option<Seq<char>> {
    match rfc3339_of(seconds) {
        Some(text) => toml_date_of(text),
        None => None,
    }
}

/// `DateTime::from_timestamp` of the crate `chrono`, and `to_rfc3339` of what it gives.
#[verifier::external_body]
fn rfc3339(seconds: i64) -> (out: Option<String>)
    ensures
        text::optional(out) == rfc3339_of(seconds),
{
    chrono::DateTime::from_timestamp(seconds, 0).map(|moment| moment.to_rfc3339())
}

/// `from_str` of `Datetime` of the crate `toml_datetime`, and the text of what it gives.
#[verifier::external_body]
pub(crate) fn toml_date(text: &str) -> (out: Option<String>)
    ensures
        text::optional(out) == toml_date_of(text@),
{
    text.parse::<toml_datetime::Datetime>().ok().map(|date| date.to_string())
}

/// The date that the time of a commit gives.
pub fn date_of_commit(seconds: i64) -> (out: Option<String>)
    ensures
        text::optional(out) == commit_date(seconds),
{
    match rfc3339(seconds) {
        Some(text) => toml_date(text.as_str()),
        None => None,
    }
}

} // verus!
