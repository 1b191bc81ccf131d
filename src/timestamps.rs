//! RFC 3339 timestamps, through the `time` crate.

use vstd::prelude::*;

verus! {

/// The RFC 3339 text of the instant `seconds` after the Unix epoch, in UTC,
/// where the `time` crate can represent and format it.
pub uninterp spec fn rfc3339_of(seconds: int) -> Option<Seq<char>>;

/// The Unix time, in whole seconds, of an RFC 3339 text, where it parses.
pub uninterp spec fn rfc3339_seconds(text: Seq<char>) -> Option<int>;

pub open spec fn opt_text(o: Option<String>) -> Option<Seq<char>> {
    match o {
        Some(s) => Some(s@),
        None => None,
    }
}

/// Relies on `time::OffsetDateTime::from_unix_timestamp` and `format` with the
/// RFC 3339 description: the text depends on the timestamp alone; `None` where
/// either call fails (a year outside 0..=9999, or a timestamp out of range).
#[verifier::external_body]
pub(crate) fn format_rfc3339(seconds: i64) -> (r: Option<String>)
    ensures
        opt_text(r) == rfc3339_of(seconds as int),
{
    time::OffsetDateTime::from_unix_timestamp(seconds)
        .ok()
        .and_then(|t| t.format(&time::format_description::well_known::Rfc3339).ok())
}

/// Relies on `time::OffsetDateTime::parse` with the RFC 3339 description and
/// `unix_timestamp`: the result depends on the text alone; `None` where it
/// does not parse.
#[verifier::external_body]
pub(crate) fn parse_rfc3339(text: &str) -> (r: Option<i64>)
    ensures
        r matches Some(v) ==> rfc3339_seconds(text@) == Some(v as int),
        r is None ==> rfc3339_seconds(text@) is None,
{
    time::OffsetDateTime::parse(text, &time::format_description::well_known::Rfc3339)
        .ok()
        .map(|t| t.unix_timestamp())
}

} // verus!
