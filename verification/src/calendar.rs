//! Instants as text.
//!
//! The calendar arithmetic is `chrono`'s. What it returns for an instant is
//! given a name here, and the functions of this module say which of these
//! names a text is.

use vstd::prelude::*;

use crate::epoch::{representable, Timestamp};

verus! {

/// `chrono::ParseError`: why a text is no date and time.
#[verifier::external_type_specification]
#[verifier::external_body]
pub struct ExParseError(chrono::ParseError);

/// The text that `chrono::DateTime::<Utc>::to_rfc3339` gives for the instant
/// `unix_seconds` seconds after the Unix epoch, such as
/// `2001-01-01T00:00:00+00:00`.
pub uninterp spec fn rfc3339_text(unix_seconds: int) -> Seq<char>;

/// The instant that `chrono::DateTime::parse_from_rfc3339` reads from `text`,
/// in whole seconds after the Unix epoch, or `None` where it reads none.
pub uninterp spec fn rfc3339_seconds(text: Seq<char>) -> Option<int>;

/// The text that `chrono` displays for the instant `unix_seconds` seconds
/// after the Unix epoch, such as `2001-01-01 00:00:00 UTC`.
pub uninterp spec fn utc_display_text(unix_seconds: int) -> Seq<char>;

/// Calls `chrono::DateTime::<Utc>::to_rfc3339` on the instant made by
/// `chrono::DateTime::from_timestamp`. Trusted: the text depends on the
/// seconds alone. `from_timestamp` gives an instant for every representable
/// count of seconds, and `to_rfc3339` does not fail.
#[verifier::external_body]
pub(crate) fn format_rfc3339(unix_seconds: i64) -> (text: String)
    requires
        representable(unix_seconds as int),
    ensures
        text@ == rfc3339_text(unix_seconds as int),
{
    chrono::DateTime::from_timestamp(unix_seconds, 0).unwrap().to_rfc3339()
}

/// Calls `chrono::DateTime::parse_from_rfc3339` and takes the whole seconds
/// of the instant it read, as `chrono::DateTime::timestamp` gives them.
/// Trusted: whether a text is read, and as which instant, depends on the text
/// alone.
#[verifier::external_body]
pub(crate) fn parse_rfc3339(text: &str) -> (r: Result<i64, chrono::ParseError>)
    ensures
        r is Ok <==> rfc3339_seconds(text@) is Some,
        r matches Ok(secs) ==> rfc3339_seconds(text@) == Some(secs as int),
{
    chrono::DateTime::parse_from_rfc3339(text).map(|t| t.timestamp())
}

/// Calls `to_string` on the instant made by `chrono::DateTime::from_timestamp`,
/// which is `chrono`'s `Display` for a date and time in UTC. Trusted: the text
/// depends on the seconds alone.
#[verifier::external_body]
pub(crate) fn format_utc_display(unix_seconds: i64) -> (text: String)
    requires
        representable(unix_seconds as int),
    ensures
        text@ == utc_display_text(unix_seconds as int),
{
    chrono::DateTime::from_timestamp(unix_seconds, 0).unwrap().to_string()
}

/// The instant that `text` names: what `chrono` reads from it, where that is
/// representable.
pub open spec fn instant_of_text(text: Seq<char>) -> Option<int> {
    match rfc3339_seconds(text) {
        Some(secs) => if representable(secs) {
            Some(secs)
        } else {
            None
        },
        None => None,
    }
}

impl Timestamp {
    /// This instant as an RFC 3339 date and time.
    pub fn to_rfc3339(&self) -> (text: String)
        ensures
            text@ == rfc3339_text(self@),
    {
        format_rfc3339(self.unix_seconds())
    }

    /// This instant as it is shown to a reader.
    pub fn to_display(&self) -> (text: String)
        ensures
            text@ == utc_display_text(self@),
    {
        format_utc_display(self.unix_seconds())
    }

    /// The instant that the RFC 3339 date and time `text` names, to the
    /// second, or `None` where `text` is no such date and time.
    pub fn parse_from_rfc3339(text: &str) -> (r: Option<Timestamp>)
        ensures
            r is Some <==> instant_of_text(text@) is Some,
            r matches Some(t) ==> instant_of_text(text@) == Some(t@),
    {
        match parse_rfc3339(text) {
            Ok(secs) => Timestamp::from_unix(secs),
            Err(_) => None,
        }
    }
}

} // verus!
