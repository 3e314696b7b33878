//! Calendar time through `chrono`.
//!
//! A point in time is held as whole seconds since the Unix epoch; `chrono`
//! reads and writes the calendar forms.
use vstd::prelude::*;

verus! {

/// What `chrono::DateTime::parse_from_str(text, pattern)` reads, as seconds
/// since the epoch (`DateTime::timestamp`), or `None` when it refuses the text.
pub uninterp spec fn parsed_timestamp(text: Seq<char>, pattern: Seq<char>) -> Option<i64>;

/// Whether `chrono::DateTime::<Utc>::from_timestamp(secs, 0)` accepts `secs`:
/// the instant lies between the first second of January 1, 262143 BCE
/// (year -262143) and the last second of December 31, 262142 CE, the range
/// of `chrono`'s dates.
pub open spec fn utc_representable(secs: i64) -> bool {
    -8_334_601_228_800 <= secs <= 8_210_266_876_799
}

/// What `chrono` writes for the instant `secs` (UTC) under the format `pattern`.
pub uninterp spec fn utc_text(secs: i64, pattern: Seq<char>) -> Seq<char>;

/// How a tweet's time is shown.
pub const TWEET_TIME_FORMAT: &'static str = "%Y-%m-%d %H:%M:%S UTC";

/// How the time of a backup is shown.
pub const BACKUP_TIME_FORMAT: &'static str = "%Y-%m-%d %H:%M:%S";

/// The formats this library writes times in; `chrono` panics when it
/// formats with a pattern it cannot read, and these it reads.
pub open spec fn known_format(pattern: Seq<char>) -> bool {
    pattern == TWEET_TIME_FORMAT@ || pattern == BACKUP_TIME_FORMAT@
}

/// Calls `chrono::DateTime::parse_from_str(text, pattern)` and takes the
/// instant's `timestamp()`.  Claims that the outcome is
/// `parsed_timestamp(text, pattern)`, a function of the two strings, and that
/// a parsed instant lies in the range of `chrono`'s dates (a `DateTime`
/// holds a valid date and time in UTC).
#[verifier::external_body]
pub(crate) fn parse_timestamp(text: &str, pattern: &str) -> (r: Option<i64>)
    ensures
        r == parsed_timestamp(text@, pattern@),
        r matches Some(t) ==> utc_representable(t),
{
    chrono::DateTime::parse_from_str(text, pattern).ok().map(|dt| dt.timestamp())
}

/// Calls `chrono::DateTime::from_timestamp(secs, 0)` and reports whether it
/// gave a value.  Claims that it does exactly for the seconds in the range
/// of `chrono`'s dates (`utc_representable`).
#[verifier::external_body]
pub(crate) fn timestamp_representable(secs: i64) -> (r: bool)
    ensures
        r == utc_representable(secs),
{
    chrono::DateTime::from_timestamp(secs, 0).is_some()
}

/// Calls `DateTime::format(pattern)` on `DateTime::from_timestamp(secs, 0)`.
/// Claims that a text comes back exactly when the instant is representable,
/// and that it is `utc_text(secs, pattern)`.
#[verifier::external_body]
pub(crate) fn format_timestamp(secs: i64, pattern: &str) -> (r: Option<String>)
    requires
        known_format(pattern@),
    ensures
        r is Some <==> utc_representable(secs),
        r matches Some(t) ==> t@ == utc_text(secs, pattern@),
{
    chrono::DateTime::from_timestamp(secs, 0).map(|dt| dt.format(pattern).to_string())
}

/// Calls `chrono::Local::now().format(pattern)`: the present local time.
/// Nothing is claimed of the text, which depends on the clock and the time zone.
#[verifier::external_body]
pub(crate) fn local_now_text(pattern: &str) -> String
    requires
        known_format(pattern@),
{
    chrono::Local::now().format(pattern).to_string()
}

} // verus!
