//! Timestamps. An item carries its creation time as RFC 3339 text, such as
//! `2018-06-01T12:34:56+01:00`; the calendar arithmetic is chrono's.

use vstd::prelude::*;

verus! {

/// What chrono writes for the timestamp `stamp` under the format `pattern`,
/// in the stamp's own offset; `None` where `stamp` is not RFC 3339 text.
pub uninterp spec fn shown_time(stamp: Seq<char>, pattern: Seq<char>) -> Option<Seq<char>>;

/// The format in which dates are shown: year, month and day, then the time
/// of day to the second.
pub open spec fn date_pattern() -> Seq<char> {
    "%Y-%m-%d %H:%M:%S"@
}

/// Whether chrono can read `stamp` as a timestamp.
pub open spec fn is_stamp(stamp: Seq<char>) -> bool {
    shown_time(stamp, date_pattern()) is Some
}

/// The current local time as RFC 3339 text, from `chrono::Local::now` and
/// `DateTime::to_rfc3339`. Nothing is claimed of the text: it depends on the
/// clock and on the machine's time zone. On a machine whose clock stands
/// before 1970 chrono does not return but panics; no contract can rule that
/// out.
#[verifier::external_body]
pub(crate) fn local_now() -> (stamp: String) {
    chrono::Local::now().to_rfc3339()
}

/// Reads `stamp` with `chrono::DateTime::parse_from_rfc3339` and writes it
/// with `DateTime::format` under the date pattern. The contract claims only
/// that the outcome is a function of the two texts, which `shown_time`
/// names, and that the call returns for this pattern.
#[verifier::external_body]
pub(crate) fn display_time(stamp: &str, pattern: &str) -> (shown: Option<String>)
    requires
        pattern@ == date_pattern(),
    ensures
        shown.deep_view() == shown_time(stamp@, pattern@),
{
    let parsed = chrono::DateTime::parse_from_rfc3339(stamp).ok()?;
    let mut shown = String::new();
    parsed.format(pattern).write_to(&mut shown).ok()?;
    Some(shown)
}

/// The format in which dates are shown.
pub fn date_format() -> (pattern: &'static str)
    ensures
        pattern@ == date_pattern(),
{
    "%Y-%m-%d %H:%M:%S"
}

/// Tells whether `stamp` is a timestamp that chrono can read.
pub fn readable(stamp: &str) -> (r: bool)
    ensures
        r == is_stamp(stamp@),
{
    display_time(stamp, date_format()).is_some()
}

} // verus!
