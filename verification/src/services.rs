//! Calls into outside crates that the engine needs in the middle of its
//! logic: clock readings, calendar-date conversion and identifier
//! generation.  Each is a thin trusted wrapper; everything that depends on
//! the returned value is verified code that takes the value as an argument.

use vstd::prelude::*;

verus! {

/// The instant, as seconds since the Unix epoch, that a calendar date
/// written as `YYYY-MM-DD` names at 23:59:59 UTC, or `None` where the text
/// is not such a date.  The value depends on the characters alone.
pub uninterp spec fn date_epoch(s: Seq<char>) -> Option<i64>;

/// Relies on `chrono::NaiveDate::parse_from_str` with the `%Y-%m-%d`
/// format, `NaiveDate::and_hms_opt(23, 59, 59)` and
/// `DateTime::<Utc>::timestamp`: a pure function of the input text.
#[verifier::external_body]
pub(crate) fn due_date_instant(s: &str) -> (r: Option<i64>)
    ensures
        r == date_epoch(s@),
{
    match chrono::NaiveDate::parse_from_str(s, "%Y-%m-%d") {
        Ok(d) => d.and_hms_opt(23, 59, 59).map(|t| t.and_utc().timestamp()),
        Err(_) => None,
    }
}

/// Relies on `chrono::Utc::now` and `DateTime::<Utc>::timestamp`: the
/// current instant as seconds since the Unix epoch.  Nothing can be
/// promised of a clock reading.
#[verifier::external_body]
pub fn now_epoch_seconds() -> i64 {
    chrono::Utc::now().timestamp()
}

/// The text with its leading and trailing whitespace removed.  The result
/// depends on the characters alone.
pub uninterp spec fn trimmed(s: Seq<char>) -> Seq<char>;

/// Whether the text holds nothing but whitespace.
pub open spec fn spec_is_blank(s: Seq<char>) -> bool {
    trimmed(s).len() == 0
}

/// Relies on `str::trim`: a pure function of the input text.
#[verifier::external_body]
pub(crate) fn trim_text(s: &str) -> (r: &str)
    ensures
        r@ == trimmed(s@),
{
    s.trim()
}

/// Checks whether the text holds nothing but whitespace.
pub fn is_blank(s: &str) -> (r: bool)
    ensures
        r == spec_is_blank(s@),
{
    trim_text(s).is_empty()
}

/// The text with every character folded to lower case.  The result
/// depends on the characters alone.
pub uninterp spec fn lower_seq(s: Seq<char>) -> Seq<char>;

/// Relies on `str::to_lowercase`: a pure function of the input text.
#[verifier::external_body]
pub(crate) fn fold_case(s: &str) -> (r: String)
    ensures
        r@ == lower_seq(s@),
{
    s.to_lowercase()
}

/// Relies on `uuid::Uuid::new_v4` and its hyphenated `Display` form: a
/// freshly drawn random identifier, always 36 characters long.  Nothing
/// more can be promised of a random value.
#[verifier::external_body]
pub(crate) fn fresh_entry_id() -> (r: String)
    ensures
        r@.len() == 36,
{
    uuid::Uuid::new_v4().to_string()
}

} // verus!
