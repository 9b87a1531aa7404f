//! Calendar dates are read by `chrono`. What it makes of a text under a
//! pattern is a matter of that crate alone, so the outcome is given a name
//! here and the two calls are believed to return it.

use crate::backend::database_handler::text_option_view;
use vstd::prelude::*;

verus! {

/// Why `chrono` does not read `text` as a date under `pattern`, in its own
/// words; `None` when it does read it as one.
pub uninterp spec fn date_fault(text: Seq<char>, pattern: Seq<char>) -> Option<Seq<char>>;

/// Why `chrono` does not read `text` as a date with a time of day under
/// `pattern`, in its own words; `None` when it does read it as one.
pub uninterp spec fn datetime_fault(text: Seq<char>, pattern: Seq<char>) -> Option<Seq<char>>;

/// `chrono::NaiveDate::parse_from_str`: the text is a date under the
/// pattern, or it is not and the error says why. The date itself is dropped;
/// the error is handed on as its wording.
#[verifier::external_body]
pub(crate) fn naive_date_fault(text: &str, pattern: &str) -> (fault: Option<String>)
    ensures
        text_option_view(fault) == date_fault(text@, pattern@),
{
    match chrono::NaiveDate::parse_from_str(text, pattern) {
        Ok(_) => None,
        Err(e) => Some(e.to_string()),
    }
}

/// `chrono::NaiveDateTime::parse_from_str`: the text is a date with a time
/// of day under the pattern, or it is not and the error says why. The value
/// itself is dropped; the error is handed on as its wording.
#[verifier::external_body]
pub(crate) fn naive_datetime_fault(text: &str, pattern: &str) -> (fault: Option<String>)
    ensures
        text_option_view(fault) == datetime_fault(text@, pattern@),
{
    match chrono::NaiveDateTime::parse_from_str(text, pattern) {
        Ok(_) => None,
        Err(e) => Some(e.to_string()),
    }
}

} // verus!
