//! Regular expressions, compiled and run by the `regex` crate on patterns
//! held as text.

use vstd::prelude::*;

verus! {

/// What `regex::Regex::new` holds against `pattern`: `None` where it compiles
/// the pattern, else the text of its error.
pub uninterp spec fn regex_rejection(pattern: Seq<char>) -> Option<Seq<char>>;

/// Whether the regular expression compiled from `pattern` matches somewhere
/// in `text`: the result of `regex::Regex::is_match`.
pub uninterp spec fn regex_is_match(pattern: Seq<char>, text: Seq<char>) -> bool;

/// Whether `pattern` is a regular expression.
pub open spec fn regex_is_valid(pattern: Seq<char>) -> bool {
    regex_rejection(pattern) is None
}

/// Calls `regex::Regex::new` and keeps only whether it succeeded, and the
/// text of the error where it did not. The contract gives that outcome its
/// name, [`regex_rejection`]; which patterns the crate accepts is not proved
/// here.
#[verifier::external_body]
pub(crate) fn check_pattern(pattern: &str) -> (checked: Result<(), String>)
    ensures
        match checked {
            Ok(_) => regex_rejection(pattern@) is None,
            Err(text) => regex_rejection(pattern@) == Some(text@),
        },
{
    match regex::Regex::new(pattern) {
        Ok(_) => Ok(()),
        Err(error) => Err(error.to_string()),
    }
}

/// Compiles `pattern` with `regex::Regex::new` and calls
/// `regex::Regex::is_match` of the expression on `text`. The contract gives
/// the result its name, [`regex_is_match`]; what the expression matches is
/// not proved here. Patterns that do not compile are left out.
#[verifier::external_body]
pub(crate) fn is_match(pattern: &str, text: &str) -> (matched: bool)
    requires
        regex_is_valid(pattern@),
    ensures
        matched == regex_is_match(pattern@, text@),
{
    regex::Regex::new(pattern).unwrap().is_match(text)
}

} // verus!
