//! The regular-expression engine, as far as the chain needs it.
//!
//! Everything in this file is believed, not proved: each item states what a
//! function of the `regex` crate returns.

use vstd::prelude::*;
use regex::Regex;

verus! {

/// The compiled regular expression of the `regex` crate.
#[verifier::external_type_specification]
#[verifier::external_body]
pub struct ExRegex(Regex);

/// The error that the `regex` crate gives for a pattern it cannot compile.
#[verifier::external_type_specification]
#[verifier::external_body]
pub struct ExRegexError(regex::Error);

/// Whether `Regex::new` accepts the pattern.
pub uninterp spec fn compiles(pattern: Seq<char>) -> bool;

/// The pattern that a compiled expression was built from: what
/// `Regex::as_str` returns.
pub uninterp spec fn source_text(re: Regex) -> Seq<char>;

/// The names of the pattern's capture groups in the order of their opening
/// parentheses, `None` for a group without a name: what the iterator of
/// `Regex::capture_names` yields.
pub uninterp spec fn group_names(pattern: Seq<char>) -> Seq<Option<Seq<char>>>;

/// What a search of `haystack` for the first match of `pattern` finds, and
/// what the group called `group` captured in that match: `None` where the
/// pattern matches nowhere, `Some(None)` where it matches but the group is
/// not declared or took no part, `Some(Some(t))` where the group captured
/// the text `t`. This is `Regex::captures` followed by `Captures::name`.
pub uninterp spec fn capture(pattern: Seq<char>, haystack: Seq<char>, group: Seq<char>) -> Option<
    Option<Seq<char>>,
>;

/// `piece` is a contiguous part of `whole`.
pub open spec fn is_piece_of(piece: Seq<char>, whole: Seq<char>) -> bool {
    exists|i: int, j: int| 0 <= i <= j <= whole.len() && piece == #[trigger] whole.subrange(i, j)
}

/// The names as plain sequences of characters.
pub open spec fn names_view(names: Seq<Option<String>>) -> Seq<Option<Seq<char>>> {
    names.map_values(
        |n: Option<String>|
            match n {
                Some(s) => Some(s@),
                None => None,
            },
    )
}

/// What was found, as plain sequences of characters.
pub open spec fn found_view(found: Option<Option<&str>>) -> Option<Option<Seq<char>>> {
    match found {
        None => None,
        Some(None) => Some(None),
        Some(Some(s)) => Some(Some(s@)),
    }
}

/// Calls `Regex::new`. The call succeeds exactly on the patterns that
/// `compiles` holds of, and the expression it returns reports the pattern it
/// was given as its source.
#[verifier::external_body]
pub(crate) fn compile(pattern: &str) -> (r: Result<Regex, regex::Error>)
    ensures
        r is Ok <==> compiles(pattern@),
        r matches Ok(re) ==> source_text(re) == pattern@,
{
    Regex::new(pattern)
}

/// Calls `Regex::as_str`, which returns the pattern the expression was built
/// from.
#[verifier::external_body]
pub(crate) fn source<'r>(re: &'r Regex) -> (r: &'r str)
    ensures
        r@ == source_text(*re),
{
    re.as_str()
}

/// Calls `Regex::capture_names` and collects what the iterator yields, each
/// name as an owned string.
#[verifier::external_body]
pub(crate) fn capture_names(re: &Regex) -> (r: Vec<Option<String>>)
    ensures
        names_view(r@) == group_names(source_text(*re)),
{
    re.capture_names().map(|n| n.map(|s| s.to_string())).collect()
}

/// Calls `Regex::captures` on the haystack and, where it found a match,
/// `Captures::name` with the group's name, taking the captured text by
/// `Match::as_str`. A captured text is a slice of the haystack.
#[verifier::external_body]
pub(crate) fn search<'h>(re: &Regex, haystack: &'h str, group: &str) -> (r: Option<
    Option<&'h str>,
>)
    ensures
        found_view(r) == capture(source_text(*re), haystack@, group@),
        r matches Some(Some(s)) ==> is_piece_of(s@, haystack@),
{
    re.captures(haystack).map(|caps| caps.name(group).map(|m| m.as_str()))
}

/// Renders a compilation error as text, by the error's `Display` impl.
#[verifier::external_body]
pub(crate) fn describe(err: &regex::Error) -> (r: String) {
    err.to_string()
}

} // verus!
