//! Regular-expression matching, as the `regex` crate does it, and Unicode lower-casing.
use vstd::prelude::*;
use crate::text::{is_ascii_text, lower};

verus! {

/// For every match of `pattern` in `text`, left to right and without overlap, the text of
/// capture groups 1, 2, ... in order (`None` for a group that took no part in the match).
/// A pattern that does not compile has no matches.
pub uninterp spec fn captures_of(pattern: Seq<char>, text: Seq<char>) -> Seq<Seq<Option<Seq<char>>>>;

pub open spec fn group_view(g: Option<String>) -> Option<Seq<char>> {
    match g {
        Some(s) => Some(s@),
        None => None,
    }
}

/// The plain view of the groups of one match.
pub open spec fn match_view(m: Vec<Option<String>>) -> Seq<Option<Seq<char>>> {
    m@.map_values(|g: Option<String>| group_view(g))
}

/// The plain view of a list of matches.
pub open spec fn matches_view(ms: Seq<Vec<Option<String>>>) -> Seq<Seq<Option<Seq<char>>>> {
    ms.map_values(|m: Vec<Option<String>>| match_view(m))
}

/// The capture groups of every match of `pattern` in `text`.
/// Trusted: compiles `pattern` with `regex::Regex::new` (no matches when it does not compile)
/// and walks `Regex::captures_iter`, reading each group with `Captures::get`.
#[verifier::external_body]
pub(crate) fn regex_captures(pattern: &str, text: &str) -> (r: Vec<Vec<Option<String>>>)
    ensures
        matches_view(r@) == captures_of(pattern@, text@),
{
    match regex::Regex::new(pattern) {
        Ok(re) => re
            .captures_iter(text)
            .map(|c| (1..c.len()).map(|i| c.get(i).map(|m| m.as_str().to_string())).collect())
            .collect(),
        Err(_) => Vec::new(),
    }
}

/// The lower-case form of `s`, as `str::to_lowercase` gives it.
pub uninterp spec fn lowercase(s: Seq<char>) -> Seq<char>;

/// Trusted: `str::to_lowercase`, which maps each character to its Unicode lower case; on ASCII
/// text that is the ASCII lower case (A to Z become a to z, nothing else changes).
#[verifier::external_body]
pub(crate) fn to_lowercase(s: &str) -> (r: String)
    ensures
        r@ == lowercase(s@),
        is_ascii_text(s@) ==> r@ == lower(s@),
{
    s.to_lowercase()
}

} // verus!
