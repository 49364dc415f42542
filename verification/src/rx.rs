//! Regular-expression searches, made with the `regex` crate.
//!
//! What a search finds is named, not restated: each name stands for what
//! `regex` computes for a pattern and a text.

use vstd::prelude::*;

verus! {

/// Whether `regex` compiles `pattern` (`Some`) and whether it then finds a
/// match in `text`.
pub uninterp spec fn regex_match_result(pattern: Seq<char>, text: Seq<char>) -> Option<bool>;

/// The capture groups of the leftmost match of `pattern` in `text`:
/// `None` when `pattern` does not compile, `Some(None)` when there is no
/// match, else the text of each group (group 0 is the whole match).
pub uninterp spec fn regex_captures_result(pattern: Seq<char>, text: Seq<char>)
    -> Option<Option<Seq<Option<Seq<char>>>>>;

/// The text of the last of the successive non-overlapping matches of
/// `pattern` in `text`: `None` when `pattern` does not compile,
/// `Some(None)` when there is no match.
pub uninterp spec fn regex_last_match_result(pattern: Seq<char>, text: Seq<char>) -> Option<Option<Seq<char>>>;

/// The view of an optional string.
pub open spec fn opt_string_view(o: Option<String>) -> Option<Seq<char>> {
    match o {
        Some(s) => Some(s@),
        None => None,
    }
}

/// The view of the capture groups that a search gives.
pub open spec fn captures_view(r: Option<Option<Vec<Option<String>>>>) -> Option<Option<Seq<Option<Seq<char>>>>> {
    match r {
        Some(Some(groups)) => Some(Some(groups@.map_values(|g: Option<String>| opt_string_view(g)))),
        Some(None) => Some(None),
        None => None,
    }
}

/// Compiles `pattern` with `regex::Regex::new` and asks `Regex::is_match`
/// whether it matches somewhere in `text`. The contract names the answer;
/// it does not restate the regex engine.
#[verifier::external_body]
pub(crate) fn regex_is_match(pattern: &str, text: &str) -> (r: Option<bool>)
    ensures
        r == regex_match_result(pattern@, text@),
{
    match regex::Regex::new(pattern) {
        Ok(re) => Some(re.is_match(text)),
        Err(_) => None,
    }
}

/// Compiles `pattern` with `regex::Regex::new` and takes the capture groups
/// of `Regex::captures` on `text`, each as an owned string. The contract
/// names the result.
#[verifier::external_body]
pub(crate) fn regex_captures(pattern: &str, text: &str) -> (r: Option<Option<Vec<Option<String>>>>)
    ensures
        captures_view(r) == regex_captures_result(pattern@, text@),
{
    match regex::Regex::new(pattern) {
        Ok(re) => Some(re.captures(text).map(|c| c.iter().map(|g| g.map(|m| m.as_str().to_string())).collect())),
        Err(_) => None,
    }
}

/// Compiles `pattern` with `regex::Regex::new` and takes the last match
/// that `Regex::find_iter` yields on `text`, as an owned string. The
/// contract names the result.
#[verifier::external_body]
pub(crate) fn regex_last_match(pattern: &str, text: &str) -> (r: Option<Option<String>>)
    ensures
        match r {
            Some(m) => regex_last_match_result(pattern@, text@) == Some(opt_string_view(m)),
            None => regex_last_match_result(pattern@, text@) is None,
        },
{
    match regex::Regex::new(pattern) {
        Ok(re) => Some(re.find_iter(text).last().map(|m| m.as_str().to_string())),
        Err(_) => None,
    }
}

} // verus!
