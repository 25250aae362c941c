//! Regular-expression searches, performed by the `regex` crate.
//!
//! The searches are not proved. `is_match` and `captures` state what `regex`
//! is relied on to return: a value that depends on the pattern, the searched
//! text and the requested group names alone, and that has a name in
//! contracts. Each of them compiles its pattern anew.

use vstd::prelude::*;
use vstd::string::StringExecFns;
use crate::downloader_error::{DownloaderError, DownloaderErrorView};

verus! {

/// The failure reported where a search pattern does not compile.
pub open spec fn pattern_failure() -> DownloaderErrorView {
    DownloaderErrorView::OtherError("invalid search pattern"@)
}

/// Makes the failure reported where a search pattern does not compile.
pub fn pattern_error() -> (error: DownloaderError)
    ensures
        error@ == pattern_failure(),
{
    DownloaderError::OtherError(String::from_str("invalid search pattern"))
}

/// The two group names `first` and `second`, as owned strings.
pub fn group_names2(first: &str, second: &str) -> (names: Vec<String>)
    ensures
        names.deep_view() == seq![first@, second@],
        names.len() == 2,
{
    let mut names: Vec<String> = Vec::new();
    names.push(String::from_str(first));
    names.push(String::from_str(second));
    assert(names.deep_view() =~= seq![first@, second@]);
    names
}

/// The three group names `first`, `second` and `third`, as owned strings.
pub fn group_names3(first: &str, second: &str, third: &str) -> (names: Vec<String>)
    ensures
        names.deep_view() == seq![first@, second@, third@],
        names.len() == 3,
{
    let mut names: Vec<String> = Vec::new();
    names.push(String::from_str(first));
    names.push(String::from_str(second));
    names.push(String::from_str(third));
    assert(names.deep_view() =~= seq![first@, second@, third@]);
    names
}

/// The groups captured by one match: for each requested group name, the text
/// it matched, or `None` where the group took no part in the match or is not
/// a group of the pattern.
pub type Captured = Seq<Option<Seq<char>>>;

/// Whether `regex::Regex::new(pattern)` followed by `Regex::is_match(text)`
/// finds a match anywhere in `text`; `None` where `pattern` does not compile.
pub uninterp spec fn regex_is_match(pattern: Seq<char>, text: Seq<char>) -> Option<bool>;

/// The named groups of the leftmost match that `Regex::captures(text)` reports
/// for `regex::Regex::new(pattern)`: `Some(None)` where nothing matches, `None`
/// where `pattern` does not compile.
pub uninterp spec fn regex_captures(
    pattern: Seq<char>,
    text: Seq<char>,
    groups: Seq<Seq<char>>,
) -> Option<Option<Captured>>;

/// Calls `regex::Regex::is_match` on the compiled `pattern`.
///
/// Trusted: the answer is `regex_is_match` of the two texts.
#[verifier::external_body]
pub(crate) fn is_match(pattern: &str, text: &str) -> (found: Option<bool>)
    ensures
        found == regex_is_match(pattern@, text@),
{
    regex::Regex::new(pattern).ok().map(|re| re.is_match(text))
}

/// Calls `regex::Regex::captures` on the compiled `pattern` and copies out the
/// text of each group named in `groups`, as `regex::Captures::name` gives it.
///
/// Trusted: the answer is `regex_captures` of the arguments, and a match
/// carries one entry per requested name.
#[verifier::external_body]
pub(crate) fn captures(pattern: &str, text: &str, groups: &Vec<String>) -> (found: Option<
    Option<Vec<Option<String>>>,
>)
    ensures
        found.deep_view() == regex_captures(pattern@, text@, groups.deep_view()),
        found matches Some(Some(row)) ==> row.len() == groups.len(),
{
    let re = regex::Regex::new(pattern).ok()?;
    Some(
        re.captures(text).map(
            |c| groups.iter().map(|g| c.name(g).map(|m| m.as_str().to_string())).collect(),
        ),
    )
}

} // verus!
