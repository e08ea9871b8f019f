//! What the library assumes of the `regex` crate.
//!
//! A compiled pattern is opaque to the verifier. Whether a pattern compiles
//! is named by [`regex_compiles`], the pattern that a regular expression was
//! compiled from by [`regex_pattern`], what a search with a regular
//! expression captures by [`regex_found`], and what a search with the
//! regular expression that `Regex::new` makes of a pattern captures by
//! [`regex_captures`].

use vstd::prelude::*;

verus! {

#[verifier::external_type_specification]
#[verifier::external_body]
pub struct ExRegex(regex::Regex);

/// Whether `Regex::new` compiles a pattern, rather than fail: whether the
/// pattern is well formed, and its program within the size that the crate
/// allows by default.
pub uninterp spec fn regex_compiles(pattern: Seq<char>) -> bool;

/// The pattern that a regular expression was compiled from, as
/// `Regex::as_str` returns it.
pub uninterp spec fn regex_pattern(re: regex::Regex) -> Seq<char>;

/// What the leftmost match of a regular expression in a text captures, as
/// `Regex::captures` finds it: nothing where there is no match, else for
/// each group, the whole match being the first, the part of the text that
/// the group matched where it took part in the match.
pub uninterp spec fn regex_found(re: regex::Regex, haystack: Seq<char>) -> Option<
    Seq<Option<Seq<char>>>,
>;

/// What the leftmost match of a pattern in a text captures: what
/// `Regex::captures` finds with the regular expression that `Regex::new`
/// makes of the pattern.
pub uninterp spec fn regex_captures(pattern: Seq<char>, haystack: Seq<char>) -> Option<
    Seq<Option<Seq<char>>>,
>;

/// Whether a regular expression is one that `Regex::new` makes of a pattern:
/// it remembers the pattern, and a search with it captures what the pattern
/// captures.
pub open spec fn compiled_from(re: regex::Regex, pattern: Seq<char>) -> bool {
    &&& regex_pattern(re) == pattern
    &&& forall|haystack: Seq<char>| #[trigger]
        regex_found(re, haystack) == regex_captures(pattern, haystack)
}

/// The mathematical value of what a search captured.
pub open spec fn groups_view(groups: Option<Vec<Option<String>>>) -> Option<
    Seq<Option<Seq<char>>>,
> {
    match groups {
        Some(groups) => Some(
            Seq::new(
                groups@.len(),
                |i: int|
                    match groups@[i] {
                        Some(group) => Some(group@),
                        None => None,
                    },
            ),
        ),
        None => None,
    }
}

/// `Regex::new`: compiles a pattern, or fails. Which of the two depends on
/// the pattern alone. The regular expression remembers the pattern, and
/// what a search with it captures depends on the pattern and the text
/// alone.
#[verifier::external_body]
pub(crate) fn compile(pattern: &str) -> (re: Option<regex::Regex>)
    ensures
        re is Some <==> regex_compiles(pattern@),
        re matches Some(re) ==> regex_pattern(re) == pattern@,
        re matches Some(re) ==> forall|haystack: Seq<char>| #[trigger]
            regex_found(re, haystack) == regex_captures(pattern@, haystack),
{
    regex::Regex::new(pattern).ok()
}

/// `Regex::captures`: searches a text for the leftmost match and hands out
/// the part of the text that each group matched.
#[verifier::external_body]
pub(crate) fn captures(re: &regex::Regex, haystack: &str) -> (groups: Option<Vec<Option<String>>>)
    ensures
        groups_view(groups) == regex_found(*re, haystack@),
{
    re.captures(haystack).map(
        |found| found.iter().map(|group| group.map(|group| group.as_str().to_owned())).collect(),
    )
}

} // verus!
