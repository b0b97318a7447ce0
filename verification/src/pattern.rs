//! Regular expressions.
//!
//! Matching is done by the `regex` crate. What a search finds is named, not
//! defined: [`compiled`] stands for the outcome of compiling a pattern and
//! [`groups`] for the outcome of a search.
use crate::scan::{HTTP_ATTRIBUTE, ROUTE_ATTRIBUTE};
use crate::text;
use regex::Regex;
use vstd::prelude::*;

verus! {

/// `regex::Regex`, a compiled regular expression, as an opaque value.
#[verifier::external_type_specification]
#[verifier::external_body]
pub struct ExRegex(regex::Regex);

/// The regular expression that `regex::Regex::new` makes of `pattern`, or
/// `None` where it reports an error.
pub uninterp spec fn compiled(pattern: Seq<char>) -> Option<Regex>;

/// What `regex::Regex::captures` finds in `text`: the texts of the capture
/// groups of the leftmost match, by index, each `None` if it took no part in
/// the match; or `None` if nothing matches.
pub uninterp spec fn groups(re: Regex, text: Seq<char>) -> Option<Seq<Option<Seq<char>>>>;

/// What a search of `text` for `pattern` finds. A pattern that does not
/// compile matches nothing.
pub open spec fn search(pattern: Seq<char>, text: Seq<char>) -> Option<Seq<Option<Seq<char>>>> {
    match compiled(pattern) {
        Some(re) => groups(re, text),
        None => None,
    }
}

/// The text of group `index`, if there is such a group and it took part in
/// the match.
pub open spec fn group(found: Seq<Option<Seq<char>>>, index: int) -> Option<Seq<char>> {
    if 0 <= index < found.len() {
        found[index]
    } else {
        None
    }
}

/// The text of group `index` in the outcome of a search.
pub open spec fn found_group(
    found: Option<Seq<Option<Seq<char>>>>,
    index: int,
) -> Option<Seq<char>> {
    match found {
        Some(groups) => group(groups, index),
        None => None,
    }
}

/// The texts of all groups in the outcome of a search are pieces of `text`.
pub open spec fn found_in(found: Option<Seq<Option<Seq<char>>>>, text: Seq<char>) -> bool {
    forall|index: int|
        match #[trigger] found_group(found, index) {
            Some(piece) => text::occurs(text, piece),
            None => true,
        }
}

/// Copies the text of group `index` from the outcome of a search.
pub fn group_of(found: &Option<Vec<Option<String>>>, index: usize) -> (text: Option<String>)
    ensures
        text.deep_view() == found_group(found.deep_view(), index as int),
{
    match found {
        Some(groups) => if index < groups.len() {
            groups[index].clone()
        } else {
            None
        },
        None => None,
    }
}

/// Every match of `re` begins with a bracket, whatever stands before it: a
/// text without a bracket holds no match, and such a text in front of another
/// changes nothing in what is found.
pub open spec fn is_bracket_led(re: Regex) -> bool {
    &&& forall|text: Seq<char>| !text.contains('[') ==> #[trigger] groups(re, text) is None
    &&& forall|front: Seq<char>, text: Seq<char>|
        !front.contains('[') ==> #[trigger] groups(re, front + text) == groups(re, text)
}

/// Calls `regex::Regex::new`. Compiling depends on the pattern alone. The two
/// attribute patterns are concatenations that begin with the escape `\[`,
/// which stands for a bracket, and hold no assertion on what surrounds a
/// match: by the syntax that the crate documents, a regular expression that
/// is made of one of them matches from a bracket on only.
#[verifier::external_body]
pub(crate) fn compile(pattern: &str) -> (re: Option<Regex>)
    ensures
        re == compiled(pattern@),
        pattern@ == ROUTE_ATTRIBUTE@ || pattern@ == HTTP_ATTRIBUTE@ ==> match re {
            Some(expression) => is_bracket_led(expression),
            None => true,
        },
{
    Regex::new(pattern).ok()
}

/// Calls `regex::Regex::captures` and copies the text of every group. What
/// is found depends on the regular expression and the searched text alone,
/// and the text of a group is a piece of the searched text.
#[verifier::external_body]
pub(crate) fn captures(re: &Regex, text: &str) -> (found: Option<Vec<Option<String>>>)
    ensures
        found.deep_view() == groups(*re, text@),
        found_in(found.deep_view(), text@),
{
    let found = re.captures(text)?;
    Some(found.iter().map(|group| group.map(|m| m.as_str().to_string())).collect())
}

/// Calls `regex::Regex::is_match`, which is true if and only if there is a
/// match anywhere in the text.
#[verifier::external_body]
pub(crate) fn is_match(re: &Regex, text: &str) -> (found: bool)
    ensures
        found == groups(*re, text@) is Some,
{
    re.is_match(text)
}

} // verus!
