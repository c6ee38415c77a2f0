//! Regular expressions, matched by the `regex` crate.
//!
//! What a match holds is not spelled out here: it is named, as a function of
//! the pattern and the text, and the contracts of the library speak of it by
//! these names.

use vstd::prelude::*;

verus! {

/// The capture groups of the leftmost match of the regular expression
/// `pattern` in `text`: entry 0 is the whole match, entry `i` the text that
/// group `i` matched, `None` for a group that took no part in the match. The
/// result is `None` where nothing in `text` matches, and where `pattern` is
/// not a regular expression.
pub uninterp spec fn captured(pattern: Seq<char>, text: Seq<char>) -> Option<
    Seq<Option<Seq<char>>>,
>;

/// `text` with the leftmost match of the regular expression `pattern`
/// replaced by `with`, in which `$` refers to capture groups. The result is
/// `text` itself where nothing matches, and where `pattern` is not a regular
/// expression.
pub uninterp spec fn replaced(pattern: Seq<char>, text: Seq<char>, with: Seq<char>) -> Seq<char>;

/// `regex::Regex::new` compiles `pattern`, and `regex::Regex::captures`
/// searches `text` for its leftmost match. The result holds the text of each
/// capture group of that match, by the group's number; it is `None` where
/// the search finds nothing or `pattern` does not compile.
#[verifier::external_body]
pub(crate) fn captures(pattern: &str, text: &str) -> (groups: Option<Vec<Option<String>>>)
    ensures
        groups.deep_view() == captured(pattern@, text@),
{
    let regex = regex::Regex::new(pattern).ok()?;
    let found = regex.captures(text)?;
    Some(found.iter().map(|group| group.map(|part| part.as_str().to_string())).collect())
}

/// `regex::Regex::new` compiles `pattern`, and `regex::Regex::replace`
/// replaces its leftmost match in `text` by `with`. A text in which the
/// pattern has no match comes back unchanged, and so does every text where
/// `pattern` does not compile.
#[verifier::external_body]
pub(crate) fn replace_first(pattern: &str, text: &str, with: &str) -> (changed: String)
    ensures
        changed@ == replaced(pattern@, text@, with@),
        captured(pattern@, text@) is None ==> changed@ == text@,
{
    match regex::Regex::new(pattern) {
        Ok(regex) => regex.replace(text, with).into_owned(),
        Err(_) => text.to_string(),
    }
}

/// The text that capture group `index` matched among the groups of a match:
/// the empty text where the pattern has no such group, and where the group
/// took no part in the match.
pub open spec fn part_of(groups: Seq<Option<Seq<char>>>, index: int) -> Seq<char> {
    if 0 <= index < groups.len() {
        match groups[index] {
            Some(text) => text,
            None => Seq::empty(),
        }
    } else {
        Seq::empty()
    }
}

/// The text that capture group `index` matched.
pub fn part(groups: &Vec<Option<String>>, index: usize) -> (text: String)
    ensures
        text@ == part_of(groups.deep_view(), index as int),
{
    if index < groups.len() {
        match &groups[index] {
            Some(text) => text.clone(),
            None => String::new(),
        }
    } else {
        String::new()
    }
}

} // verus!
