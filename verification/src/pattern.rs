//! Regular-expression matching, done by the `regex` crate.

use vstd::prelude::*;

verus! {

/// The capture groups of the leftmost-first match of `pattern` in `text`, as the
/// `regex` crate reports them (group 0 is the whole match; a group that took no part
/// in the match is `None`), or `None` where the pattern does not match or does not compile.
pub uninterp spec fn regex_captures(pattern: Seq<char>, text: Seq<char>) -> Option<
    Seq<Option<Seq<char>>>,
>;

/// The view of what [`captures`] returns.
pub open spec fn captures_view(c: Option<Vec<Option<String>>>) -> Option<Seq<Option<Seq<char>>>> {
    match c {
        Some(groups) => Some(
            groups@.map_values(
                |g: Option<String>|
                    match g {
                        Some(s) => Some(s@),
                        None => None,
                    },
            ),
        ),
        None => None,
    }
}

/// Capture group `i`, if the match has such a group and it took part.
pub open spec fn group(groups: Seq<Option<Seq<char>>>, i: int) -> Option<Seq<char>> {
    if 0 <= i < groups.len() {
        groups[i]
    } else {
        None
    }
}

/// `regex::Regex::new(pattern)` followed by `Regex::captures(text)`: the capture groups of
/// the first match, each copied into a `String`. Claimed: the result is the one the
/// `regex` crate computes; a pattern that does not compile gives `None`.
#[verifier::external_body]
pub(crate) fn captures(pattern: &str, text: &str) -> (r: Option<Vec<Option<String>>>)
    ensures
        captures_view(r) == regex_captures(pattern@, text@),
{
    let re = match regex::Regex::new(pattern) {
        Ok(re) => re,
        Err(_) => return None,
    };
    re.captures(text).map(|c| c.iter().map(|m| m.map(|m| m.as_str().to_owned())).collect())
}

/// Group `i` of a capture, copied.
pub fn group_of(groups: &Vec<Option<String>>, i: usize) -> (r: Option<String>)
    ensures
        match r {
            Some(s) => group(
                captures_view(Some(*groups)).unwrap(),
                i as int,
            ) == Some(s@),
            None => group(captures_view(Some(*groups)).unwrap(), i as int) is None,
        },
{
    if i < groups.len() {
        match &groups[i] {
            Some(s) => Some(s.clone()),
            None => None,
        }
    } else {
        None
    }
}

} // verus!
