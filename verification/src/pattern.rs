//! Regular expressions, for reading the debuggers' output.

use vstd::prelude::*;

verus! {

/// The groups of one match of a regular expression: the whole match first,
/// then each capture group, `None` where a group took no part.
pub type GroupsView = Seq<Option<Seq<char>>>;

/// The matches of the regular expression `pattern` in `text`, left to right
/// and not overlapping, as the regex crate's `Regex::captures_iter` finds
/// them; no match where `pattern` is no valid regular expression.
pub uninterp spec fn regex_captures(pattern: Seq<char>, text: Seq<char>) -> Seq<GroupsView>;

/// The model of one match.
pub open spec fn groups_view(g: Seq<Option<String>>) -> GroupsView {
    Seq::new(g.len(), |i: int| match g[i] { Some(s) => Some(s@), None => None })
}

/// The model of a list of matches.
pub open spec fn captures_view(c: Seq<Vec<Option<String>>>) -> Seq<GroupsView> {
    Seq::new(c.len(), |i: int| groups_view(c[i]@))
}

/// `Regex::new(pattern)` and then `captures_iter(text)`, each match given
/// as its groups; an invalid pattern gives no match. Named by
/// `regex_captures`.
#[verifier::external_body]
pub(crate) fn captures(pattern: &str, text: &str) -> (r: Vec<Vec<Option<String>>>)
    ensures
        captures_view(r@) == regex_captures(pattern@, text@),
{
    match regex::Regex::new(pattern) {
        Ok(re) => re
            .captures_iter(text)
            .map(|c| c.iter().map(|m| m.map(|m| m.as_str().to_string())).collect())
            .collect(),
        Err(_) => Vec::new(),
    }
}

/// Group `i` of match `g`, where it exists and took part.
pub open spec fn group(g: GroupsView, i: int) -> Option<Seq<char>> {
    if 0 <= i < g.len() { g[i] } else { None }
}

/// Group `i` of match `g`, where it exists and took part.
pub fn get_group(g: &Vec<Option<String>>, i: usize) -> (r: Option<String>)
    ensures
        match r {
            Some(s) => group(groups_view(g@), i as int) == Some(s@),
            None => group(groups_view(g@), i as int) is None,
        },
{
    if i < g.len() {
        match &g[i] {
            Some(s) => Some(s.clone()),
            None => None,
        }
    } else {
        None
    }
}

/// Whether `pattern` matches somewhere in `text`.
pub fn is_match(pattern: &str, text: &str) -> (r: bool)
    ensures
        r == (regex_captures(pattern@, text@).len() > 0),
{
    let c = captures(pattern, text);
    assert(captures_view(c@).len() == c@.len());
    c.len() > 0
}

} // verus!
