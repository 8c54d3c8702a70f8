//! Regular-expression matching, done by the `regex` crate, and the verified
//! reading of what a match captured.

use vstd::prelude::*;

verus! {

/// A compiled regular expression of the `regex` crate. Nothing inside it is
/// visible to the proofs; `found_by` stands for what it finds.
#[verifier::external_type_specification]
#[verifier::external_body]
pub struct ExRegex(regex::Regex);

/// What one match captured: the groups by index, group 0 being the whole
/// match; a group that took no part in the match is `None`.
pub type GroupsView = Seq<Option<Seq<char>>>;

/// The successive non-overlapping matches of a compiled expression in
/// `haystack`, leftmost first, each with its capture groups, as
/// `Regex::captures_iter` yields them.
pub uninterp spec fn found_by(compiled: regex::Regex, haystack: Seq<char>) -> Seq<GroupsView>;

/// The matches in `haystack` of the expression that `Regex::new` compiles
/// `pattern` to; `None` when `pattern` is not a regular expression that the
/// `regex` crate compiles.
pub uninterp spec fn pattern_matches(pattern: Seq<char>, haystack: Seq<char>) -> Option<
    Seq<GroupsView>,
>;

/// Whether `compiled` is what compiling `pattern` gave: an expression that
/// finds the matches of `pattern`, or nothing where `pattern` does not
/// compile.
pub open spec fn compiled_from(compiled: Option<regex::Regex>, pattern: Seq<char>) -> bool {
    match compiled {
        Some(expression) => forall|haystack: Seq<char>|
            pattern_matches(pattern, haystack) == Some(#[trigger] found_by(expression, haystack)),
        None => forall|haystack: Seq<char>|
            (#[trigger] pattern_matches(pattern, haystack)) is None,
    }
}

/// View of one capture group.
pub open spec fn group_view(group: Option<String>) -> Option<Seq<char>> {
    match group {
        Some(s) => Some(s@),
        None => None,
    }
}

/// View of the capture groups of one match.
pub open spec fn groups_view(groups: Vec<Option<String>>) -> GroupsView {
    groups@.map_values(|g: Option<String>| group_view(g))
}

/// View of a list of matches.
pub open spec fn matches_view(matches: Seq<Vec<Option<String>>>) -> Seq<GroupsView> {
    matches.map_values(|m: Vec<Option<String>>| groups_view(m))
}

/// View of what a search returned.
pub open spec fn search_view(found: Option<Vec<Vec<Option<String>>>>) -> Option<Seq<GroupsView>> {
    match found {
        Some(ms) => Some(matches_view(ms@)),
        None => None,
    }
}

/// The first two capture groups of a match, when the match has both.
pub open spec fn captured_pair(groups: GroupsView) -> Option<(Seq<char>, Seq<char>)> {
    if groups.len() >= 3 && groups[1] is Some && groups[2] is Some {
        Some((groups[1]->0, groups[2]->0))
    } else {
        None
    }
}

/// The captured pairs of all matches that have one, in match order.
pub open spec fn captured_pairs(matches: Seq<GroupsView>) -> Seq<(Seq<char>, Seq<char>)> {
    matches.filter_map(|g: GroupsView| captured_pair(g))
}

/// View of a list of string pairs.
pub open spec fn pairs_view(pairs: Seq<(String, String)>) -> Seq<(Seq<char>, Seq<char>)> {
    pairs.map_values(|p: (String, String)| (p.0@, p.1@))
}

/// `Regex::new`: compiles `pattern`. What the compiled expression finds in
/// any haystack is what `pattern_matches` names for the pattern; a pattern
/// that does not compile has no matches. The error of a failed compilation
/// is dropped.
#[verifier::external_body]
pub(crate) fn compile(pattern: &str) -> (compiled: Option<regex::Regex>)
    ensures
        match compiled {
            Some(expression) => forall|haystack: Seq<char>|
                pattern_matches(pattern@, haystack) == Some(
                    #[trigger] found_by(expression, haystack),
                ),
            None => forall|haystack: Seq<char>|
                (#[trigger] pattern_matches(pattern@, haystack)) is None,
        },
{
    regex::Regex::new(pattern).ok()
}

/// `Regex::captures_iter`: all matches of a compiled expression in
/// `haystack`. The outcome is named by `found_by`; the body only copies each
/// group of each match into an owned string.
#[verifier::external_body]
pub(crate) fn search(compiled: &regex::Regex, haystack: &str) -> (found: Vec<Vec<Option<String>>>)
    ensures
        matches_view(found@) == found_by(*compiled, haystack@),
{
    compiled.captures_iter(haystack).map(
        |caps| caps.iter().map(|group| group.map(|m| m.as_str().to_string())).collect(),
    ).collect()
}

/// Searches `haystack` with what compiling a pattern gave: the matches of
/// that pattern, or nothing where the pattern did not compile.
pub(crate) fn find_matches(compiled: &Option<regex::Regex>, haystack: &str) -> (found: Option<
    Vec<Vec<Option<String>>>,
>)
    ensures
        forall|pattern: Seq<char>| #[trigger]
            compiled_from(*compiled, pattern) ==> search_view(found) == pattern_matches(
                pattern,
                haystack@,
            ),
{
    match compiled {
        Some(expression) => Some(search(expression, haystack)),
        None => None,
    }
}

/// Reads the first two capture groups of one match.
pub fn pair_of_match(groups: &Vec<Option<String>>) -> (pair: Option<(String, String)>)
    ensures
        match pair {
            Some(p) => captured_pair(groups_view(*groups)) == Some((p.0@, p.1@)),
            None => captured_pair(groups_view(*groups)) is None,
        },
{
    if groups.len() < 3 {
        return None;
    }
    match (&groups[1], &groups[2]) {
        (Some(first), Some(second)) => Some((first.clone(), second.clone())),
        _ => None,
    }
}

/// Reads the captured pairs out of a list of matches, skipping any match
/// that lacks one of the two groups.
pub fn pairs_of_matches(matches: &Vec<Vec<Option<String>>>) -> (pairs: Vec<(String, String)>)
    ensures
        pairs_view(pairs@) == captured_pairs(matches_view(matches@)),
{
    let mut pairs: Vec<(String, String)> = Vec::new();
    let ghost all = matches_view(matches@);
    let ghost f = |g: GroupsView| captured_pair(g);
    for i in 0..matches.len()
        invariant
            all == matches_view(matches@),
            f == (|g: GroupsView| captured_pair(g)),
            pairs_view(pairs@) == all.take(i as int).filter_map(f),
    {
        proof {
            all.lemma_filter_map_take_succ(f, i as int);
        }
        let ghost before = pairs@;
        match pair_of_match(&matches[i]) {
            Some(p) => {
                pairs.push(p);
                assert(pairs_view(pairs@) =~= pairs_view(before) + seq![(p.0@, p.1@)]);
            },
            None => {},
        }
    }
    assert(all.take(matches.len() as int) =~= all);
    pairs
}

} // verus!
