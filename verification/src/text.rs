//! String operations of the standard library that the analysis relies on,
//! each with the contract the rest of the crate reasons from.

use vstd::prelude::*;

verus! {

/// The views of a sequence of strings, element by element.
pub open spec fn strings_view(v: Seq<String>) -> Seq<Seq<char>> {
    v.map_values(|s: String| s@)
}

/// Index of the first line feed in `s`, or `s.len()` if there is none.
pub open spec fn first_line_feed(s: Seq<char>) -> int
    decreases s.len(),
{
    if s.len() == 0 || s[0] == '\n' {
        0
    } else {
        1 + first_line_feed(s.drop_first())
    }
}

/// `s` without one trailing carriage return, if it ends in one.
pub open spec fn without_carriage_return(s: Seq<char>) -> Seq<char> {
    if s.len() > 0 && s.last() == '\r' {
        s.drop_last()
    } else {
        s
    }
}

/// The lines of a text. A line ends at a line feed, or at a carriage return
/// directly followed by a line feed; the line ending is not part of the line.
/// The last line needs no line ending, and an empty remainder after the last
/// line ending is no line.
pub open spec fn lines_of(s: Seq<char>) -> Seq<Seq<char>>
    decreases s.len(),
{
    if s.len() == 0 {
        Seq::empty()
    } else {
        let k = first_line_feed(s);
        if 0 <= k < s.len() {
            seq![without_carriage_return(s.subrange(0, k))] + lines_of(
                s.subrange(k + 1, s.len() as int),
            )
        } else {
            seq![s]
        }
    }
}

/// Whether a character has the Unicode property `White_Space`, which is what
/// `str::trim` removes and `char::is_whitespace` tests.
pub uninterp spec fn is_white_space(c: char) -> bool;

/// The number of whitespace characters that `s` begins with.
pub open spec fn leading_white_space(s: Seq<char>) -> int
    decreases s.len(),
{
    if s.len() == 0 || !is_white_space(s[0]) {
        0
    } else {
        1 + leading_white_space(s.drop_first())
    }
}

/// The number of whitespace characters that `s` ends with.
pub open spec fn trailing_white_space(s: Seq<char>) -> int
    decreases s.len(),
{
    if s.len() == 0 || !is_white_space(s.last()) {
        0
    } else {
        1 + trailing_white_space(s.drop_last())
    }
}

/// Whether a text neither begins nor ends with whitespace.
pub open spec fn is_tight(s: Seq<char>) -> bool {
    s.len() > 0 ==> !is_white_space(s.first()) && !is_white_space(s.last())
}

/// A text without its leading and trailing whitespace; empty where the text
/// is whitespace throughout.
pub open spec fn trimmed(s: Seq<char>) -> Seq<char> {
    let start = leading_white_space(s);
    if start >= s.len() {
        Seq::empty()
    } else {
        s.subrange(start, s.len() - trailing_white_space(s))
    }
}

/// The lowercase form of a text, as `str::to_lowercase` computes it from the
/// Unicode case mappings.
pub uninterp spec fn lowercase_of(s: Seq<char>) -> Seq<char>;

/// `str::starts_with` for a string pattern: true exactly when `prefix` is an
/// initial segment of `s`.
#[verifier::external_body]
pub(crate) fn starts_with(s: &str, prefix: &str) -> (r: bool)
    ensures
        r == prefix@.is_prefix_of(s@),
{
    s.starts_with(prefix)
}

/// `str::lines`: the lines of `content` in order, as owned strings. The
/// contract restates the documented splitting rule as `lines_of`.
#[verifier::external_body]
pub(crate) fn split_lines(content: &str) -> (r: Vec<String>)
    ensures
        strings_view(r@) == lines_of(content@),
{
    content.lines().map(|line| line.to_string()).collect()
}

/// `str::trim`: `s` without its leading and trailing whitespace, where
/// whitespace is what has the Unicode property `White_Space`. What is left
/// neither begins nor ends with whitespace.
#[verifier::external_body]
pub(crate) fn trim(s: &str) -> (r: String)
    ensures
        r@ == trimmed(s@),
        r@.len() > 0 ==> !is_white_space(r@.first()) && !is_white_space(r@.last()),
{
    s.trim().to_string()
}

/// `str::to_lowercase`: the result is named by `lowercase_of`; nothing more
/// is claimed of it.
#[verifier::external_body]
pub(crate) fn to_lowercase(s: &str) -> (r: String)
    ensures
        r@ == lowercase_of(s@),
{
    s.to_lowercase()
}

/// What `leading_white_space` counts: the characters before that index are
/// whitespace, and the one at it, if there is one, is not.
pub proof fn lemma_leading_white_space(s: Seq<char>)
    ensures
        0 <= leading_white_space(s) <= s.len(),
        forall|i: int| 0 <= i < leading_white_space(s) ==> is_white_space(#[trigger] s[i]),
        leading_white_space(s) < s.len() ==> !is_white_space(s[leading_white_space(s)]),
    decreases s.len(),
{
    if s.len() > 0 && is_white_space(s[0]) {
        let rest = s.drop_first();
        lemma_leading_white_space(rest);
        assert forall|i: int| 0 <= i < leading_white_space(s) implies is_white_space(
            #[trigger] s[i],
        ) by {
            if i > 0 {
                assert(s[i] == rest[i - 1]);
            }
        }
        if leading_white_space(s) < s.len() {
            assert(s[leading_white_space(s)] == rest[leading_white_space(rest)]);
        }
    }
}

/// What `trailing_white_space` counts: that many characters at the end are
/// whitespace, and the one before them, if there is one, is not.
pub proof fn lemma_trailing_white_space(s: Seq<char>)
    ensures
        0 <= trailing_white_space(s) <= s.len(),
        forall|i: int|
            s.len() - trailing_white_space(s) <= i < s.len() ==> is_white_space(#[trigger] s[i]),
        trailing_white_space(s) < s.len() ==> !is_white_space(
            s[s.len() - trailing_white_space(s) - 1],
        ),
    decreases s.len(),
{
    if s.len() > 0 && is_white_space(s.last()) {
        let rest = s.drop_last();
        lemma_trailing_white_space(rest);
        assert forall|i: int|
            s.len() - trailing_white_space(s) <= i < s.len() implies is_white_space(
            #[trigger] s[i],
        ) by {
            if i < s.len() - 1 {
                assert(s[i] == rest[i]);
            }
        }
        if trailing_white_space(s) < s.len() {
            assert(s[s.len() - trailing_white_space(s) - 1] == rest[rest.len()
                - trailing_white_space(rest) - 1]);
        }
    }
}

/// Trimming cuts whitespace only, and all of it at both ends: what is cut
/// before and behind is whitespace, and what is left is a part of the text
/// that neither begins nor ends with whitespace.
pub proof fn lemma_trimmed(s: Seq<char>)
    ensures
        forall|i: int| 0 <= i < leading_white_space(s) ==> is_white_space(#[trigger] s[i]),
        forall|i: int|
            s.len() - trailing_white_space(s) <= i < s.len() ==> is_white_space(#[trigger] s[i]),
        trimmed(s).len() == 0 ==> forall|i: int| 0 <= i < s.len() ==> is_white_space(#[trigger] s[i]),
        trimmed(s).len() > 0 ==> {
            &&& 0 <= leading_white_space(s) < s.len() - trailing_white_space(s) <= s.len()
            &&& trimmed(s) == s.subrange(
                leading_white_space(s),
                s.len() - trailing_white_space(s),
            )
            &&& !is_white_space(trimmed(s).first())
            &&& !is_white_space(trimmed(s).last())
        },
        is_tight(trimmed(s)),
{
    lemma_leading_white_space(s);
    lemma_trailing_white_space(s);
    let start = leading_white_space(s);
    let end = s.len() - trailing_white_space(s);
    if start < s.len() {
        assert(!is_white_space(s[start]));
        assert(start < end);
        assert(trimmed(s).first() == s[start]);
        assert(trimmed(s).last() == s[end - 1]);
    }
}

} // verus!
