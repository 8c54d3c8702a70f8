//! Link extraction: from the text of one document to the links that occur in
//! it, reference-style links resolved through the document's definitions.

use vstd::prelude::*;
use crate::analyzer::LinkAnalyzer;
use crate::pattern::{captured_pair, captured_pairs, compile, compiled_from, find_matches,
    pair_of_match, pairs_of_matches, pairs_view, pattern_matches, search_view, GroupsView};
use crate::references::ReferenceTable;
use crate::text::{lines_of, lowercase_of, split_lines, strings_view, to_lowercase, trim, trimmed};

verus! {

/// A reference definition: a bracketed label at the start of the line, a
/// colon, and the target, which runs to the end of the line.
pub const DEFINITION_PATTERN: &'static str = "^\\[([^\\]]+)\\]:\\s*(.+)$";

/// An inline link: bracketed text directly followed by the target in
/// parentheses.
pub const INLINE_LINK_PATTERN: &'static str = "\\[([^\\]]+)\\]\\(([^)]+)\\)";

/// A reference-style link: bracketed text directly followed by a bracketed
/// label, which may be empty.
pub const REFERENCE_LINK_PATTERN: &'static str = "\\[([^\\]]+)\\]\\[([^\\]]*)\\]";

/// A link occurrence: display text, target, and the 1-based line it is on.
pub type Occurrence = (Seq<char>, Seq<char>, nat);

/// The captured pairs of a search; a search that could not be made has none.
pub open spec fn pairs_of_search(found: Option<Seq<GroupsView>>) -> Seq<(Seq<char>, Seq<char>)> {
    match found {
        Some(ms) => captured_pairs(ms),
        None => Seq::empty(),
    }
}

/// The captured pair of the first match of a search.
pub open spec fn first_pair_of_search(found: Option<Seq<GroupsView>>) -> Option<
    (Seq<char>, Seq<char>),
> {
    match found {
        Some(ms) => if ms.len() > 0 {
            captured_pair(ms[0])
        } else {
            None
        },
        None => None,
    }
}

/// The definition that a line makes, if it is a definition line: the label
/// in lowercase and the trimmed target.
pub open spec fn definition_in_line(line: Seq<char>) -> Option<(Seq<char>, Seq<char>)> {
    match first_pair_of_search(pattern_matches(DEFINITION_PATTERN@, line)) {
        Some(p) => Some((lowercase_of(p.0), trimmed(p.1))),
        None => None,
    }
}

/// The definitions that a list of lines makes, in line order.
pub open spec fn definition_list(lines: Seq<Seq<char>>) -> Seq<(Seq<char>, Seq<char>)> {
    lines.filter_map(|line: Seq<char>| definition_in_line(line))
}

/// The definitions of a document as a map: of two definitions of one label
/// the later one counts.
pub open spec fn definitions_in(lines: Seq<Seq<char>>) -> Map<Seq<char>, Seq<char>> {
    crate::references::table_of(definition_list(lines))
}

/// The text that a reference-style link is looked up by, before it is put in
/// lowercase: the label, or the display text where the label is empty.
pub open spec fn key_source(text: Seq<char>, label: Seq<char>) -> Seq<char> {
    if label.len() == 0 {
        text
    } else {
        label
    }
}

/// A reference-style link with its target looked up in `definitions`; `None`
/// where its label is not defined.
pub open spec fn resolved_reference(
    definitions: Map<Seq<char>, Seq<char>>,
    reference: (Seq<char>, Seq<char>),
) -> Option<(Seq<char>, Seq<char>)> {
    let key = lowercase_of(key_source(reference.0, reference.1));
    if definitions.dom().contains(key) {
        Some((reference.0, definitions[key]))
    } else {
        None
    }
}

/// The reference-style links among `references` whose label is defined, each
/// with the target that its label stands for.
pub open spec fn resolved_references(
    definitions: Map<Seq<char>, Seq<char>>,
    references: Seq<(Seq<char>, Seq<char>)>,
) -> Seq<(Seq<char>, Seq<char>)> {
    references.filter_map(|r: (Seq<char>, Seq<char>)| resolved_reference(definitions, r))
}

/// The links of one line as pairs of text and target: the inline links from
/// left to right, then the resolved reference-style links from left to right.
pub open spec fn links_in_line(line: Seq<char>, definitions: Map<Seq<char>, Seq<char>>) -> Seq<
    (Seq<char>, Seq<char>),
> {
    pairs_of_search(pattern_matches(INLINE_LINK_PATTERN@, line)) + resolved_references(
        definitions,
        pairs_of_search(pattern_matches(REFERENCE_LINK_PATTERN@, line)),
    )
}

/// Pairs of text and target, each with the line number `number`.
pub open spec fn numbered(pairs: Seq<(Seq<char>, Seq<char>)>, number: nat) -> Seq<Occurrence> {
    pairs.map_values(|p: (Seq<char>, Seq<char>)| (p.0, p.1, number))
}

/// The links of a list of lines, line by line, the first line being line 1.
pub open spec fn links_in_lines(lines: Seq<Seq<char>>, definitions: Map<Seq<char>, Seq<char>>) -> Seq<
    Occurrence,
>
    decreases lines.len(),
{
    if lines.len() == 0 {
        Seq::empty()
    } else {
        links_in_lines(lines.drop_last(), definitions) + numbered(
            links_in_line(lines.last(), definitions),
            lines.len(),
        )
    }
}

/// The links of a document: its definitions are collected from all of its
/// lines first, so a link may stand before or after the definition it uses.
pub open spec fn extracted_links(content: Seq<char>) -> Seq<Occurrence> {
    let lines = lines_of(content);
    links_in_lines(lines, definitions_in(lines))
}

/// View of a list of extracted links.
pub open spec fn occurrences_view(links: Seq<(String, String, usize)>) -> Seq<Occurrence> {
    links.map_values(|l: (String, String, usize)| (l.0@, l.1@, l.2 as nat))
}

/// Reads the captured pairs out of what a search returned.
pub fn pairs_of_found(found: &Option<Vec<Vec<Option<String>>>>) -> (pairs: Vec<(String, String)>)
    ensures
        pairs_view(pairs@) == pairs_of_search(search_view(*found)),
{
    match found {
        Some(matches) => pairs_of_matches(matches),
        None => {
            let pairs: Vec<(String, String)> = Vec::new();
            assert(pairs_view(pairs@) =~= Seq::empty());
            pairs
        },
    }
}

/// Reads the captured pair of the first match out of what a search returned.
pub fn first_pair_of_found(found: &Option<Vec<Vec<Option<String>>>>) -> (pair: Option<
    (String, String),
>)
    ensures
        match pair {
            Some(p) => first_pair_of_search(search_view(*found)) == Some((p.0@, p.1@)),
            None => first_pair_of_search(search_view(*found)) is None,
        },
{
    match found {
        Some(matches) => {
            if matches.len() > 0 {
                pair_of_match(&matches[0])
            } else {
                None
            }
        },
        None => None,
    }
}

/// Collects the reference definitions of a document from its lines.
pub fn collect_definitions(lines: &Vec<String>) -> (table: ReferenceTable)
    ensures
        table@ == definitions_in(strings_view(lines@)),
{
    let mut table = ReferenceTable::new();
    let definition = compile(DEFINITION_PATTERN);
    let ghost all = strings_view(lines@);
    let ghost f = |line: Seq<char>| definition_in_line(line);
    for i in 0..lines.len()
        invariant
            all == strings_view(lines@),
            compiled_from(definition, DEFINITION_PATTERN@),
            f == (|line: Seq<char>| definition_in_line(line)),
            table@ == crate::references::table_of(all.take(i as int).filter_map(f)),
    {
        proof {
            all.lemma_filter_map_take_succ(f, i as int);
        }
        let found = find_matches(&definition, lines[i].as_str());
        match first_pair_of_found(&found) {
            Some(pair) => {
                let label = to_lowercase(pair.0.as_str());
                let target = trim(pair.1.as_str());
                let ghost earlier = all.take(i as int).filter_map(f);
                let ghost entry = (label@, target@);
                table.insert(label, target);
                assert((earlier + seq![entry]).drop_last() =~= earlier);
            },
            None => {},
        }
    }
    assert(all.take(lines.len() as int) =~= all);
    table
}

/// Looks up each reference-style link in `table` and keeps those whose label
/// is defined, with the defined target in place of the label.
pub fn resolve_references(table: &ReferenceTable, references: &Vec<(String, String)>) -> (resolved:
    Vec<(String, String)>)
    ensures
        pairs_view(resolved@) == resolved_references(table@, pairs_view(references@)),
{
    let mut resolved: Vec<(String, String)> = Vec::new();
    let ghost all = pairs_view(references@);
    let ghost f = |r: (Seq<char>, Seq<char>)| resolved_reference(table@, r);
    for i in 0..references.len()
        invariant
            all == pairs_view(references@),
            f == (|r: (Seq<char>, Seq<char>)| resolved_reference(table@, r)),
            pairs_view(resolved@) == all.take(i as int).filter_map(f),
    {
        proof {
            all.lemma_filter_map_take_succ(f, i as int);
        }
        let ghost before = resolved@;
        let text = &references[i].0;
        let label = &references[i].1;
        let key = if label.as_str().is_empty() {
            to_lowercase(text.as_str())
        } else {
            to_lowercase(label.as_str())
        };
        match table.get(key.as_str()) {
            Some(target) => {
                resolved.push((text.clone(), target));
                assert(pairs_view(resolved@) =~= pairs_view(before) + seq![(text@, target@)]);
            },
            None => {},
        }
    }
    assert(all.take(references.len() as int) =~= all);
    resolved
}

/// Appends `pairs` to `links`, each with the line number `number`.
pub fn append_numbered(
    links: &mut Vec<(String, String, usize)>,
    pairs: &Vec<(String, String)>,
    number: usize,
)
    ensures
        occurrences_view(final(links)@) == occurrences_view(old(links)@) + numbered(
            pairs_view(pairs@),
            number as nat,
        ),
{
    let ghost start = occurrences_view(links@);
    let ghost all = pairs_view(pairs@);
    for i in 0..pairs.len()
        invariant
            all == pairs_view(pairs@),
            occurrences_view(links@) == start + numbered(all.take(i as int), number as nat),
    {
        let ghost before = links@;
        links.push((pairs[i].0.clone(), pairs[i].1.clone(), number));
        assert(occurrences_view(links@) =~= occurrences_view(before).push(
            (all[i as int].0, all[i as int].1, number as nat),
        ));
        assert(numbered(all.take(i + 1), number as nat) =~= numbered(
            all.take(i as int),
            number as nat,
        ).push((all[i as int].0, all[i as int].1, number as nat)));
    }
    assert(all.take(pairs.len() as int) =~= all);
}

impl LinkAnalyzer {
    /// Extracts the links of a document from its text: each with its display
    /// text, its target as written (for a reference-style link, as defined),
    /// and its line number. Within a line the inline links come first.
    pub fn extract_links(content: &str) -> (links: Vec<(String, String, usize)>)
        ensures
            occurrences_view(links@) == extracted_links(content@),
    {
        let lines = split_lines(content);
        let table = collect_definitions(&lines);
        let inline_link = compile(INLINE_LINK_PATTERN);
        let reference_link = compile(REFERENCE_LINK_PATTERN);
        let ghost all = strings_view(lines@);
        let mut links: Vec<(String, String, usize)> = Vec::new();
        assert(occurrences_view(links@) =~= Seq::empty());
        for i in 0..lines.len()
            invariant
                all == strings_view(lines@),
                compiled_from(inline_link, INLINE_LINK_PATTERN@),
                compiled_from(reference_link, REFERENCE_LINK_PATTERN@),
                occurrences_view(links@) == links_in_lines(all.take(i as int), table@),
        {
            assert(all.take(i + 1).drop_last() =~= all.take(i as int));
            let line = lines[i].as_str();
            let inline = pairs_of_found(&find_matches(&inline_link, line));
            let references = pairs_of_found(&find_matches(&reference_link, line));
            let resolved = resolve_references(&table, &references);
            append_numbered(&mut links, &inline, i + 1);
            append_numbered(&mut links, &resolved, i + 1);
            assert(numbered(pairs_view(inline@) + pairs_view(resolved@), (i + 1) as nat)
                =~= numbered(pairs_view(inline@), (i + 1) as nat) + numbered(
                pairs_view(resolved@),
                (i + 1) as nat,
            ));
        }
        assert(all.take(lines.len() as int) =~= all);
        links
    }
}

} // verus!
