//! Properties of the queries that hold of every corpus and every snapshot.

use vstd::prelude::*;
use crate::analyzer::LinkAnalyzer;
use crate::corpus::{corpus_wf, DocumentView};
use crate::disk::{canonical_on, probed, DiskSnapshot, DiskView};
use crate::extract::{definition_in_line, definition_list, definitions_in, extracted_links,
    links_in_line, links_in_lines, numbered};
use crate::link::{BrokenLink, BrokenLinkView, LinkStatistics, LinkView};
use crate::paths::joined_path;
use crate::queries::{broken_in_corpus, broken_in_document, broken_link_of, broken_of_document,
    broken_view, counts_document, covers, document_paths, is_statistics_of, joined_in_document,
    joined_of_document, joined_of_link, lemma_filter_map_keeps, lemma_filter_no_duplicates,
    lemma_flatten_contains, orphan_test, orphans_in_corpus, probe_paths, referenced_paths,
    root_anchors};
use crate::references::lemma_table_of_entry;
use crate::resolve::{broken_link, is_external_target, joined_target, resolved_path};
use crate::text::{is_tight, lemma_trimmed, lines_of, strings_view};

verus! {

/// The links of a list of lines carry line numbers from 1 to the number of
/// lines, and come in the order of their lines.
pub proof fn lemma_links_in_line_order(
    lines: Seq<Seq<char>>,
    definitions: Map<Seq<char>, Seq<char>>,
)
    ensures
        forall|i: int|
            0 <= i < links_in_lines(lines, definitions).len() ==> 1 <= (#[trigger] links_in_lines(
                lines,
                definitions,
            )[i]).2 <= lines.len(),
        forall|i: int, j: int|
            0 <= i <= j < links_in_lines(lines, definitions).len() ==> (#[trigger] links_in_lines(
                lines,
                definitions,
            )[i]).2 <= (#[trigger] links_in_lines(lines, definitions)[j]).2,
    decreases lines.len(),
{
    if lines.len() > 0 {
        lemma_links_in_line_order(lines.drop_last(), definitions);
        let earlier = links_in_lines(lines.drop_last(), definitions);
        let last = numbered(links_in_line(lines.last(), definitions), lines.len());
        let all = links_in_lines(lines, definitions);
        assert(all == earlier + last);
        assert forall|i: int| 0 <= i < all.len() implies 1 <= (#[trigger] all[i]).2
            <= lines.len() by {
            if i < earlier.len() {
                assert(all[i] == earlier[i]);
            } else {
                assert(all[i] == last[i - earlier.len()]);
            }
        }
        assert forall|i: int, j: int| 0 <= i <= j < all.len() implies (#[trigger] all[i]).2 <= (
        #[trigger] all[j]).2 by {
            if i < earlier.len() {
                assert(all[i] == earlier[i]);
            } else {
                assert(all[i] == last[i - earlier.len()]);
            }
            if j < earlier.len() {
                assert(all[j] == earlier[j]);
            } else {
                assert(all[j] == last[j - earlier.len()]);
            }
        }
    }
}

/// The links extracted from a document carry line numbers from 1 to the
/// number of its lines, and come in the order of their lines.
pub proof fn lemma_extracted_in_line_order(content: Seq<char>)
    ensures
        forall|i: int|
            0 <= i < extracted_links(content).len() ==> 1 <= (#[trigger] extracted_links(
                content,
            )[i]).2 <= lines_of(content).len(),
        forall|i: int, j: int|
            0 <= i <= j < extracted_links(content).len() ==> (#[trigger] extracted_links(
                content,
            )[i]).2 <= (#[trigger] extracted_links(content)[j]).2,
{
    let lines = lines_of(content);
    lemma_links_in_line_order(lines, definitions_in(lines));
}

/// The broken-link query is repeatable: two answers to it over the same
/// corpus and under the same snapshot are the same list.
pub proof fn lemma_broken_links_repeatable(
    analyzer: LinkAnalyzer,
    disk: DiskSnapshot,
    first: Vec<BrokenLink>,
    second: Vec<BrokenLink>,
)
    requires
        broken_view(first@) == broken_in_corpus(disk@, analyzer.base(), analyzer.corpus()),
        broken_view(second@) == broken_in_corpus(disk@, analyzer.base(), analyzer.corpus()),
    ensures
        broken_view(first@) == broken_view(second@),
        first@.len() == second@.len(),
{
    assert(broken_view(first@).len() == first@.len());
    assert(broken_view(second@).len() == second@.len());
}

/// The orphan query is repeatable: two answers to it over the same corpus
/// and under the same snapshot are the same list.
pub proof fn lemma_orphans_repeatable(
    analyzer: LinkAnalyzer,
    disk: DiskSnapshot,
    first: Vec<String>,
    second: Vec<String>,
)
    requires
        strings_view(first@) == orphans_in_corpus(disk@, analyzer.base(), analyzer.corpus()),
        strings_view(second@) == orphans_in_corpus(disk@, analyzer.base(), analyzer.corpus()),
    ensures
        strings_view(first@) == strings_view(second@),
        first@.len() == second@.len(),
{
    assert(strings_view(first@).len() == first@.len());
    assert(strings_view(second@).len() == second@.len());
}

/// The statistics are repeatable: two snapshots of statistics over the same
/// corpus and under the same disk snapshot agree in every count, and
/// document by document in path and counts.
pub proof fn lemma_statistics_repeatable(
    analyzer: LinkAnalyzer,
    disk: DiskSnapshot,
    first: LinkStatistics,
    second: LinkStatistics,
)
    requires
        is_statistics_of(first, disk@, analyzer.base(), analyzer.corpus()),
        is_statistics_of(second, disk@, analyzer.base(), analyzer.corpus()),
    ensures
        first.total_documents == second.total_documents,
        first.total_links == second.total_links,
        first.internal_links == second.internal_links,
        first.external_links == second.external_links,
        first.broken_links == second.broken_links,
        first.orphaned_documents == second.orphaned_documents,
        first.document_stats@.len() == second.document_stats@.len(),
        forall|i: int|
            0 <= i < first.document_stats@.len() ==> {
                &&& (#[trigger] first.document_stats@[i]).0@ == second.document_stats@[i].0@
                &&& first.document_stats@[i].1.total_links
                    == second.document_stats@[i].1.total_links
                &&& first.document_stats@[i].1.internal_links
                    == second.document_stats@[i].1.internal_links
                &&& first.document_stats@[i].1.external_links
                    == second.document_stats@[i].1.external_links
            },
{
    let docs = analyzer.corpus();
    assert forall|i: int| 0 <= i < first.document_stats@.len() implies {
        &&& (#[trigger] first.document_stats@[i]).0@ == second.document_stats@[i].0@
        &&& first.document_stats@[i].1.total_links == second.document_stats@[i].1.total_links
        &&& first.document_stats@[i].1.internal_links
            == second.document_stats@[i].1.internal_links
        &&& first.document_stats@[i].1.external_links
            == second.document_stats@[i].1.external_links
    } by {
        assert(counts_document(first.document_stats@[i], docs[i]));
        assert(counts_document(second.document_stats@[i], docs[i]));
    }
}

/// The statistics are consistent with the queries: the count of broken
/// links and the count of orphaned documents are the lengths of what the
/// two queries return over the same corpus and under the same snapshot.
pub proof fn lemma_statistics_consistent(
    analyzer: LinkAnalyzer,
    disk: DiskSnapshot,
    stats: LinkStatistics,
    broken: Vec<BrokenLink>,
    orphans: Vec<String>,
)
    requires
        is_statistics_of(stats, disk@, analyzer.base(), analyzer.corpus()),
        broken_view(broken@) == broken_in_corpus(disk@, analyzer.base(), analyzer.corpus()),
        strings_view(orphans@) == orphans_in_corpus(disk@, analyzer.base(), analyzer.corpus()),
    ensures
        stats.broken_links == broken@.len(),
        stats.orphaned_documents == orphans@.len(),
{
    assert(broken_view(broken@).len() == broken@.len());
    assert(strings_view(orphans@).len() == orphans@.len());
}

/// Every broken link that the query reports is the record of a link of a
/// document of the corpus, and that link is internal.
pub proof fn lemma_broken_links_are_internal(
    disk: DiskView,
    base: Seq<char>,
    docs: Seq<DocumentView>,
    broken: BrokenLinkView,
)
    requires
        broken_in_corpus(disk, base, docs).contains(broken),
    ensures
        exists|i: int, k: int|
            0 <= i < docs.len() && 0 <= k < docs[i].links.len() && #[trigger] broken_link(
                disk,
                base,
                docs[i].path,
                docs[i].links[k],
            ) == Some(broken),
        !is_external_target(broken.link.target),
{
    let parts = docs.map_values(broken_of_document(disk, base));
    lemma_flatten_contains(parts, broken);
    let i = choose|i: int| 0 <= i < parts.len() && (#[trigger] parts[i]).contains(broken);
    assert(parts[i] == broken_in_document(disk, base, docs[i]));
    let check = broken_link_of(disk, base, docs[i].path);
    docs[i].links.lemma_filter_map_contains(check, broken);
    let link = choose|link: LinkView| #[trigger]
        docs[i].links.contains(link) && check(link) == Some(broken);
    let k = choose|k: int| 0 <= k < docs[i].links.len() && docs[i].links[k] == link;
    assert(broken_link(disk, base, docs[i].path, docs[i].links[k]) == Some(broken));
}

/// Every broken link of the corpus is reported: the record of an internal
/// link whose resolved path does not exist is in what the query returns.
pub proof fn lemma_broken_links_are_complete(
    disk: DiskView,
    base: Seq<char>,
    docs: Seq<DocumentView>,
    i: int,
    k: int,
)
    requires
        0 <= i < docs.len(),
        0 <= k < docs[i].links.len(),
        broken_link(disk, base, docs[i].path, docs[i].links[k]) is Some,
    ensures
        broken_in_corpus(disk, base, docs).contains(
            broken_link(disk, base, docs[i].path, docs[i].links[k])->0,
        ),
{
    let parts = docs.map_values(broken_of_document(disk, base));
    let check = broken_link_of(disk, base, docs[i].path);
    let broken = broken_link(disk, base, docs[i].path, docs[i].links[k])->0;
    lemma_filter_map_keeps(docs[i].links, check, k);
    assert(parts[i] == broken_in_document(disk, base, docs[i]));
    assert(parts[i].contains(broken));
    lemma_flatten_contains(parts, broken);
}

/// Every orphan is a document of the corpus, under the path it was added
/// with; it is no root anchor, it has a canonical form, and no link of the
/// corpus refers to that.
pub proof fn lemma_orphans_are_unreferenced(
    disk: DiskView,
    base: Seq<char>,
    docs: Seq<DocumentView>,
    path: Seq<char>,
)
    requires
        orphans_in_corpus(disk, base, docs).contains(path),
    ensures
        document_paths(docs).contains(path),
        !root_anchors(base).contains(path),
        canonical_on(disk, path) is Some,
        !referenced_paths(disk, base, docs).contains(canonical_on(disk, path)->0),
{
    document_paths(docs).lemma_filter_contains_rev(
        orphan_test(disk, base, referenced_paths(disk, base, docs)),
        path,
    );
}

/// Every document that is no root anchor, has a canonical form, and is
/// referred to by no link of the corpus is an orphan.
pub proof fn lemma_unreferenced_are_orphans(
    disk: DiskView,
    base: Seq<char>,
    docs: Seq<DocumentView>,
    i: int,
)
    requires
        0 <= i < docs.len(),
        !root_anchors(base).contains(docs[i].path),
        canonical_on(disk, docs[i].path) is Some,
        !referenced_paths(disk, base, docs).contains(canonical_on(disk, docs[i].path)->0),
    ensures
        orphans_in_corpus(disk, base, docs).contains(docs[i].path),
{
    let paths = document_paths(docs);
    assert(paths[i] == docs[i].path);
    paths.lemma_filter_contains(orphan_test(disk, base, referenced_paths(disk, base, docs)), i);
}

/// A document at a root anchor, the base path joined with `README.md` or
/// with `readme.md`, is never an orphan, whatever links the corpus holds,
/// whatever the disk says, and however the base path is written.
pub proof fn lemma_root_anchor_never_orphaned(
    disk: DiskView,
    base: Seq<char>,
    docs: Seq<DocumentView>,
    path: Seq<char>,
)
    requires
        path == joined_path(base, "README.md"@) || path == joined_path(base, "readme.md"@),
    ensures
        !orphans_in_corpus(disk, base, docs).contains(path),
{
    if orphans_in_corpus(disk, base, docs).contains(path) {
        lemma_orphans_are_unreferenced(disk, base, docs, path);
    }
}

/// The target of a definition neither begins nor ends with whitespace.
pub proof fn lemma_definition_target_is_tight(line: Seq<char>)
    requires
        definition_in_line(line) is Some,
    ensures
        ({
            let definition = definition_in_line(line)->0;
            is_tight(definition.1)
        }),
{
    let pair = crate::extract::first_pair_of_search(
        crate::pattern::pattern_matches(crate::extract::DEFINITION_PATTERN@, line),
    )->0;
    lemma_trimmed(pair.1);
}

/// What a label stands for in a document neither begins nor ends with
/// whitespace, so neither does the target of any reference-style link.
pub proof fn lemma_defined_targets_are_tight(lines: Seq<Seq<char>>, label: Seq<char>)
    requires
        definitions_in(lines).dom().contains(label),
    ensures
        is_tight(definitions_in(lines)[label]),
{
    let entry = (label, definitions_in(lines)[label]);
    let per_line = |line: Seq<char>| definition_in_line(line);
    lemma_table_of_entry(definition_list(lines), label);
    lines.lemma_filter_map_contains(per_line, entry);
    let line = choose|line: Seq<char>| #[trigger] lines.contains(line) && per_line(line) == Some(entry);
    lemma_definition_target_is_tight(line);
}

/// Under a snapshot that covers the corpus, the disk was asked about every
/// document: a document without canonical form is one for which the disk
/// gave none.
pub proof fn lemma_covers_documents(
    disk: DiskView,
    base: Seq<char>,
    docs: Seq<DocumentView>,
    i: int,
)
    requires
        covers(disk, base, docs),
        0 <= i < docs.len(),
    ensures
        probed(disk, docs[i].path),
{
    assert(probe_paths(base, docs)[i] == docs[i].path);
}

/// Under a snapshot that covers the corpus, the disk was asked about the
/// joined target of every internal link, and about its canonical form.
pub proof fn lemma_covers_targets(
    disk: DiskView,
    base: Seq<char>,
    docs: Seq<DocumentView>,
    i: int,
    k: int,
)
    requires
        covers(disk, base, docs),
        0 <= i < docs.len(),
        0 <= k < docs[i].links.len(),
        !is_external_target(docs[i].links[k].target),
    ensures
        probed(disk, joined_target(base, docs[i].path, docs[i].links[k].target)),
{
    let joined = joined_target(base, docs[i].path, docs[i].links[k].target);
    let parts = docs.map_values(joined_of_document(base));
    lemma_filter_map_keeps(docs[i].links, joined_of_link(base, docs[i].path), k);
    assert(parts[i] == joined_in_document(base, docs[i]));
    assert(parts[i].contains(joined));
    lemma_flatten_contains(parts, joined);
    let at = choose|at: int| 0 <= at < parts.flatten().len() && parts.flatten()[at] == joined;
    assert(probe_paths(base, docs)[document_paths(docs).len() + at] == joined);
}

/// Under a snapshot that covers the corpus, an internal link is reported as
/// broken exactly when the disk, asked about the path that the link
/// resolves to, said that it does not exist.
pub proof fn lemma_broken_under_cover(
    disk: DiskView,
    base: Seq<char>,
    docs: Seq<DocumentView>,
    i: int,
    k: int,
)
    requires
        covers(disk, base, docs),
        0 <= i < docs.len(),
        0 <= k < docs[i].links.len(),
        !is_external_target(docs[i].links[k].target),
    ensures
        ({
            let joined = joined_target(base, docs[i].path, docs[i].links[k].target);
            let resolved = resolved_path(disk, joined);
            &&& disk.dom().contains(resolved)
            &&& broken_link(disk, base, docs[i].path, docs[i].links[k]) is Some
                <==> !disk[resolved].exists
        }),
{
    lemma_covers_targets(disk, base, docs, i, k);
}

/// In a well-formed corpus no document is reported as an orphan twice.
pub proof fn lemma_orphans_distinct(disk: DiskView, base: Seq<char>, docs: Seq<DocumentView>)
    requires
        corpus_wf(docs),
    ensures
        orphans_in_corpus(disk, base, docs).no_duplicates(),
{
    let paths = document_paths(docs);
    assert forall|i: int, j: int| 0 <= i < paths.len() && 0 <= j < paths.len() && i != j implies paths[i]
        != paths[j] by {
        assert(paths[i] == docs[i].path && paths[j] == docs[j].path);
    }
    lemma_filter_no_duplicates(paths, orphan_test(disk, base, referenced_paths(disk, base, docs)));
}

/// In a well-formed corpus every broken link names, as the document that
/// holds it, a document of the corpus.
pub proof fn lemma_broken_links_name_documents(
    disk: DiskView,
    base: Seq<char>,
    docs: Seq<DocumentView>,
    broken: BrokenLinkView,
)
    requires
        corpus_wf(docs),
        broken_in_corpus(disk, base, docs).contains(broken),
    ensures
        document_paths(docs).contains(broken.link.file_path),
{
    lemma_broken_links_are_internal(disk, base, docs, broken);
    let (i, k) = choose|i: int, k: int|
        0 <= i < docs.len() && 0 <= k < docs[i].links.len() && #[trigger] broken_link(
            disk,
            base,
            docs[i].path,
            docs[i].links[k],
        ) == Some(broken);
    assert(broken.link == docs[i].links[k]);
    assert(docs[i].links[k].file_path == docs[i].path);
    assert(document_paths(docs)[i] == docs[i].path);
}

} // verus!
