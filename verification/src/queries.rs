//! What the queries of the analyzer return, as functions of the corpus and
//! of a snapshot of the disk.

use vstd::prelude::*;
use crate::corpus::DocumentView;
use crate::disk::{canonical_on, probed, DiskView};
use crate::link::{BrokenLink, BrokenLinkView, DocumentStats, LinkStatistics, LinkView};
use crate::paths::joined_path;
use crate::resolve::{broken_link, is_external_target, joined_of, reference_of};

verus! {

/// View of a list of broken links.
pub open spec fn broken_view(broken: Seq<BrokenLink>) -> Seq<BrokenLinkView> {
    broken.map_values(|b: BrokenLink| b@)
}

/// The verdict on one link of the document at `document`.
pub open spec fn broken_link_of(disk: DiskView, base: Seq<char>, document: Seq<char>) -> spec_fn(
    LinkView,
) -> Option<BrokenLinkView> {
    |link: LinkView| broken_link(disk, base, document, link)
}

/// The broken links of one document, in order of occurrence.
pub open spec fn broken_in_document(disk: DiskView, base: Seq<char>, doc: DocumentView) -> Seq<
    BrokenLinkView,
> {
    doc.links.filter_map(broken_link_of(disk, base, doc.path))
}

/// The broken links of one document, as a function of the document.
pub open spec fn broken_of_document(disk: DiskView, base: Seq<char>) -> spec_fn(
    DocumentView,
) -> Seq<BrokenLinkView> {
    |doc: DocumentView| broken_in_document(disk, base, doc)
}

/// The broken links of the corpus: every internal link whose resolved path
/// does not exist, once, document by document.
pub open spec fn broken_in_corpus(disk: DiskView, base: Seq<char>, docs: Seq<DocumentView>) -> Seq<
    BrokenLinkView,
> {
    docs.map_values(broken_of_document(disk, base)).flatten()
}

/// The document that one link of the document at `document` refers to.
pub open spec fn reference_of_link(disk: DiskView, base: Seq<char>, document: Seq<char>) -> spec_fn(
    LinkView,
) -> Option<Seq<char>> {
    |link: LinkView| reference_of(disk, base, document, link)
}

/// The documents that the links of one document refer to.
pub open spec fn references_in_document(disk: DiskView, base: Seq<char>, doc: DocumentView) -> Seq<
    Seq<char>,
> {
    doc.links.filter_map(reference_of_link(disk, base, doc.path))
}

/// The documents that the links of one document refer to, as a function of
/// the document.
pub open spec fn references_of_document(disk: DiskView, base: Seq<char>) -> spec_fn(
    DocumentView,
) -> Seq<Seq<char>> {
    |doc: DocumentView| references_in_document(disk, base, doc)
}

/// The documents that the links of the corpus refer to: the canonical form
/// of every internal target that has one.
pub open spec fn references_in_corpus(
    disk: DiskView,
    base: Seq<char>,
    docs: Seq<DocumentView>,
) -> Seq<Seq<char>> {
    docs.map_values(references_of_document(disk, base)).flatten()
}

/// The two root anchors: the base path joined with `README.md` and with
/// `readme.md`. A document at one of these paths is never an orphan.
pub open spec fn root_anchors(base: Seq<char>) -> Set<Seq<char>> {
    set![joined_path(base, "README.md"@), joined_path(base, "readme.md"@)]
}

/// The paths that the links of the corpus refer to, as a set.
pub open spec fn referenced_paths(disk: DiskView, base: Seq<char>, docs: Seq<DocumentView>) -> Set<
    Seq<char>,
> {
    references_in_corpus(disk, base, docs).to_set()
}

/// Whether the document at `path` is an orphan, given the paths that the
/// links refer to: it is no root anchor, it has a canonical form, and no
/// link refers to that.
pub open spec fn is_orphan(
    disk: DiskView,
    base: Seq<char>,
    referenced: Set<Seq<char>>,
    path: Seq<char>,
) -> bool {
    !root_anchors(base).contains(path) && match canonical_on(disk, path) {
        Some(canonical) => !referenced.contains(canonical),
        None => false,
    }
}

/// `is_orphan` as a function of the path.
pub open spec fn orphan_test(disk: DiskView, base: Seq<char>, referenced: Set<Seq<char>>) -> spec_fn(
    Seq<char>,
) -> bool {
    |path: Seq<char>| is_orphan(disk, base, referenced, path)
}

/// The paths of the documents of the corpus, in corpus order.
pub open spec fn document_paths(docs: Seq<DocumentView>) -> Seq<Seq<char>> {
    docs.map_values(|doc: DocumentView| doc.path)
}

/// The orphans of the corpus, in corpus order.
pub open spec fn orphans_in_corpus(
    disk: DiskView,
    base: Seq<char>,
    docs: Seq<DocumentView>,
) -> Seq<Seq<char>> {
    document_paths(docs).filter(orphan_test(disk, base, referenced_paths(disk, base, docs)))
}

/// The path to ask the disk about for one link of the document at
/// `document`.
pub open spec fn joined_of_link(base: Seq<char>, document: Seq<char>) -> spec_fn(LinkView) -> Option<
    Seq<char>,
> {
    |link: LinkView| joined_of(base, document, link)
}

/// The joined targets of the internal links of one document.
pub open spec fn joined_in_document(base: Seq<char>, doc: DocumentView) -> Seq<Seq<char>> {
    doc.links.filter_map(joined_of_link(base, doc.path))
}

/// The joined targets of the internal links of one document, as a function
/// of the document.
pub open spec fn joined_of_document(base: Seq<char>) -> spec_fn(DocumentView) -> Seq<Seq<char>> {
    |doc: DocumentView| joined_in_document(base, doc)
}

/// The paths whose canonical form the queries ask the disk for: the paths of
/// the documents, then the joined targets of all internal links.
pub open spec fn probe_paths(base: Seq<char>, docs: Seq<DocumentView>) -> Seq<Seq<char>> {
    document_paths(docs) + docs.map_values(joined_of_document(base)).flatten()
}

/// Whether `disk` covers the corpus: it answers for every path that the
/// queries ask about. Under a snapshot that covers the corpus, a path
/// without canonical form, or one that does not exist, is what the disk
/// said, and not a path that nobody asked about.
pub open spec fn covers(disk: DiskView, base: Seq<char>, docs: Seq<DocumentView>) -> bool {
    forall|i: int|
        0 <= i < probe_paths(base, docs).len() ==> probed(
            disk,
            #[trigger] probe_paths(base, docs)[i],
        )
}

/// The links of a document, as a function of the document.
pub open spec fn links_of_document() -> spec_fn(DocumentView) -> Seq<LinkView> {
    |doc: DocumentView| doc.links
}

/// All links of the corpus, document by document.
pub open spec fn all_links(docs: Seq<DocumentView>) -> Seq<LinkView> {
    docs.map_values(links_of_document()).flatten()
}

/// The test for an internal link.
pub open spec fn internal_test() -> spec_fn(LinkView) -> bool {
    |link: LinkView| !is_external_target(link.target)
}

/// The test for an external link.
pub open spec fn external_test() -> spec_fn(LinkView) -> bool {
    |link: LinkView| is_external_target(link.target)
}

/// The internal links among `links`.
pub open spec fn internal_links(links: Seq<LinkView>) -> Seq<LinkView> {
    links.filter(internal_test())
}

/// The external links among `links`.
pub open spec fn external_links(links: Seq<LinkView>) -> Seq<LinkView> {
    links.filter(external_test())
}

/// Whether `entry` gives the path and the link counts of `doc`.
pub open spec fn counts_document(entry: (String, DocumentStats), doc: DocumentView) -> bool {
    &&& entry.0@ == doc.path
    &&& entry.1.total_links == doc.links.len()
    &&& entry.1.internal_links == internal_links(doc.links).len()
    &&& entry.1.external_links == external_links(doc.links).len()
}

/// Whether `stats` are the statistics of the corpus `docs` under the
/// snapshot `disk`: every count is the size of what it counts.
pub open spec fn is_statistics_of(
    stats: LinkStatistics,
    disk: DiskView,
    base: Seq<char>,
    docs: Seq<DocumentView>,
) -> bool {
    &&& stats.total_documents == docs.len()
    &&& stats.total_links == all_links(docs).len()
    &&& stats.internal_links == internal_links(all_links(docs)).len()
    &&& stats.external_links == external_links(all_links(docs)).len()
    &&& stats.broken_links == broken_in_corpus(disk, base, docs).len()
    &&& stats.orphaned_documents == orphans_in_corpus(disk, base, docs).len()
    &&& stats.document_stats@.len() == docs.len()
    &&& forall|i: int|
        0 <= i < docs.len() ==> counts_document(#[trigger] stats.document_stats@[i], docs[i])
}

/// Taking one more element before mapping and flattening appends what that
/// element maps to.
pub proof fn lemma_flatten_take_succ<A, B>(items: Seq<A>, f: spec_fn(A) -> Seq<B>, i: int)
    requires
        0 <= i < items.len(),
    ensures
        items.take(i + 1).map_values(f).flatten() == items.take(i).map_values(f).flatten() + f(
            items[i],
        ),
{
    let shorter = items.take(i).map_values(f);
    assert(items.take(i + 1).map_values(f) =~= shorter.push(f(items[i])));
    shorter.lemma_flatten_push(f(items[i]));
}

/// What a prefix of the items maps and flattens to is no longer than what
/// all of them map and flatten to.
pub proof fn lemma_flatten_prefix_len<A, B>(items: Seq<A>, f: spec_fn(A) -> Seq<B>, i: int)
    requires
        0 <= i <= items.len(),
    ensures
        items.take(i).map_values(f).flatten().len() <= items.map_values(f).flatten().len(),
{
    let head = items.take(i).map_values(f);
    let tail = items.skip(i).map_values(f);
    assert(items.map_values(f) =~= head + tail);
    vstd::seq_lib::lemma_flatten_concat(head, tail);
}

/// What is in the flattening of a list of lists is what is in one of the
/// lists.
pub proof fn lemma_flatten_contains<A>(parts: Seq<Seq<A>>, x: A)
    ensures
        parts.flatten().contains(x) <==> exists|i: int|
            0 <= i < parts.len() && (#[trigger] parts[i]).contains(x),
    decreases parts.len(),
{
    if parts.len() > 0 {
        let rest = parts.drop_first();
        lemma_flatten_contains(rest, x);
        vstd::seq_lib::lemma_seq_concat_contains_all_elements(parts.first(), rest.flatten(), x);
        if parts.flatten().contains(x) {
            if parts.first().contains(x) {
                assert(parts[0].contains(x));
            } else {
                let i = choose|i: int| 0 <= i < rest.len() && (#[trigger] rest[i]).contains(x);
                assert(parts[i + 1].contains(x));
            }
        }
        if exists|i: int| 0 <= i < parts.len() && (#[trigger] parts[i]).contains(x) {
            let i = choose|i: int| 0 <= i < parts.len() && (#[trigger] parts[i]).contains(x);
            if i > 0 {
                assert(rest[i - 1].contains(x));
            }
        }
    }
}

/// What an item maps to under `f` is in the filtered and mapped list.
pub proof fn lemma_filter_map_keeps<A, B>(items: Seq<A>, f: spec_fn(A) -> Option<B>, k: int)
    requires
        0 <= k < items.len(),
        f(items[k]) is Some,
    ensures
        items.filter_map(f).contains(f(items[k])->0),
    decreases items.len(),
{
    let rest = items.drop_last();
    let kept = rest.filter_map(f);
    if k < items.len() - 1 {
        lemma_filter_map_keeps(rest, f, k);
        let at = choose|at: int| 0 <= at < kept.len() && kept[at] == f(items[k])->0;
        match f(items.last()) {
            Some(b) => {
                assert((kept + seq![b])[at] == kept[at]);
            },
            None => {},
        }
    } else {
        let b = f(items.last())->0;
        assert((kept + seq![b])[kept.len() as int] == b);
    }
}

/// Filtering a list without duplicates leaves a list without duplicates.
pub proof fn lemma_filter_no_duplicates<A>(items: Seq<A>, test: spec_fn(A) -> bool)
    requires
        items.no_duplicates(),
    ensures
        items.filter(test).no_duplicates(),
    decreases items.len(),
{
    if items.len() == 0 {
        items.lemma_filter_len(test);
    } else {
        let rest = items.drop_last();
        let last = items.last();
        lemma_filter_no_duplicates(rest, test);
        assert(items =~= rest.push(last));
        rest.lemma_filter_push(last, test);
        if test(last) {
            let kept = rest.filter(test);
            if kept.contains(last) {
                rest.lemma_filter_contains_rev(test, last);
                let at = choose|at: int| 0 <= at < rest.len() && rest[at] == last;
                assert(items[at] == items[items.len() - 1]);
            }
            assert forall|i: int, j: int|
                0 <= i < kept.len() + 1 && 0 <= j < kept.len() + 1 && i != j implies kept.push(
                last,
            )[i] != kept.push(last)[j] by {
                if i < kept.len() && j < kept.len() {
                } else if i < kept.len() {
                    assert(kept.contains(kept[i]));
                } else {
                    assert(kept.contains(kept[j]));
                }
            }
        }
    }
}

/// Every link is either internal or external: the two counts add up to the
/// number of links.
pub proof fn lemma_internal_external_partition(links: Seq<LinkView>)
    ensures
        internal_links(links).len() + external_links(links).len() == links.len(),
    decreases links.len(),
{
    if links.len() == 0 {
        assert(internal_links(links) =~= Seq::empty()) by {
            links.lemma_filter_len(internal_test());
        }
        assert(external_links(links) =~= Seq::empty()) by {
            links.lemma_filter_len(external_test());
        }
    } else {
        let shorter = links.drop_last();
        lemma_internal_external_partition(shorter);
        assert(links =~= shorter.push(links.last()));
        shorter.lemma_filter_push(links.last(), internal_test());
        shorter.lemma_filter_push(links.last(), external_test());
    }
}

/// The links of a longer prefix of the corpus are those of the prefix one
/// shorter and those of the document between them, and so are their internal
/// and external links.
pub proof fn lemma_all_links_take_succ(docs: Seq<DocumentView>, i: int)
    requires
        0 <= i < docs.len(),
    ensures
        all_links(docs.take(i + 1)) == all_links(docs.take(i)) + docs[i].links,
        internal_links(all_links(docs.take(i + 1))) == internal_links(all_links(docs.take(i)))
            + internal_links(docs[i].links),
        external_links(all_links(docs.take(i + 1))) == external_links(all_links(docs.take(i)))
            + external_links(docs[i].links),
        all_links(docs.take(i + 1)).len() <= all_links(docs).len(),
{
    lemma_flatten_take_succ(docs, links_of_document(), i);
    Seq::filter_distributes_over_add(all_links(docs.take(i)), docs[i].links, internal_test());
    Seq::filter_distributes_over_add(all_links(docs.take(i)), docs[i].links, external_test());
    lemma_flatten_prefix_len(docs, links_of_document(), i + 1);
}

} // verus!
