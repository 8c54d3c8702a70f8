//! The corpus as a mathematical value: documents in the order in which they
//! were added, each path once, each document with its links.

use vstd::prelude::*;
use crate::extract::Occurrence;
use crate::link::{LinkView, MarkdownLink};

verus! {

/// A document of the corpus: its path and its links in order of occurrence.
pub struct DocumentView {
    pub path: Seq<char>,
    pub links: Seq<LinkView>,
}

/// View of a list of links.
pub open spec fn links_view(links: Seq<MarkdownLink>) -> Seq<LinkView> {
    links.map_values(|l: MarkdownLink| l@)
}

/// The links of a document at `path`, made from what was extracted from its
/// text.
pub open spec fn attached(occurrences: Seq<Occurrence>, path: Seq<char>) -> Seq<LinkView> {
    occurrences.map_values(
        |o: Occurrence| LinkView { text: o.0, target: o.1, line_number: o.2, file_path: path },
    )
}

/// The position of the document at `path`, if the corpus has one.
pub open spec fn position_of(docs: Seq<DocumentView>, path: Seq<char>) -> Option<int>
    decreases docs.len(),
{
    if docs.len() == 0 {
        None
    } else {
        match position_of(docs.drop_last(), path) {
            Some(at) => Some(at),
            None => if docs.last().path == path {
                Some(docs.len() - 1)
            } else {
                None
            },
        }
    }
}

/// The corpus with `doc` in it: in place of the document that had its path,
/// or behind all others where no document had it.
pub open spec fn with_document(docs: Seq<DocumentView>, doc: DocumentView) -> Seq<DocumentView> {
    match position_of(docs, doc.path) {
        Some(at) => docs.update(at, doc),
        None => docs.push(doc),
    }
}

/// No two documents of the corpus have the same path.
pub open spec fn distinct_paths(docs: Seq<DocumentView>) -> bool {
    forall|i: int, j: int|
        0 <= i < docs.len() && 0 <= j < docs.len() && i != j ==> #[trigger] docs[i].path
            != #[trigger] docs[j].path
}

/// Every link names the document that holds it.
pub open spec fn links_name_their_document(docs: Seq<DocumentView>) -> bool {
    forall|i: int, k: int|
        0 <= i < docs.len() && 0 <= k < docs[i].links.len() ==> (
        #[trigger] docs[i].links[k]).file_path == docs[i].path
}

/// What holds of every corpus that was built by adding documents.
pub open spec fn corpus_wf(docs: Seq<DocumentView>) -> bool {
    distinct_paths(docs) && links_name_their_document(docs)
}

/// What `position_of` finds: the first document with the path, or nothing
/// where no document has it.
pub proof fn lemma_position_of(docs: Seq<DocumentView>, path: Seq<char>)
    ensures
        match position_of(docs, path) {
            Some(at) => 0 <= at < docs.len() && docs[at].path == path && forall|j: int|
                0 <= j < at ==> (#[trigger] docs[j]).path != path,
            None => forall|j: int| 0 <= j < docs.len() ==> (#[trigger] docs[j]).path != path,
        },
    decreases docs.len(),
{
    if docs.len() > 0 {
        lemma_position_of(docs.drop_last(), path);
        assert(forall|j: int| 0 <= j < docs.len() - 1 ==> docs.drop_last()[j] == docs[j]);
    }
}

/// A document found in a prefix of the corpus is found at the same place in
/// the whole corpus.
pub proof fn lemma_position_in_prefix(docs: Seq<DocumentView>, path: Seq<char>, n: int)
    requires
        0 <= n <= docs.len(),
        position_of(docs.take(n), path) is Some,
    ensures
        position_of(docs, path) == position_of(docs.take(n), path),
    decreases docs.len() - n,
{
    if n < docs.len() {
        assert(docs.take(n + 1).drop_last() =~= docs.take(n));
        lemma_position_in_prefix(docs, path, n + 1);
    } else {
        assert(docs.take(n) =~= docs);
    }
}

/// Adding a document keeps the corpus well formed, as long as the links of
/// the document name it.
pub proof fn lemma_with_document_wf(docs: Seq<DocumentView>, doc: DocumentView)
    requires
        corpus_wf(docs),
        forall|k: int| 0 <= k < doc.links.len() ==> (#[trigger] doc.links[k]).file_path == doc.path,
    ensures
        corpus_wf(with_document(docs, doc)),
{
    lemma_position_of(docs, doc.path);
    let after = with_document(docs, doc);
    match position_of(docs, doc.path) {
        Some(at) => {
            assert forall|i: int, j: int|
                0 <= i < after.len() && 0 <= j < after.len() && i != j implies #[trigger] after[i].path
                != #[trigger] after[j].path by {
                assert(after[i].path == docs[i].path);
                assert(after[j].path == docs[j].path);
            }
            assert forall|i: int, k: int|
                0 <= i < after.len() && 0 <= k < after[i].links.len() implies (
            #[trigger] after[i].links[k]).file_path == after[i].path by {
                if i != at {
                    assert(after[i] == docs[i]);
                }
            }
        },
        None => {
            assert forall|i: int, j: int|
                0 <= i < after.len() && 0 <= j < after.len() && i != j implies #[trigger] after[i].path
                != #[trigger] after[j].path by {
                if i < docs.len() {
                    assert(after[i] == docs[i]);
                }
                if j < docs.len() {
                    assert(after[j] == docs[j]);
                }
            }
            assert forall|i: int, k: int|
                0 <= i < after.len() && 0 <= k < after[i].links.len() implies (
            #[trigger] after[i].links[k]).file_path == after[i].path by {
                if i < docs.len() {
                    assert(after[i] == docs[i]);
                }
            }
        },
    }
}

} // verus!
