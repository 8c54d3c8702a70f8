//! The analyzer: the corpus of documents with their links, and the queries
//! over it.

use vstd::prelude::*;
use vstd::hash_map::StringHashMap;
use crate::corpus::{attached, corpus_wf, lemma_position_in_prefix, lemma_position_of,
    lemma_with_document_wf, links_view, position_of, with_document, DocumentView};
use crate::disk::{probed, DiskSnapshot};
use crate::extract::{extracted_links, occurrences_view};
use crate::link::{BrokenLink, DocumentStats, LinkStatistics, MarkdownLink};
use crate::paths::{join, joined_path};
use crate::queries::{all_links, broken_in_corpus, covers, broken_in_document, broken_link_of,
    broken_of_document, broken_view, counts_document, document_paths, external_links,
    external_test, internal_links, internal_test, is_statistics_of, joined_in_document,
    joined_of_document, joined_of_link, lemma_all_links_take_succ, lemma_flatten_take_succ,
    lemma_internal_external_partition, links_of_document, orphan_test, orphans_in_corpus,
    probe_paths, reference_of_link, referenced_paths, references_in_corpus,
    references_in_document, references_of_document, root_anchors};
use crate::resolve::{check_link, is_external, joined_path_of, reference_target};
use crate::text::strings_view;

verus! {

#[derive(Debug)]
struct Document {
    path: String,
    links: Vec<MarkdownLink>,
}

impl View for Document {
    type V = DocumentView;

    closed spec fn view(&self) -> DocumentView {
        DocumentView { path: self.path@, links: links_view(self.links@) }
    }
}

/// The links of a set of markdown documents below one base directory.
#[derive(Debug)]
pub struct LinkAnalyzer {
    documents: Vec<Document>,
    base_path: String,
}

impl LinkAnalyzer {
    /// The base path of the analysis.
    pub closed spec fn base(&self) -> Seq<char> {
        self.base_path@
    }

    /// The documents that were added, with their links.
    pub closed spec fn corpus(&self) -> Seq<DocumentView> {
        self.documents@.map_values(|d: Document| d@)
    }

    /// An analyzer for the documents below `base_path`, with an empty corpus.
    pub fn new(base_path: String) -> (analyzer: Self)
        ensures
            analyzer.base() == base_path@,
            analyzer.corpus() == Seq::<DocumentView>::empty(),
            corpus_wf(analyzer.corpus()),
    {
        let analyzer = LinkAnalyzer { documents: Vec::new(), base_path };
        assert(analyzer.corpus() =~= Seq::<DocumentView>::empty());
        analyzer
    }

    /// The position of the document at `path` in the corpus.
    fn find_document(&self, path: &String) -> (at: Option<usize>)
        ensures
            match at {
                Some(i) => position_of(self.corpus(), path@) == Some(i as int),
                None => position_of(self.corpus(), path@) is None,
            },
    {
        let ghost docs = self.corpus();
        for i in 0..self.documents.len()
            invariant
                docs == self.corpus(),
                docs.len() == self.documents.len(),
                position_of(docs.take(i as int), path@) is None,
        {
            assert(docs.take(i + 1).drop_last() =~= docs.take(i as int));
            if self.documents[i].path == *path {
                proof {
                    lemma_position_in_prefix(docs, path@, i + 1);
                }
                return Some(i);
            }
        }
        assert(docs.take(self.documents.len() as int) =~= docs);
        None
    }

    /// Adds a document with the links that were extracted from its text. A
    /// document that was added before under the same path is replaced.
    pub fn insert_document(&mut self, path: String, links: Vec<(String, String, usize)>)
        ensures
            final(self).base() == old(self).base(),
            final(self).corpus() == with_document(
                old(self).corpus(),
                DocumentView { path: path@, links: attached(occurrences_view(links@), path@) },
            ),
            corpus_wf(old(self).corpus()) ==> corpus_wf(final(self).corpus()),
    {
        let ghost before = self.corpus();
        let ghost wanted = attached(occurrences_view(links@), path@);
        let mut attached_links: Vec<MarkdownLink> = Vec::new();
        for i in 0..links.len()
            invariant
                wanted == attached(occurrences_view(links@), path@),
                links_view(attached_links@) == wanted.take(i as int),
        {
            let ghost earlier = attached_links@;
            attached_links.push(
                MarkdownLink {
                    text: links[i].0.clone(),
                    target: links[i].1.clone(),
                    line_number: links[i].2,
                    file_path: path.clone(),
                },
            );
            assert(links_view(attached_links@) =~= links_view(earlier).push(wanted[i as int]));
            assert(wanted.take(i + 1) =~= wanted.take(i as int).push(wanted[i as int]));
        }
        assert(wanted.take(links.len() as int) =~= wanted);
        let ghost doc = DocumentView { path: path@, links: wanted };
        proof {
            lemma_position_of(before, path@);
            if corpus_wf(before) {
                lemma_with_document_wf(before, doc);
            }
        }
        match self.find_document(&path) {
            Some(at) => {
                self.documents[at] = Document { path, links: attached_links };
                assert(self.corpus() =~= before.update(at as int, doc));
            },
            None => {
                self.documents.push(Document { path, links: attached_links });
                assert(self.corpus() =~= before.push(doc));
            },
        }
    }

    /// Adds the document at `path` with the links of its text `content`. A
    /// document that was added before under the same path is replaced.
    pub fn add_document(&mut self, path: String, content: &str)
        ensures
            final(self).base() == old(self).base(),
            final(self).corpus() == with_document(
                old(self).corpus(),
                DocumentView { path: path@, links: attached(extracted_links(content@), path@) },
            ),
            corpus_wf(old(self).corpus()) ==> corpus_wf(final(self).corpus()),
    {
        let links = Self::extract_links(content);
        self.insert_document(path, links);
    }

    /// The broken links of one document.
    fn broken_links_of(disk: &DiskSnapshot, base: &str, doc: &Document) -> (broken: Vec<BrokenLink>)
        ensures
            broken_view(broken@) == broken_in_document(disk@, base@, doc@),
    {
        let mut broken: Vec<BrokenLink> = Vec::new();
        let ghost links = links_view(doc.links@);
        let ghost check = broken_link_of(disk@, base@, doc.path@);
        for j in 0..doc.links.len()
            invariant
                links == links_view(doc.links@),
                check == broken_link_of(disk@, base@, doc.path@),
                broken_view(broken@) == links.take(j as int).filter_map(check),
        {
            proof {
                links.lemma_filter_map_take_succ(check, j as int);
            }
            let ghost before = broken@;
            match check_link(disk, base, doc.path.as_str(), &doc.links[j]) {
                Some(found) => {
                    broken.push(found);
                    assert(broken_view(broken@) =~= broken_view(before) + seq![found@]);
                },
                None => {},
            }
        }
        assert(links.take(doc.links.len() as int) =~= links);
        broken
    }

    /// Finds the broken links of the corpus: every internal link whose
    /// resolved path does not exist according to `disk`, each with the reason,
    /// document by document and within a document in order of occurrence.
    pub fn find_broken_links(&self, disk: &DiskSnapshot) -> (broken: Vec<BrokenLink>)
        ensures
            broken_view(broken@) == broken_in_corpus(disk@, self.base(), self.corpus()),
    {
        let mut broken: Vec<BrokenLink> = Vec::new();
        let ghost docs = self.corpus();
        let ghost per_document = broken_of_document(disk@, self.base());
        assert(docs.take(0).map_values(per_document) =~= Seq::empty());
        for i in 0..self.documents.len()
            invariant
                docs == self.corpus(),
                docs.len() == self.documents.len(),
                per_document == broken_of_document(disk@, self.base()),
                broken_view(broken@) == docs.take(i as int).map_values(per_document).flatten(),
        {
            proof {
                lemma_flatten_take_succ(docs, per_document, i as int);
            }
            let mut found = Self::broken_links_of(
                disk,
                self.base_path.as_str(),
                &self.documents[i],
            );
            let ghost before = broken@;
            let ghost more = found@;
            broken.append(&mut found);
            assert(broken_view(broken@) =~= broken_view(before) + broken_view(more));
        }
        assert(docs.take(self.documents.len() as int) =~= docs);
        broken
    }

    /// The documents that the links of one document refer to.
    fn references_of(disk: &DiskSnapshot, base: &str, doc: &Document) -> (targets: Vec<String>)
        ensures
            strings_view(targets@) == references_in_document(disk@, base@, doc@),
    {
        let mut targets: Vec<String> = Vec::new();
        let ghost links = links_view(doc.links@);
        let ghost refer = reference_of_link(disk@, base@, doc.path@);
        for j in 0..doc.links.len()
            invariant
                links == links_view(doc.links@),
                refer == reference_of_link(disk@, base@, doc.path@),
                strings_view(targets@) == links.take(j as int).filter_map(refer),
        {
            proof {
                links.lemma_filter_map_take_succ(refer, j as int);
            }
            let ghost before = targets@;
            match reference_target(disk, base, doc.path.as_str(), &doc.links[j]) {
                Some(target) => {
                    targets.push(target);
                    assert(strings_view(targets@) =~= strings_view(before) + seq![target@]);
                },
                None => {},
            }
        }
        assert(links.take(doc.links.len() as int) =~= links);
        targets
    }

    /// The documents that the links of the corpus refer to.
    fn references(&self, disk: &DiskSnapshot) -> (targets: Vec<String>)
        ensures
            strings_view(targets@) == references_in_corpus(disk@, self.base(), self.corpus()),
    {
        let mut targets: Vec<String> = Vec::new();
        let ghost docs = self.corpus();
        let ghost per_document = references_of_document(disk@, self.base());
        assert(docs.take(0).map_values(per_document) =~= Seq::empty());
        for i in 0..self.documents.len()
            invariant
                docs == self.corpus(),
                docs.len() == self.documents.len(),
                per_document == references_of_document(disk@, self.base()),
                strings_view(targets@) == docs.take(i as int).map_values(per_document).flatten(),
        {
            proof {
                lemma_flatten_take_succ(docs, per_document, i as int);
            }
            let mut found = Self::references_of(disk, self.base_path.as_str(), &self.documents[i]);
            let ghost before = targets@;
            let ghost more = found@;
            targets.append(&mut found);
            assert(strings_view(targets@) =~= strings_view(before) + strings_view(more));
        }
        assert(docs.take(self.documents.len() as int) =~= docs);
        targets
    }

    /// The set of paths that the links of the corpus refer to.
    fn referenced(&self, disk: &DiskSnapshot) -> (paths: StringHashMap<bool>)
        ensures
            paths@.dom() == referenced_paths(disk@, self.base(), self.corpus()),
    {
        let mut paths: StringHashMap<bool> = StringHashMap::new();
        let targets = self.references(disk);
        let ghost all = strings_view(targets@);
        assert(paths@.dom() =~= all.take(0).to_set());
        for k in 0..targets.len()
            invariant
                all == strings_view(targets@),
                paths@.dom() == all.take(k as int).to_set(),
        {
            assert(all.take(k + 1) =~= all.take(k as int).push(all[k as int]));
            proof {
                all.take(k as int).lemma_push_to_set_commute(all[k as int]);
            }
            let ghost before = paths@.dom();
            paths.insert(targets[k].clone(), true);
            assert(paths@.dom() =~= before.insert(all[k as int]));
        }
        assert(all.take(targets.len() as int) =~= all);
        paths
    }

    /// Finds the orphaned documents: those that are no root anchor and have
    /// a canonical form according to `disk` that no internal link of the
    /// corpus refers to. The paths come in corpus order, as they were added.
    pub fn find_orphaned_documents(&self, disk: &DiskSnapshot) -> (orphans: Vec<String>)
        ensures
            strings_view(orphans@) == orphans_in_corpus(disk@, self.base(), self.corpus()),
    {
        let referenced = self.referenced(disk);
        let upper = join(self.base_path.as_str(), "README.md");
        let lower = join(self.base_path.as_str(), "readme.md");
        let mut orphans: Vec<String> = Vec::new();
        let ghost docs = self.corpus();
        let ghost paths = document_paths(docs);
        let ghost test = orphan_test(disk@, self.base(), referenced@.dom());
        for i in 0..self.documents.len()
            invariant
                docs == self.corpus(),
                docs.len() == self.documents.len(),
                paths == document_paths(docs),
                upper@ == joined_path(self.base(), "README.md"@),
                lower@ == joined_path(self.base(), "readme.md"@),
                test == orphan_test(disk@, self.base(), referenced@.dom()),
                strings_view(orphans@) == paths.take(i as int).filter(test),
        {
            assert(paths.take(i + 1) =~= paths.take(i as int).push(paths[i as int]));
            proof {
                paths.take(i as int).lemma_filter_push(paths[i as int], test);
            }
            let ghost before = orphans@;
            let path = &self.documents[i].path;
            let anchored = *path == upper || *path == lower;
            assert(anchored == root_anchors(self.base()).contains(paths[i as int]));
            let orphaned = !anchored && match disk.canonical(path.as_str()) {
                Some(canonical) => !referenced.contains_key(canonical.as_str()),
                None => false,
            };
            if orphaned {
                orphans.push(path.clone());
                assert(strings_view(orphans@) =~= strings_view(before).push(paths[i as int]));
            }
        }
        assert(paths.take(self.documents.len() as int) =~= paths);
        orphans
    }

    /// Counts the internal and the external links among `links`.
    fn count_links(links: &Vec<MarkdownLink>) -> (counts: (usize, usize))
        ensures
            counts.0 == internal_links(links_view(links@)).len(),
            counts.1 == external_links(links_view(links@)).len(),
            counts.0 + counts.1 == links.len(),
    {
        let ghost all = links_view(links@);
        let mut internal: usize = 0;
        let mut external: usize = 0;
        assert(internal_links(all.take(0)) =~= Seq::empty() && external_links(all.take(0))
            =~= Seq::empty()) by {
            all.take(0).lemma_filter_len(internal_test());
            all.take(0).lemma_filter_len(external_test());
        }
        for j in 0..links.len()
            invariant
                all == links_view(links@),
                internal == internal_links(all.take(j as int)).len(),
                external == external_links(all.take(j as int)).len(),
                internal + external == j,
        {
            assert(all.take(j + 1) =~= all.take(j as int).push(all[j as int]));
            proof {
                all.take(j as int).lemma_filter_push(all[j as int], internal_test());
                all.take(j as int).lemma_filter_push(all[j as int], external_test());
            }
            if is_external(links[j].target.as_str()) {
                external += 1;
            } else {
                internal += 1;
            }
        }
        assert(all.take(links.len() as int) =~= all);
        (internal, external)
    }

    /// The number of links in the corpus, or `None` where it is too large to
    /// be counted.
    pub fn link_total(&self) -> (total: Option<usize>)
        ensures
            match total {
                Some(n) => n == all_links(self.corpus()).len(),
                None => all_links(self.corpus()).len() > usize::MAX,
            },
    {
        let ghost docs = self.corpus();
        let mut total: usize = 0;
        assert(docs.take(0).map_values(links_of_document()) =~= Seq::empty());
        for i in 0..self.documents.len()
            invariant
                docs == self.corpus(),
                docs.len() == self.documents.len(),
                total == all_links(docs.take(i as int)).len(),
        {
            proof {
                lemma_all_links_take_succ(docs, i as int);
            }
            match total.checked_add(self.documents[i].links.len()) {
                Some(sum) => {
                    total = sum;
                },
                None => {
                    return None;
                },
            }
        }
        assert(docs.take(self.documents.len() as int) =~= docs);
        Some(total)
    }

    /// Computes the statistics of the corpus: the number of documents, the
    /// numbers of links, internal links and external links, the numbers of
    /// broken links and of orphaned documents as the two queries find them
    /// under `disk`, and the link counts of each document.
    pub fn get_statistics(&self, disk: &DiskSnapshot) -> (stats: LinkStatistics)
        requires
            all_links(self.corpus()).len() <= usize::MAX,
        ensures
            is_statistics_of(stats, disk@, self.base(), self.corpus()),
    {
        let ghost docs = self.corpus();
        let mut total: usize = 0;
        let mut internal: usize = 0;
        let mut external: usize = 0;
        let mut entries: Vec<(String, DocumentStats)> = Vec::new();
        assert(docs.take(0).map_values(links_of_document()) =~= Seq::empty());
        assert(internal_links(all_links(docs.take(0))) =~= Seq::empty() && external_links(
            all_links(docs.take(0)),
        ) =~= Seq::empty()) by {
            all_links(docs.take(0)).lemma_filter_len(internal_test());
            all_links(docs.take(0)).lemma_filter_len(external_test());
        }
        for i in 0..self.documents.len()
            invariant
                docs == self.corpus(),
                docs.len() == self.documents.len(),
                all_links(docs).len() <= usize::MAX,
                total == all_links(docs.take(i as int)).len(),
                internal == internal_links(all_links(docs.take(i as int))).len(),
                external == external_links(all_links(docs.take(i as int))).len(),
                entries@.len() == i,
                forall|k: int| 0 <= k < i ==> counts_document(#[trigger] entries@[k], docs[k]),
        {
            proof {
                lemma_all_links_take_succ(docs, i as int);
                lemma_internal_external_partition(all_links(docs.take(i + 1)));
            }
            let doc = &self.documents[i];
            let counts = Self::count_links(&doc.links);
            total += doc.links.len();
            internal += counts.0;
            external += counts.1;
            entries.push(
                (
                    doc.path.clone(),
                    DocumentStats {
                        total_links: doc.links.len(),
                        internal_links: counts.0,
                        external_links: counts.1,
                    },
                ),
            );
        }
        assert(docs.take(self.documents.len() as int) =~= docs);
        let broken = self.find_broken_links(disk);
        let orphans = self.find_orphaned_documents(disk);
        LinkStatistics {
            total_documents: self.documents.len(),
            total_links: total,
            internal_links: internal,
            external_links: external,
            broken_links: broken.len(),
            orphaned_documents: orphans.len(),
            document_stats: entries,
        }
    }

    /// The joined targets of the internal links of one document.
    fn joined_targets_of(base: &str, doc: &Document) -> (targets: Vec<String>)
        ensures
            strings_view(targets@) == joined_in_document(base@, doc@),
    {
        let mut targets: Vec<String> = Vec::new();
        let ghost links = links_view(doc.links@);
        let ghost joined = joined_of_link(base@, doc.path@);
        for j in 0..doc.links.len()
            invariant
                links == links_view(doc.links@),
                joined == joined_of_link(base@, doc.path@),
                strings_view(targets@) == links.take(j as int).filter_map(joined),
        {
            proof {
                links.lemma_filter_map_take_succ(joined, j as int);
            }
            let ghost before = targets@;
            match joined_path_of(base, doc.path.as_str(), &doc.links[j]) {
                Some(target) => {
                    targets.push(target);
                    assert(strings_view(targets@) =~= strings_view(before) + seq![target@]);
                },
                None => {},
            }
        }
        assert(links.take(doc.links.len() as int) =~= links);
        targets
    }

    /// The paths that a snapshot has to cover for the queries: the paths of
    /// the documents, then the joined targets of all internal links. The
    /// queries also ask whether the canonical form of each joined target
    /// exists, or the joined target itself where it has none.
    pub fn paths_to_probe(&self) -> (paths: Vec<String>)
        ensures
            strings_view(paths@) == probe_paths(self.base(), self.corpus()),
    {
        let ghost docs = self.corpus();
        let ghost names = document_paths(docs);
        let mut paths: Vec<String> = Vec::new();
        for i in 0..self.documents.len()
            invariant
                docs == self.corpus(),
                docs.len() == self.documents.len(),
                names == document_paths(docs),
                strings_view(paths@) == names.take(i as int),
        {
            let ghost before = paths@;
            paths.push(self.documents[i].path.clone());
            assert(strings_view(paths@) =~= strings_view(before).push(names[i as int]));
            assert(names.take(i + 1) =~= names.take(i as int).push(names[i as int]));
        }
        assert(names.take(self.documents.len() as int) =~= names);
        let ghost per_document = joined_of_document(self.base());
        assert(docs.take(0).map_values(per_document) =~= Seq::empty());
        for i in 0..self.documents.len()
            invariant
                docs == self.corpus(),
                docs.len() == self.documents.len(),
                names == document_paths(docs),
                per_document == joined_of_document(self.base()),
                strings_view(paths@) == names + docs.take(i as int).map_values(
                    per_document,
                ).flatten(),
        {
            proof {
                lemma_flatten_take_succ(docs, per_document, i as int);
            }
            let mut found = Self::joined_targets_of(self.base_path.as_str(), &self.documents[i]);
            let ghost before = paths@;
            let ghost more = found@;
            paths.append(&mut found);
            assert(strings_view(paths@) =~= strings_view(before) + strings_view(more));
        }
        assert(docs.take(self.documents.len() as int) =~= docs);
        paths
    }

    /// Whether `disk` covers the corpus: it answers for every path that the
    /// queries ask about, and for the canonical form of each.
    pub fn is_covered_by(&self, disk: &DiskSnapshot) -> (covered: bool)
        ensures
            covered == covers(disk@, self.base(), self.corpus()),
    {
        let paths = self.paths_to_probe();
        let ghost all = probe_paths(self.base(), self.corpus());
        for i in 0..paths.len()
            invariant
                all == probe_paths(self.base(), self.corpus()),
                all == strings_view(paths@),
                forall|j: int| 0 <= j < i ==> probed(disk@, #[trigger] all[j]),
        {
            if !disk.answers_for(paths[i].as_str()) {
                assert(!probed(disk@, all[i as int]));
                return false;
            }
        }
        true
    }
}

} // verus!
