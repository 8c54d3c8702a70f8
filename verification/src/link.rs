//! The records that the analysis produces: links, broken links, statistics.

use vstd::prelude::*;

verus! {

/// One occurrence of a link in a document.
#[derive(Debug, Clone, PartialEq)]
pub struct MarkdownLink {
    /// The text shown to readers.
    pub text: String,
    /// The destination exactly as written: a URL or a path.
    pub target: String,
    /// The 1-based line on which the link occurs.
    pub line_number: usize,
    /// The document that holds the link.
    pub file_path: String,
}

/// A link as a mathematical value.
pub struct LinkView {
    pub text: Seq<char>,
    pub target: Seq<char>,
    pub line_number: nat,
    pub file_path: Seq<char>,
}

impl View for MarkdownLink {
    type V = LinkView;

    open spec fn view(&self) -> LinkView {
        LinkView {
            text: self.text@,
            target: self.target@,
            line_number: self.line_number as nat,
            file_path: self.file_path@,
        }
    }
}

impl MarkdownLink {
    /// A copy of this link.
    pub fn duplicate(&self) -> (copy: MarkdownLink)
        ensures
            copy == *self,
    {
        MarkdownLink {
            text: self.text.clone(),
            target: self.target.clone(),
            line_number: self.line_number,
            file_path: self.file_path.clone(),
        }
    }
}

/// A link whose target was not found, with the reason.
#[derive(Debug, Clone, PartialEq)]
pub struct BrokenLink {
    pub link: MarkdownLink,
    pub reason: String,
}

/// A broken link as a mathematical value.
pub struct BrokenLinkView {
    pub link: LinkView,
    pub reason: Seq<char>,
}

impl View for BrokenLink {
    type V = BrokenLinkView;

    open spec fn view(&self) -> BrokenLinkView {
        BrokenLinkView { link: self.link@, reason: self.reason@ }
    }
}

/// Link counts of one document.
#[derive(Debug, Clone)]
pub struct DocumentStats {
    pub total_links: usize,
    pub internal_links: usize,
    pub external_links: usize,
}

/// Aggregate counts over a corpus, with the counts of each document.
#[derive(Debug)]
pub struct LinkStatistics {
    pub total_documents: usize,
    pub total_links: usize,
    pub internal_links: usize,
    pub external_links: usize,
    pub broken_links: usize,
    pub orphaned_documents: usize,
    /// Path and counts of each document, in corpus order.
    pub document_stats: Vec<(String, DocumentStats)>,
}

impl Default for LinkStatistics {
    fn default() -> (stats: Self)
        ensures
            stats.total_documents == 0,
            stats.total_links == 0,
            stats.internal_links == 0,
            stats.external_links == 0,
            stats.broken_links == 0,
            stats.orphaned_documents == 0,
            stats.document_stats@.len() == 0,
    {
        LinkStatistics {
            total_documents: 0,
            total_links: 0,
            internal_links: 0,
            external_links: 0,
            broken_links: 0,
            orphaned_documents: 0,
            document_stats: Vec::new(),
        }
    }
}

/// The share of `count` in `total` in percent, rounded down; 0 where `total`
/// is 0.
pub open spec fn percentage_of(count: nat, total: nat) -> nat {
    if total == 0 {
        0
    } else {
        (count * 100) / total
    }
}

/// The share of `count` in `total` in percent, rounded down. An empty total
/// gives 0.
pub fn percentage(count: usize, total: usize) -> (percent: u128)
    ensures
        percent == percentage_of(count as nat, total as nat),
        total == 0 ==> percent == 0,
        count <= total ==> percent <= 100,
{
    if total == 0 {
        0
    } else {
        let scaled: u128 = (count as u128) * 100;
        assert(count <= total ==> scaled / (total as u128) <= 100) by (nonlinear_arith)
            requires
                scaled == count * 100,
                total > 0,
        ;
        scaled / (total as u128)
    }
}

impl LinkStatistics {
    /// The share of internal links among all links, in percent.
    pub fn internal_percentage(&self) -> (percent: u128)
        ensures
            percent == percentage_of(self.internal_links as nat, self.total_links as nat),
            self.total_links == 0 ==> percent == 0,
    {
        percentage(self.internal_links, self.total_links)
    }

    /// The share of external links among all links, in percent.
    pub fn external_percentage(&self) -> (percent: u128)
        ensures
            percent == percentage_of(self.external_links as nat, self.total_links as nat),
            self.total_links == 0 ==> percent == 0,
    {
        percentage(self.external_links, self.total_links)
    }
}

} // verus!
