//! Link analysis for a tree of markdown documents: extraction of inline and
//! reference-style links, resolution of internal targets against a snapshot
//! of the disk, detection of broken links and of orphaned documents, and
//! aggregate statistics.

pub mod analyzer;
pub mod corpus;
pub mod disk;
pub mod extract;
pub mod laws;
pub mod link;
pub mod paths;
pub mod pattern;
pub mod queries;
pub mod references;
pub mod resolve;
pub mod text;

pub use analyzer::LinkAnalyzer;
pub use disk::{DiskSnapshot, PathStatus};
pub use link::{percentage, BrokenLink, DocumentStats, LinkStatistics, MarkdownLink};
pub use paths::is_markdown_path;
pub use references::ReferenceTable;
