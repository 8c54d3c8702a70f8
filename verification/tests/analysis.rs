use doclink_checker::{BrokenLink, DiskSnapshot, LinkAnalyzer, LinkStatistics};

/// The path with `.` and `..` components resolved, as a disk would.
fn normal_form(path: &str) -> String {
    let mut parts: Vec<&str> = Vec::new();
    for part in path.split('/') {
        if part == "." || part.is_empty() {
            continue;
        }
        if part == ".." {
            parts.pop();
        } else {
            parts.push(part);
        }
    }
    format!("/{}", parts.join("/"))
}

/// A snapshot of a disk that holds exactly `files`, covering what the
/// analyzer asks about.
fn disk_with(analyzer: &LinkAnalyzer, files: &[&str]) -> DiskSnapshot {
    let mut disk = DiskSnapshot::new();
    for path in analyzer.paths_to_probe() {
        let normal = normal_form(&path);
        if files.contains(&normal.as_str()) {
            disk.record(normal.clone(), Some(normal.clone()), true);
            disk.record(path, Some(normal), true);
        } else {
            disk.record(path, None, false);
        }
    }
    disk
}

fn analyzer_with(base: &str, documents: &[(&str, &str)]) -> LinkAnalyzer {
    let mut analyzer = LinkAnalyzer::new(base.to_string());
    for (path, content) in documents {
        analyzer.add_document(path.to_string(), content);
    }
    analyzer
}

fn statistics(analyzer: &LinkAnalyzer, disk: &DiskSnapshot) -> LinkStatistics {
    assert!(analyzer.link_total().is_some());
    analyzer.get_statistics(disk)
}

fn targets(broken: &[BrokenLink]) -> Vec<String> {
    broken.iter().map(|b| b.link.target.clone()).collect()
}

#[test]
fn test_find_broken_links() {
    let analyzer = analyzer_with(
        "/tmp/work",
        &[
            (
                "/tmp/work/doc1.md",
                "# Document 1\n[Valid link](./doc2.md)\n[Broken link](./nonexistent.md)\n",
            ),
            ("/tmp/work/doc2.md", "# Document 2\n"),
        ],
    );
    let disk = disk_with(&analyzer, &["/tmp/work/doc1.md", "/tmp/work/doc2.md"]);

    let broken_links = analyzer.find_broken_links(&disk);
    assert_eq!(broken_links.len(), 1);
    assert_eq!(broken_links[0].link.text, "Broken link");
    assert_eq!(broken_links[0].link.target, "./nonexistent.md");
}

#[test]
fn test_broken_links_in_subdirectories() {
    let analyzer = analyzer_with(
        "/tmp/work",
        &[
            (
                "/tmp/work/README.md",
                "[Link to docs](./docs/guide.md)\n[Broken link](./docs/missing.md)\n",
            ),
            ("/tmp/work/docs/guide.md", "# Guide\n"),
        ],
    );
    let disk = disk_with(&analyzer, &["/tmp/work/README.md", "/tmp/work/docs/guide.md"]);

    let broken_links = analyzer.find_broken_links(&disk);
    assert_eq!(broken_links.len(), 1);
    assert_eq!(broken_links[0].link.target, "./docs/missing.md");
}

#[test]
fn test_find_orphaned_documents() {
    let analyzer = analyzer_with(
        "/tmp/work",
        &[
            ("/tmp/work/README.md", "[Link to doc1](./doc1.md)\n"),
            ("/tmp/work/doc1.md", "[Link to doc2](./doc2.md)\n"),
            ("/tmp/work/doc2.md", "# Doc 2\n"),
            ("/tmp/work/orphaned.md", "# Orphaned Document\n"),
        ],
    );
    let disk = disk_with(
        &analyzer,
        &["/tmp/work/README.md", "/tmp/work/doc1.md", "/tmp/work/doc2.md", "/tmp/work/orphaned.md"],
    );

    let orphaned_docs = analyzer.find_orphaned_documents(&disk);
    assert_eq!(orphaned_docs.len(), 1);
    assert!(orphaned_docs[0].ends_with("orphaned.md"));
}

#[test]
fn test_readme_not_orphaned() {
    let analyzer = analyzer_with("/tmp/work", &[("/tmp/work/README.md", "# Main README\n")]);
    let disk = disk_with(&analyzer, &["/tmp/work/README.md"]);

    let orphaned_docs = analyzer.find_orphaned_documents(&disk);
    assert_eq!(orphaned_docs.len(), 0);
}

#[test]
fn test_get_statistics() {
    let analyzer = analyzer_with(
        "/tmp/work",
        &[
            (
                "/tmp/work/doc1.md",
                "[Internal link](./doc2.md)\n[External link](https://example.com)\n",
            ),
            ("/tmp/work/doc2.md", "[Another internal](./doc1.md)\n[Broken link](./missing.md)\n"),
            ("/tmp/work/orphaned.md", "# Orphaned\n"),
        ],
    );
    let disk =
        disk_with(&analyzer, &["/tmp/work/doc1.md", "/tmp/work/doc2.md", "/tmp/work/orphaned.md"]);

    let stats = statistics(&analyzer, &disk);

    assert_eq!(stats.total_documents, 3);
    assert_eq!(stats.total_links, 4);
    assert_eq!(stats.internal_links, 3);
    assert_eq!(stats.external_links, 1);
    assert_eq!(stats.broken_links, 1);
    assert_eq!(stats.orphaned_documents, 1);

    assert_eq!(stats.document_stats.len(), 3);
}

#[test]
fn broken_link_names_the_resolved_path() {
    let analyzer = analyzer_with("/tmp/work", &[("/tmp/work/sub/a.md", "x\n\n[gone](../b.md)")]);
    let disk = disk_with(&analyzer, &["/tmp/work/sub/a.md"]);
    let broken = analyzer.find_broken_links(&disk);
    assert_eq!(broken.len(), 1);
    assert_eq!(broken[0].reason, "File not found: /tmp/work/sub/../b.md");
    assert_eq!(broken[0].link.text, "gone");
    assert_eq!(broken[0].link.line_number, 3);
    assert_eq!(broken[0].link.file_path, "/tmp/work/sub/a.md");
}

#[test]
fn link_to_existing_sibling_is_not_broken() {
    let analyzer = analyzer_with(
        "/tmp/work",
        &[("/tmp/work/a.md", "[b](b.md) [b again](./b.md)"), ("/tmp/work/b.md", "")],
    );
    let disk = disk_with(&analyzer, &["/tmp/work/a.md", "/tmp/work/b.md"]);
    assert_eq!(analyzer.find_broken_links(&disk).len(), 0);
}

#[test]
fn target_with_leading_slash_resolves_below_base() {
    let analyzer = analyzer_with(
        "/tmp/work",
        &[(
            "/tmp/work/deep/er/page.md",
            "[there](/guide/intro.md)\n[not there](/guide/outro.md)\n[relative](guide/intro.md)",
        )],
    );
    let disk = disk_with(&analyzer, &["/tmp/work/deep/er/page.md", "/tmp/work/guide/intro.md"]);
    let broken = analyzer.find_broken_links(&disk);
    assert_eq!(targets(&broken), vec!["/guide/outro.md", "guide/intro.md"]);
    assert_eq!(broken[0].reason, "File not found: /tmp/work/guide/outro.md");
    assert_eq!(broken[1].reason, "File not found: /tmp/work/deep/er/guide/intro.md");
}

#[test]
fn external_links_are_never_broken() {
    let analyzer = analyzer_with(
        "/tmp/work",
        &[("/tmp/work/a.md", "[s](https://example.com/x.md) [p](http://example.com) [f](ftp://x)")],
    );
    let broken = analyzer.find_broken_links(&DiskSnapshot::new());
    assert_eq!(targets(&broken), vec!["ftp://x"]);
}

#[test]
fn external_prefix_is_case_sensitive() {
    let analyzer = analyzer_with("/tmp/work", &[("/tmp/work/a.md", "[u](HTTP://example.com)")]);
    let disk = disk_with(&analyzer, &["/tmp/work/a.md"]);
    assert_eq!(targets(&analyzer.find_broken_links(&disk)), vec!["HTTP://example.com"]);
    let stats = statistics(&analyzer, &disk);
    assert_eq!(stats.internal_links, 1);
    assert_eq!(stats.external_links, 0);
}

#[test]
fn every_occurrence_is_checked_once_in_order() {
    let analyzer = analyzer_with(
        "/tmp/work",
        &[
            ("/tmp/work/a.md", "[1](x.md) [2](x.md)\n[3](y.md)"),
            ("/tmp/work/b.md", "[4](x.md)"),
        ],
    );
    let disk = disk_with(&analyzer, &["/tmp/work/a.md", "/tmp/work/b.md"]);
    let broken = analyzer.find_broken_links(&disk);
    let texts: Vec<&str> = broken.iter().map(|b| b.link.text.as_str()).collect();
    assert_eq!(texts, vec!["1", "2", "3", "4"]);
}

#[test]
fn canonical_form_that_does_not_exist_is_broken() {
    let analyzer = analyzer_with("/tmp/work", &[("/tmp/work/a.md", "[l](b.md)")]);
    let mut disk = DiskSnapshot::new();
    disk.record("/tmp/work/b.md".to_string(), Some("/real/b.md".to_string()), true);
    let broken = analyzer.find_broken_links(&disk);
    assert_eq!(broken.len(), 1);
    assert_eq!(broken[0].reason, "File not found: /real/b.md");
    disk.record("/real/b.md".to_string(), None, true);
    assert_eq!(analyzer.find_broken_links(&disk).len(), 0);
}

#[test]
fn path_without_canonical_form_is_checked_as_joined() {
    let analyzer = analyzer_with("/tmp/work", &[("/tmp/work/a.md", "[l](b.md)")]);
    let mut disk = DiskSnapshot::new();
    disk.record("/tmp/work/b.md".to_string(), None, true);
    assert_eq!(analyzer.find_broken_links(&disk).len(), 0);
    disk.record("/tmp/work/b.md".to_string(), None, false);
    assert_eq!(analyzer.find_broken_links(&disk).len(), 1);
}

#[test]
fn document_without_directory_resolves_against_what_join_gives() {
    let analyzer = analyzer_with("/tmp/work", &[("a.md", "[l](b.md)")]);
    assert_eq!(analyzer.paths_to_probe(), vec!["a.md", "b.md"]);
    let rootless = analyzer_with("/tmp/work", &[("", "[l](b.md)")]);
    assert_eq!(rootless.paths_to_probe(), vec!["", "/tmp/work/b.md"]);
}

#[test]
fn paths_to_probe_lists_documents_then_internal_targets() {
    let analyzer = analyzer_with(
        "/tmp/work",
        &[
            ("/tmp/work/a.md", "[1](x.md) [e](https://example.com) [2](/y.md)"),
            ("/tmp/work/sub/b.md", "[3](../z.md)"),
        ],
    );
    assert_eq!(
        analyzer.paths_to_probe(),
        vec![
            "/tmp/work/a.md",
            "/tmp/work/sub/b.md",
            "/tmp/work/x.md",
            "/tmp/work/y.md",
            "/tmp/work/sub/../z.md",
        ]
    );
}

#[test]
fn lowercase_readme_is_a_root_anchor_too() {
    let analyzer = analyzer_with("/tmp/work", &[("/tmp/work/readme.md", "")]);
    let disk = disk_with(&analyzer, &["/tmp/work/readme.md"]);
    assert_eq!(analyzer.find_orphaned_documents(&disk).len(), 0);
}

#[test]
fn other_readme_spellings_and_places_are_no_anchors() {
    let analyzer = analyzer_with(
        "/tmp/work",
        &[("/tmp/work/ReadMe.md", ""), ("/tmp/work/sub/README.md", ""), ("/tmp/work/README.md", "")],
    );
    let disk = disk_with(
        &analyzer,
        &["/tmp/work/ReadMe.md", "/tmp/work/sub/README.md", "/tmp/work/README.md"],
    );
    assert_eq!(
        analyzer.find_orphaned_documents(&disk),
        vec!["/tmp/work/ReadMe.md", "/tmp/work/sub/README.md"]
    );
}

#[test]
fn document_without_canonical_form_is_not_reported() {
    let analyzer = analyzer_with("/tmp/work", &[("/tmp/work/a.md", ""), ("/tmp/work/b.md", "")]);
    let disk = disk_with(&analyzer, &["/tmp/work/b.md"]);
    assert_eq!(analyzer.find_orphaned_documents(&disk), vec!["/tmp/work/b.md"]);
    assert_eq!(analyzer.find_orphaned_documents(&DiskSnapshot::new()).len(), 0);
}

#[test]
fn unresolvable_target_makes_no_reference() {
    let analyzer = analyzer_with(
        "/tmp/work",
        &[("/tmp/work/README.md", "[b](b.md)"), ("/tmp/work/b.md", "")],
    );
    let mut disk = DiskSnapshot::new();
    disk.record("/tmp/work/README.md".to_string(), Some("/tmp/work/README.md".to_string()), true);
    disk.record("/tmp/work/b.md".to_string(), Some("/tmp/work/b.md".to_string()), true);
    assert_eq!(analyzer.find_orphaned_documents(&disk).len(), 0);
    disk.record("/tmp/work/b.md".to_string(), None, true);
    assert_eq!(analyzer.find_orphaned_documents(&disk).len(), 0);
    let other = analyzer_with(
        "/tmp/work",
        &[("/tmp/work/README.md", "[b](c.md)"), ("/tmp/work/b.md", "")],
    );
    let uncovered = disk_with(&other, &["/tmp/work/README.md", "/tmp/work/b.md"]);
    assert_eq!(other.find_orphaned_documents(&uncovered), vec!["/tmp/work/b.md"]);
}

#[test]
fn external_link_makes_no_reference() {
    let analyzer = analyzer_with(
        "/tmp/work",
        &[("/tmp/work/README.md", "[b](https://example.com/b.md)"), ("/tmp/work/b.md", "")],
    );
    let disk = disk_with(&analyzer, &["/tmp/work/README.md", "/tmp/work/b.md"]);
    assert_eq!(analyzer.find_orphaned_documents(&disk), vec!["/tmp/work/b.md"]);
}

#[test]
fn document_that_links_to_itself_is_referenced() {
    let analyzer = analyzer_with("/tmp/work", &[("/tmp/work/a.md", "[me](./a.md)")]);
    let disk = disk_with(&analyzer, &["/tmp/work/a.md"]);
    assert_eq!(analyzer.find_orphaned_documents(&disk).len(), 0);
}

#[test]
fn statistics_of_an_empty_corpus() {
    let analyzer = LinkAnalyzer::new("/tmp/work".to_string());
    let stats = statistics(&analyzer, &DiskSnapshot::new());
    assert_eq!(stats.total_documents, 0);
    assert_eq!(stats.total_links, 0);
    assert_eq!(stats.internal_links, 0);
    assert_eq!(stats.external_links, 0);
    assert_eq!(stats.broken_links, 0);
    assert_eq!(stats.orphaned_documents, 0);
    assert_eq!(stats.document_stats.len(), 0);
    assert_eq!(stats.internal_percentage(), 0);
    assert_eq!(stats.external_percentage(), 0);
    assert_eq!(analyzer.link_total(), Some(0));
}

#[test]
fn statistics_per_document() {
    let analyzer = analyzer_with(
        "/tmp/work",
        &[
            ("/tmp/work/a.md", "[1](b.md) [2](http://x) [3](https://y)"),
            ("/tmp/work/b.md", ""),
            ("/tmp/work/c.md", "[4](a.md)\n[5](nowhere.md)"),
        ],
    );
    let disk = disk_with(&analyzer, &["/tmp/work/a.md", "/tmp/work/b.md", "/tmp/work/c.md"]);
    let stats = statistics(&analyzer, &disk);
    let rows: Vec<(&str, usize, usize, usize)> = stats
        .document_stats
        .iter()
        .map(|(p, s)| (p.as_str(), s.total_links, s.internal_links, s.external_links))
        .collect();
    assert_eq!(
        rows,
        vec![("/tmp/work/a.md", 3, 1, 2), ("/tmp/work/b.md", 0, 0, 0), ("/tmp/work/c.md", 2, 2, 0)]
    );
    assert_eq!(stats.total_links, 5);
    assert_eq!(stats.internal_links, 3);
    assert_eq!(stats.external_links, 2);
    assert_eq!(stats.internal_percentage(), 60);
    assert_eq!(stats.external_percentage(), 40);
    assert_eq!(analyzer.link_total(), Some(5));
}

#[test]
fn statistics_agree_with_the_queries() {
    let analyzer = analyzer_with(
        "/tmp/work",
        &[
            ("/tmp/work/README.md", "[a](a.md) [gone](gone.md) [also gone](/x/y.md)"),
            ("/tmp/work/a.md", "[ext](https://example.com)"),
            ("/tmp/work/lonely.md", "[README](README.md)"),
            ("/tmp/work/forgotten.md", ""),
        ],
    );
    let disk = disk_with(
        &analyzer,
        &["/tmp/work/README.md", "/tmp/work/a.md", "/tmp/work/lonely.md", "/tmp/work/forgotten.md"],
    );
    let stats = statistics(&analyzer, &disk);
    assert_eq!(stats.broken_links, analyzer.find_broken_links(&disk).len());
    assert_eq!(stats.orphaned_documents, analyzer.find_orphaned_documents(&disk).len());
    assert_eq!(stats.broken_links, 2);
    assert_eq!(stats.orphaned_documents, 2);
}

#[test]
fn queries_asked_twice_answer_the_same() {
    let analyzer = analyzer_with(
        "/tmp/work",
        &[
            ("/tmp/work/README.md", "[a](a.md) [gone](gone.md)"),
            ("/tmp/work/a.md", "[b][r]\n[r]: ./missing.md"),
            ("/tmp/work/c.md", ""),
        ],
    );
    let disk = disk_with(&analyzer, &["/tmp/work/README.md", "/tmp/work/a.md", "/tmp/work/c.md"]);
    assert_eq!(analyzer.find_broken_links(&disk), analyzer.find_broken_links(&disk));
    assert_eq!(analyzer.find_orphaned_documents(&disk), analyzer.find_orphaned_documents(&disk));
    let first = statistics(&analyzer, &disk);
    let second = statistics(&analyzer, &disk);
    assert_eq!(first.total_documents, second.total_documents);
    assert_eq!(first.total_links, second.total_links);
    assert_eq!(first.internal_links, second.internal_links);
    assert_eq!(first.external_links, second.external_links);
    assert_eq!(first.broken_links, second.broken_links);
    assert_eq!(first.orphaned_documents, second.orphaned_documents);
    assert_eq!(first.document_stats.len(), second.document_stats.len());
    assert_eq!(analyzer.find_broken_links(&disk).len(), 2);
    assert_eq!(analyzer.find_orphaned_documents(&disk), vec!["/tmp/work/c.md"]);
}

#[test]
fn adding_a_path_again_replaces_the_document() {
    let mut analyzer = analyzer_with(
        "/tmp/work",
        &[("/tmp/work/a.md", "[1](x.md) [2](y.md)"), ("/tmp/work/b.md", "[3](z.md)")],
    );
    analyzer.add_document("/tmp/work/a.md".to_string(), "[only](w.md)");
    let stats = statistics(&analyzer, &DiskSnapshot::new());
    assert_eq!(stats.total_documents, 2);
    assert_eq!(stats.total_links, 2);
    assert_eq!(stats.document_stats[0].0, "/tmp/work/a.md");
    assert_eq!(stats.document_stats[0].1.total_links, 1);
    assert_eq!(stats.document_stats[1].0, "/tmp/work/b.md");
    let broken = analyzer.find_broken_links(&DiskSnapshot::new());
    assert_eq!(targets(&broken), vec!["w.md", "z.md"]);
}

#[test]
fn insert_document_attaches_the_path_to_every_link() {
    let mut analyzer = LinkAnalyzer::new("/tmp/work".to_string());
    analyzer.insert_document(
        "/tmp/work/a.md".to_string(),
        vec![
            ("one".to_string(), "x.md".to_string(), 4),
            ("two".to_string(), "https://example.com".to_string(), 9),
        ],
    );
    let broken = analyzer.find_broken_links(&DiskSnapshot::new());
    assert_eq!(broken.len(), 1);
    assert_eq!(broken[0].link.text, "one");
    assert_eq!(broken[0].link.target, "x.md");
    assert_eq!(broken[0].link.line_number, 4);
    assert_eq!(broken[0].link.file_path, "/tmp/work/a.md");
    assert_eq!(broken[0].reason, "File not found: /tmp/work/x.md");
}

#[test]
fn readme_below_a_relative_base_is_not_orphaned() {
    let analyzer = analyzer_with(
        "docs",
        &[("docs/README.md", "# Start\n"), ("docs/readme.md", ""), ("docs/other.md", "")],
    );
    let mut disk = DiskSnapshot::new();
    disk.record("docs/README.md".to_string(), Some("/abs/docs/README.md".to_string()), true);
    disk.record("docs/readme.md".to_string(), Some("/abs/docs/readme.md".to_string()), true);
    disk.record("docs/other.md".to_string(), Some("/abs/docs/other.md".to_string()), true);
    disk.record("/abs/docs/README.md".to_string(), Some("/abs/docs/README.md".to_string()), true);
    disk.record("/abs/docs/readme.md".to_string(), Some("/abs/docs/readme.md".to_string()), true);
    disk.record("/abs/docs/other.md".to_string(), Some("/abs/docs/other.md".to_string()), true);
    assert!(analyzer.is_covered_by(&disk));
    assert_eq!(analyzer.find_orphaned_documents(&disk), vec!["docs/other.md"]);
    let stats = statistics(&analyzer, &disk);
    assert_eq!(stats.orphaned_documents, 1);
}

#[test]
fn readme_reached_through_another_name_of_the_base_is_not_orphaned() {
    let analyzer = analyzer_with("/link/to/docs", &[("/link/to/docs/README.md", "")]);
    let mut disk = DiskSnapshot::new();
    disk.record(
        "/link/to/docs/README.md".to_string(),
        Some("/real/docs/README.md".to_string()),
        true,
    );
    assert_eq!(analyzer.find_orphaned_documents(&disk).len(), 0);
}

#[test]
fn readme_is_an_anchor_even_where_the_disk_knows_nothing() {
    let analyzer = analyzer_with("/tmp/work", &[("/tmp/work/README.md", "")]);
    assert_eq!(analyzer.find_orphaned_documents(&DiskSnapshot::new()).len(), 0);
}

#[test]
fn document_is_an_anchor_by_its_own_path() {
    let analyzer = analyzer_with("/tmp/work", &[("/tmp/work/alias.md", "")]);
    let mut disk = DiskSnapshot::new();
    disk.record("/tmp/work/alias.md".to_string(), Some("/tmp/work/README.md".to_string()), true);
    assert_eq!(analyzer.find_orphaned_documents(&disk), vec!["/tmp/work/alias.md"]);
}

#[test]
fn orphans_are_documents_of_the_corpus_each_once() {
    let analyzer = analyzer_with(
        "/tmp/work",
        &[("/tmp/work/a.md", ""), ("/tmp/work/b.md", ""), ("/tmp/work/a.md", "again")],
    );
    let disk = disk_with(&analyzer, &["/tmp/work/a.md", "/tmp/work/b.md"]);
    assert_eq!(analyzer.find_orphaned_documents(&disk), vec!["/tmp/work/a.md", "/tmp/work/b.md"]);
}

#[test]
fn broken_links_name_their_document() {
    let analyzer = analyzer_with(
        "/tmp/work",
        &[("/tmp/work/a.md", "[x](x.md)"), ("/tmp/work/sub/b.md", "[y](y.md)\n[z](/z.md)")],
    );
    let broken = analyzer.find_broken_links(&DiskSnapshot::new());
    let holders: Vec<&str> = broken.iter().map(|b| b.link.file_path.as_str()).collect();
    assert_eq!(holders, vec!["/tmp/work/a.md", "/tmp/work/sub/b.md", "/tmp/work/sub/b.md"]);
}

#[test]
fn snapshot_covers_what_was_probed() {
    let analyzer = analyzer_with(
        "/tmp/work",
        &[("/tmp/work/a.md", "[b](b.md) [e](https://example.com)"), ("/tmp/work/b.md", "")],
    );
    assert!(!analyzer.is_covered_by(&DiskSnapshot::new()));
    assert!(analyzer.is_covered_by(&disk_with(&analyzer, &["/tmp/work/a.md", "/tmp/work/b.md"])));
    assert!(analyzer.is_covered_by(&disk_with(&analyzer, &[])));

    let mut disk = DiskSnapshot::new();
    disk.record("/tmp/work/a.md".to_string(), None, true);
    assert!(!analyzer.is_covered_by(&disk));
    disk.record("/tmp/work/b.md".to_string(), Some("/real/b.md".to_string()), true);
    assert!(!analyzer.is_covered_by(&disk));
    disk.record("/real/b.md".to_string(), None, true);
    assert!(analyzer.is_covered_by(&disk));
    assert!(LinkAnalyzer::new("/tmp/work".to_string()).is_covered_by(&DiskSnapshot::new()));
}
