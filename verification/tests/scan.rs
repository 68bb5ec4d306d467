//! Scanning: roles, spans, outcomes, coverage and whole repositories.
use egregore::duplicate::Duplicate;
use egregore::ir::{
    stable_id, ExtensionCount, GraphRecord, IdentitySource, NodeKind, NodeRecord,
    RepositoryIdentityPayload, SnapshotHead, SymbolRole,
};
use egregore::languages::common::SymbolBody;
use egregore::languages::facts::FileFacts;
use egregore::policy::{CodePolicy, PassThrough, Redactor};
use egregore::scan::{
    code_graph_producer, detect_language, file_role_for_path, finish_scan, languages_in_graph,
    link_files, normalize_path, reconcile_scan_coverage, repository_record_from_identity, scan_coverage_records,
    scan_files, scan_repository, scan_repository_at, scan_repository_at_with_exclusions,
    scan_repository_at_with_override, scan_repository_with_exclusions,
    scan_repository_with_override, scan_source_file_records, scan_source_text_records, stable_display_name, whole_file_span, FileContent, GrammarVersions,
    Language, RepositoryIdentity, RepositoryInput, ScanCoverageTally, ScanError, ScanTimes,
    SourceFile, SourceFileScanOutcome,
};

/// `File` path-signal roles classify `tests/` and `benches/`
/// roots as test, everything else as production, on either separator.
#[test]
fn file_role_for_path_classifies_test_roots() {
    assert_eq!(file_role_for_path("tests/integration.rs"), SymbolRole::Test);
    assert_eq!(file_role_for_path("benches/bench.rs"), SymbolRole::Test);
    assert_eq!(
        file_role_for_path("tests\\integration.rs"),
        SymbolRole::Test
    );
    assert_eq!(file_role_for_path("benches\\bench.rs"), SymbolRole::Test);
    assert_eq!(file_role_for_path("src/lib.rs"), SymbolRole::Production);
    assert_eq!(file_role_for_path("src\\lib.rs"), SymbolRole::Production);
    // A mere prefix is not a root: `testing/` is production.
    assert_eq!(file_role_for_path("testing/foo.rs"), SymbolRole::Production);
}

/// the `File` node's whole-file span reports the file's true
/// line count — `str::lines` semantics, so a trailing newline adds no
/// extra line, while trailing blank lines do count. An empty file yields
/// the degenerate zero-length span (`end_line == 0`).
#[test]
fn whole_file_span_counts_lines_like_str_lines() {
    let span = whole_file_span("a\nb\nc");
    assert_eq!((span.start_line, span.end_line), (1, 3));
    assert_eq!((span.start_byte, span.end_byte), (0, 5));
    assert_eq!(span.end_column, Some(1));

    // Trailing newline: still 3 lines, not 4.
    let span = whole_file_span("a\nb\nc\n");
    assert_eq!((span.start_line, span.end_line), (1, 3));
    assert_eq!((span.start_byte, span.end_byte), (0, 6));

    // Trailing blank lines count.
    let span = whole_file_span("a\n\n");
    assert_eq!((span.start_line, span.end_line), (1, 2));
    assert_eq!(span.end_column, Some(0));

    // Empty file: degenerate span, every positive line out of range.
    let span = whole_file_span("");
    assert_eq!((span.start_line, span.end_line), (1, 0));
    assert_eq!((span.start_byte, span.end_byte), (0, 0));
}

const TIME: &str = "2026-01-01T00:00:00Z";

fn source(path: &str, content: FileContent) -> SourceFile {
    SourceFile {
        repo_relative_path: path.to_owned(),
        extension: path.rsplit('.').next().unwrap_or("").to_owned(),
        crate_root: String::new(),
        content,
    }
}

fn bytes(s: &str) -> FileContent {
    FileContent::Bytes(s.as_bytes().to_vec())
}

fn payload(identity_source: IdentitySource) -> RepositoryIdentityPayload {
    RepositoryIdentityPayload {
        identity_source,
        remote_url: Some("https://example.org/team/tool".to_owned()),
        root_commit_sha: Some("0123456789abcdef".to_owned()),
        canonical_path: None,
        basename: "checkout".to_owned(),
    }
}

fn identity() -> RepositoryIdentity {
    RepositoryIdentity { id: "repo:test".to_owned(), payload: payload(IdentitySource::Remote) }
}

fn versions() -> GrammarVersions {
    GrammarVersions {
        tree_sitter: "0.25".to_owned(),
        rust: "0.24".to_owned(),
        typescript: "0.23".to_owned(),
    }
}

fn input(files: Vec<SourceFile>) -> RepositoryInput {
    let walked = files.len() + 1;
    RepositoryInput {
        exists: true,
        is_dir: true,
        identity: identity(),
        head: SnapshotHead::Commit { sha: "abc".to_owned() },
        dirty: false,
        files,
        tally: ScanCoverageTally {
            files_walked: walked,
            files_indexed: 0,
            skipped_by_extension: vec![],
            skipped_paths: vec![("README.md".to_owned(), "md".to_owned())],
            coverage_complete: true,
        },
    }
}

fn nodes(records: &[GraphRecord], kind: NodeKind) -> Vec<&NodeRecord> {
    records
        .iter()
        .filter_map(|r| match r {
            GraphRecord::Node(n) if n.kind == kind => Some(n),
            _ => None,
        })
        .collect()
}

/// An unreadable source file yields a `Skipped` outcome carrying an `unreadable` diagnostic rather
/// than aborting the scan.
#[test]
fn unreadable_source_file_is_skipped_not_aborted() {
    let f = source("src", FileContent::Unreadable);
    let outcome =
        scan_source_file_records(&PassThrough, "repo:test", &f).expect("must not abort");
    match outcome {
        SourceFileScanOutcome::Skipped { diagnostic, repo_relative_path, .. } => {
            assert_eq!(repo_relative_path, "src");
            let GraphRecord::Node(n) = diagnostic else {
                panic!("skip diagnostic must be a node");
            };
            assert_eq!(n.kind, NodeKind::Diagnostic);
            assert!(
                n.summary.contains("unreadable"),
                "expected an unreadable diagnostic, got: {}",
                n.summary
            );
        }
        SourceFileScanOutcome::Extracted { .. } => {
            panic!("an unreadable path must be Skipped, not Extracted")
        }
    }
}

#[test]
fn a_file_that_is_no_text_is_skipped() {
    let f = source("src/lib.rs", FileContent::Bytes(vec![0x66, 0xff]));
    match scan_source_file_records(&PassThrough, "repo:test", &f).expect("no parser ran") {
        SourceFileScanOutcome::Skipped { diagnostic, extension, .. } => {
            assert_eq!(extension, "rs");
            assert!(format!("{diagnostic:?}").contains("non_utf8_source"));
        }
        other => panic!("extracted: {other:?}"),
    }
}

#[test]
fn line_endings_do_not_matter() {
    let of = |text: &str| {
        scan_source_text_records(&PassThrough, "repo:test", "src/lib.rs", "", text)
            .expect("the parser takes it")
    };
    let (unix, facts) = of("/// Doc.\npub fn f() {\n    g();\n}\n");
    let (dos, dos_facts) = of("/// Doc.\r\npub fn f() {\r\n    g();\r\n}\r\n");
    assert_eq!(unix, dos);
    assert_eq!(facts, dos_facts);
    assert!(nodes(&unix, NodeKind::Symbol).iter().any(|n| n.name == Some("f".to_owned())));
}

#[test]
fn both_languages_are_scanned() {
    assert_eq!(detect_language("a/b.ts"), Language::TypeScript);
    assert_eq!(detect_language("a/b.tsx"), Language::TypeScript);
    assert_eq!(detect_language("a/b.rs"), Language::Rust);
    assert_eq!(Language::TypeScript.display_name(), "TypeScript");
    let (records, _) = scan_source_text_records(
        &PassThrough,
        "repo:test",
        "src/a.ts",
        "",
        "export class Box { open() {} }\n",
    )
    .expect("the parser takes it");
    assert!(nodes(&records, NodeKind::Symbol)
        .iter()
        .any(|n| n.name.as_ref().is_some_and(|name| name.ends_with("Box"))));
    assert_eq!(languages_in_graph(&records), vec![Language::TypeScript]);
}

#[test]
fn repositories_are_named_by_what_is_stable() {
    assert_eq!(stable_display_name(&payload(IdentitySource::Remote)), "team/tool");
    assert_eq!(
        stable_display_name(&payload(IdentitySource::LocalRootCommit)),
        "commit-0123456789ab"
    );
    assert_eq!(stable_display_name(&payload(IdentitySource::LocalPath)), "checkout");
    let n = repository_record_from_identity(&identity());
    assert_eq!(n.summary, "Repository team/tool");
    assert_eq!(n.id, "repo:test");
}

#[test]
fn coverage_adds_up() {
    let f = source("src/lib.rs", bytes("fn f() {}\n"));
    let broken = source("src/bad.rs", FileContent::Bytes(vec![0xff]));
    let g = scan_repository_at(&PassThrough, &input(vec![f, broken]), &versions(), TIME)
        .expect("a scan");
    let found = nodes(g.records(), NodeKind::ScanCoverage);
    assert_eq!(found.len(), 1);
    let c = found[0].repository.scan_coverage.as_ref().expect("the coverage");
    assert_eq!((c.files_walked, c.files_indexed), (3, 1));
    assert_eq!(
        c.skipped_by_extension,
        vec![
            ExtensionCount { extension: "md".to_owned(), count: 1 },
            ExtensionCount { extension: "rs".to_owned(), count: 1 },
        ]
    );
    assert!(c.coverage_complete);
    assert_eq!(found[0].summary, "Scan coverage: 3 files walked, 1 indexed");
}

#[test]
fn a_partial_walk_counts_what_it_met() {
    let mut tally = ScanCoverageTally {
        files_walked: 0,
        files_indexed: 0,
        skipped_by_extension: vec![],
        skipped_paths: vec![("a.rs".to_owned(), "rs".to_owned())],
        coverage_complete: false,
    };
    let file = |path: &str| {
        GraphRecord::node(
            path.to_owned(),
            NodeKind::File,
            Some(path.to_owned()),
            None,
            None,
            "file".to_owned(),
        )
    };
    reconcile_scan_coverage(&vec![file("b.rs"), file("b.rs")], &mut tally);
    assert_eq!((tally.files_walked, tally.files_indexed), (2, 1));
    reconcile_scan_coverage(&vec![file("a.rs"), file("b.rs")], &mut tally);
    assert_eq!((tally.files_walked, tally.files_indexed), (2, 2));
    assert!(tally.skipped_by_extension.is_empty());
    let records = scan_coverage_records("repo:test", &tally, "generation");
    assert_eq!(nodes(&records, NodeKind::ScanCoverage).len(), 1);
    assert_eq!(
        records[0].id(),
        stable_id(&vec![
            "node".to_owned(),
            "scan_coverage".to_owned(),
            "repo:test".to_owned()
        ])
    );
}

#[test]
fn a_scan_needs_a_repository() {
    let refused = |i: RepositoryInput| {
        scan_repository_at(&PassThrough, &i, &versions(), TIME).err()
    };
    let mut missing = input(vec![]);
    missing.exists = false;
    assert_eq!(refused(missing), Some(ScanError::RepositoryMissing));
    let mut file = input(vec![]);
    file.is_dir = false;
    assert_eq!(refused(file), Some(ScanError::RepositoryNotDirectory));
}

#[test]
fn a_pinned_scan_can_be_repeated() {
    let files = || vec![source("src/lib.rs", bytes("pub struct S;\nimpl S { fn m(&self) {} }\n"))];
    let of = || {
        scan_repository_at(&PassThrough, &input(files()), &versions(), TIME)
            .expect("a scan")
    };
    assert_eq!(of().records(), of().records());
    assert!(of().records().iter().all(|r| match r {
        GraphRecord::Node(n) => n.producer.as_ref().map(|p| p.producer_started_at.as_str()) == Some(TIME),
        GraphRecord::Edge(e) => e.producer.as_ref().map(|p| p.producer_started_at.as_str()) == Some(TIME),
        GraphRecord::Tombstone(_) => false,
    }));
}

#[test]
fn a_scan_now_names_its_generation() {
    let g = scan_repository(
        &PassThrough,
        &input(vec![]),
        &versions(),
        TIME,
        "2026-01-01T00:00:00.5Z",
        "started",
    )
    .expect("a scan");
    let found = nodes(g.records(), NodeKind::ScanCoverage);
    let c = found[0].repository.scan_coverage.as_ref().expect("the coverage");
    assert_eq!(c.coverage_generation, Some("2026-01-01T00:00:00.5Z".to_owned()));
    assert_eq!(found[0].producer.as_ref().unwrap().producer_started_at, "started");
}

#[test]
fn a_given_identity_takes_the_place_of_the_detected_one() {
    let given = || {
        Some(RepositoryIdentity {
            id: "repo:given".to_owned(),
            payload: payload(IdentitySource::OperatorOverride),
        })
    };
    let snapshot = |g: &egregore::ir::Graph| {
        let found = nodes(g.records(), NodeKind::Repository);
        let s = found[0].repository.source_snapshot.as_ref().expect("a snapshot");
        (found[0].id.clone(), s.dirty)
    };
    let v = versions();
    let g = scan_repository_at_with_override(&PassThrough, input(vec![]), given(), &v, TIME)
        .expect("a scan");
    assert_eq!(snapshot(&g), ("repo:given".to_owned(), false));
    let g = scan_repository_at_with_exclusions(
        &PassThrough,
        input(vec![]),
        None,
        true,
        &v,
        TIME,
    )
    .expect("a scan");
    assert_eq!(snapshot(&g), ("repo:test".to_owned(), true));
    let g = scan_repository_with_override(
        &PassThrough,
        input(vec![]),
        given(),
        &v,
        TIME,
        "generation",
        "started",
    )
    .expect("a scan");
    assert_eq!(snapshot(&g).0, "repo:given");
    let g = scan_repository_with_exclusions(
        &PassThrough,
        input(vec![]),
        given(),
        false,
        &v,
        TIME,
        "generation",
        "started",
    )
    .expect("a scan");
    assert_eq!(snapshot(&g), ("repo:given".to_owned(), false));
}

/// Passes that leave their traces.
struct Tracing {
    manifests: Result<(), String>,
}

fn found(id: String) -> GraphRecord {
    GraphRecord::node(id, NodeKind::Module, None, None, None, "found".to_owned())
}

fn traced(records: &[GraphRecord], mark: &str) -> Vec<GraphRecord> {
    records
        .iter()
        .map(|r| match r.duplicate() {
            GraphRecord::Node(mut n) => {
                n.summary.push_str(mark);
                GraphRecord::Node(n)
            }
            other => other,
        })
        .collect()
}

impl Redactor for Tracing {
    fn redact(&self, text: &str) -> String {
        text.to_owned()
    }
}

impl CodePolicy for Tracing {
    fn reference_edges(
        &self,
        records: &Vec<GraphRecord>,
        definitions: &Vec<(String, String)>,
        bodies: &Vec<SymbolBody>,
    ) -> Vec<GraphRecord> {
        assert!(!records.is_empty());
        assert_eq!(bodies.len(), 1);
        vec![found(format!("reference to {}", definitions[0].0))]
    }

    fn call_records(&self, id: &str, facts: &Vec<(String, FileFacts)>) -> Vec<GraphRecord> {
        assert_eq!(id, "repo:test");
        vec![found(format!("call {}", facts.len()))]
    }

    fn implements_records(&self, _: &str, _: &Vec<(String, FileFacts)>) -> Vec<GraphRecord> {
        vec![found("implementation".to_owned())]
    }

    fn import_records(
        &self,
        _: &str,
        records: &Vec<GraphRecord>,
        _: &Vec<(String, FileFacts)>,
    ) -> Vec<GraphRecord> {
        assert_eq!(records.last().map(GraphRecord::id), Some("implementation"));
        vec![found("import".to_owned())]
    }

    fn label_calls(
        &self,
        records: &Vec<GraphRecord>,
        _: &Vec<(String, FileFacts)>,
    ) -> Vec<GraphRecord> {
        traced(records, " labeled")
    }

    fn mark_test_scope(
        &self,
        records: &Vec<GraphRecord>,
        _: &Vec<(String, FileFacts)>,
    ) -> Vec<GraphRecord> {
        traced(records, " scoped")
    }

    fn mark_test_roles(
        &self,
        records: &Vec<GraphRecord>,
        _: &Vec<(String, FileFacts)>,
    ) -> Vec<GraphRecord> {
        traced(records, " roled")
    }

    fn dependency_records(&self, _: &str) -> Result<Vec<GraphRecord>, String> {
        self.manifests.clone().map(|()| vec![found("dependency".to_owned())])
    }

    fn attribute_packages(&self, records: &Vec<GraphRecord>) -> Vec<GraphRecord> {
        traced(records, " attributed")
    }
}

#[test]
fn files_are_resolved_together_before_the_graph_is_closed() {
    let files = vec![source("src/lib.rs", bytes("fn f() { f(); }\n"))];
    let policy = Tracing { manifests: Ok(()) };
    let g = scan_repository_at(&policy, &input(files), &versions(), TIME).expect("a scan");
    let modules = nodes(g.records(), NodeKind::Module);
    let ids: Vec<&str> = modules.iter().map(|n| n.id.as_str()).collect();
    assert_eq!(ids, vec!["reference to f", "call 1", "implementation", "import", "dependency"]);
    assert!(modules.iter().all(|n| n.valid_time.as_deref() == Some(TIME)));
    assert!(modules[..4].iter().all(|n| n.summary == "found labeled scoped roled attributed"));
    assert_eq!(modules[4].summary, "found attributed");
    let repository = nodes(g.records(), NodeKind::Repository);
    assert_eq!(repository[0].summary, "Repository team/tool");
    assert_eq!(g.records()[0].id(), "repo:test");
    let coverage = nodes(g.records(), NodeKind::ScanCoverage);
    assert!(!coverage[0].summary.contains("attributed"));
}

#[test]
fn a_manifest_that_cannot_be_read_ends_a_scan() {
    let policy = Tracing { manifests: Err("no manifest".to_owned()) };
    assert_eq!(
        scan_repository_at(&policy, &input(vec![]), &versions(), TIME).err(),
        Some(ScanError::Manifest { message: "no manifest".to_owned() })
    );
}

#[test]
fn a_scan_can_be_taken_step_by_step() {
    let files = || vec![source("src/lib.rs", bytes("fn f() {}\n"))];
    let times = ScanTimes {
        transaction_time: TIME,
        coverage_generation: None,
        producer_started_at: Some(TIME),
        process_started_at: "started",
    };
    let p = scan_files(&PassThrough, &input(files()), TIME).expect("a scan");
    let q = link_files(&PassThrough, p, "repo:test", TIME).expect("no manifests");
    let g = finish_scan(q, "repo:test", &times, &versions());
    let whole = scan_repository_at(&PassThrough, &input(files()), &versions(), TIME);
    assert_eq!(g.records(), whole.expect("a scan").records());
}

#[test]
fn exclusions_show_in_the_snapshot_alone() {
    let files = || vec![source("src/lib.rs", bytes("fn f() {}\n"))];
    let of = |dirty: bool| {
        scan_repository_at_with_exclusions(
            &PassThrough,
            input(files()),
            None,
            dirty,
            &versions(),
            TIME,
        )
        .expect("a scan")
    };
    let plain =
        scan_repository_at_with_override(&PassThrough, input(files()), None, &versions(), TIME)
            .expect("a scan");
    assert_eq!(of(false).records(), plain.records());
    let dirty = of(true);
    assert_eq!(dirty.records()[1..], plain.records()[1..]);
    assert_ne!(dirty.records()[0], plain.records()[0]);
    match (dirty.records()[0].duplicate(), plain.records()[0].duplicate()) {
        (GraphRecord::Node(mut a), GraphRecord::Node(b)) => {
            a.repository.source_snapshot.as_mut().expect("a snapshot").dirty = false;
            assert_eq!(a, b);
        }
        other => panic!("no nodes: {other:?}"),
    }
}

#[test]
fn the_producer_lists_its_grammars() {
    let names = |l: &Vec<Language>| -> Vec<String> {
        code_graph_producer(l, &versions(), TIME)
            .producer_components
            .iter()
            .map(|c| c.name.clone())
            .collect()
    };
    assert_eq!(names(&vec![]), names(&vec![Language::Rust]));
    assert_eq!(names(&vec![Language::Rust, Language::TypeScript]).len(), 3);
}

#[test]
fn paths_are_normalized() {
    assert_eq!(normalize_path("./a//b/../c"), "a/b/c");
    assert_eq!(normalize_path(""), "");
}
