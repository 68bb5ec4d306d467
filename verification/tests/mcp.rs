//! Answers and refusals of the tools, and the published contract.
use egregore::ir::{
    EmbeddingModel, GraphRecord, MetricKind, NodeKind, NodeRecord, SelectionBasis,
    SemanticDriftMetadata, SnapshotHead, SourceSnapshotPayload,
};
use egregore::json::Json;
use egregore::mcp::{
    daemon_error, domain_category, opt_data_dir, opt_repo_path, stamp_freshness_on_payload,
    tool_freshness_stamp, tool_inspect_store_from_records, tool_symbol_context_from_records,
    tool_task_evidence_from_records, ClassifiedRecord, DecisionRow, DriftRow, EgregoreMcpServer,
    EvidenceHandle, FreshnessReport, FreshnessVerdict, RecordVersion, StoreContents, StoreCoverage,
    SymbolContextArgs, SymbolEvidence, TaskContents, TaskEvidence, TaskEvidenceArgs, TaskLookup,
    TrustClass, UnresolvedRef, VersionedRecord,
};
use egregore::mcp_contract::{
    error_schema, response_schema, MCP_CONTRACT_TOOLS, MCP_CONTRACT_VERSION,
};

fn text(s: &str) -> Json {
    Json::Str(s.to_owned())
}

fn at<'a>(j: &'a Json, path: &[&str]) -> &'a Json {
    path.iter().fold(j, |j, key| j.get(key).expect("a member"))
}

fn len(j: &Json) -> usize {
    match j {
        Json::Arr(v) => v.len(),
        Json::Obj(v) => v.len(),
        other => panic!("no length: {other:?}"),
    }
}

fn report() -> FreshnessReport {
    FreshnessReport {
        freshness: FreshnessVerdict::StaleHead,
        fresh: false,
        repository_id: "repo-1".to_owned(),
        stored_snapshot: Some(SourceSnapshotPayload {
            head: SnapshotHead::Commit { sha: "abc".to_owned() },
            dirty: false,
            repository_id: "repo-1".to_owned(),
            scanned_at: "2026-01-01T00:00:00Z".to_owned(),
        }),
        current_head: SnapshotHead::Commit { sha: "def".to_owned() },
        current_dirty: true,
        message: "the head moved".to_owned(),
    }
}

fn node(id: &str, kind: NodeKind) -> NodeRecord {
    let mut n = NodeRecord::plain(
        id.to_owned(),
        kind,
        Some("src/lib.rs".to_owned()),
        None,
        Some("name".to_owned()),
        "a summary".to_owned(),
    );
    n.text = Some("raw text".to_owned());
    n
}

fn classified(id: &str, kind: NodeKind) -> ClassifiedRecord {
    ClassifiedRecord { record: GraphRecord::Node(node(id, kind)), trust: TrustClass::SourceDerived }
}

fn decision() -> DecisionRow {
    let mut n = node("agent_memory:v1:d", NodeKind::Observation);
    n.memory.agent_id = Some("agent".to_owned());
    DecisionRow {
        record: GraphRecord::Node(n),
        trust: TrustClass::AgentUnverified,
        decision_text: Some("keep the queue".to_owned()),
        rationale_summary: Some("it is bounded".to_owned()),
        evidence_handles: vec![EvidenceHandle {
            relation: "EXPLAINS_CHANGE".to_owned(),
            target_record_id: "codegraph:v1:s".to_owned(),
            target_kind: "Symbol".to_owned(),
        }],
    }
}

fn coverage() -> StoreCoverage {
    StoreCoverage {
        code_graph: true,
        agent_memory: true,
        project: false,
        artifact: false,
        verification: true,
    }
}

fn drift() -> DriftRow {
    let mut n = node("semantic:v1:d", NodeKind::SemanticDrift);
    n.semantic_drift = Some(SemanticDriftMetadata {
        embedding_model: EmbeddingModel {
            provider: "local".to_owned(),
            name: "small".to_owned(),
            version: "v".to_owned(),
            dim: 8,
            content_hash: "h".to_owned(),
        },
        target_record_id: "t".to_owned(),
        prior_record_id: "p".to_owned(),
        before_git_commit: "aaa".to_owned(),
        after_git_commit: "bbb".to_owned(),
        before_valid_time: "2026-01-01T00:00:00Z".to_owned(),
        after_valid_time: "2026-01-02T00:00:00Z".to_owned(),
        metric_kind: MetricKind::CosineDistance,
        score_bits: 0.7_f64.to_bits(),
        selection_threshold_bits: 0.2_f64.to_bits(),
        selection_basis: SelectionBasis::ThresholdOnly,
    });
    DriftRow {
        record: GraphRecord::Node(n),
        trust: TrustClass::Other,
        resolved_path: Some("src/lib.rs".to_owned()),
        resolved_span: None,
    }
}

fn symbol_evidence() -> SymbolEvidence {
    SymbolEvidence {
        source_facts: vec![classified("codegraph:v1:s", NodeKind::Symbol)],
        topology_edges: vec![],
        observations: vec![classified("agent_memory:v1:o", NodeKind::Observation)],
        decisions: vec![decision()],
        project_state: vec![],
        artifacts: vec![],
        verification_evidence: vec![],
        drift_history: vec![drift()],
        unresolved: vec![UnresolvedRef {
            source_record_id: "a".to_owned(),
            target_handle: "b".to_owned(),
            relation: "OBSERVES".to_owned(),
            target_domain: "codegraph".to_owned(),
        }],
        store_coverage: coverage(),
    }
}

fn task_evidence() -> TaskEvidence {
    TaskEvidence {
        task_id: "project:v1:t".to_owned(),
        tasks: vec![classified("project:v1:t", NodeKind::Task)],
        acceptance_criteria: vec![],
        source_facts: vec![],
        observations: vec![],
        decisions: vec![decision()],
        artifacts: vec![],
        verification_evidence: vec![],
        reviews: vec![],
        external_links: vec![],
        unresolved: vec![],
        store_coverage: coverage(),
    }
}

fn versioned(domain: &str, kind: NodeKind, supported: bool) -> VersionedRecord {
    VersionedRecord {
        record: GraphRecord::Node(node("x", kind)),
        version: RecordVersion { domain: domain.to_owned(), kind: "node".to_owned(), version: 1 },
        supported,
    }
}

#[test]
fn a_refused_connection_says_whether_the_daemon_is_stale() {
    let code = |m: &str| at(&daemon_error(m), &["error", "code"]) == &text("daemon_stale");
    assert!(code("Stale lock"));
    assert!(code("bad metadata"));
    assert!(!code("connection refused"));
    let refused = daemon_error("connection refused");
    assert_eq!(at(&refused, &["ok"]), &Json::Bool(false));
    assert_eq!(at(&refused, &["error", "code"]), &text("daemon_not_running"));
    assert_eq!(at(&refused, &["error", "message"]), &text("connection refused"));
}

#[test]
fn domains_have_categories() {
    assert_eq!(domain_category("codegraph"), "Deterministic Source Facts");
    assert_eq!(domain_category("log"), "Runtime Observations");
    assert_eq!(domain_category("poetry"), "Unknown Domain");
}

#[test]
fn arguments_fall_back() {
    assert_eq!(opt_data_dir(&Some("a".to_owned()), "d"), "a");
    assert_eq!(opt_data_dir(&None, "d"), "d");
    assert_eq!(opt_repo_path(&Some("a".to_owned()), &Some("c".to_owned())), "a");
    assert_eq!(opt_repo_path(&None, &Some("c".to_owned())), "c");
    assert_eq!(opt_repo_path(&None, &None), "");
    let server = EgregoreMcpServer::new("home".to_owned());
    assert_eq!(server.data_dir(&None), "home");
}

#[test]
fn an_inspection_counts_what_is_there() {
    let records = vec![
        versioned("codegraph", NodeKind::Symbol, true),
        versioned("codegraph", NodeKind::Diagnostic, true),
        versioned("log", NodeKind::LogSource, false),
    ];
    let unknown = vec![RecordVersion {
        domain: "future".to_owned(),
        kind: "node".to_owned(),
        version: 9,
    }];
    let r = tool_inspect_store_from_records(&records, &unknown, "now");
    assert_eq!(at(&r, &["ok"]), &Json::Bool(true));
    assert_eq!(at(&r, &["records"]), &Json::UInt(4));
    assert_eq!(at(&r, &["nodes"]), &Json::UInt(2));
    assert_eq!(at(&r, &["edges"]), &Json::UInt(0));
    assert_eq!(at(&r, &["tombstones"]), &Json::UInt(0));
    assert_eq!(at(&r, &["diagnostics"]), &Json::UInt(1));
    assert_eq!(at(&r, &["snapshot_timestamp"]), &text("now"));
    assert!(len(at(&r, &["unknown_schema_versions"])) >= 1);
}

#[test]
fn a_symbol_that_is_not_there_is_refused() {
    let r = tool_symbol_context_from_records(&None, "ghost");
    assert_eq!(at(&r, &["ok"]), &Json::Bool(false));
    assert_eq!(at(&r, &["error", "code"]), &text("no_match"));
    assert_eq!(at(&r, &["error", "symbol_name"]), &text("ghost"));
}

#[test]
fn a_symbol_context_is_separated_by_domain() {
    let r = tool_symbol_context_from_records(&Some(symbol_evidence()), "name");
    assert_eq!(at(&r, &["ok"]), &Json::Bool(true));
    assert_eq!(len(at(&r, &["source_facts"])), 1);
    assert_eq!(len(at(&r, &["observations"])), 1);
    assert_eq!(len(at(&r, &["unresolved"])), 1);
    assert!(!format!("{:?}", at(&r, &["source_facts"])).contains("raw text"));
}

#[test]
fn task_handles_are_refused_for_a_reason() {
    let of = |lookup: TaskLookup| tool_task_evidence_from_records(&vec![], &lookup, "h");
    let ambiguous = of(TaskLookup::Ambiguous {
        handle: "h".to_owned(),
        candidates: vec!["a".to_owned(), "b".to_owned()],
    });
    assert_eq!(at(&ambiguous, &["error", "code"]), &text("ambiguous_handle"));
    assert_eq!(len(at(&ambiguous, &["error", "candidates"])), 2);
    let unsupported =
        of(TaskLookup::Unsupported { handle: "h".to_owned(), message: "no".to_owned() });
    assert_eq!(at(&unsupported, &["error", "code"]), &text("unsupported_handle"));
    let none = of(TaskLookup::NoMatch);
    assert_eq!(at(&none, &["error", "code"]), &text("no_match"));
    assert_eq!(at(&none, &["error", "id_or_handle"]), &text("h"));
}

#[test]
fn task_evidence_is_separated_by_domain() {
    let found = TaskLookup::Found { evidence: task_evidence() };
    let r = tool_task_evidence_from_records(&vec![], &found, "h");
    assert_eq!(at(&r, &["ok"]), &Json::Bool(true));
    assert_eq!(at(&r, &["task_id"]), &text("project:v1:t"));
    assert_eq!(len(at(&r, &["tasks"])), 1);
}

#[test]
fn a_stamp_says_what_was_compared() {
    let s = tool_freshness_stamp(&report(), "/repo");
    assert_eq!(at(&s, &["verdict"]), &text("stale_head"));
    assert_eq!(at(&s, &["fresh"]), &Json::Bool(false));
    assert_eq!(at(&s, &["repo_path"]), &text("/repo"));
    assert_eq!(at(&s, &["current_dirty"]), &Json::Bool(true));
    assert_eq!(at(&s, &["message"]), &text("the head moved"));
    let mut never = report();
    never.stored_snapshot = None;
    let s = tool_freshness_stamp(&never, "/repo");
    assert_eq!(at(&s, &["stored_snapshot", "state"]), &text("pre_stamping"));
}

#[test]
fn only_answers_are_stamped() {
    let answer = Json::Obj(vec![
        ("ok".to_owned(), Json::Bool(true)),
        ("x".to_owned(), Json::UInt(1)),
    ]);
    let r = stamp_freshness_on_payload(answer, &report(), "/repo");
    assert_eq!(at(&r, &["x"]), &Json::UInt(1));
    assert_eq!(at(&r, &["freshness", "repository_id"]), &text("repo-1"));
    let refused = stamp_freshness_on_payload(daemon_error("gone"), &report(), "/repo");
    assert_eq!(refused, daemon_error("gone"));
}

#[test]
fn the_server_answers_or_passes_the_refusal_on() {
    let server = EgregoreMcpServer::new("home".to_owned());
    let contents = StoreContents {
        records: vec![],
        unknown_versions: vec![],
        snapshot_timestamp: "now".to_owned(),
    };
    let r = server.inspect_store(&Ok((contents, report())), "/repo");
    assert_eq!(at(&r, &["freshness", "fresh"]), &Json::Bool(false));
    let gone: Result<(StoreContents, FreshnessReport), String> = Err("gone".to_owned());
    assert_eq!(server.inspect_store(&gone, "/repo"), daemon_error("gone"));

    let args = |name: &str| SymbolContextArgs {
        symbol_name: name.to_owned(),
        data_dir: None,
        repo_path: None,
    };
    let r = server.symbol_context(&args(""), &Err("gone".to_owned()), "/repo");
    assert_eq!(at(&r, &["error", "code"]), &text("missing_argument"));
    let found = Ok((Some(symbol_evidence()), report()));
    let r = server.symbol_context(&args("name"), &found, "/repo");
    assert_eq!(at(&r, &["freshness", "verdict"]), &text("stale_head"));

    let args =
        TaskEvidenceArgs { id_or_handle: "h".to_owned(), data_dir: None, repo_path: None };
    let contents = TaskContents { records: vec![], lookup: TaskLookup::NoMatch };
    let r = server.task_evidence(&args, &Ok((contents, report())), "/repo");
    assert_eq!(r.get("freshness"), None);

    let r = server.store_freshness(&Ok(report()), "/repo");
    assert_eq!(at(&r, &["ok"]), &Json::Bool(true));
    assert_eq!(at(&r, &["freshness", "verdict"]), &text("stale_head"));
    let r = server.store_freshness(&Err("gone".to_owned()), "/repo");
    assert_eq!(r, daemon_error("gone"));
}

#[test]
fn exactly_the_tools_of_the_contract_have_a_schema() {
    assert_eq!(MCP_CONTRACT_VERSION, 1);
    for tool in MCP_CONTRACT_TOOLS {
        let schema = response_schema(tool).expect("a schema");
        assert_eq!(
            at(&schema, &["title"]),
            &text(&format!("Egregore MCP tool response: {tool}"))
        );
        assert_eq!(at(&schema, &["additionalProperties"]), &Json::Bool(true));
    }
    assert_eq!(response_schema("poetry"), None);
    assert_eq!(at(&error_schema(), &["type"]), &text("object"));
}

#[test]
fn answers_carry_what_the_contract_requires() {
    let required = |tool: &str| -> Vec<String> {
        match at(&response_schema(tool).expect("a schema"), &["required"]) {
            Json::Arr(v) => v
                .iter()
                .map(|j| match j {
                    Json::Str(s) => s.clone(),
                    other => panic!("no name: {other:?}"),
                })
                .collect(),
            other => panic!("no list: {other:?}"),
        }
    };
    let r = stamp_freshness_on_payload(
        tool_inspect_store_from_records(&vec![], &vec![], "now"),
        &report(),
        "/repo",
    );
    for name in required("inspect_store") {
        assert!(r.get(&name).is_some());
    }
    let r = stamp_freshness_on_payload(
        tool_symbol_context_from_records(&Some(symbol_evidence()), "name"),
        &report(),
        "/repo",
    );
    for name in required("symbol_context") {
        assert!(r.get(&name).is_some(), "{name}");
    }
    let r = stamp_freshness_on_payload(
        tool_task_evidence_from_records(
            &vec![],
            &TaskLookup::Found { evidence: task_evidence() },
            "handle",
        ),
        &report(),
        "/repo",
    );
    for name in required("task_evidence") {
        assert!(r.get(&name).is_some(), "{name}");
    }
}

fn only(j: &Json) -> &Json {
    match j {
        Json::Arr(v) if v.len() == 1 => &v[0],
        other => panic!("not one row: {other:?}"),
    }
}

#[test]
fn decisions_come_with_their_reasons_and_handles() {
    let symbol = tool_symbol_context_from_records(&Some(symbol_evidence()), "name");
    let task = tool_task_evidence_from_records(
        &vec![],
        &TaskLookup::Found { evidence: task_evidence() },
        "handle",
    );
    for answer in [&symbol, &task] {
        let row = only(at(answer, &["decisions"]));
        assert_eq!(at(row, &["record_id"]), &text("agent_memory:v1:d"));
        assert_eq!(at(row, &["trust"]), &text("agent_unverified"));
        assert_eq!(at(row, &["summary"]), &text("a summary"));
        assert_eq!(at(row, &["decision_text"]), &text("keep the queue"));
        assert_eq!(at(row, &["rationale_summary"]), &text("it is bounded"));
        assert_eq!(at(row, &["agent_id"]), &text("agent"));
        assert_eq!(at(row, &["session_id"]), &Json::Null);
        assert!(!format!("{row:?}").contains("raw text"));
        let handle = only(at(row, &["evidence_handles"]));
        assert_eq!(at(handle, &["relation"]), &text("EXPLAINS_CHANGE"));
        assert_eq!(at(handle, &["target_record_id"]), &text("codegraph:v1:s"));
        assert_eq!(at(handle, &["target_kind"]), &text("Symbol"));
    }
}

#[test]
fn the_coverage_of_the_store_tells_absent_from_empty() {
    let answer = tool_symbol_context_from_records(&Some(symbol_evidence()), "name");
    assert_eq!(at(&answer, &["store_coverage", "code_graph"]), &Json::Bool(true));
    assert_eq!(at(&answer, &["store_coverage", "agent_memory"]), &Json::Bool(true));
    assert_eq!(at(&answer, &["store_coverage", "project"]), &Json::Bool(false));
    assert_eq!(at(&answer, &["store_coverage", "artifact"]), &Json::Bool(false));
    assert_eq!(at(&answer, &["store_coverage", "verification"]), &Json::Bool(true));
}

#[test]
fn drift_is_told_with_the_name_of_its_model() {
    let answer = tool_symbol_context_from_records(&Some(symbol_evidence()), "name");
    let row = only(at(&answer, &["drift_history"]));
    assert_eq!(at(row, &["embedding_model"]), &text("small"));
    assert_eq!(at(row, &["score"]), &Json::Float(0.7_f64.to_bits()));
    assert_eq!(at(row, &["repo_relative_path"]), &text("src/lib.rs"));
    assert!(row.get("span").is_none());
}

#[test]
fn rows_keep_the_order_of_records() {
    let mut evidence = symbol_evidence();
    evidence.source_facts = vec![
        classified("codegraph:v1:a", NodeKind::Symbol),
        classified("codegraph:v1:b", NodeKind::File),
        classified("codegraph:v1:c", NodeKind::Symbol),
    ];
    let answer = tool_symbol_context_from_records(&Some(evidence), "name");
    match at(&answer, &["source_facts"]) {
        Json::Arr(rows) => {
            let ids: Vec<&Json> = rows.iter().map(|r| at(r, &["record_id"])).collect();
            assert_eq!(
                ids,
                vec![&text("codegraph:v1:a"), &text("codegraph:v1:b"), &text("codegraph:v1:c")]
            );
        }
        other => panic!("no rows: {other:?}"),
    }
}
