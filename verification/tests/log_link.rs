//! Linking error signatures to the runs and tasks they came from.
use egregore::ir::{
    log_stable_id, CorrelationBasis, EdgeLabel, EdgeRecord, GraphRecord, NodeKind, NodeRecord,
    OutputHandle,
};
use egregore::log_graph::scan_log_records;
use egregore::log_link::{
    execution_window, is_in_log_domain, link_logs, representative_time, stronger, LinkLogsOptions,
    LinkLogsResult,
};
use egregore::policy::PassThrough;
use egregore::query::is_no_later_version;
use egregore::time::Instant;

const NOW: &str = "2026-03-04T05:06:07Z";
const REPOSITORY: &str = "repo-1";
const RAW: &str = "2026-01-01T10:00:00Z ERROR boom\n";

fn scanned() -> Vec<GraphRecord> {
    scan_log_records(&PassThrough, RAW.as_bytes(), "a.log", "/repo", REPOSITORY, NOW, false)
        .expect("a text log")
        .records
}

fn node(id: &str, kind: NodeKind) -> NodeRecord {
    NodeRecord::plain(id.to_owned(), kind, None, None, None, "node".to_owned())
}

fn repository() -> GraphRecord {
    GraphRecord::Node(node(REPOSITORY, NodeKind::Repository))
}

fn command(id: &str, output: &str) -> GraphRecord {
    let mut n = node(id, NodeKind::CommandRun);
    n.verification.stdout_handle = Some(OutputHandle {
        inline: None,
        hash: blake3::hash(output.as_bytes()).to_hex().to_string(),
        bytes: output.len() as u64,
    });
    GraphRecord::Node(n)
}

fn run(id: &str, started: &str, finished: &str) -> GraphRecord {
    let mut n = node(id, NodeKind::AgentRun);
    n.memory.started_at = Some(started.to_owned());
    n.memory.finished_at = Some(finished.to_owned());
    GraphRecord::Node(n)
}

fn edge(label: EdgeLabel, source: &str, target: &str) -> GraphRecord {
    GraphRecord::edge(label, source.to_owned(), target.to_owned(), None, "edge".to_owned())
}

fn link(records: &[GraphRecord], tolerance_seconds: i64) -> LinkLogsResult {
    link_logs(records, &LinkLogsOptions { tolerance_seconds, at_commit: None })
}

fn run_edges(r: &LinkLogsResult) -> Vec<&EdgeRecord> {
    r.records
        .iter()
        .filter_map(|x| match x {
            GraphRecord::Edge(e) if e.label == EdgeLabel::EmittedDuring => Some(e),
            _ => None,
        })
        .collect()
}

#[test]
fn a_command_with_the_same_output_is_linked() {
    let mut records = scanned();
    records.push(command("cmd", RAW));
    records.push(command("other", "something else"));
    let r = link(&records, 0);
    let found = run_edges(&r);
    assert_eq!(found.len(), 1);
    assert_eq!(found[0].target, "cmd");
    assert_eq!(found[0].basis, Some(CorrelationBasis::ContentHashJoin));
    assert_eq!(found[0].confidence, Some("1.0".to_owned()));
    assert_eq!(r.totals.content_hash_join_edges, 1);
    assert_eq!(r.totals.uncorrelated, 0);
    assert_eq!(r.signatures.len(), 1);
    assert!(!r.signatures[0].uncorrelated);
}

#[test]
fn a_run_whose_window_covers_the_error_is_linked() {
    let mut records = vec![repository()];
    records.extend(scanned());
    records.push(run("run", "2026-01-01T09:00:00Z", "2026-01-01T10:00:00Z"));
    records.push(run("late", "2026-01-01T10:00:10Z", "2026-01-01T11:00:00Z"));
    let r = link(&records, 0);
    let found = run_edges(&r);
    assert_eq!(found.len(), 1);
    assert_eq!(found[0].target, "run");
    assert_eq!(found[0].basis, Some(CorrelationBasis::TemporalCorrelation));
    assert_eq!(r.totals.temporal_correlation_edges, 1);
    assert!(r.totals.temporal_correlation_enabled);
}

#[test]
fn a_wider_tolerance_keeps_links_and_adds_some() {
    let mut records = vec![repository()];
    records.extend(scanned());
    records.push(run("run", "2026-01-01T09:00:00Z", "2026-01-01T10:00:00Z"));
    records.push(run("late", "2026-01-01T10:00:10Z", "2026-01-01T11:00:00Z"));
    let wide = link(&records, 10);
    assert_eq!(run_edges(&wide).len(), 2);
    assert_eq!(wide.totals.tolerance_seconds, 10);
    assert_eq!(run_edges(&link(&records, 9)).len(), 1);
    assert_eq!(run_edges(&link(&records, -5)).len(), 1);
}

#[test]
fn time_alone_links_nothing_across_repositories() {
    let mut records = scanned();
    records.push(run("run", "2026-01-01T09:00:00Z", "2026-01-01T10:00:00Z"));
    let r = link(&records, 0);
    assert!(run_edges(&r).is_empty());
    assert_eq!(r.totals.cross_repo_rejected, 1);
    assert_eq!(r.totals.uncorrelated, 1);
    assert!(r.signatures[0].uncorrelated);
    assert!(!r.totals.temporal_correlation_enabled);
}

#[test]
fn a_window_that_ends_before_it_starts_covers_nothing() {
    let mut records = vec![repository()];
    records.extend(scanned());
    records.push(run("run", "2026-01-01T11:00:00Z", "2026-01-01T09:00:00Z"));
    records.push(run("open", "2026-01-01T09:00:00Z", "no time"));
    assert!(run_edges(&link(&records, 3600)).is_empty());
}

#[test]
fn tasks_are_reached_through_runs() {
    let mut records = scanned();
    records.push(command("cmd", RAW));
    records.push(GraphRecord::Node(node("task", NodeKind::Task)));
    records.push(edge(EdgeLabel::OwnedByTask, "cmd", "task"));
    records.push(edge(EdgeLabel::OwnedByTask, "cmd", "nothing"));
    let r = link(&records, 0);
    assert_eq!(r.totals.task_link_edges, 1);
    assert_eq!(r.signatures[0].task_links, 1);
}

#[test]
fn links_are_cited_by_their_signature() {
    let mut records = scanned();
    records.push(command("cmd", RAW));
    let r = link(&records, 0);
    let links = r
        .records
        .iter()
        .find_map(|x| match x {
            GraphRecord::Node(n) if n.kind == NodeKind::ErrorSignature => n.evidence_links.as_ref(),
            _ => None,
        })
        .expect("citations");
    assert_eq!(links.len(), 1);
    assert_eq!(links[0].target_record_id, Some("cmd".to_owned()));
}

#[test]
fn only_the_log_domain_is_emitted() {
    let mut records = vec![repository()];
    records.extend(scanned());
    records.push(command("cmd", RAW));
    let r = link(&records, 0);
    assert!(r.records.iter().all(is_in_log_domain));
    assert!(!r.records.iter().any(|x| x.id() == "cmd" || x.id() == REPOSITORY));
}

#[test]
fn byte_equality_is_the_stronger_basis() {
    let (hash, time) = (CorrelationBasis::ContentHashJoin, CorrelationBasis::TemporalCorrelation);
    assert_eq!(stronger(hash, time), hash);
    assert_eq!(stronger(time, hash), hash);
    assert_eq!(stronger(time, time), time);
}

#[test]
fn the_source_identity_names_its_repository() {
    let records = scanned();
    let expected = log_stable_id(&vec![
        "log_source".to_owned(),
        REPOSITORY.to_owned(),
        "a.log".to_owned(),
        blake3::hash(RAW.as_bytes()).to_hex().to_string(),
    ]);
    assert!(records.iter().any(|r| r.id() == expected));
}

#[test]
fn windows_and_times_are_taken_from_what_was_read() {
    let at = |secs: i64| Some(Instant { secs, nanos: 0 });
    assert_eq!(execution_window(at(1), at(2)), Some((at(1).unwrap(), at(2).unwrap())));
    assert_eq!(execution_window(at(2), at(1)), None);
    assert_eq!(execution_window(None, at(1)), None);
    assert_eq!(representative_time(at(2), at(1)), at(2));
    assert_eq!(representative_time(None, at(1)), at(1));
    assert!(is_no_later_version(None, "b", at(1), "a"));
    assert!(is_no_later_version(at(1), "a", at(1), "b"));
    assert!(!is_no_later_version(at(1), "b", at(1), "a"));
    assert!(!is_no_later_version(at(2), "a", at(1), "b"));
}

#[test]
fn a_wider_tolerance_keeps_every_edge() {
    let mut records = vec![repository()];
    records.extend(scanned());
    records.push(command("cmd", RAW));
    records.push(run("run", "2026-01-01T09:00:00Z", "2026-01-01T10:00:00Z"));
    records.push(run("late", "2026-01-01T10:00:10Z", "2026-01-01T11:00:00Z"));
    let (narrow, wide) = (link(&records, 0), link(&records, 10));
    for e in run_edges(&narrow) {
        assert!(run_edges(&wide).contains(&e));
    }
    let by_hash = |r: &LinkLogsResult| -> Vec<String> {
        run_edges(r)
            .iter()
            .filter(|e| e.basis == Some(CorrelationBasis::ContentHashJoin))
            .map(|e| e.id.clone())
            .collect()
    };
    assert_eq!(by_hash(&narrow), by_hash(&wide));
    assert_eq!(by_hash(&narrow).len(), 1);
    assert_eq!(link(&records, -7).records, narrow.records);
}
