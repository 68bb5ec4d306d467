//! Importing local task files: headers, rows, revisions, identities, and what is refused.
use egregore::duplicate::Duplicate;
use egregore::ir::{EdgeLabel, GraphRecord, NodeKind, NodeRecord};
use egregore::local_project::check::{
    check_ac_given, check_link_given, check_task_given, is_valid_task_status, runs_backwards, State,
    Timely,
};
use egregore::local_project::handles::{
    body_handle_for, source_handle_for_line, source_identity_handle,
};
use egregore::local_project::input::{
    AcLine, ExternalLinkLine, HeaderLine, InputLine, Row, TaskBody, TaskFile, TaskLine,
};
use egregore::local_project::{
    check_transaction_time, file_stem, import_local_tasks, path_in_repository, percent_encode, refuse_transaction_time,
    task_files, ImportOptions, ImportResult, DOMAIN, IMPORTER_ID,
};
use egregore::policy::Redactor;
use egregore::time::Instant;

const T1: &str = "2026-01-01T00:00:00Z";
const T2: &str = "2026-01-02T00:00:00Z";
const NOW: &str = "2026-03-04T05:06:07Z";

struct Masking;

impl Redactor for Masking {
    fn redact(&self, text: &str) -> String {
        text.replace("hunter", "[redacted]")
    }
}

fn row(row: Row) -> InputLine {
    let text = format!("{row:?}");
    InputLine { text, row }
}

fn header() -> InputLine {
    row(Row::Header(Ok(HeaderLine {
        schema_version: 1,
        project_slug: "demo".to_owned(),
        created_at: T1.to_owned(),
    })))
}

fn task_line(id: &str, updated_at: &str) -> TaskLine {
    TaskLine {
        local_id: id.to_owned(),
        title: "a hunter title".to_owned(),
        body: TaskBody::Text("a body".to_owned()),
        status: "open".to_owned(),
        priority: "normal".to_owned(),
        assignees: vec!["ada".to_owned()],
        labels: vec![],
        created_at: T1.to_owned(),
        updated_at: updated_at.to_owned(),
    }
}

fn task(id: &str, updated_at: &str) -> InputLine {
    row(Row::Task(Ok(task_line(id, updated_at))))
}

fn task_with(change: impl Fn(&mut TaskLine)) -> InputLine {
    let mut line = task_line("t1", T1);
    change(&mut line);
    row(Row::Task(Ok(line)))
}

fn ac_line(id: &str, parent: &str, ordinal: u32) -> AcLine {
    AcLine {
        local_id: id.to_owned(),
        parent_task_local_id: parent.to_owned(),
        ordinal,
        text: "it works".to_owned(),
        status: "unverified".to_owned(),
        has_verification_handle: false,
        updated_at: T1.to_owned(),
    }
}

fn criterion(id: &str, parent: &str, ordinal: u32) -> InputLine {
    row(Row::Criterion(Ok(ac_line(id, parent, ordinal))))
}

fn criterion_with(change: impl Fn(&mut AcLine)) -> InputLine {
    let mut line = ac_line("c1", "t1", 1);
    change(&mut line);
    row(Row::Criterion(Ok(line)))
}

fn link_line(id: &str, parent: &str, native: &str) -> ExternalLinkLine {
    ExternalLinkLine {
        local_id: id.to_owned(),
        parent_local_id: parent.to_owned(),
        system: "github".to_owned(),
        url: "https://example.org/1".to_owned(),
        system_native_id: native.to_owned(),
        discovered_at: T1.to_owned(),
        updated_at: T1.to_owned(),
    }
}

fn link(id: &str, parent: &str, native: &str) -> InputLine {
    row(Row::Link(Ok(link_line(id, parent, native))))
}

fn link_with(change: impl Fn(&mut ExternalLinkLine)) -> InputLine {
    let mut line = link_line("l1", "t1", "1");
    change(&mut line);
    row(Row::Link(Ok(line)))
}

fn file(lines: Vec<InputLine>) -> TaskFile {
    TaskFile {
        path: "/repo/tasks/demo.jsonl".to_owned(),
        file_rel: "tasks/demo.jsonl".to_owned(),
        file_stem: "demo".to_owned(),
        lines,
    }
}

fn import(lines: Vec<InputLine>) -> ImportResult {
    import_files(vec![file(lines)])
}

fn import_files(files: Vec<TaskFile>) -> ImportResult {
    let opts = ImportOptions { redact: Masking, transaction_time: Some(NOW.to_owned()) };
    import_local_tasks(&files, &opts, "unused", "unused").expect("a fixed time")
}

fn nodes(r: &ImportResult, kind: NodeKind) -> Vec<&NodeRecord> {
    r.graph
        .records()
        .iter()
        .filter_map(|x| match x {
            GraphRecord::Node(n) if n.kind == kind => Some(n),
            _ => None,
        })
        .collect()
}

/// The one message that an import leaves.
fn fault(lines: Vec<InputLine>) -> String {
    let r = import(lines);
    let found = nodes(&r, NodeKind::Diagnostic);
    assert_eq!(found.len(), 1);
    assert_eq!(r.diagnostic_count, 1);
    assert_eq!(found[0].domain, Some(DOMAIN.to_owned()));
    found[0].summary.clone()
}

#[test]
fn handles_escape_everything_but_the_plain_characters() {
    assert_eq!(percent_encode("aZ09-._~"), "aZ09-._~");
    assert_eq!(percent_encode("a b/c:d%"), "a%20b%2Fc%3Ad%25");
    assert_eq!(percent_encode("é"), "%C3%A9");
    assert_eq!(source_identity_handle("tasks/a.jsonl", "t:1"), "tasks%2Fa.jsonl:t%3A1");
    assert_eq!(
        source_handle_for_line("a", "b", "line"),
        format!("a:b:{}", blake3::hash(b"line").to_hex())
    );
}

#[test]
fn short_bodies_are_stored_inline() {
    let short = body_handle_for("body");
    assert_eq!(short.inline, Some("body".to_owned()));
    assert_eq!(short.bytes, 4);
    assert_eq!(short.hash, blake3::hash(b"body").to_hex().to_string());
    let long = body_handle_for(&"x".repeat(100_000));
    assert_eq!(long.inline, None);
    assert_eq!(long.bytes, 100_000);
}

#[test]
fn task_files_are_chosen_by_name_and_sorted() {
    let names = ["b.jsonl", "a.jsonl", "x.txt", "c.jsonl.tmp-1", "d.tmp-2.jsonl", ".jsonl"];
    let names: Vec<String> = names.iter().map(|n| n.to_string()).collect();
    assert_eq!(task_files(&names), vec!["a.jsonl".to_owned(), "b.jsonl".to_owned()]);
    assert_eq!(file_stem("demo.jsonl"), "demo");
    assert_eq!(file_stem("demo"), "demo");
    assert_eq!(file_stem(".jsonl"), ".jsonl");
}

#[test]
fn paths_outside_the_repository_are_refused() {
    assert_eq!(
        path_in_repository("/repo", "/repo/tasks/a.jsonl"),
        Some("tasks/a.jsonl".to_owned())
    );
    assert_eq!(path_in_repository("/repo", "/other/a.jsonl"), None);
    assert_eq!(path_in_repository("/repo", "/repository/a.jsonl"), None);
    assert_eq!(path_in_repository("repo", "/repo/a.jsonl"), None);
    assert_eq!(path_in_repository("/", "/repo/a.jsonl"), Some("repo/a.jsonl".to_owned()));
}

#[test]
fn statuses_are_a_closed_set() {
    for s in ["open", "in_progress", "blocked", "closed_completed", "closed_dropped", "unknown"] {
        assert!(is_valid_task_status(s));
    }
    assert!(!is_valid_task_status("done"));
}

#[test]
fn a_task_becomes_a_node_with_its_provenance() {
    let r = import(vec![header(), task("t1", T1)]);
    assert_eq!(r.diagnostic_count, 0);
    let tasks = nodes(&r, NodeKind::Task);
    assert_eq!(tasks.len(), 1);
    let t = tasks[0];
    assert_eq!(t.project.title, Some("a [redacted] title".to_owned()));
    assert_eq!(t.project.status, Some("open".to_owned()));
    assert_eq!(t.project.importer_id, Some(IMPORTER_ID.to_owned()));
    assert_eq!(t.project.transaction_time, Some(NOW.to_owned()));
    assert_eq!(t.valid_time, Some(T1.to_owned()));
    assert!(t.project.source_handle.as_ref().unwrap().starts_with("tasks%2Fdemo.jsonl:t1:"));
    assert_eq!(t.producer.as_ref().unwrap().producer_started_at, NOW);
    assert!(!format!("{:?}", r.graph.records()).contains("hunter"));
}

#[test]
fn revisions_share_an_entity() {
    let r = import(vec![header(), task("t1", T1), task("t1", T2)]);
    let tasks = nodes(&r, NodeKind::Task);
    assert_eq!(tasks.len(), 2);
    assert_eq!(tasks[0].project.entity_id, tasks[1].project.entity_id);
    assert_eq!(r.diagnostic_count, 0);
}

#[test]
fn criteria_and_links_hang_on_their_parents() {
    let r = import(vec![
        header(),
        task("t1", T1),
        criterion("c1", "t1", 1),
        link("l1", "t1", "1"),
        link("l2", "c1", "2"),
    ]);
    assert_eq!(r.diagnostic_count, 0);
    assert_eq!(nodes(&r, NodeKind::AcceptanceCriterion).len(), 1);
    assert!(nodes(&r, NodeKind::ExternalLink).len() >= 2);
    assert!(r.graph.records().iter().any(
        |x| matches!(x, GraphRecord::Edge(e) if e.label == EdgeLabel::ExternalHandle)
    ));
}

#[test]
fn a_verified_criterion_is_imported_as_unverified() {
    let verified = criterion_with(|c| c.status = "verified".to_owned());
    let r = import(vec![header(), task("t1", T1), verified]);
    assert_eq!(r.diagnostic_count, 1);
    let found = nodes(&r, NodeKind::AcceptanceCriterion);
    assert_eq!(found[0].project.status, Some("unverified".to_owned()));
    assert_eq!(found[0].project.verification_link_id, None);
    let message = nodes(&r, NodeKind::Diagnostic)[0].summary.clone();
    assert_eq!(
        message,
        "[acceptance_criterion_missing_verification] acceptance_criterion 'c1' at line 3 has \
         status='verified' but no verification_handle; importing with status='unverified'"
    );
}

#[test]
fn files_without_a_proper_header_yield_one_diagnostic() {
    assert!(fault(vec![]).starts_with("[missing_header] 'tasks/demo.jsonl' is empty"));
    assert_eq!(
        fault(vec![row(Row::Invalid { error: "bad".to_owned() })]),
        "[missing_header] first line of 'tasks/demo.jsonl' is not valid JSON: bad"
    );
    assert_eq!(
        fault(vec![task("t1", T1)]),
        "[missing_header] first line of 'tasks/demo.jsonl' has kind='task', expected 'header'"
    );
    assert_eq!(
        fault(vec![row(Row::Header(Err("bad".to_owned())))]),
        "[missing_header] header line of 'tasks/demo.jsonl' has invalid fields: bad"
    );
    let other = |version: u32, slug: &str| {
        row(Row::Header(Ok(HeaderLine {
            schema_version: version,
            project_slug: slug.to_owned(),
            created_at: T1.to_owned(),
        })))
    };
    assert_eq!(
        fault(vec![other(2, "demo"), task("t1", T1)]),
        "[unsupported_schema_version] 'tasks/demo.jsonl' has schema_version=2, expected 1"
    );
    assert_eq!(
        fault(vec![other(1, "other"), task("t1", T1)]),
        "[project_slug_mismatch] project_slug='other' does not match filename stem 'demo' in \
         'tasks/demo.jsonl'"
    );
}

#[test]
fn broken_rows_are_reported_by_line() {
    let of = |r: Row| fault(vec![header(), row(r)]);
    assert_eq!(
        of(Row::Invalid { error: "bad".to_owned() }),
        "[invalid_json] line 2 of 'tasks/demo.jsonl' is not valid JSON: bad"
    );
    assert_eq!(
        of(Row::Task(Err("bad".to_owned()))),
        "[invalid_json] task at line 2 of 'tasks/demo.jsonl' has invalid fields: bad"
    );
    assert_eq!(
        of(Row::Criterion(Err("bad".to_owned()))),
        "[invalid_json] acceptance_criterion at line 2 of 'tasks/demo.jsonl' has invalid fields: bad"
    );
    assert_eq!(
        of(Row::Link(Err("bad".to_owned()))),
        "[invalid_json] external_link at line 2 of 'tasks/demo.jsonl' has invalid fields: bad"
    );
    assert_eq!(
        of(Row::Unknown { kind: "poem".to_owned() }),
        "[unknown_kind] line 2 of 'tasks/demo.jsonl' has unknown kind='poem', skipping"
    );
}

#[test]
fn task_rows_are_validated() {
    let of = |change: fn(&mut TaskLine)| fault(vec![header(), task_with(change)]);
    assert_eq!(
        of(|t| t.status = "done".to_owned()),
        "[task_invalid_field_value] task 't1' at line 2 has invalid status='done'"
    );
    assert_eq!(
        of(|t| t.priority = "soon".to_owned()),
        "[task_invalid_field_value] task 't1' at line 2 has invalid priority='soon'"
    );
    assert_eq!(
        of(|t| t.updated_at = "today".to_owned()),
        "[task_invalid_timestamp] task 't1' at line 2 has invalid updated_at='today'"
    );
    assert_eq!(
        of(|t| t.body = TaskBody::Other),
        "[invalid_body_type] task 't1' at line 2 has a body that is not null, a string, or a \
         handle object"
    );
    assert_eq!(
        of(|t| t.body = TaskBody::Handle { hash: None, bytes: Some(1), inline: None }),
        "[missing_body_bytes] task 't1' at line 2 has a body object missing or empty required \
         'hash' field"
    );
    assert!(of(|t| {
        t.body = TaskBody::Handle {
            hash: Some("h".to_owned()),
            bytes: Some(3),
            inline: Some("four".to_owned()),
        }
    })
    .starts_with(
        "[invalid_inline_body_handle] task 't1' at line 2 has inconsistent inline body handle: \
         declared bytes=3, inline len=4, ceiling="
    ));
}

#[test]
fn time_that_runs_backwards_is_reported_and_kept() {
    let r = import(vec![header(), task("t1", T2), task("t1", T1)]);
    assert_eq!(r.diagnostic_count, 1);
    assert_eq!(nodes(&r, NodeKind::Task).len(), 2);
    assert_eq!(
        nodes(&r, NodeKind::Diagnostic)[0].summary,
        format!(
            "[non_monotonic_updated_at] task 't1' at line 3 has updated_at='{T1}' earlier than \
             previous revision '{T2}'"
        )
    );
}

#[test]
fn criterion_rows_are_validated() {
    let of = |change: fn(&mut AcLine)| fault(vec![header(), task("t1", T1), criterion_with(change)]);
    assert_eq!(
        of(|c| c.status = "done".to_owned()),
        "[ac_invalid_field_value] acceptance_criterion 'c1' at line 3 has invalid status='done'"
    );
    assert_eq!(
        of(|c| c.updated_at = "today".to_owned()),
        "[ac_invalid_timestamp] acceptance_criterion 'c1' at line 3 has invalid updated_at='today'"
    );
    assert_eq!(
        of(|c| c.parent_task_local_id = "t9".to_owned()),
        "[unresolved_parent_task] acceptance_criterion 'c1' at line 3 references unknown task 't9'"
    );
    assert_eq!(
        of(|c| c.has_verification_handle = true),
        "[unresolved_verification_handle] acceptance_criterion 'c1' at line 3 has \
         status='unverified' with a verification_handle that cannot be resolved"
    );
    assert_eq!(
        of(|c| c.local_id = "t1".to_owned()),
        "[duplicate_local_id_kind_mismatch] local_id='t1' at line 3 has \
         kind='acceptance_criterion' but was previously seen with kind='task'"
    );
}

#[test]
fn criteria_keep_their_identity() {
    assert_eq!(
        fault(vec![header(), task("t1", T1), criterion("c1", "t1", 1), criterion("c1", "t1", 2)]),
        "[revision_identity_mismatch] acceptance_criterion 'c1' at line 4 changes identity fields \
         (parent_task_local_id or ordinal)"
    );
    assert_eq!(
        fault(vec![header(), task("t1", T1), criterion("c1", "t1", 1), criterion("c2", "t1", 1)]),
        "[duplicate_ac_graph_identity] acceptance_criterion 'c2' at line 4 shares \
         (parent_task_local_id='t1', ordinal=1) with 'c1'"
    );
}

#[test]
fn link_rows_are_validated() {
    let of =
        |change: fn(&mut ExternalLinkLine)| fault(vec![header(), task("t1", T1), link_with(change)]);
    assert_eq!(
        of(|l| l.system = "pigeon".to_owned()),
        "[external_link_invalid_system] external_link 'l1' at line 3 has invalid system='pigeon'"
    );
    assert_eq!(
        of(|l| l.discovered_at = "today".to_owned()),
        "[external_link_invalid_timestamp] external_link 'l1' at line 3 has invalid \
         discovered_at='today'"
    );
    assert_eq!(
        of(|l| l.updated_at = "today".to_owned()),
        "[external_link_invalid_timestamp] external_link 'l1' at line 3 has invalid \
         updated_at='today'"
    );
    assert_eq!(
        of(|l| l.parent_local_id = "t9".to_owned()),
        "[unresolved_parent_local_id] external_link 'l1' at line 3 references unknown parent 't9'"
    );
    assert_eq!(
        of(|l| l.local_id = "t1".to_owned()),
        "[duplicate_local_id_kind_mismatch] local_id='t1' at line 3 has kind='external_link' but \
         was previously seen with kind='task'"
    );
}

#[test]
fn links_keep_their_identity() {
    assert_eq!(
        fault(vec![header(), task("t1", T1), link("l1", "t1", "1"), link("l1", "t1", "2")]),
        "[revision_identity_mismatch] external_link 'l1' at line 4 changes identity fields \
         (system, system_native_id, or parent_local_id)"
    );
    assert_eq!(
        fault(vec![header(), task("t1", T1), link("l1", "t1", "1"), link("l2", "t1", "1")]),
        "[duplicate_external_link_graph_identity] external_link 'l2' at line 4 shares \
         (system='github', system_native_id='1') with 'l1'"
    );
}

fn refinement(id: &str) -> InputLine {
    let mut line = link_line(id, "t1", &source_identity_handle("tasks/demo.jsonl", "t1"));
    line.system = "local_file".to_owned();
    line.url = "https://example.org/refined".to_owned();
    row(Row::Link(Ok(line)))
}

#[test]
fn a_link_can_refine_the_source_of_its_task() {
    let plain = import(vec![header(), task("t1", T1)]);
    let refined = import(vec![header(), task("t1", T1), refinement("l1")]);
    assert_eq!(refined.diagnostic_count, 0);
    let urls = |r: &ImportResult| -> Vec<Option<String>> {
        nodes(r, NodeKind::ExternalLink).iter().map(|n| n.project.url.clone()).collect()
    };
    assert_eq!(urls(&plain).len(), urls(&refined).len());
    assert!(urls(&refined).contains(&Some("https://example.org/refined".to_owned())));
    assert_eq!(
        fault(vec![header(), task("t1", T1), refinement("t1")]),
        "[duplicate_local_id_kind_mismatch] refinement local_id='t1' at line 3 was previously seen \
         with kind='task'"
    );
}

#[test]
fn a_refused_row_does_not_block_later_ones() {
    let r = import(vec![
        header(),
        task_with(|t| t.status = "done".to_owned()),
        task("t1", T1),
        criterion("c1", "t1", 1),
    ]);
    assert_eq!(r.diagnostic_count, 1);
    assert_eq!(nodes(&r, NodeKind::Task).len(), 1);
    assert_eq!(nodes(&r, NodeKind::AcceptanceCriterion).len(), 1);
}

#[test]
fn a_slug_is_imported_once() {
    let second = TaskFile {
        path: "/repo/more/demo.jsonl".to_owned(),
        file_rel: "more/demo.jsonl".to_owned(),
        file_stem: "demo".to_owned(),
        lines: vec![header(), task("t2", T1)],
    };
    let r = import_files(vec![file(vec![header(), task("t1", T1)]), second]);
    assert_eq!(r.diagnostic_count, 1);
    assert_eq!(nodes(&r, NodeKind::Task).len(), 1);
    assert_eq!(
        nodes(&r, NodeKind::Diagnostic)[0].summary,
        "[duplicate_project_slug] slug 'demo' from 'more/demo.jsonl' already seen in \
         '/repo/tasks/demo.jsonl'"
    );
}

#[test]
fn a_fixed_time_must_be_a_timestamp() {
    let opts = ImportOptions { redact: Masking, transaction_time: Some("today".to_owned()) };
    let refused = import_local_tasks(&vec![], &opts, NOW, NOW).err().expect("no timestamp");
    assert!(refused.starts_with("--transaction-time 'today' is not a valid RFC 3339 timestamp: "));
}

#[test]
fn a_fixed_time_makes_the_import_reproducible() {
    let lines = || vec![header(), task("t1", T1), criterion("c1", "t1", 1)];
    let opts = ImportOptions { redact: Masking, transaction_time: Some(NOW.to_owned()) };
    let a = import_local_tasks(&vec![file(lines())], &opts, T1, T1).unwrap();
    let b = import_local_tasks(&vec![file(lines())], &opts, T2, T2).unwrap();
    assert_eq!(a.graph.records(), b.graph.records());
    let loose = ImportOptions::pass_through();
    let c = import_local_tasks(&vec![file(lines())], &loose, T2, T1).unwrap();
    assert_eq!(nodes(&c, NodeKind::Task)[0].project.transaction_time, Some(T2.to_owned()));
    assert_eq!(nodes(&c, NodeKind::Task)[0].project.title, Some("a hunter title".to_owned()));
}

#[test]
fn rows_are_judged_by_whether_their_times_could_be_read() {
    let st = State::start();
    let t = task_line("t1", "whenever");
    assert_eq!(check_task_given(&st, &t, "2", true), None);
    let fault = check_task_given(&st, &t, "2", false).expect("an unreadable time");
    assert_eq!(
        fault.message,
        "[task_invalid_timestamp] task 't1' at line 2 has invalid updated_at='whenever'"
    );
    let a = ac_line("c1", "t1", 1);
    assert!(check_ac_given(&st, &a, "3", false).unwrap().message.starts_with("[ac_invalid_timest"));
    assert!(check_ac_given(&st, &a, "3", true).unwrap().message.starts_with("[unresolved_parent_"));
    let l = link_line("l1", "t1", "1");
    let timely = Timely { discovered_at: true, updated_at: false };
    assert!(check_link_given(&st, &l, "3", timely).unwrap().message.contains("invalid updated_at"));
    let at = |secs: i64| Some(Instant { secs, nanos: 0 });
    assert!(runs_backwards(at(2), at(1)));
    assert!(!runs_backwards(at(1), at(1)));
    assert!(!runs_backwards(None, at(1)));
    assert_eq!(refuse_transaction_time("t", &Ok(Instant { secs: 0, nanos: 0 })), None);
    assert_eq!(
        refuse_transaction_time("t", &Err("bad".to_owned())),
        Some("--transaction-time 't' is not a valid RFC 3339 timestamp: bad".to_owned())
    );
}

#[test]
fn the_source_link_comes_with_the_first_row_alone() {
    let kinds = |r: &ImportResult| -> Vec<String> {
        r.graph
            .records()
            .iter()
            .map(|x| match x {
                GraphRecord::Node(n) => n.kind.as_str().to_owned(),
                GraphRecord::Edge(e) => e.label.as_str().to_owned(),
                GraphRecord::Tombstone(_) => "tombstone".to_owned(),
            })
            .collect()
    };
    let first = kinds(&import(vec![header(), task("t1", T1)]));
    let second = kinds(&import(vec![header(), task("t1", T1), task("t1", T2)]));
    assert_eq!(first.iter().filter(|k| *k == "ExternalLink").count(), 1);
    assert!(!first.iter().any(|k| k == "EXTERNAL_HANDLE"));
    assert_eq!(second.len(), first.len() + 1);
    assert_eq!(second.last().map(String::as_str), Some("Task"));
}

#[test]
fn a_fixed_time_is_checked_on_its_own() {
    assert_eq!(check_transaction_time(&None), None);
    assert_eq!(check_transaction_time(&Some(T1.to_owned())), None);
    assert!(check_transaction_time(&Some("soon".to_owned()))
        .expect("no time")
        .starts_with("--transaction-time 'soon' is not a valid RFC 3339 timestamp: "));
}

#[test]
fn a_line_that_is_no_json_blocks_no_other() {
    let lines = || vec![header(), task("t1", T1), criterion("c1", "t1", 1), link("l1", "t1", "1")];
    let entities = |r: &ImportResult| -> Vec<GraphRecord> {
        r.graph
            .records()
            .iter()
            .filter(|x| !matches!(x, GraphRecord::Node(n) if n.kind == NodeKind::Diagnostic))
            .map(Duplicate::duplicate)
            .collect()
    };
    let plain = import(lines());
    for at in 1..=lines().len() {
        let mut with = lines();
        with.insert(at, row(Row::Invalid { error: "bad".to_owned() }));
        let r = import(with);
        assert_eq!(r.diagnostic_count, plain.diagnostic_count + 1);
        assert_eq!(entities(&r), entities(&plain));
        let mut with = lines();
        let blank = InputLine {
            text: " \t".to_owned(),
            row: Row::Invalid { error: "bad".to_owned() },
        };
        with.insert(at, blank);
        let r = import(with);
        assert_eq!(r.diagnostic_count, plain.diagnostic_count);
        assert_eq!(entities(&r), entities(&plain));
    }
}
