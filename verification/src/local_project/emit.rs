//! The second pass over a task file: the records of the rows that passed their checks.
use vstd::prelude::*;

use crate::assoc::{find_value, lookup};
use crate::duplicate::lemma_push;
use crate::ir::{
    project_id, project_stable_id, EdgeLabel, EdgeRecord, EdgeRecordView, GraphRecord, NodeKind,
    NodeRecord, NodeRecordView, OutputHandle, OutputHandleView, ProjectFieldsView, RecordView,
    PROJECT_SCHEMA_VERSION,
};
use crate::local_project::check::{
    ac_id_for, ac_record_id, base_fields, or_empty, set_project_base_fields, task_id_for,
    task_record_id, FileContext, FileView, ParsedRecord, ParsedView, Refinement, RefinementView,
    State, StateView, SOURCE_KIND,
};
use crate::local_project::handles::{
    body_handle, body_handle_for, identity_handle, line_handle, source_handle_for_line,
    source_identity_handle,
};
use crate::local_project::input::{
    AcLine, AcLineView, ExternalLinkLine, ExternalLinkLineView, TaskBody, TaskBodyView, TaskLine,
    TaskLineView,
};
use crate::policy::Redactor;
use crate::text::{cat, cat3, cat4, contains_text, parts4, parts5};

verus! {

/// The identity of an external link: the same handle in two files is one record.
pub open spec fn link_record_id(system: Seq<char>, native_id: Seq<char>) -> Seq<char> {
    project_id(seq!["project"@, "ExternalLink"@, system, native_id])
}

fn link_id_for(system: &str, native_id: &str) -> (r: String)
    ensures
        r@ == link_record_id(system@, native_id@),
{
    project_stable_id(&parts4("project", "ExternalLink", system, native_id))
}

/// An edge between two project records.
pub open spec fn project_edge(
    label: EdgeLabel,
    source: Seq<char>,
    target: Seq<char>,
    summary: Seq<char>,
) -> RecordView {
    RecordView::Edge(
        EdgeRecordView::plain(
            project_id(seq!["project"@, "edge"@, label.name(), source, target]),
            PROJECT_SCHEMA_VERSION,
            label,
            source,
            target,
            None,
            summary,
        ),
    )
}

fn build_project_edge(label: EdgeLabel, source: &str, target: &str, summary: String) -> (r:
    GraphRecord)
    ensures
        r.deep_view() == project_edge(label, source@, target@, summary@),
{
    GraphRecord::Edge(
        EdgeRecord::plain(
            project_stable_id(&parts5("project", "edge", label.as_str(), source, target)),
            PROJECT_SCHEMA_VERSION,
            label,
            source.to_owned(),
            target.to_owned(),
            None,
            summary,
        ),
    )
}

/// Every text of a list, redacted.
pub open spec fn redacted_all<R: Redactor>(redact: R, texts: Seq<Seq<char>>) -> Seq<Seq<char>> {
    texts.map_values(|t: Seq<char>| redact.redacted(t))
}

fn redact_all<R: Redactor>(redact: &R, texts: &Vec<String>) -> (r: Vec<String>)
    ensures
        r.deep_view() == redacted_all(*redact, texts.deep_view()),
{
    let ghost all = redacted_all(*redact, texts.deep_view());
    let mut out: Vec<String> = Vec::new();
    let mut i: usize = 0;
    assert(out.deep_view() =~= all.take(0));
    while i < texts.len()
        invariant
            i <= texts.len(),
            all == redacted_all(*redact, texts.deep_view()),
            out.deep_view() == all.take(i as int),
        decreases texts.len() - i,
    {
        let ghost before = out;
        out.push(redact.redact(texts[i].as_str()));
        proof {
            lemma_push(before, out);
            assert(texts.deep_view()[i as int] == texts@[i as int].deep_view());
            assert(all.take(i + 1) =~= all.take(i as int).push(all[i as int]));
        }
        i += 1;
    }
    assert(all.take(texts.len() as int) =~= all);
    out
}

// ── Tasks ───────────────────────────────────────────────────────────────────

/// The handle of a task's body. A body that is a handle keeps its digest and length.
pub open spec fn task_body_handle<R: Redactor>(redact: R, body: TaskBodyView) -> OutputHandleView {
    match body {
        TaskBodyView::Text(s) => body_handle(redact.redacted(s)),
        TaskBodyView::Handle { hash, bytes, inline } => OutputHandleView {
            hash: or_empty(hash),
            bytes: match bytes {
                Some(b) => b,
                None => 0,
            },
            inline: match inline {
                Some(s) => Some(redact.redacted(s)),
                None => None,
            },
        },
        _ => body_handle(Seq::empty()),
    }
}

fn build_task_body_handle<R: Redactor>(redact: &R, body: &TaskBody) -> (r: OutputHandle)
    ensures
        r.deep_view() == task_body_handle(*redact, body.deep_view()),
{
    match body {
        TaskBody::Text(s) => body_handle_for(redact.redact(s.as_str()).as_str()),
        TaskBody::Handle { hash, bytes, inline } => OutputHandle {
            hash: match hash {
                Some(h) => h.clone(),
                None => String::new(),
            },
            bytes: match bytes {
                Some(b) => *b,
                None => 0,
            },
            inline: match inline {
                Some(s) => Some(redact.redact(s.as_str())),
                None => None,
            },
        },
        _ => {
            proof {
                reveal_strlit("");
                assert(""@ =~= Seq::<char>::empty());
            }
            body_handle_for("")
        },
    }
}

/// The record of a task.
pub open spec fn task_node<R: Redactor>(
    redact: R,
    f: FileView,
    t: TaskLineView,
    raw: Seq<char>,
) -> RecordView {
    let base = base_fields(
        NodeRecordView::plain(
            task_record_id(f.file_rel, t.local_id),
            NodeKind::Task,
            Some(f.file_rel),
            None,
            Some(t.local_id),
            "Task: "@ + redact.redacted(t.title),
        ),
        f.transaction_time,
        t.updated_at,
        Some(line_handle(f.file_rel, t.local_id, raw)),
    );
    RecordView::Node(
        NodeRecordView {
            project: ProjectFieldsView {
                title: Some(redact.redacted(t.title)),
                body_handle: Some(task_body_handle(redact, t.body)),
                source_kind: Some(SOURCE_KIND@),
                source_external_link_id: Some(source_link_id(f.file_rel, t.local_id)),
                assignees: Some(redacted_all(redact, t.assignees)),
                labels: Some(redacted_all(redact, t.labels)),
                priority: Some(t.priority),
                status: Some(t.status),
                ..base.project
            },
            ..base
        },
    )
}

fn build_task_node<R: Redactor>(redact: &R, f: &FileContext, t: &TaskLine, raw: &str) -> (r:
    GraphRecord)
    ensures
        r.deep_view() == task_node(*redact, f.deep_view(), t.deep_view(), raw@),
{
    let title: String = redact.redact(t.title.as_str());
    let mut n: NodeRecord = NodeRecord::plain(
        task_id_for(f.file_rel, t.local_id.as_str()),
        NodeKind::Task,
        Some(f.file_rel.to_owned()),
        None,
        Some(t.local_id.clone()),
        cat("Task: ", title.as_str()),
    );
    let handle: String = source_handle_for_line(f.file_rel, t.local_id.as_str(), raw);
    set_project_base_fields(&mut n, f.transaction_time, t.updated_at.as_str(), Some(handle));
    n.project.title = Some(title);
    n.project.body_handle = Some(build_task_body_handle(redact, &t.body));
    n.project.source_kind = Some(SOURCE_KIND.to_owned());
    n.project.source_external_link_id = Some(source_link_id_for(f.file_rel, t.local_id.as_str()));
    n.project.assignees = Some(redact_all(redact, &t.assignees));
    n.project.labels = Some(redact_all(redact, &t.labels));
    n.project.priority = Some(t.priority.clone());
    n.project.status = Some(t.status.clone());
    GraphRecord::Node(n)
}

/// The identity of a task's source link.
pub open spec fn source_link_id(file_rel: Seq<char>, local_id: Seq<char>) -> Seq<char> {
    link_record_id("local_file"@, identity_handle(file_rel, local_id))
}

fn source_link_id_for(file_rel: &str, local_id: &str) -> (r: String)
    ensures
        r@ == source_link_id(file_rel@, local_id@),
{
    link_id_for("local_file", source_identity_handle(file_rel, local_id).as_str())
}

/// What an external link says of itself.
pub open spec fn link_fields(
    base: NodeRecordView,
    system: Seq<char>,
    url: Seq<char>,
    native_id: Seq<char>,
    discovered_at: Seq<char>,
) -> RecordView {
    RecordView::Node(
        NodeRecordView {
            project: ProjectFieldsView {
                source_kind: Some(SOURCE_KIND@),
                system: Some(system),
                url: Some(url),
                system_native_id: Some(native_id),
                discovered_at: Some(discovered_at),
                ..base.project
            },
            ..base
        },
    )
}

fn finish_link(
    base: NodeRecord,
    system: &str,
    url: String,
    native_id: &str,
    discovered_at: &str,
) -> (r: GraphRecord)
    ensures
        r.deep_view() == link_fields(
            base.deep_view(),
            system@,
            url@,
            native_id@,
            discovered_at@,
        ),
{
    let mut n: NodeRecord = base;
    n.project.source_kind = Some(SOURCE_KIND.to_owned());
    n.project.system = Some(system.to_owned());
    n.project.url = Some(url);
    n.project.system_native_id = Some(native_id.to_owned());
    n.project.discovered_at = Some(discovered_at.to_owned());
    GraphRecord::Node(n)
}

/// The link from a task to its line in the file. Where a row refines it, that row gives the
/// address, the times and the provenance.
pub open spec fn source_link_node<R: Redactor>(
    redact: R,
    f: FileView,
    t: TaskLineView,
    raw: Seq<char>,
    refinement: Option<RefinementView>,
) -> RecordView {
    let native_id = identity_handle(f.file_rel, t.local_id);
    let plain = NodeRecordView::plain(
        source_link_id(f.file_rel, t.local_id),
        NodeKind::ExternalLink,
        Some(f.file_rel),
        None,
        None,
        "ExternalLink: local_file:"@ + native_id,
    );
    match refinement {
        Some(x) => link_fields(
            base_fields(
                plain,
                f.transaction_time,
                x.link.updated_at,
                Some(line_handle(f.file_rel, x.link.local_id, x.raw)),
            ),
            "local_file"@,
            redact.redacted(x.link.url),
            native_id,
            x.link.discovered_at,
        ),
        None => link_fields(
            base_fields(
                plain,
                f.transaction_time,
                t.updated_at,
                Some(line_handle(f.file_rel, t.local_id, raw)),
            ),
            "local_file"@,
            redact.redacted("file://"@ + f.file_rel),
            native_id,
            t.updated_at,
        ),
    }
}

fn build_source_link_node<R: Redactor>(
    redact: &R,
    f: &FileContext,
    t: &TaskLine,
    raw: &str,
    refinement: Option<&Refinement>,
) -> (r: GraphRecord)
    ensures
        r.deep_view() == source_link_node(
            *redact,
            f.deep_view(),
            t.deep_view(),
            raw@,
            refinement.deep_view(),
        ),
{
    let native_id: String = source_identity_handle(f.file_rel, t.local_id.as_str());
    let mut n: NodeRecord = NodeRecord::plain(
        source_link_id_for(f.file_rel, t.local_id.as_str()),
        NodeKind::ExternalLink,
        Some(f.file_rel.to_owned()),
        None,
        None,
        cat("ExternalLink: local_file:", native_id.as_str()),
    );
    match refinement {
        Some(x) => {
            let handle: String = source_handle_for_line(
                f.file_rel,
                x.link.local_id.as_str(),
                x.raw.as_str(),
            );
            set_project_base_fields(
                &mut n,
                f.transaction_time,
                x.link.updated_at.as_str(),
                Some(handle),
            );
            finish_link(
                n,
                "local_file",
                redact.redact(x.link.url.as_str()),
                native_id.as_str(),
                x.link.discovered_at.as_str(),
            )
        },
        None => {
            let handle: String = source_handle_for_line(f.file_rel, t.local_id.as_str(), raw);
            set_project_base_fields(&mut n, f.transaction_time, t.updated_at.as_str(), Some(handle));
            let address: String = cat("file://", f.file_rel);
            finish_link(
                n,
                "local_file",
                redact.redact(address.as_str()),
                native_id.as_str(),
                t.updated_at.as_str(),
            )
        },
    }
}

/// The records of a task row: the task, and with its first row its source link. The task names the
/// link; the edge between them is for the store to draw.
pub open spec fn task_records<R: Redactor>(
    redact: R,
    f: FileView,
    t: TaskLineView,
    raw: Seq<char>,
    refinement: Option<RefinementView>,
    linked: Seq<Seq<char>>,
) -> Seq<RecordView> {
    let link = source_link_id(f.file_rel, t.local_id);
    if linked.contains(link) {
        seq![task_node(redact, f, t, raw)]
    } else {
        seq![task_node(redact, f, t, raw), source_link_node(redact, f, t, raw, refinement)]
    }
}

/// The source links that have been emitted.
pub open spec fn linked_after(linked: Seq<Seq<char>>, link: Seq<char>) -> Seq<Seq<char>> {
    if linked.contains(link) {
        linked
    } else {
        linked.push(link)
    }
}

/// Emits the records of a task row. `linked` holds the source links that have been emitted.
pub fn emit_task_records<R: Redactor>(
    out: &mut Vec<GraphRecord>,
    redact: &R,
    f: &FileContext,
    t: &TaskLine,
    raw: &str,
    refinement: Option<&Refinement>,
    linked: &mut Vec<String>,
)
    ensures
        final(out).deep_view() == old(out).deep_view() + task_records(
            *redact,
            f.deep_view(),
            t.deep_view(),
            raw@,
            refinement.deep_view(),
            old(linked).deep_view(),
        ),
        final(linked).deep_view() == linked_after(
            old(linked).deep_view(),
            source_link_id(f.file_rel@, t.local_id@),
        ),
{
    let link: String = source_link_id_for(f.file_rel, t.local_id.as_str());
    let first: bool = !contains_text(linked, link.as_str());
    let ghost b1 = *out;
    out.push(build_task_node(redact, f, t, raw));
    proof {
        lemma_push(b1, *out);
    }
    if first {
        let ghost b2 = *out;
        out.push(build_source_link_node(redact, f, t, raw, refinement));
        proof {
            lemma_push(b2, *out);
        }
        let ghost b4 = *linked;
        linked.push(link);
        proof {
            lemma_push(b4, *linked);
        }
    }
    assert(out.deep_view() =~= b1.deep_view() + task_records(
        *redact,
        f.deep_view(),
        t.deep_view(),
        raw@,
        refinement.deep_view(),
        old(linked).deep_view(),
    ));
}

// ── Acceptance criteria ─────────────────────────────────────────────────────

/// The record of a criterion, with the status it is kept under, and the edge to its task.
pub open spec fn ac_records<R: Redactor>(
    redact: R,
    f: FileView,
    a: AcLineView,
    raw: Seq<char>,
    parent_task_id: Seq<char>,
    effective_status: Option<Seq<char>>,
) -> Seq<RecordView> {
    let id = ac_record_id(f.file_rel, parent_task_id, a.ordinal);
    seq![
        ac_node(redact, f, a, raw, parent_task_id, effective_status),
        project_edge(
            EdgeLabel::OwnedByTask,
            id,
            parent_task_id,
            "AcceptanceCriterion '"@ + a.local_id + "' owned by task"@,
        ),
    ]
}

pub open spec fn ac_node<R: Redactor>(
    redact: R,
    f: FileView,
    a: AcLineView,
    raw: Seq<char>,
    parent_task_id: Seq<char>,
    effective_status: Option<Seq<char>>,
) -> RecordView {
    let base = base_fields(
        NodeRecordView::plain(
            ac_record_id(f.file_rel, parent_task_id, a.ordinal),
            NodeKind::AcceptanceCriterion,
            Some(f.file_rel),
            None,
            Some(a.local_id),
            "AcceptanceCriterion: "@ + redact.redacted(a.text),
        ),
        f.transaction_time,
        a.updated_at,
        Some(line_handle(f.file_rel, a.local_id, raw)),
    );
    RecordView::Node(
        NodeRecordView {
            text: Some(redact.redacted(a.text)),
            project: ProjectFieldsView {
                source_kind: Some(SOURCE_KIND@),
                parent_task_id: Some(parent_task_id),
                ordinal: Some(a.ordinal),
                status: Some(
                    match effective_status {
                        Some(s) => s,
                        None => a.status,
                    },
                ),
                ..base.project
            },
            ..base
        },
    )
}

fn emit_ac_record<R: Redactor>(
    out: &mut Vec<GraphRecord>,
    redact: &R,
    f: &FileContext,
    a: &AcLine,
    raw: &str,
    parent_task_id: &str,
    effective_status: &Option<String>,
)
    ensures
        final(out).deep_view() == old(out).deep_view() + ac_records(
            *redact,
            f.deep_view(),
            a.deep_view(),
            raw@,
            parent_task_id@,
            effective_status.deep_view(),
        ),
{
    let text: String = redact.redact(a.text.as_str());
    let id: String = ac_id_for(f.file_rel, parent_task_id, a.ordinal);
    let mut n: NodeRecord = NodeRecord::plain(
        id.clone(),
        NodeKind::AcceptanceCriterion,
        Some(f.file_rel.to_owned()),
        None,
        Some(a.local_id.clone()),
        cat("AcceptanceCriterion: ", text.as_str()),
    );
    let handle: String = source_handle_for_line(f.file_rel, a.local_id.as_str(), raw);
    set_project_base_fields(&mut n, f.transaction_time, a.updated_at.as_str(), Some(handle));
    n.text = Some(text);
    n.project.source_kind = Some(SOURCE_KIND.to_owned());
    n.project.parent_task_id = Some(parent_task_id.to_owned());
    n.project.ordinal = Some(a.ordinal);
    n.project.status = Some(
        match effective_status {
            Some(s) => s.clone(),
            None => a.status.clone(),
        },
    );
    let ghost b1 = *out;
    out.push(GraphRecord::Node(n));
    proof {
        lemma_push(b1, *out);
    }
    let ghost b2 = *out;
    let summary: String = cat3("AcceptanceCriterion '", a.local_id.as_str(), "' owned by task");
    out.push(
        build_project_edge(EdgeLabel::OwnedByTask, id.as_str(), parent_task_id, summary),
    );
    proof {
        lemma_push(b2, *out);
        assert(out.deep_view() =~= b1.deep_view() + ac_records(
            *redact,
            f.deep_view(),
            a.deep_view(),
            raw@,
            parent_task_id@,
            effective_status.deep_view(),
        ));
    }
}

// ── External links ──────────────────────────────────────────────────────────

/// The record of an external link and the edge to it from its parent.
pub open spec fn link_records<R: Redactor>(
    redact: R,
    f: FileView,
    l: ExternalLinkLineView,
    raw: Seq<char>,
    parent_id: Seq<char>,
) -> Seq<RecordView> {
    let id = link_record_id(l.system, l.system_native_id);
    seq![
        link_fields(
            base_fields(
                NodeRecordView::plain(
                    id,
                    NodeKind::ExternalLink,
                    Some(f.file_rel),
                    None,
                    None,
                    "ExternalLink: "@ + l.system + ":"@ + l.system_native_id,
                ),
                f.transaction_time,
                l.updated_at,
                Some(line_handle(f.file_rel, l.local_id, raw)),
            ),
            l.system,
            redact.redacted(l.url),
            l.system_native_id,
            l.discovered_at,
        ),
        project_edge(
            EdgeLabel::ExternalHandle,
            parent_id,
            id,
            "'"@ + l.parent_local_id + "' has ExternalLink"@,
        ),
    ]
}

fn emit_external_link_record<R: Redactor>(
    out: &mut Vec<GraphRecord>,
    redact: &R,
    f: &FileContext,
    l: &ExternalLinkLine,
    raw: &str,
    parent_id: &str,
)
    ensures
        final(out).deep_view() == old(out).deep_view() + link_records(
            *redact,
            f.deep_view(),
            l.deep_view(),
            raw@,
            parent_id@,
        ),
{
    let id: String = link_id_for(l.system.as_str(), l.system_native_id.as_str());
    let mut n: NodeRecord = NodeRecord::plain(
        id.clone(),
        NodeKind::ExternalLink,
        Some(f.file_rel.to_owned()),
        None,
        None,
        cat4("ExternalLink: ", l.system.as_str(), ":", l.system_native_id.as_str()),
    );
    let handle: String = source_handle_for_line(f.file_rel, l.local_id.as_str(), raw);
    set_project_base_fields(&mut n, f.transaction_time, l.updated_at.as_str(), Some(handle));
    let ghost b1 = *out;
    out.push(
        finish_link(
            n,
            l.system.as_str(),
            redact.redact(l.url.as_str()),
            l.system_native_id.as_str(),
            l.discovered_at.as_str(),
        ),
    );
    proof {
        lemma_push(b1, *out);
    }
    let ghost b2 = *out;
    let summary: String = cat3("'", l.parent_local_id.as_str(), "' has ExternalLink");
    out.push(
        build_project_edge(EdgeLabel::ExternalHandle, parent_id, id.as_str(), summary),
    );
    proof {
        lemma_push(b2, *out);
        assert(out.deep_view() =~= b1.deep_view() + link_records(
            *redact,
            f.deep_view(),
            l.deep_view(),
            raw@,
            parent_id@,
        ));
    }
}

// ── All rows ────────────────────────────────────────────────────────────────

/// The record of a link's parent: a task, or else a criterion.
pub open spec fn parent_record(st: StateView, local_id: Seq<char>) -> Seq<char> {
    match lookup(st.task_ids, local_id) {
        Some(id) => id,
        None => or_empty(lookup(st.ac_ids, local_id)),
    }
}

/// The records of one row that passed its checks.
pub open spec fn row_records<R: Redactor>(
    redact: R,
    f: FileView,
    st: StateView,
    p: ParsedView,
    linked: Seq<Seq<char>>,
) -> Seq<RecordView> {
    match p {
        ParsedView::Task { line, raw } => task_records(
            redact,
            f,
            line,
            raw,
            lookup(st.refinements, line.local_id),
            linked,
        ),
        ParsedView::Criterion { line, raw, effective_status } => ac_records(
            redact,
            f,
            line,
            raw,
            or_empty(lookup(st.task_ids, line.parent_task_local_id)),
            effective_status,
        ),
        ParsedView::Link { line, raw } => link_records(
            redact,
            f,
            line,
            raw,
            parent_record(st, line.parent_local_id),
        ),
    }
}

/// The source links that have been emitted after some rows.
pub open spec fn linked_by(f: FileView, rows: Seq<ParsedView>) -> Seq<Seq<char>>
    decreases rows.len(),
{
    if rows.len() == 0 {
        Seq::empty()
    } else {
        match rows.last() {
            ParsedView::Task { line, raw } => linked_after(
                linked_by(f, rows.drop_last()),
                source_link_id(f.file_rel, line.local_id),
            ),
            _ => linked_by(f, rows.drop_last()),
        }
    }
}

/// The records of some rows, in their order.
pub open spec fn emitted<R: Redactor>(
    redact: R,
    f: FileView,
    st: StateView,
    rows: Seq<ParsedView>,
) -> Seq<RecordView>
    decreases rows.len(),
{
    if rows.len() == 0 {
        Seq::empty()
    } else {
        emitted(redact, f, st, rows.drop_last()) + row_records(
            redact,
            f,
            st,
            rows.last(),
            linked_by(f, rows.drop_last()),
        )
    }
}

fn emit_row<R: Redactor>(
    out: &mut Vec<GraphRecord>,
    redact: &R,
    f: &FileContext,
    st: &State,
    p: &ParsedRecord,
    linked: &mut Vec<String>,
)
    ensures
        final(out).deep_view() == old(out).deep_view() + row_records(
            *redact,
            f.deep_view(),
            st.deep_view(),
            p.deep_view(),
            old(linked).deep_view(),
        ),
        final(linked).deep_view() == (match p.deep_view() {
            ParsedView::Task { line, raw } => linked_after(
                old(linked).deep_view(),
                source_link_id(f.file_rel@, line.local_id),
            ),
            _ => old(linked).deep_view(),
        }),
{
    match p {
        ParsedRecord::Task { line, raw } => {
            let refinement: Option<&Refinement> = find_value(
                &st.refinements,
                line.local_id.as_str(),
            );
            emit_task_records(out, redact, f, line, raw.as_str(), refinement, linked);
        },
        ParsedRecord::Criterion { line, raw, effective_status } => {
            let parent: String = match find_value(
                &st.task_ids,
                line.parent_task_local_id.as_str(),
            ) {
                Some(id) => id.clone(),
                None => String::new(),
            };
            emit_ac_record(out, redact, f, line, raw.as_str(), parent.as_str(), effective_status);
        },
        ParsedRecord::Link { line, raw } => {
            let parent: String = match find_value(&st.task_ids, line.parent_local_id.as_str()) {
                Some(id) => id.clone(),
                None => match find_value(&st.ac_ids, line.parent_local_id.as_str()) {
                    Some(id) => id.clone(),
                    None => String::new(),
                },
            };
            emit_external_link_record(out, redact, f, line, raw.as_str(), parent.as_str());
        },
    }
}

pub fn emit_rows<R: Redactor>(
    out: &mut Vec<GraphRecord>,
    redact: &R,
    f: &FileContext,
    st: &State,
)
    ensures
        final(out).deep_view() == old(out).deep_view() + emitted(
            *redact,
            f.deep_view(),
            st.deep_view(),
            st.deep_view().parsed,
        ),
{
    let ghost all = st.parsed.deep_view();
    let ghost start = out.deep_view();
    let mut linked: Vec<String> = Vec::new();
    let mut i: usize = 0;
    proof {
        assert(all.take(0).len() == 0);
        assert(linked.deep_view() =~= Seq::empty());
        assert(start + Seq::<RecordView>::empty() =~= start);
    }
    while i < st.parsed.len()
        invariant
            i <= st.parsed.len(),
            all == st.parsed.deep_view(),
            linked.deep_view() == linked_by(f.deep_view(), all.take(i as int)),
            out.deep_view() == start + emitted(
                *redact,
                f.deep_view(),
                st.deep_view(),
                all.take(i as int),
            ),
        decreases st.parsed.len() - i,
    {
        proof {
            assert(all.take(i + 1).drop_last() =~= all.take(i as int));
            assert(all.take(i + 1).last() == st.parsed@[i as int].deep_view());
        }
        let ghost before = out.deep_view();
        let ghost done = emitted(*redact, f.deep_view(), st.deep_view(), all.take(i as int));
        emit_row(out, redact, f, st, &st.parsed[i], &mut linked);
        assert(out.deep_view() =~= start + emitted(
            *redact,
            f.deep_view(),
            st.deep_view(),
            all.take(i + 1),
        ));
        i += 1;
    }
    assert(all.take(st.parsed.len() as int) =~= all);
}

} // verus!
