//! What the rows of a task file say, the graph says.
use vstd::prelude::*;

use crate::assoc::lookup;
use crate::ir::{EdgeLabel, NodeKind, NodeRecordView, RecordView};
use crate::local_project::check::{checked, is_timestamp, row_step, FileView, ParsedView, StateView};
use crate::local_project::emit::{emitted, linked_by, row_records};
use crate::local_project::input::{
    AcLineView, ExternalLinkLineView, InputLineView, RowView, TaskFileView, TaskLineView,
};
use crate::local_project::laws::{law_kept_rows_are_well_founded, law_row_is_kept_at_most_once};
use crate::local_project::{context, file_diagnostics, file_entities, header_fault};
use crate::policy::Redactor;
use crate::text::trimmed;

verus! {

// ── What a kept row says ────────────────────────────────────────────────────

/// The texts are those of the row, redacted one by one.
pub open spec fn all_redacted<R: Redactor>(
    redact: R,
    texts: Seq<Seq<char>>,
    stored: Option<Seq<Seq<char>>>,
) -> bool {
    stored matches Some(s) && s.len() == texts.len() && forall|i: int|
        0 <= i < s.len() ==> #[trigger] s[i] == redact.redacted(texts[i])
}

/// The node says what the task row says.
pub open spec fn tells_task<R: Redactor>(redact: R, t: TaskLineView, n: NodeRecordView) -> bool {
    &&& n.kind == NodeKind::Task
    &&& n.name == Some(t.local_id)
    &&& n.valid_time == Some(t.updated_at)
    &&& n.project.title == Some(redact.redacted(t.title))
    &&& n.project.status == Some(t.status)
    &&& n.project.priority == Some(t.priority)
    &&& all_redacted(redact, t.assignees, n.project.assignees)
    &&& all_redacted(redact, t.labels, n.project.labels)
    &&& n.project.body_handle is Some
}

/// The node says what the criterion row says; a claim to be verified is not taken over.
pub open spec fn tells_criterion<R: Redactor>(redact: R, a: AcLineView, n: NodeRecordView) -> bool {
    &&& n.kind == NodeKind::AcceptanceCriterion
    &&& n.name == Some(a.local_id)
    &&& n.valid_time == Some(a.updated_at)
    &&& n.text == Some(redact.redacted(a.text))
    &&& n.project.ordinal == Some(a.ordinal)
    &&& a.status != "verified"@ ==> n.project.status == Some(a.status)
    &&& a.status == "verified"@ ==> n.project.status == Some("unverified"@)
    &&& n.project.verification_link_id is None
}

/// The node says what the link row says.
pub open spec fn tells_link<R: Redactor>(
    redact: R,
    l: ExternalLinkLineView,
    n: NodeRecordView,
) -> bool {
    &&& n.kind == NodeKind::ExternalLink
    &&& n.valid_time == Some(l.updated_at)
    &&& n.project.system == Some(l.system)
    &&& n.project.url == Some(redact.redacted(l.url))
    &&& n.project.system_native_id == Some(l.system_native_id)
    &&& n.project.discovered_at == Some(l.discovered_at)
}

/// One of the records is an edge of this label between the two.
pub open spec fn joins(
    records: Seq<RecordView>,
    label: EdgeLabel,
    source: Seq<char>,
    target: Seq<char>,
) -> bool {
    exists|i: int|
        0 <= i < records.len() && (#[trigger] records[i] matches RecordView::Edge(e) && e.label
            == label && e.source == source && e.target == target)
}

/// The records tell a kept row, and hang it on its parent.
pub open spec fn tells<R: Redactor>(
    redact: R,
    st: StateView,
    p: ParsedView,
    records: Seq<RecordView>,
    n: NodeRecordView,
) -> bool {
    records.contains(RecordView::Node(n)) && match p {
        ParsedView::Task { line, raw } => tells_task(redact, line, n),
        ParsedView::Criterion { line, raw, effective_status } => {
            &&& tells_criterion(redact, line, n)
            &&& lookup(st.task_ids, line.parent_task_local_id) matches Some(parent)
                && n.project.parent_task_id == Some(parent) && joins(
                records,
                EdgeLabel::OwnedByTask,
                n.id,
                parent,
            )
        },
        ParsedView::Link { line, raw } => {
            &&& tells_link(redact, line, n)
            &&& match lookup(st.task_ids, line.parent_local_id) {
                Some(task) => joins(records, EdgeLabel::ExternalHandle, task, n.id),
                None => lookup(st.ac_ids, line.parent_local_id) matches Some(criterion) && joins(
                    records,
                    EdgeLabel::ExternalHandle,
                    criterion,
                    n.id,
                ),
            }
        },
    }
}

proof fn lemma_row_tells<R: Redactor>(
    redact: R,
    f: FileView,
    st: StateView,
    p: ParsedView,
    linked: Seq<Seq<char>>,
) -> (n: NodeRecordView)
    requires
        crate::local_project::laws::well_founded(st, p),
    ensures
        tells(redact, st, p, row_records(redact, f, st, p, linked), n),
{
    let records = row_records(redact, f, st, p, linked);
    let n = records[0]->Node_0;
    assert(records.contains(records[0]));
    if p is Criterion || p is Link {
        assert(records[1] is Edge);
    }
    n
}

proof fn lemma_emitted_tells<R: Redactor>(
    redact: R,
    f: FileView,
    st: StateView,
    rows: Seq<ParsedView>,
    i: int,
) -> (n: NodeRecordView)
    requires
        0 <= i < rows.len(),
        forall|k: int|
            0 <= k < rows.len() ==> crate::local_project::laws::well_founded(
                st,
                #[trigger] rows[k],
            ),
    ensures
        tells(redact, st, rows[i], emitted(redact, f, st, rows), n),
    decreases rows.len(),
{
    let rest = rows.drop_last();
    let before = emitted(redact, f, st, rest);
    let here = row_records(redact, f, st, rows.last(), linked_by(f, rest));
    let all = emitted(redact, f, st, rows);
    let (part, shift, n) = if i < rest.len() {
        assert(rest[i] == rows[i]);
        assert forall|k: int| 0 <= k < rest.len() implies crate::local_project::laws::well_founded(
            st,
            #[trigger] rest[k],
        ) by {
            assert(rest[k] == rows[k]);
        }
        (before, 0int, lemma_emitted_tells(redact, f, st, rest, i))
    } else {
        (here, before.len() as int, lemma_row_tells(redact, f, st, rows[i], linked_by(f, rest)))
    };
    assert forall|k: int| 0 <= k < part.len() implies #[trigger] part[k] == all[k + shift] by {}
    let k = choose|k: int| 0 <= k < part.len() && part[k] == RecordView::Node(n);
    assert(all[k + shift] == RecordView::Node(n));
    assert forall|label: EdgeLabel, a: Seq<char>, b: Seq<char>| #[trigger]
        joins(part, label, a, b) implies joins(all, label, a, b) by {
        let m = choose|m: int|
            0 <= m < part.len() && (#[trigger] part[m] matches RecordView::Edge(e) && e.label
                == label && e.source == a && e.target == b);
        assert(all[m + shift] == part[m]);
    }
    n
}

/// Every kept row of a file is told by a node that says what the row says, joined to its parent.
pub proof fn law_kept_rows_are_told<R: Redactor>(
    redact: R,
    file: TaskFileView,
    transaction_time: Seq<char>,
    i: int,
)
    requires
        header_fault(file) is None,
        0 <= i < checked(
            context(file, transaction_time),
            file.lines,
            file.lines.len(),
        ).parsed.len(),
    ensures
        ({
            let st = checked(context(file, transaction_time), file.lines, file.lines.len());
            exists|n: NodeRecordView| #[trigger]
                tells(
                    redact,
                    st,
                    st.parsed[i],
                    file_entities(redact, file, transaction_time),
                    n,
                )
        }),
{
    let f = context(file, transaction_time);
    let st = checked(f, file.lines, file.lines.len());
    law_kept_rows_are_well_founded(f, file.lines, file.lines.len());
    let n = lemma_emitted_tells(redact, f, st, st.parsed, i);
    assert(file_entities(redact, file, transaction_time) == emitted(redact, f, st, st.parsed));
    assert(tells(redact, st, st.parsed[i], file_entities(redact, file, transaction_time), n));
}

// ── Which rows are kept ─────────────────────────────────────────────────────

/// The local identity that a row gives.
pub open spec fn id_of_row(r: RowView) -> Option<Seq<char>> {
    match r {
        RowView::Task(Ok(t)) => Some(t.local_id),
        RowView::Criterion(Ok(a)) => Some(a.local_id),
        RowView::Link(Ok(l)) => Some(l.local_id),
        _ => None,
    }
}

/// No line before `k` gives the identity.
pub open spec fn is_fresh(lines: Seq<InputLineView>, k: int, id: Seq<char>) -> bool {
    forall|j: int| 1 <= j < k ==> id_of_row((#[trigger] lines[j]).row) != Some(id)
}

proof fn lemma_fresh(f: FileView, lines: Seq<InputLineView>, k: nat, id: Seq<char>)
    requires
        k <= lines.len(),
        is_fresh(lines, k as int, id),
    ensures
        lookup(checked(f, lines, k).seen, id) is None,
    decreases k,
{
    if k > 1 {
        lemma_fresh(f, lines, (k - 1) as nat, id);
        let st = checked(f, lines, (k - 1) as nat);
        let next = checked(f, lines, k);
        assert(id_of_row(lines[k - 1].row) != Some(id));
        if next.seen != st.seen {
            assert(next.seen.drop_last() =~= st.seen);
        }
    }
}

proof fn lemma_kept_stays(f: FileView, lines: Seq<InputLineView>, k: nat, n: nat, i: int)
    requires
        1 <= k <= n <= lines.len(),
        0 <= i < checked(f, lines, k).parsed.len(),
    ensures
        i < checked(f, lines, n).parsed.len(),
        checked(f, lines, n).parsed[i] == checked(f, lines, k).parsed[i],
    decreases n,
{
    if k < n {
        lemma_kept_stays(f, lines, k, (n - 1) as nat, i);
        law_row_is_kept_at_most_once(
            checked(f, lines, (n - 1) as nat),
            f,
            lines[n - 1],
            n - 1,
        );
    }
}

/// A status that a task can have.
pub open spec fn names_task_status(s: Seq<char>) -> bool {
    seq!["open"@, "in_progress"@, "blocked"@, "closed_completed"@, "closed_dropped"@, "unknown"@]
        .contains(s)
}

pub open spec fn names_priority(s: Seq<char>) -> bool {
    seq!["low"@, "normal"@, "high"@, "urgent"@, "unknown"@].contains(s)
}

pub open spec fn names_criterion_status(s: Seq<char>) -> bool {
    seq!["unverified"@, "verified"@, "failed"@, "superseded"@, "unknown"@].contains(s)
}

pub open spec fn names_system(s: Seq<char>) -> bool {
    seq!["github"@, "gitlab"@, "local_file"@, "harness_legacy"@, "other"@].contains(s)
}

proof fn lemma_names(s: Seq<char>)
    ensures
        names_task_status(s) <==> crate::local_project::check::valid_task_status(s),
        names_priority(s) <==> crate::local_project::check::valid_task_priority(s),
        names_criterion_status(s) <==> crate::local_project::check::valid_ac_status(s),
        names_system(s) <==> crate::local_project::check::valid_link_system(s),
{
    let a = seq![
        "open"@,
        "in_progress"@,
        "blocked"@,
        "closed_completed"@,
        "closed_dropped"@,
        "unknown"@,
    ];
    let b = seq!["low"@, "normal"@, "high"@, "urgent"@, "unknown"@];
    let c = seq!["unverified"@, "verified"@, "failed"@, "superseded"@, "unknown"@];
    let d = seq!["github"@, "gitlab"@, "local_file"@, "harness_legacy"@, "other"@];
    assert(a[0] == "open"@ && a[1] == "in_progress"@ && a[2] == "blocked"@ && a[3]
        == "closed_completed"@ && a[4] == "closed_dropped"@ && a[5] == "unknown"@);
    assert(b[0] == "low"@ && b[1] == "normal"@ && b[2] == "high"@ && b[3] == "urgent"@ && b[4]
        == "unknown"@);
    assert(c[0] == "unverified"@ && c[1] == "verified"@ && c[2] == "failed"@ && c[3]
        == "superseded"@ && c[4] == "unknown"@);
    assert(d[0] == "github"@ && d[1] == "gitlab"@ && d[2] == "local_file"@ && d[3]
        == "harness_legacy"@ && d[4] == "other"@);
}

/// A task row under a new identity is kept if and only if its status, priority and time are what
/// they can be and its body is no unfit one; otherwise it leaves one diagnostic.
pub proof fn law_task_rows(
    f: FileView,
    lines: Seq<InputLineView>,
    k: nat,
    t: TaskLineView,
)
    requires
        1 <= k < lines.len(),
        lines[k as int].row == RowView::Task(Ok(t)),
        trimmed(lines[k as int].text).len() > 0,
        is_fresh(lines, k as int, t.local_id),
        t.body is Absent || t.body is Text,
    ensures
        ({
            let before = checked(f, lines, k);
            let after = checked(f, lines, k + 1);
            let row = ParsedView::Task { line: t, raw: lines[k as int].text };
            if names_task_status(t.status) && names_priority(t.priority) && is_timestamp(
                t.updated_at,
            ) {
                after.parsed == before.parsed.push(row)
            } else {
                after.parsed == before.parsed && after.diagnostics.len()
                    == before.diagnostics.len() + 1
            }
        }),
{
    lemma_fresh(f, lines, k, t.local_id);
    lemma_names(t.status);
    lemma_names(t.priority);
}

/// A criterion row under a new identity, for a task that is known and an ordinal that no other
/// criterion of that task has, is kept if and only if its status and time are what they can be.
pub proof fn law_criterion_rows(
    f: FileView,
    lines: Seq<InputLineView>,
    k: nat,
    a: AcLineView,
)
    requires
        1 <= k < lines.len(),
        lines[k as int].row == RowView::Criterion(Ok(a)),
        trimmed(lines[k as int].text).len() > 0,
        is_fresh(lines, k as int, a.local_id),
        crate::local_project::check::criterion_with(
            checked(f, lines, k).ac_identity,
            a.parent_task_local_id,
            a.ordinal,
        ) is None,
    ensures
        ({
            let before = checked(f, lines, k);
            let after = checked(f, lines, k + 1);
            let known = lookup(before.task_ids, a.parent_task_local_id) is Some;
            if names_criterion_status(a.status) && is_timestamp(a.updated_at) && known {
                after.parsed.len() == before.parsed.len() + 1 && (
                after.parsed.last() matches ParsedView::Criterion { line, raw, effective_status }
                    && line == a && raw == lines[k as int].text)
            } else {
                after.parsed == before.parsed && after.diagnostics.len()
                    > before.diagnostics.len()
            }
        }),
{
    lemma_fresh(f, lines, k, a.local_id);
    lemma_names(a.status);
}

/// A link row under a new identity, to something that no other row links to, is kept if and only if
/// its system and times are what they can be and its parent is known.
pub proof fn law_link_rows(
    f: FileView,
    lines: Seq<InputLineView>,
    k: nat,
    l: ExternalLinkLineView,
)
    requires
        1 <= k < lines.len(),
        lines[k as int].row == RowView::Link(Ok(l)),
        trimmed(lines[k as int].text).len() > 0,
        is_fresh(lines, k as int, l.local_id),
        l.system != "local_file"@,
        crate::local_project::check::owner_of(
            checked(f, lines, k).link_owner,
            l.system,
            l.system_native_id,
        ) is None,
    ensures
        ({
            let before = checked(f, lines, k);
            let after = checked(f, lines, k + 1);
            let known = lookup(before.task_ids, l.parent_local_id) is Some || lookup(
                before.ac_ids,
                l.parent_local_id,
            ) is Some;
            if names_system(l.system) && is_timestamp(l.discovered_at) && is_timestamp(
                l.updated_at,
            ) && known {
                after.parsed == before.parsed.push(
                    ParsedView::Link { line: l, raw: lines[k as int].text },
                )
            } else {
                after.parsed == before.parsed && after.diagnostics.len()
                    == before.diagnostics.len() + 1
            }
        }),
{
    lemma_fresh(f, lines, k, l.local_id);
    lemma_names(l.system);
}

/// A kept row is kept to the end, so that a later row can rest on it.
pub proof fn law_kept_rows_stay(f: FileView, lines: Seq<InputLineView>, k: nat, i: int)
    requires
        1 <= k <= lines.len(),
        0 <= i < checked(f, lines, k).parsed.len(),
    ensures
        checked(f, lines, lines.len()).parsed.contains(checked(f, lines, k).parsed[i]),
        checked(f, lines, k).parsed[i] matches ParsedView::Task { line, raw } ==> lookup(
            checked(f, lines, k).task_ids,
            line.local_id,
        ) is Some,
{
    lemma_kept_stays(f, lines, k, lines.len(), i);
    law_kept_rows_are_well_founded(f, lines, k);
    assert(checked(f, lines, lines.len()).parsed[i] == checked(f, lines, k).parsed[i]);
}

/// The file opens with a header that names this version and the file itself.
pub open spec fn is_headed(file: TaskFileView) -> bool {
    file.lines.len() > 0 && (file.lines[0].row matches RowView::Header(Ok(h)) && h.schema_version
        == 1 && h.project_slug == file.file_stem)
}

/// A file without its header says nothing, and one diagnostic says why.
pub proof fn law_files_without_a_header_say_nothing<R: Redactor>(
    redact: R,
    file: TaskFileView,
    transaction_time: Seq<char>,
)
    ensures
        is_headed(file) <==> header_fault(file) is None,
        !is_headed(file) ==> file_entities(redact, file, transaction_time).len() == 0
            && file_diagnostics(file, transaction_time).len() == 1,
{
}

/// A line that is no task, no criterion and no link is not kept: a blank one is passed over, and
/// any other leaves one diagnostic.
pub proof fn law_other_lines_are_refused(
    st: StateView,
    f: FileView,
    l: InputLineView,
    index: int,
)
    requires
        !(l.row matches RowView::Task(Ok(_))),
        !(l.row matches RowView::Criterion(Ok(_))),
        !(l.row matches RowView::Link(Ok(_))),
    ensures
        row_step(st, f, l, index).parsed == st.parsed,
        trimmed(l.text).len() == 0 ==> row_step(st, f, l, index) == st,
        trimmed(l.text).len() > 0 ==> row_step(st, f, l, index).diagnostics.len()
            == st.diagnostics.len() + 1,
{
}

} // verus!
