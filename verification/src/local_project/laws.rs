//! What an import of task files keeps, whatever the files hold.
use vstd::prelude::*;

use crate::assoc::lookup;
use crate::ir::{NodeKind, RecordView};
use crate::local_project::check::{
    checked, effective_status, line_no, row_step, verification_warning, warned, FileView,
    ParsedView, RefinementView, StateView, DOMAIN, IMPORTER_ID, IMPORTER_VERSION,
};
use crate::local_project::emit::{
    emitted, linked_after, linked_by, row_records, source_link_id, task_records,
};
use crate::local_project::fault::FaultView;
use crate::local_project::input::{InputLineView, RowView, TaskFileView, TaskLineView};
use crate::local_project::{
    context, diagnostics_in, file_diagnostics, file_entities, header_fault, import_graph, imported,
    nth_diagnostics, nth_records,
};
use crate::policy::Redactor;
use crate::text::trimmed;

verus! {

// ── One row ─────────────────────────────────────────────────────────────────

/// A row that is not kept changes nothing but the list of diagnostics, and is never passed over
/// in silence: it adds to that list.
pub proof fn law_rejected_row_leaves_only_diagnostics(
    st: StateView,
    f: FileView,
    l: InputLineView,
    index: int,
)
    requires
        trimmed(l.text).len() > 0,
        row_step(st, f, l, index).parsed.len() == st.parsed.len(),
        row_step(st, f, l, index).refinements.len() == st.refinements.len(),
    ensures
        row_step(st, f, l, index) == (StateView {
            diagnostics: row_step(st, f, l, index).diagnostics,
            ..st
        }),
        row_step(st, f, l, index).diagnostics.len() > st.diagnostics.len(),
        st.diagnostics.is_prefix_of(row_step(st, f, l, index).diagnostics),
{
}

/// A row is kept at most once, and what was kept stays.
pub proof fn law_row_is_kept_at_most_once(st: StateView, f: FileView, l: InputLineView, index: int)
    ensures
        ({
            let next = row_step(st, f, l, index);
            next.parsed == st.parsed || next.parsed == st.parsed.push(next.parsed.last())
        }),
{
}

/// The verdict on a row does not depend on the diagnostics in front of it: together with
/// `law_rejected_row_leaves_only_diagnostics`, a rejected row blocks no later one.
pub proof fn law_diagnostics_do_not_matter(
    st: StateView,
    other: Seq<RecordView>,
    f: FileView,
    l: InputLineView,
    index: int,
)
    ensures
        ({
            let next = row_step(st, f, l, index);
            let instead = row_step(StateView { diagnostics: other, ..st }, f, l, index);
            &&& instead == (StateView { diagnostics: instead.diagnostics, ..next })
            &&& instead.diagnostics.len() - other.len() == next.diagnostics.len()
                - st.diagnostics.len()
        }),
{
}

// ── One file ────────────────────────────────────────────────────────────────

/// A kept row stands on rows in front of it: a criterion has a known task, a link a known task or
/// criterion, and a criterion that claims to be verified has another status.
pub open spec fn well_founded(st: StateView, p: ParsedView) -> bool {
    match p {
        ParsedView::Task { line, raw } => lookup(st.task_ids, line.local_id) is Some,
        ParsedView::Criterion { line, raw, effective_status: kept } => lookup(
            st.task_ids,
            line.parent_task_local_id,
        ) is Some && kept == effective_status(line),
        ParsedView::Link { line, raw } => lookup(st.task_ids, line.parent_local_id) is Some
            || lookup(st.ac_ids, line.parent_local_id) is Some,
    }
}

proof fn lemma_lookup_push<V>(m: Seq<(Seq<char>, V)>, e: (Seq<char>, V), key: Seq<char>)
    ensures
        lookup(m.push(e), key) == (if e.0 == key {
            Some(e.1)
        } else {
            lookup(m, key)
        }),
{
    assert(m.push(e).drop_last() =~= m);
}

proof fn lemma_step_keeps_ids(
    st: StateView,
    f: FileView,
    l: InputLineView,
    index: int,
    key: Seq<char>,
)
    ensures
        ({
            let next = row_step(st, f, l, index);
            &&& lookup(st.task_ids, key) is Some ==> lookup(next.task_ids, key) is Some
            &&& lookup(st.ac_ids, key) is Some ==> lookup(next.ac_ids, key) is Some
        }),
{
    let next = row_step(st, f, l, index);
    if next.task_ids != st.task_ids {
        lemma_lookup_push(st.task_ids, next.task_ids.last(), key);
    }
    if next.ac_ids != st.ac_ids {
        lemma_lookup_push(st.ac_ids, next.ac_ids.last(), key);
    }
}

proof fn lemma_new_row(st: StateView, f: FileView, l: InputLineView, index: int)
    ensures
        ({
            let next = row_step(st, f, l, index);
            next.parsed.len() > st.parsed.len() ==> well_founded(next, next.parsed.last())
        }),
{
    let next = row_step(st, f, l, index);
    if next.task_ids != st.task_ids {
        lemma_lookup_push(st.task_ids, next.task_ids.last(), next.task_ids.last().0);
    }
}

/// Every kept row is well founded.
pub proof fn law_kept_rows_are_well_founded(f: FileView, lines: Seq<InputLineView>, n: nat)
    ensures
        forall|i: int|
            0 <= i < checked(f, lines, n).parsed.len() ==> well_founded(
                checked(f, lines, n),
                #[trigger] checked(f, lines, n).parsed[i],
            ),
    decreases n,
{
    if n > 1 {
        let st = checked(f, lines, (n - 1) as nat);
        let next = checked(f, lines, n);
        law_kept_rows_are_well_founded(f, lines, (n - 1) as nat);
        law_row_is_kept_at_most_once(st, f, lines[n - 1], n - 1);
        lemma_new_row(st, f, lines[n - 1], n - 1);
        assert forall|i: int| 0 <= i < next.parsed.len() implies well_founded(
            next,
            #[trigger] next.parsed[i],
        ) by {
            if i < st.parsed.len() {
                let p = st.parsed[i];
                assert(next.parsed[i] == p);
                let key = match p {
                    ParsedView::Task { line, raw } => line.local_id,
                    ParsedView::Criterion { line, raw, effective_status } => line.parent_task_local_id,
                    ParsedView::Link { line, raw } => line.parent_local_id,
                };
                lemma_step_keeps_ids(st, f, lines[n - 1], n - 1, key);
            }
        }
    }
}

// ── A line more ─────────────────────────────────────────────────────────────

/// The states differ in their diagnostics alone.
pub open spec fn same_but_diagnostics(a: StateView, b: StateView) -> bool {
    a == (StateView { diagnostics: a.diagnostics, ..b })
}

/// The verdict on a row does not depend on where the row stands either.
#[verifier::spinoff_prover]
#[verifier::rlimit(40)]
pub proof fn law_position_does_not_matter(
    a: StateView,
    b: StateView,
    f: FileView,
    l: InputLineView,
    i: int,
    j: int,
)
    requires
        same_but_diagnostics(a, b),
    ensures
        same_but_diagnostics(row_step(a, f, l, i), row_step(b, f, l, j)),
        row_step(a, f, l, i).diagnostics.len() - a.diagnostics.len() == row_step(
            b,
            f,
            l,
            j,
        ).diagnostics.len() - b.diagnostics.len(),
{
    match l.row {
        RowView::Task(_) => lemma_position_of_a_task(a, b, f, l, i, j),
        RowView::Criterion(_) => lemma_position_of_a_criterion(a, b, f, l, i, j),
        RowView::Link(_) => lemma_position_of_a_link(a, b, f, l, i, j),
        _ => {},
    }
}

#[verifier::spinoff_prover]
#[verifier::rlimit(40)]
proof fn lemma_position_of_a_task(
    a: StateView,
    b: StateView,
    f: FileView,
    l: InputLineView,
    i: int,
    j: int,
)
    requires
        same_but_diagnostics(a, b),
        l.row is Task,
    ensures
        same_but_diagnostics(row_step(a, f, l, i), row_step(b, f, l, j)),
        row_step(a, f, l, i).diagnostics.len() - a.diagnostics.len() == row_step(
            b,
            f,
            l,
            j,
        ).diagnostics.len() - b.diagnostics.len(),
{
}

#[verifier::spinoff_prover]
#[verifier::rlimit(40)]
proof fn lemma_position_of_a_criterion(
    a: StateView,
    b: StateView,
    f: FileView,
    l: InputLineView,
    i: int,
    j: int,
)
    requires
        same_but_diagnostics(a, b),
        l.row is Criterion,
    ensures
        same_but_diagnostics(row_step(a, f, l, i), row_step(b, f, l, j)),
        row_step(a, f, l, i).diagnostics.len() - a.diagnostics.len() == row_step(
            b,
            f,
            l,
            j,
        ).diagnostics.len() - b.diagnostics.len(),
{
}

#[verifier::spinoff_prover]
#[verifier::rlimit(40)]
proof fn lemma_position_of_a_link(
    a: StateView,
    b: StateView,
    f: FileView,
    l: InputLineView,
    i: int,
    j: int,
)
    requires
        same_but_diagnostics(a, b),
        l.row is Link,
    ensures
        same_but_diagnostics(row_step(a, f, l, i), row_step(b, f, l, j)),
        row_step(a, f, l, i).diagnostics.len() - a.diagnostics.len() == row_step(
            b,
            f,
            l,
            j,
        ).diagnostics.len() - b.diagnostics.len(),
{
}

/// What one line more adds to the diagnostics: nothing where it is blank.
pub open spec fn reports_of(l: InputLineView) -> int {
    if trimmed(l.text).len() == 0 {
        0
    } else {
        1
    }
}

proof fn lemma_inserted(
    f: FileView,
    lines: Seq<InputLineView>,
    at: int,
    l: InputLineView,
    n: nat,
)
    requires
        1 <= at <= n <= lines.len(),
        trimmed(l.text).len() == 0 || l.row is Invalid,
    ensures
        ({
            let before = checked(f, lines, n);
            let after = checked(f, lines.insert(at, l), n + 1);
            &&& same_but_diagnostics(after, before)
            &&& after.diagnostics.len() == before.diagnostics.len() + reports_of(l)
        }),
    decreases n,
{
    let more = lines.insert(at, l);
    if n == at {
        lemma_same_front(f, lines, more, n);
        assert(more[at] == l);
    } else {
        lemma_inserted(f, lines, at, l, (n - 1) as nat);
        assert(more[n as int] == lines[n - 1]);
        law_position_does_not_matter(
            checked(f, more, n),
            checked(f, lines, (n - 1) as nat),
            f,
            lines[n - 1],
            n as int,
            n - 1,
        );
    }
}

proof fn lemma_same_front(f: FileView, a: Seq<InputLineView>, b: Seq<InputLineView>, n: nat)
    requires
        n <= a.len(),
        n <= b.len(),
        forall|i: int| 0 <= i < n ==> a[i] == b[i],
    ensures
        checked(f, a, n) == checked(f, b, n),
    decreases n,
{
    if n > 1 {
        lemma_same_front(f, a, b, (n - 1) as nat);
    }
}

proof fn lemma_emitted_alike<R: Redactor>(
    redact: R,
    f: FileView,
    a: StateView,
    b: StateView,
    rows: Seq<ParsedView>,
)
    requires
        same_but_diagnostics(a, b),
    ensures
        emitted(redact, f, a, rows) == emitted(redact, f, b, rows),
    decreases rows.len(),
{
    if rows.len() > 0 {
        lemma_emitted_alike(redact, f, a, b, rows.drop_last());
    }
}

/// A line that is no JSON, put in anywhere behind the header, adds one diagnostic, and a blank one
/// adds none. Neither changes, adds or moves any other record of the file.
pub proof fn law_invalid_line_blocks_nothing<R: Redactor>(
    redact: R,
    file: TaskFileView,
    transaction_time: Seq<char>,
    at: int,
    l: InputLineView,
)
    requires
        header_fault(file) is None,
        1 <= at <= file.lines.len(),
        trimmed(l.text).len() == 0 || l.row is Invalid,
    ensures
        ({
            let more = TaskFileView { lines: file.lines.insert(at, l), ..file };
            &&& file_entities(redact, more, transaction_time) == file_entities(
                redact,
                file,
                transaction_time,
            )
            &&& file_diagnostics(more, transaction_time).len() == file_diagnostics(
                file,
                transaction_time,
            ).len() + reports_of(l)
        }),
{
    let f = context(file, transaction_time);
    let more = TaskFileView { lines: file.lines.insert(at, l), ..file };
    assert(more.lines[0] == file.lines[0]);
    assert(header_fault(more) is None);
    lemma_inserted(f, file.lines, at, l, file.lines.len());
    let before = checked(f, file.lines, file.lines.len());
    let after = checked(f, more.lines, more.lines.len());
    lemma_emitted_alike(redact, f, after, before, before.parsed);
}

/// A kept row yields exactly one node of its own kind, in front. Behind it stands the edge to its
/// parent, or with a task's first row its source link.
pub proof fn law_kept_row_yields_its_node<R: Redactor>(
    redact: R,
    f: FileView,
    st: StateView,
    p: ParsedView,
    linked: Seq<Seq<char>>,
)
    ensures
        ({
            let out = row_records(redact, f, st, p, linked);
            match p {
                ParsedView::Task { .. } => out.len() > 0 && out[0].is_kind(NodeKind::Task) && (
                out.len() == 1 || out.len() == 2 && out[1].is_kind(NodeKind::ExternalLink)),
                ParsedView::Criterion { .. } => out.len() == 2 && out[0].is_kind(
                    NodeKind::AcceptanceCriterion,
                ) && out[1] is Edge,
                ParsedView::Link { .. } => out.len() == 2 && out[0].is_kind(NodeKind::ExternalLink)
                    && out[1] is Edge,
            }
        }),
{
}

/// The first row of a task emits the task and its source link, which the task names, and no edge.
pub proof fn law_first_row_emits_the_source_link<R: Redactor>(
    redact: R,
    f: FileView,
    t: TaskLineView,
    raw: Seq<char>,
    refinement: Option<RefinementView>,
    linked: Seq<Seq<char>>,
)
    requires
        !linked.contains(source_link_id(f.file_rel, t.local_id)),
    ensures
        ({
            let out = task_records(redact, f, t, raw, refinement, linked);
            let link = source_link_id(f.file_rel, t.local_id);
            &&& out.len() == 2
            &&& out[0] matches RecordView::Node(n) && n.kind == NodeKind::Task
                && n.project.source_external_link_id == Some(link)
            &&& out[1] matches RecordView::Node(n) && n.kind == NodeKind::ExternalLink && n.id
                == link && n.project.system == Some("local_file"@)
            &&& linked_after(linked, link).contains(link)
        }),
{
    let link = source_link_id(f.file_rel, t.local_id);
    let after = linked.push(link);
    assert(after[after.len() - 1] == link);
}

/// A later row of a task emits the task alone, under the same identity, and adds no source link.
pub proof fn law_later_rows_emit_the_task_alone<R: Redactor>(
    redact: R,
    f: FileView,
    first: TaskLineView,
    first_raw: Seq<char>,
    first_refinement: Option<RefinementView>,
    before: Seq<Seq<char>>,
    t: TaskLineView,
    raw: Seq<char>,
    refinement: Option<RefinementView>,
    linked: Seq<Seq<char>>,
)
    requires
        first.local_id == t.local_id,
        forall|x: Seq<char>| #[trigger]
            linked_after(before, source_link_id(f.file_rel, first.local_id)).contains(x)
                ==> linked.contains(x),
    ensures
        ({
            let earlier = task_records(redact, f, first, first_raw, first_refinement, before);
            let out = task_records(redact, f, t, raw, refinement, linked);
            &&& out.len() == 1
            &&& out[0].is_kind(NodeKind::Task)
            &&& out[0].id() == earlier[0].id()
            &&& linked_after(linked, source_link_id(f.file_rel, t.local_id)) == linked
        }),
{
    let link = source_link_id(f.file_rel, t.local_id);
    let after = linked_after(before, link);
    if !before.contains(link) {
        assert(after[after.len() - 1] == link);
    }
    assert(after.contains(link));
}

/// What holds of every record that is no diagnostic: it is no verified criterion, and a node says
/// who imported it, when, and from where.
pub open spec fn sound_entity(f: FileView, r: RecordView) -> bool {
    match r {
        RecordView::Node(n) => {
            &&& n.kind == NodeKind::Task || n.kind == NodeKind::AcceptanceCriterion || n.kind
                == NodeKind::ExternalLink
            &&& n.kind == NodeKind::AcceptanceCriterion ==> n.project.status != Some("verified"@)
            &&& carries_provenance(f, r)
            &&& n.project.source_handle is Some
        },
        RecordView::Edge(_) => true,
        RecordView::Tombstone(_) => false,
    }
}

/// A node names its file, its domain, its importer and its transaction.
pub open spec fn carries_provenance(f: FileView, r: RecordView) -> bool {
    match r {
        RecordView::Node(n) => {
            &&& n.repo_relative_path == Some(f.file_rel)
            &&& n.domain == Some(DOMAIN@)
            &&& n.project.entity_id == Some(n.id)
            &&& n.project.transaction_time == Some(f.transaction_time)
            &&& n.project.importer_id == Some(IMPORTER_ID@)
            &&& n.project.importer_version == Some(IMPORTER_VERSION@)
        },
        _ => true,
    }
}

pub open spec fn is_diagnostic(r: RecordView) -> bool {
    r.is_kind(NodeKind::Diagnostic)
}

proof fn lemma_row_records<R: Redactor>(
    redact: R,
    f: FileView,
    st: StateView,
    p: ParsedView,
    linked: Seq<Seq<char>>,
)
    requires
        well_founded(st, p),
    ensures
        forall|i: int|
            0 <= i < row_records(redact, f, st, p, linked).len() ==> sound_entity(
                f,
                #[trigger] row_records(redact, f, st, p, linked)[i],
            ),
{
    reveal_strlit("verified");
    reveal_strlit("unverified");
    assert("unverified"@.len() != "verified"@.len());
}

proof fn lemma_emitted<R: Redactor>(redact: R, f: FileView, st: StateView, rows: Seq<ParsedView>)
    requires
        forall|i: int| 0 <= i < rows.len() ==> well_founded(st, #[trigger] rows[i]),
    ensures
        forall|i: int|
            0 <= i < emitted(redact, f, st, rows).len() ==> sound_entity(
                f,
                #[trigger] emitted(redact, f, st, rows)[i],
            ),
    decreases rows.len(),
{
    if rows.len() > 0 {
        assert forall|i: int| 0 <= i < rows.drop_last().len() implies well_founded(
            st,
            #[trigger] rows.drop_last()[i],
        ) by {
            assert(rows.drop_last()[i] == rows[i]);
        }
        lemma_emitted(redact, f, st, rows.drop_last());
        assert(well_founded(st, rows[rows.len() - 1]));
        lemma_row_records(redact, f, st, rows.last(), linked_by(f, rows.drop_last()));
        let a = emitted(redact, f, st, rows.drop_last());
        let b = row_records(redact, f, st, rows.last(), linked_by(f, rows.drop_last()));
        assert forall|i: int| 0 <= i < (a + b).len() implies sound_entity(
            f,
            #[trigger] (a + b)[i],
        ) by {
            if i >= a.len() {
                assert((a + b)[i] == b[i - a.len()]);
            }
        }
    }
}

/// No file yields a verified criterion, and every node it yields carries its provenance.
pub proof fn law_entities_are_sound<R: Redactor>(
    redact: R,
    file: TaskFileView,
    transaction_time: Seq<char>,
)
    ensures
        forall|i: int|
            0 <= i < file_entities(redact, file, transaction_time).len() ==> sound_entity(
                (FileView { file_rel: file.file_rel, transaction_time }),
                #[trigger] file_entities(redact, file, transaction_time)[i],
            ),
{
    let f = FileView { file_rel: file.file_rel, transaction_time };
    law_kept_rows_are_well_founded(f, file.lines, file.lines.len());
    let st = checked(f, file.lines, file.lines.len());
    lemma_emitted(redact, f, st, st.parsed);
}

/// Everything in a list is a diagnostic of the file.
pub open spec fn all_diagnostics(f: FileView, s: Seq<RecordView>) -> bool {
    forall|i: int|
        0 <= i < s.len() ==> is_diagnostic(#[trigger] s[i]) && carries_provenance(f, s[i])
}

proof fn lemma_reports(st: StateView, f: FileView, fault: FaultView, index: int)
    requires
        all_diagnostics(f, st.diagnostics),
    ensures
        all_diagnostics(f, st.report(f, fault, index).diagnostics),
{
}

proof fn lemma_warns(st: StateView, f: FileView, fault: Option<FaultView>, index: int)
    requires
        all_diagnostics(f, st.diagnostics),
    ensures
        all_diagnostics(f, warned(st, f, fault, index).diagnostics),
{
    if fault is Some {
        lemma_reports(st, f, fault->0, index);
    }
}

proof fn lemma_row_reports(st: StateView, f: FileView, l: InputLineView, index: int)
    requires
        all_diagnostics(f, st.diagnostics),
    ensures
        all_diagnostics(f, row_step(st, f, l, index).diagnostics),
{
    assert forall|fault: FaultView| all_diagnostics(
        f,
        #[trigger] st.report(f, fault, index).diagnostics,
    ) by {
        lemma_reports(st, f, fault, index);
    }
    assert forall|fault: Option<FaultView>| all_diagnostics(
        f,
        #[trigger] warned(st, f, fault, index).diagnostics,
    ) by {
        lemma_warns(st, f, fault, index);
    }
    if let RowView::Criterion(Ok(a)) = l.row {
        let next = warned(st, f, verification_warning(a, line_no(index)), index);
        assert forall|fault: FaultView| all_diagnostics(
            f,
            #[trigger] next.report(f, fault, index).diagnostics,
        ) by {
            lemma_reports(next, f, fault, index);
        }
        assert forall|fault: Option<FaultView>| all_diagnostics(
            f,
            #[trigger] warned(next, f, fault, index).diagnostics,
        ) by {
            lemma_warns(next, f, fault, index);
        }
    }
}

proof fn lemma_checked_diagnostics(f: FileView, lines: Seq<InputLineView>, n: nat)
    ensures
        all_diagnostics(f, checked(f, lines, n).diagnostics),
    decreases n,
{
    if n > 1 {
        lemma_checked_diagnostics(f, lines, (n - 1) as nat);
        lemma_row_reports(checked(f, lines, (n - 1) as nat), f, lines[n - 1], n - 1);
    }
}

/// What a file reports are diagnostics, and they carry their provenance.
pub proof fn law_file_diagnostics(file: TaskFileView, transaction_time: Seq<char>)
    ensures
        all_diagnostics(
            (FileView { file_rel: file.file_rel, transaction_time }),
            file_diagnostics(file, transaction_time),
        ),
{
    let f = FileView { file_rel: file.file_rel, transaction_time };
    lemma_checked_diagnostics(f, file.lines, file.lines.len());
}

// ── All files ───────────────────────────────────────────────────────────────

proof fn lemma_filter_all<A>(s: Seq<A>, keep: spec_fn(A) -> bool)
    requires
        forall|i: int| 0 <= i < s.len() ==> keep(#[trigger] s[i]),
    ensures
        s.filter(keep) == s,
    decreases s.len(),
{
    reveal(Seq::filter);
    if s.len() > 0 {
        assert forall|i: int| 0 <= i < s.drop_last().len() implies keep(
            #[trigger] s.drop_last()[i],
        ) by {
            assert(s.drop_last()[i] == s[i]);
        }
        lemma_filter_all(s.drop_last(), keep);
        assert(keep(s[s.len() - 1]));
        assert(s.drop_last().push(s.last()) =~= s);
    }
}

proof fn lemma_filter_none<A>(s: Seq<A>, keep: spec_fn(A) -> bool)
    requires
        forall|i: int| 0 <= i < s.len() ==> !keep(#[trigger] s[i]),
    ensures
        s.filter(keep) == Seq::<A>::empty(),
    decreases s.len(),
{
    reveal(Seq::filter);
    if s.len() > 0 {
        assert forall|i: int| 0 <= i < s.drop_last().len() implies !keep(
            #[trigger] s.drop_last()[i],
        ) by {
            assert(s.drop_last()[i] == s[i]);
        }
        lemma_filter_none(s.drop_last(), keep);
        assert(!keep(s[s.len() - 1]));
    }
}

/// The number of diagnostics that is reported is the number of diagnostic records.
pub proof fn law_diagnostic_count<R: Redactor>(
    redact: R,
    files: Seq<TaskFileView>,
    n: nat,
    transaction_time: Seq<char>,
)
    ensures
        imported(redact, files, n, transaction_time).filter(
            |r: RecordView| is_diagnostic(r),
        ).len() == diagnostics_in(files, n, transaction_time),
    decreases n,
{
    broadcast use Seq::filter_distributes_over_add;

    let keep = |r: RecordView| is_diagnostic(r);
    if n == 0 {
        lemma_filter_none(Seq::<RecordView>::empty(), keep);
    } else {
        let i = n - 1;
        law_diagnostic_count(redact, files, (n - 1) as nat, transaction_time);
        law_file_diagnostics(files[i], transaction_time);
        law_entities_are_sound(redact, files[i], transaction_time);
        let d = nth_diagnostics(files, i, transaction_time);
        let all = nth_records(redact, files, i, transaction_time);
        let e = all.skip(d.len() as int);
        assert(all =~= d + e);
        lemma_filter_all(d, keep);
        assert(e =~= Seq::<RecordView>::empty() || e =~= file_entities(
            redact,
            files[i],
            transaction_time,
        ));
        lemma_filter_none(e, keep);
        assert(d + Seq::<RecordView>::empty() =~= d);
    }
}

/// An import at a fixed transaction time can be repeated: the clock does not show in it.
pub proof fn law_fixed_import_is_reproducible<R: Redactor>(
    redact: R,
    files: Seq<TaskFileView>,
    fixed: Seq<char>,
    now: Seq<char>,
    started: Seq<char>,
    later: Seq<char>,
    restarted: Seq<char>,
)
    ensures
        import_graph(redact, files, Some(fixed), now, started) == import_graph(
            redact,
            files,
            Some(fixed),
            later,
            restarted,
        ),
{
}

} // verus!
