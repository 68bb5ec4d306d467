//! What the tools answer.
use vstd::prelude::*;

use crate::ir::{NodeRecordView, RecordView};
use crate::json::JsonView;
use crate::laws::mcp_rows::{law_every_record_has_its_row, shows, shows_text};
use crate::mcp::{
    criterion_row, criterion_rows, daemon_refusal, decision_json, decision_rows, drift_json,
    drift_rows, freshness_stamp, head_json, linked_item_json, record_with, row_json, rows,
    snapshot_json, symbol_answer, task_answer, verification_row, ClassifiedRecordView,
    DecisionRowView, DriftRowView, FreshnessReportView, FreshnessVerdict, Section,
    SymbolEvidenceView, TaskLookupView,
};
use crate::text::{has, lowered};

verus! {

proof fn lemma_at(row: JsonView, k: int)
    requires
        row matches JsonView::Obj(o) && 0 <= k < o.len(),
    ensures
        shows(row, row->Obj_0[k].0, row->Obj_0[k].1),
{
    assert(row->Obj_0[k] == (row->Obj_0[k].0, row->Obj_0[k].1));
}

/// The list has a row for the record.
pub open spec fn lists(rows: Seq<JsonView>, id: Seq<char>) -> bool {
    exists|k: int| 0 <= k < rows.len() && shows_text(#[trigger] rows[k], "record_id"@, Some(id))
}

/// The answer has a section with a row for the record.
pub open spec fn section_lists(answer: JsonView, section: Seq<char>, id: Seq<char>) -> bool {
    exists|rows: Seq<JsonView>| #[trigger]
        shows(answer, section, JsonView::Arr(rows)) && lists(rows, id)
}

/// The answer is a refusal with this code.
pub open spec fn refuses(answer: JsonView, code: Seq<char>) -> bool {
    shows(answer, "ok"@, JsonView::Bool(false)) && exists|error: JsonView| #[trigger]
        shows(answer, "error"@, error) && shows_text(error, "code"@, Some(code))
}

proof fn lemma_listed(section: Section, s: Seq<ClassifiedRecordView>, i: int)
    requires
        0 <= i < s.len(),
        section == Section::TopologyEdges ==> s[i].record is Edge,
        section != Section::TopologyEdges ==> s[i].record is Node,
    ensures
        lists(rows(section, s), s[i].record.id()),
{
    law_every_record_has_its_row(section, s, Seq::empty(), i);
    let row = row_json(section, s[i])->0;
    let all = rows(section, s);
    let k = choose|k: int| 0 <= k < all.len() && all[k] == row;
    lemma_at(row, 0);
    assert(shows_text(all[k], "record_id"@, Some(s[i].record.id())));
}

proof fn lemma_decision_listed(s: Seq<DecisionRowView>, i: int)
    requires
        0 <= i < s.len(),
        s[i].record is Node,
    ensures
        lists(decision_rows(s), s[i].record.id()),
{
    law_every_record_has_its_row(Section::SourceFacts, Seq::empty(), s, i);
    let row = decision_json(s[i])->0;
    let all = decision_rows(s);
    let k = choose|k: int| 0 <= k < all.len() && all[k] == row;
    lemma_at(row, 0);
    assert(shows_text(all[k], "record_id"@, Some(s[i].record.id())));
}

proof fn lemma_drift_listed(s: Seq<DriftRowView>, i: int)
    requires
        0 <= i < s.len(),
        s[i].record matches RecordView::Node(n) && n.semantic_drift is Some,
    ensures
        lists(drift_rows(s), s[i].record.id()),
    decreases s.len(),
{
    let rest = s.drop_last();
    let all = drift_rows(s);
    let id = s[i].record.id();
    if i < rest.len() {
        assert(rest[i] == s[i]);
        lemma_drift_listed(rest, i);
        let before = drift_rows(rest);
        let k = choose|k: int|
            0 <= k < before.len() && shows_text(#[trigger] before[k], "record_id"@, Some(id));
        assert(all[k] == before[k]);
    } else {
        let row = drift_json(s[i])->0;
        assert(row->Obj_0[0] == ("record_id"@, JsonView::Str(id)));
        lemma_at(row, 0);
        assert(all[all.len() - 1] == row);
    }
}

/// A symbol that was found is answered with everything that was found about it, each in its own
/// section; one that was not is refused.
pub proof fn law_symbol_answers(
    context: Option<SymbolEvidenceView>,
    symbol_name: Seq<char>,
    i: int,
)
    ensures
        context is None ==> refuses(symbol_answer(context, symbol_name), "no_match"@),
        context matches Some(c) ==> {
            let a = symbol_answer(context, symbol_name);
            &&& shows(a, "ok"@, JsonView::Bool(true))
            &&& shows_text(a, "symbol_name"@, Some(symbol_name))
            &&& 0 <= i < c.source_facts.len() && c.source_facts[i].record is Node ==> section_lists(
                a,
                "source_facts"@,
                c.source_facts[i].record.id(),
            )
            &&& 0 <= i < c.topology_edges.len() && c.topology_edges[i].record is Edge
                ==> section_lists(a, "topology_edges"@, c.topology_edges[i].record.id())
            &&& 0 <= i < c.observations.len() && c.observations[i].record is Node ==> section_lists(
                a,
                "observations"@,
                c.observations[i].record.id(),
            )
            &&& 0 <= i < c.decisions.len() && c.decisions[i].record is Node ==> section_lists(
                a,
                "decisions"@,
                c.decisions[i].record.id(),
            )
            &&& 0 <= i < c.project_state.len() && c.project_state[i].record is Node
                ==> section_lists(a, "project_state"@, c.project_state[i].record.id())
            &&& 0 <= i < c.artifacts.len() && c.artifacts[i].record is Node ==> section_lists(
                a,
                "artifacts"@,
                c.artifacts[i].record.id(),
            )
            &&& 0 <= i < c.verification_evidence.len() && c.verification_evidence[i].record is Node
                ==> section_lists(
                a,
                "verification_evidence"@,
                c.verification_evidence[i].record.id(),
            )
            &&& 0 <= i < c.drift_history.len() && (c.drift_history[i].record matches
                RecordView::Node(n) && n.semantic_drift is Some) ==> section_lists(
                a,
                "drift_history"@,
                c.drift_history[i].record.id(),
            )
        },
{
    let a = symbol_answer(context, symbol_name);
    if let Some(c) = context {
        assert(a->Obj_0.len() == 12);
        lemma_at(a, 0);
        lemma_at(a, 1);
        lemma_at(a, 2);
        lemma_at(a, 3);
        lemma_at(a, 4);
        lemma_at(a, 5);
        lemma_at(a, 6);
        lemma_at(a, 7);
        lemma_at(a, 8);
        lemma_at(a, 9);
        if 0 <= i < c.source_facts.len() && c.source_facts[i].record is Node {
            lemma_listed(Section::SourceFacts, c.source_facts, i);
        }
        if 0 <= i < c.topology_edges.len() && c.topology_edges[i].record is Edge {
            lemma_listed(Section::TopologyEdges, c.topology_edges, i);
        }
        if 0 <= i < c.observations.len() && c.observations[i].record is Node {
            lemma_listed(Section::Observations, c.observations, i);
        }
        if 0 <= i < c.decisions.len() && c.decisions[i].record is Node {
            lemma_decision_listed(c.decisions, i);
        }
        if 0 <= i < c.project_state.len() && c.project_state[i].record is Node {
            lemma_listed(Section::LinkedItems, c.project_state, i);
        }
        if 0 <= i < c.artifacts.len() && c.artifacts[i].record is Node {
            lemma_listed(Section::LinkedItems, c.artifacts, i);
        }
        if 0 <= i < c.verification_evidence.len() && c.verification_evidence[i].record is Node {
            lemma_listed(Section::LinkedItems, c.verification_evidence, i);
        }
        if 0 <= i < c.drift_history.len() && (c.drift_history[i].record matches RecordView::Node(n)
            && n.semantic_drift is Some) {
            lemma_drift_listed(c.drift_history, i);
        }
    } else {
        lemma_refusal(a);
    }
}

proof fn lemma_refusal(a: JsonView)
    requires
        a matches JsonView::Obj(o) && o.len() == 2 && o[0] == ("ok"@, JsonView::Bool(false)) && o[1].0
            == "error"@ && (o[1].1 matches JsonView::Obj(e) && e.len() > 0 && e[0].0 == "code"@
            && e[0].1 is Str),
    ensures
        refuses(a, a->Obj_0[1].1->Obj_0[0].1->Str_0),
{
    lemma_at(a, 0);
    lemma_at(a, 1);
    lemma_at(a->Obj_0[1].1, 0);
}

proof fn lemma_criterion_listed(
    records: Seq<ClassifiedRecordView>,
    s: Seq<ClassifiedRecordView>,
    i: int,
)
    requires
        0 <= i < s.len(),
        s[i].record is Node,
    ensures
        lists(criterion_rows(records, s), s[i].record.id()),
    decreases s.len(),
{
    let rest = s.drop_last();
    let all = criterion_rows(records, s);
    let id = s[i].record.id();
    if i < rest.len() {
        assert(rest[i] == s[i]);
        lemma_criterion_listed(records, rest, i);
        let before = criterion_rows(records, rest);
        let k = choose|k: int|
            0 <= k < before.len() && shows_text(#[trigger] before[k], "record_id"@, Some(id));
        assert(all[k] == before[k]);
    } else {
        let row = criterion_row(records, s[i])->0;
        let item = linked_item_json(s[i].record->Node_0, s[i].trust.name())->Obj_0;
        assert(item[0] == ("record_id"@, JsonView::Str(id)));
        assert(row->Obj_0[0] == item[0]);
        lemma_at(row, 0);
        assert(all[all.len() - 1] == row);
    }
}

/// A task that was found is answered with its criteria, facts, observations, decisions, artifacts,
/// evidence, reviews and links, each in its own section; each reason that none was found has a code
/// of its own.
pub proof fn law_task_answers(
    records: Seq<ClassifiedRecordView>,
    lookup: TaskLookupView,
    id_or_handle: Seq<char>,
    i: int,
)
    ensures
        ({
            let a = task_answer(records, lookup, id_or_handle);
            match lookup {
                TaskLookupView::Ambiguous { handle, candidates } => refuses(a, "ambiguous_handle"@),
                TaskLookupView::Unsupported { handle, message } => refuses(
                    a,
                    "unsupported_handle"@,
                ),
                TaskLookupView::NoMatch => refuses(a, "no_match"@),
                TaskLookupView::Found { evidence: e } => {
                    &&& shows(a, "ok"@, JsonView::Bool(true))
                    &&& shows_text(a, "task_id"@, Some(e.task_id))
                    &&& 0 <= i < e.tasks.len() && e.tasks[i].record is Node ==> section_lists(
                        a,
                        "tasks"@,
                        e.tasks[i].record.id(),
                    )
                    &&& 0 <= i < e.acceptance_criteria.len() && e.acceptance_criteria[i].record is Node
                        ==> section_lists(
                        a,
                        "acceptance_criteria"@,
                        e.acceptance_criteria[i].record.id(),
                    )
                    &&& 0 <= i < e.source_facts.len() && e.source_facts[i].record is Node
                        ==> section_lists(a, "source_facts"@, e.source_facts[i].record.id())
                    &&& 0 <= i < e.observations.len() && e.observations[i].record is Node
                        ==> section_lists(a, "observations"@, e.observations[i].record.id())
                    &&& 0 <= i < e.decisions.len() && e.decisions[i].record is Node
                        ==> section_lists(a, "decisions"@, e.decisions[i].record.id())
                    &&& 0 <= i < e.artifacts.len() && e.artifacts[i].record is Node
                        ==> section_lists(a, "artifacts"@, e.artifacts[i].record.id())
                    &&& 0 <= i < e.verification_evidence.len()
                        && e.verification_evidence[i].record is Node ==> section_lists(
                        a,
                        "verification_evidence"@,
                        e.verification_evidence[i].record.id(),
                    )
                    &&& 0 <= i < e.reviews.len() && e.reviews[i].record is Node ==> section_lists(
                        a,
                        "reviews"@,
                        e.reviews[i].record.id(),
                    )
                    &&& 0 <= i < e.external_links.len() && e.external_links[i].record is Node
                        ==> section_lists(a, "external_links"@, e.external_links[i].record.id())
                },
            }
        }),
{
    let a = task_answer(records, lookup, id_or_handle);
    if let TaskLookupView::Found { evidence: e } = lookup {
        assert(a->Obj_0.len() == 13);
        lemma_at(a, 0);
        lemma_at(a, 1);
        lemma_at(a, 2);
        lemma_at(a, 3);
        lemma_at(a, 4);
        lemma_at(a, 5);
        lemma_at(a, 6);
        lemma_at(a, 7);
        lemma_at(a, 8);
        lemma_at(a, 9);
        lemma_at(a, 10);
        if 0 <= i < e.tasks.len() && e.tasks[i].record is Node {
            lemma_listed(Section::LinkedItems, e.tasks, i);
        }
        if 0 <= i < e.acceptance_criteria.len() && e.acceptance_criteria[i].record is Node {
            lemma_criterion_listed(records, e.acceptance_criteria, i);
        }
        if 0 <= i < e.source_facts.len() && e.source_facts[i].record is Node {
            lemma_listed(Section::SourceFacts, e.source_facts, i);
        }
        if 0 <= i < e.observations.len() && e.observations[i].record is Node {
            lemma_listed(Section::Observations, e.observations, i);
        }
        if 0 <= i < e.decisions.len() && e.decisions[i].record is Node {
            lemma_decision_listed(e.decisions, i);
        }
        if 0 <= i < e.artifacts.len() && e.artifacts[i].record is Node {
            lemma_listed(Section::LinkedItems, e.artifacts, i);
        }
        if 0 <= i < e.verification_evidence.len() && e.verification_evidence[i].record is Node {
            lemma_listed(Section::LinkedItems, e.verification_evidence, i);
        }
        if 0 <= i < e.reviews.len() && e.reviews[i].record is Node {
            lemma_listed(Section::LinkedItems, e.reviews, i);
        }
        if 0 <= i < e.external_links.len() && e.external_links[i].record is Node {
            lemma_listed(Section::LinkedItems, e.external_links, i);
        }
    } else {
        lemma_refusal(a);
    }
}

proof fn lemma_record_with(records: Seq<ClassifiedRecordView>, j: int)
    requires
        0 <= j < records.len(),
        forall|k: int|
            0 <= k < j ==> (#[trigger] records[k]).record.id() != records[j].record.id(),
    ensures
        record_with(records, records[j].record.id()) == Some(records[j]),
    decreases j,
{
    if j > 0 {
        assert(records[0].record.id() != records[j].record.id());
        let rest = records.drop_first();
        assert(rest[j - 1] == records[j]);
        assert forall|k: int| 0 <= k < j - 1 implies (#[trigger] rest[k]).record.id()
            != rest[j - 1].record.id() by {
            assert(rest[k] == records[k + 1]);
        }
        lemma_record_with(rest, j - 1);
    }
}

/// A verified criterion shows the record that verified it, and no other criterion shows one.
pub proof fn law_verified_criteria_show_their_record(
    records: Seq<ClassifiedRecordView>,
    c: ClassifiedRecordView,
    n: NodeRecordView,
    j: int,
)
    requires
        c.record == RecordView::Node(n),
    ensures
        n.project.status != Some("verified"@) ==> criterion_row(records, c) == Some(
            linked_item_json(n, c.trust.name()),
        ),
        n.project.status == Some("verified"@) && 0 <= j < records.len()
            && n.project.verification_link_id == Some(records[j].record.id())
            && records[j].record is Node && (forall|k: int|
            0 <= k < j ==> (#[trigger] records[k]).record.id() != records[j].record.id())
            ==> (criterion_row(records, c) matches Some(row) && exists|inner: JsonView| #[trigger]
            shows(row, "verification_record"@, inner) && shows_text(
                inner,
                "record_id"@,
                Some(records[j].record.id()),
            )),
{
    let row = criterion_row(records, c)->0;
    if n.project.status == Some("verified"@) && 0 <= j < records.len()
        && n.project.verification_link_id == Some(records[j].record.id())
        && records[j].record is Node && (forall|k: int|
        0 <= k < j ==> (#[trigger] records[k]).record.id() != records[j].record.id()) {
        lemma_record_with(records, j);
        let inner = row_json(Section::LinkedItems, records[j])->0;
        assert(verification_row(records, n) == Some(inner));
        let item = linked_item_json(n, c.trust.name())->Obj_0;
        assert(inner->Obj_0[0] == ("record_id"@, JsonView::Str(records[j].record.id())));
        lemma_at(inner, 0);
        assert(row->Obj_0[item.len() as int] == ("verification_record"@, inner));
        lemma_at(row, item.len() as int);
    }
}

/// The freshness of a store is answered with the verdict and with both sides of the comparison.
pub proof fn law_freshness_is_shown(report: FreshnessReportView, repo_path: Seq<char>)
    ensures
        ({
            let a = freshness_stamp(report, repo_path);
            &&& shows_text(
                a,
                "verdict"@,
                Some(
                    match report.freshness {
                        FreshnessVerdict::Fresh => "fresh"@,
                        FreshnessVerdict::StaleHead => "stale_head"@,
                        FreshnessVerdict::StaleDirty => "stale_dirty"@,
                        FreshnessVerdict::Unknown => "unknown"@,
                    },
                ),
            )
            &&& shows(a, "fresh"@, JsonView::Bool(report.fresh))
            &&& shows_text(a, "repository_id"@, Some(report.repository_id))
            &&& shows_text(a, "repo_path"@, Some(repo_path))
            &&& shows(a, "stored_snapshot"@, snapshot_json(report.stored_snapshot))
            &&& shows(a, "current_head"@, head_json(report.current_head))
            &&& shows(a, "current_dirty"@, JsonView::Bool(report.current_dirty))
            &&& shows_text(a, "message"@, Some(report.message))
        }),
{
    let a = freshness_stamp(report, repo_path);
    assert(a->Obj_0.len() == 8);
    lemma_at(a, 0);
    lemma_at(a, 1);
    lemma_at(a, 2);
    lemma_at(a, 3);
    lemma_at(a, 4);
    lemma_at(a, 5);
    lemma_at(a, 6);
    lemma_at(a, 7);
}

/// A daemon that does not answer is stale where its message says so, and else not running.
pub proof fn law_daemon_refusals(msg: Seq<char>)
    ensures
        refuses(
            daemon_refusal(msg),
            if has(lowered(msg), "stale"@) || has(lowered(msg), "metadata"@) {
                "daemon_stale"@
            } else {
                "daemon_not_running"@
            },
        ),
{
    lemma_refusal(daemon_refusal(msg));
}

} // verus!
