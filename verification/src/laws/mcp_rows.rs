//! The rows that the tools answer with show what the records say.
use vstd::prelude::*;

use crate::ir::{EdgeRecordView, EvidenceLinkView, NodeRecordView, RecordView};
use crate::json::JsonView;
use crate::mcp::{
    decision_json, decision_rows, drift_json, handle_json, link_json, row_json, rows,
    unresolved_json, ClassifiedRecordView, DecisionRowView, DriftRowView, EvidenceHandleView,
    Section, UnresolvedRefView,
};

verus! {

/// The row has the member.
pub open spec fn shows(row: JsonView, key: Seq<char>, value: JsonView) -> bool {
    row matches JsonView::Obj(o) && o.contains((key, value))
}

/// The row has the member, and the member is the text, or null where there is none.
pub open spec fn shows_text(row: JsonView, key: Seq<char>, text: Option<Seq<char>>) -> bool {
    match text {
        Some(x) => shows(row, key, JsonView::Str(x)),
        None => shows(row, key, JsonView::Null),
    }
}

proof fn lemma_at(row: JsonView, k: int)
    requires
        row matches JsonView::Obj(o) && 0 <= k < o.len(),
    ensures
        shows(row, row->Obj_0[k].0, row->Obj_0[k].1),
{
    assert(row->Obj_0[k] == (row->Obj_0[k].0, row->Obj_0[k].1));
}

/// A source fact shows what its record says of itself and where it stands.
pub proof fn law_source_facts_show_their_record(c: ClassifiedRecordView, n: NodeRecordView)
    requires
        c.record == RecordView::Node(n),
    ensures
        row_json(Section::SourceFacts, c) matches Some(row) && {
            &&& shows_text(row, "record_id"@, Some(n.id))
            &&& shows_text(row, "kind"@, Some(n.kind.name()))
            &&& shows_text(row, "trust"@, Some(c.trust.name()))
            &&& shows_text(row, "name"@, n.name)
            &&& shows_text(row, "repo_relative_path"@, n.repo_relative_path)
            &&& shows_text(row, "language"@, n.code.language)
            &&& shows_text(row, "symbol_kind"@, n.code.symbol_kind)
            &&& n.temporal matches Some(t) ==> shows_text(row, "git_commit"@, Some(t.git_commit))
            &&& n.valid_time is Some ==> shows_text(row, "valid_time"@, n.valid_time)
            &&& n.span is None ==> shows(row, "span"@, JsonView::Null)
        },
{
    let row = row_json(Section::SourceFacts, c)->0;
    let o = row->Obj_0;
    assert(o.len() == 10);
    lemma_at(row, 0);
    lemma_at(row, 1);
    lemma_at(row, 2);
    lemma_at(row, 3);
    lemma_at(row, 4);
    lemma_at(row, 5);
    lemma_at(row, 6);
    lemma_at(row, 7);
    lemma_at(row, 8);
    lemma_at(row, 9);
}

/// An observation shows what was observed, by whom and when.
pub proof fn law_observations_show_their_record(c: ClassifiedRecordView, n: NodeRecordView)
    requires
        c.record == RecordView::Node(n),
    ensures
        row_json(Section::Observations, c) matches Some(row) && {
            &&& shows_text(row, "record_id"@, Some(n.id))
            &&& shows_text(row, "kind"@, Some(n.kind.name()))
            &&& shows_text(row, "trust"@, Some(c.trust.name()))
            &&& shows_text(row, "summary"@, Some(n.summary))
            &&& shows_text(row, "text"@, n.text)
            &&& shows_text(row, "agent_id"@, n.memory.agent_id)
            &&& shows_text(row, "session_id"@, n.memory.session_id)
            &&& shows_text(row, "observed_at"@, n.memory.observed_at)
            &&& shows_text(row, "confidence"@, n.memory.confidence)
            &&& shows_text(row, "failure_kind"@, n.memory.failure_kind)
            &&& n.memory.agent_id matches Some(a) ==> shows_text(
                row,
                "provenance_handle"@,
                Some(
                    match n.memory.session_id {
                        Some(s) => a + ":"@ + s,
                        None => a,
                    },
                ),
            )
        },
{
    let row = row_json(Section::Observations, c)->0;
    let o = row->Obj_0;
    assert(o.len() == 13);
    lemma_at(row, 0);
    lemma_at(row, 1);
    lemma_at(row, 2);
    lemma_at(row, 3);
    lemma_at(row, 4);
    lemma_at(row, 5);
    lemma_at(row, 6);
    lemma_at(row, 7);
    lemma_at(row, 8);
    lemma_at(row, 9);
    lemma_at(row, 10);
}

/// An edge shows what it joins.
pub proof fn law_edges_show_their_record(c: ClassifiedRecordView, e: EdgeRecordView)
    requires
        c.record == RecordView::Edge(e),
    ensures
        row_json(Section::TopologyEdges, c) matches Some(row) && {
            &&& shows_text(row, "record_id"@, Some(e.id))
            &&& shows_text(row, "trust"@, Some(c.trust.name()))
            &&& shows_text(row, "label"@, Some(e.label.name()))
            &&& shows_text(row, "source_id"@, Some(e.source))
            &&& shows_text(row, "target_id"@, Some(e.target))
            &&& shows_text(row, "summary"@, Some(e.summary))
        },
{
    let row = row_json(Section::TopologyEdges, c)->0;
    assert(row->Obj_0.len() == 8);
    lemma_at(row, 0);
    lemma_at(row, 1);
    lemma_at(row, 2);
    lemma_at(row, 3);
    lemma_at(row, 4);
    lemma_at(row, 5);
}

/// A linked item shows the state of its work, its evidence and its artifacts.
pub proof fn law_linked_items_show_their_record(c: ClassifiedRecordView, n: NodeRecordView)
    requires
        c.record == RecordView::Node(n),
    ensures
        row_json(Section::LinkedItems, c) matches Some(row) && {
            &&& shows_text(row, "record_id"@, Some(n.id))
            &&& shows_text(row, "kind"@, Some(n.kind.name()))
            &&& shows_text(row, "trust"@, Some(c.trust.name()))
            &&& shows_text(row, "summary"@, Some(n.summary))
            &&& shows_text(row, "title"@, n.project.title)
            &&& shows_text(row, "name"@, n.name)
            &&& shows_text(row, "text"@, n.text)
            &&& shows_text(row, "status"@, n.project.status)
            &&& shows_text(row, "verification_kind"@, n.verification.verification_kind)
            &&& shows_text(row, "executed_at"@, n.verification.executed_at)
            &&& shows_text(row, "evidence_quality"@, n.verification.evidence_quality)
            &&& shows_text(row, "source_artifact_path"@, n.verification.source_artifact_path)
            &&& shows_text(row, "source_artifact_hash"@, n.verification.source_artifact_hash)
            &&& shows_text(row, "repo_relative_path"@, n.repo_relative_path)
            &&& shows_text(row, "edit_kind"@, n.artifact.edit_kind)
            &&& shows_text(row, "patch_status"@, n.artifact.patch_status)
            &&& shows_text(row, "base_commit"@, n.artifact.base_commit)
            &&& shows_text(row, "author"@, n.project.author)
            &&& shows_text(row, "url"@, n.project.url)
            &&& shows_text(row, "system_native_id"@, n.project.system_native_id)
            &&& n.verification.exit_code matches Some(code) ==> shows(
                row,
                "exit_code"@,
                JsonView::Int(code),
            )
        },
{
    let row = row_json(Section::LinkedItems, c)->0;
    assert(row->Obj_0.len() == 31);
    lemma_at(row, 0);
    lemma_at(row, 1);
    lemma_at(row, 2);
    lemma_at(row, 3);
    lemma_at(row, 4);
    lemma_at(row, 5);
    lemma_at(row, 6);
    lemma_at(row, 7);
    lemma_at(row, 8);
    lemma_at(row, 9);
    lemma_at(row, 10);
    lemma_at(row, 11);
    lemma_at(row, 12);
    lemma_at(row, 13);
    lemma_at(row, 16);
    lemma_at(row, 17);
    lemma_at(row, 18);
    lemma_at(row, 24);
    lemma_at(row, 27);
    lemma_at(row, 28);
    lemma_at(row, 29);
}

/// A decision shows what was decided, why, and by whom.
pub proof fn law_decisions_show_their_record(d: DecisionRowView, n: NodeRecordView)
    requires
        d.record == RecordView::Node(n),
    ensures
        decision_json(d) matches Some(row) && {
            &&& shows_text(row, "record_id"@, Some(n.id))
            &&& shows_text(row, "kind"@, Some(n.kind.name()))
            &&& shows_text(row, "trust"@, Some(d.trust.name()))
            &&& shows_text(row, "summary"@, Some(n.summary))
            &&& shows_text(row, "decision_text"@, d.decision_text)
            &&& shows_text(row, "rationale_summary"@, d.rationale_summary)
            &&& shows_text(row, "agent_id"@, n.memory.agent_id)
            &&& shows_text(row, "session_id"@, n.memory.session_id)
            &&& shows_text(row, "observed_at"@, n.memory.observed_at)
            &&& shows_text(row, "confidence"@, n.memory.confidence)
        },
{
    let row = decision_json(d)->0;
    assert(row->Obj_0.len() == 12);
    lemma_at(row, 0);
    lemma_at(row, 1);
    lemma_at(row, 2);
    lemma_at(row, 3);
    lemma_at(row, 4);
    lemma_at(row, 5);
    lemma_at(row, 7);
    lemma_at(row, 8);
    lemma_at(row, 9);
    lemma_at(row, 10);
}

/// A drift row shows what was measured between which commits.
pub proof fn law_drift_rows_show_their_record(d: DriftRowView, n: NodeRecordView)
    requires
        d.record == RecordView::Node(n),
        n.semantic_drift is Some,
    ensures
        drift_json(d) matches Some(row) && {
            let m = n.semantic_drift->0;
            &&& shows_text(row, "record_id"@, Some(n.id))
            &&& shows_text(row, "trust"@, Some(d.trust.name()))
            &&& shows(row, "score"@, JsonView::Float(m.score_bits))
            &&& shows_text(row, "before_commit"@, Some(m.before_git_commit))
            &&& shows_text(row, "after_commit"@, Some(m.after_git_commit))
            &&& shows_text(row, "before_valid_time"@, Some(m.before_valid_time))
            &&& shows_text(row, "after_valid_time"@, Some(m.after_valid_time))
            &&& d.resolved_path is Some ==> shows_text(row, "repo_relative_path"@, d.resolved_path)
        },
{
    let row = drift_json(d)->0;
    assert(row->Obj_0.len() >= 8);
    lemma_at(row, 0);
    lemma_at(row, 1);
    lemma_at(row, 2);
    lemma_at(row, 3);
    lemma_at(row, 4);
    lemma_at(row, 5);
    lemma_at(row, 6);
    if d.resolved_path is Some {
        lemma_at(row, 8);
    }
}

/// A citation that leads nowhere shows where it should have led.
pub proof fn law_open_citations_show_their_ends(
    u: UnresolvedRefView,
    h: EvidenceHandleView,
    l: EvidenceLinkView,
)
    ensures
        shows_text(unresolved_json(u), "source_record_id"@, Some(u.source_record_id)),
        shows_text(unresolved_json(u), "target_handle"@, Some(u.target_handle)),
        shows_text(unresolved_json(u), "relation"@, Some(u.relation)),
        shows_text(unresolved_json(u), "target_domain"@, Some(u.target_domain)),
        shows_text(unresolved_json(u), "verification_status"@, Some("unresolved"@)),
        shows_text(handle_json(h), "relation"@, Some(h.relation)),
        shows_text(handle_json(h), "target_record_id"@, Some(h.target_record_id)),
        shows_text(handle_json(h), "target_kind"@, Some(h.target_kind)),
        shows_text(link_json(l), "target_record_id"@, l.target_record_id),
        shows_text(link_json(l), "target_domain"@, Some(l.target_domain)),
        shows_text(link_json(l), "relation"@, Some(l.relation)),
        shows_text(link_json(l), "confidence"@, Some(l.confidence)),
{
    lemma_at(unresolved_json(u), 0);
    lemma_at(unresolved_json(u), 1);
    lemma_at(unresolved_json(u), 2);
    lemma_at(unresolved_json(u), 3);
    lemma_at(unresolved_json(u), 4);
    lemma_at(handle_json(h), 0);
    lemma_at(handle_json(h), 1);
    lemma_at(handle_json(h), 2);
    lemma_at(link_json(l), 0);
    lemma_at(link_json(l), 1);
    lemma_at(link_json(l), 2);
    lemma_at(link_json(l), 3);
}

/// Every record that belongs in a section has its row there.
pub proof fn law_every_record_has_its_row(
    section: Section,
    s: Seq<ClassifiedRecordView>,
    d: Seq<DecisionRowView>,
    i: int,
)
    ensures
        0 <= i < s.len() && (s[i].record is Edge <==> section == Section::TopologyEdges)
            && !(s[i].record is Tombstone) ==> row_json(section, s[i]) is Some && rows(
            section,
            s,
        ).contains(row_json(section, s[i])->0),
        0 <= i < d.len() && d[i].record is Node ==> decision_json(d[i]) is Some && decision_rows(
            d,
        ).contains(decision_json(d[i])->0),
    decreases s.len() + d.len(),
{
    if 0 <= i < s.len() && row_json(section, s[i]) is Some {
        let rest = s.drop_last();
        let all = rows(section, s);
        let row = row_json(section, s[i])->0;
        if i < rest.len() {
            law_every_record_has_its_row(section, rest, Seq::empty(), i);
            assert(rest[i] == s[i]);
            let before = rows(section, rest);
            if before.contains(row) {
                let k = choose|k: int| 0 <= k < before.len() && before[k] == row;
                assert(all[k] == row);
            }
        } else {
            assert(all[all.len() - 1] == row);
        }
    }
    if 0 <= i < d.len() && d[i].record is Node {
        let rest = d.drop_last();
        let all = decision_rows(d);
        let row = decision_json(d[i])->0;
        if i < rest.len() {
            law_every_record_has_its_row(section, Seq::empty(), rest, i);
            assert(rest[i] == d[i]);
            let before = decision_rows(rest);
            let k = choose|k: int| 0 <= k < before.len() && before[k] == row;
            assert(all[k] == row);
        } else {
            assert(all[all.len() - 1] == row);
        }
    }
}

} // verus!
