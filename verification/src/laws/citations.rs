//! How the citations of a store are judged.
use vstd::prelude::*;

use crate::ir::{EdgeLabel, EvidenceLinkView, NodeKind, NodeRecordView, RecordView};
use crate::laws::frames::is_buried;
use crate::laws::health::law_agreement_rows;
use crate::liveness::{deleted, latest_node, lemma_latest_node_at, removes};
use crate::memory_evidence_health::{
    agreement_rows, all_link_rows, all_violations, array_pairs, drift_applies, drift_of,
    earliest_drift, earliest_drift_among, edge_pairs, evidence_edge_at, latest_drift, link_row,
    link_rows, links_of, links_rows_of, live_source, node_ids, occurrences, source_ids, target_of,
    violation_rows, violations_of, IntegrityViolationKind, IntegrityViolationRowView, LinkBucket,
    LinkHealthRowView,
};
use crate::order::{distinct, law_distinct, law_sorted_by_members};

verus! {

// ── The store ───────────────────────────────────────────────────────────────

/// The node at `i` is the newest version of what it is a version of.
pub open spec fn is_newest(s: Seq<RecordView>, i: int, n: NodeRecordView) -> bool {
    0 <= i < s.len() && s[i] == RecordView::Node(n) && forall|j: int|
        i < j < s.len() ==> !(#[trigger] s[j] matches RecordView::Node(m) && m.id == n.id)
}

/// No node has the identity.
pub open spec fn is_unknown(s: Seq<RecordView>, id: Seq<char>) -> bool {
    forall|j: int|
        0 <= j < s.len() ==> !(#[trigger] s[j] matches RecordView::Node(m) && m.id == id)
}

proof fn lemma_newest(s: Seq<RecordView>, i: int, n: NodeRecordView)
    requires
        is_newest(s, i, n),
    ensures
        latest_node(s, n.id) == Some(n),
{
    lemma_latest_node_at(s, n.id);
    assert(s[i].id() == n.id);
}

proof fn lemma_unknown(s: Seq<RecordView>, id: Seq<char>)
    requires
        is_unknown(s, id),
    ensures
        latest_node(s, id) is None,
{
    lemma_latest_node_at(s, id);
}

proof fn lemma_buried(s: Seq<RecordView>, id: Seq<char>)
    ensures
        is_buried(s, id) == deleted(s, id),
{
    if is_buried(s, id) {
        let i = choose|i: int|
            0 <= i < s.len() && (#[trigger] s[i] matches RecordView::Tombstone(t) && t.deleted_id
                == id);
        assert(removes(s[i], id));
    }
}

/// A claim that can cite evidence.
pub open spec fn is_claim(kind: NodeKind) -> bool {
    kind == NodeKind::Observation || kind == NodeKind::Decision || kind == NodeKind::Failure
}

/// The node at `i` is a claim that stands.
pub open spec fn stands(s: Seq<RecordView>, i: int, n: NodeRecordView) -> bool {
    is_newest(s, i, n) && is_claim(n.kind) && !is_buried(s, n.id)
}

proof fn lemma_node_ids(s: Seq<RecordView>, i: int)
    requires
        0 <= i < s.len(),
        s[i] is Node,
    ensures
        node_ids(s).contains(s[i]->Node_0.id),
    decreases s.len(),
{
    let rest = s.drop_last();
    let id = s[i]->Node_0.id;
    let all = node_ids(s);
    if i < rest.len() {
        assert(rest[i] == s[i]);
        lemma_node_ids(rest, i);
        let k = choose|k: int| 0 <= k < node_ids(rest).len() && node_ids(rest)[k] == id;
        assert(all[k] == id);
    } else {
        assert(all[all.len() - 1] == id);
    }
}

proof fn lemma_source(s: Seq<RecordView>, i: int, n: NodeRecordView)
    requires
        stands(s, i, n),
    ensures
        source_ids(s).contains(n.id),
        latest_node(s, n.id) == Some(n),
{
    lemma_newest(s, i, n);
    lemma_buried(s, n.id);
    lemma_node_ids(s, i);
    law_distinct(node_ids(s));
    assert(distinct(node_ids(s)).contains(n.id));
    let f = |id: Seq<char>| live_source(s, id);
    broadcast use vstd::seq_lib::group_filter_ensures;

    assert(f(n.id));
    let k = choose|k: int|
        0 <= k < distinct(node_ids(s)).len() && distinct(node_ids(s))[k] == n.id;
    assert(distinct(node_ids(s)).filter(f).contains(distinct(node_ids(s))[k]));
}

proof fn lemma_rows_of(s: Seq<RecordView>, sources: Seq<Seq<char>>, id: Seq<char>, k: int)
    requires
        sources.contains(id),
        0 <= k < links_rows_of(s, id).len(),
    ensures
        all_link_rows(s, sources).contains(links_rows_of(s, id)[k]),
    decreases sources.len(),
{
    let rest = sources.drop_last();
    let before = all_link_rows(s, rest);
    let here = links_rows_of(s, sources.last());
    let row = links_rows_of(s, id)[k];
    if sources.last() == id {
        assert((before + here)[before.len() + k] == row);
    } else {
        let m = choose|m: int| 0 <= m < sources.len() && sources[m] == id;
        assert(rest[m] == id);
        lemma_rows_of(s, rest, id, k);
        let x = choose|x: int| 0 <= x < before.len() && before[x] == row;
        assert((before + here)[x] == row);
    }
}

// ── Drift ───────────────────────────────────────────────────────────────────

/// The record at `d` is a measurement that still stands, of drift away from the target.
pub open spec fn drifts(s: Seq<RecordView>, d: int, target: Seq<char>) -> bool {
    &&& 0 <= d < s.len()
    &&& s[d] matches RecordView::Node(n) && {
        &&& n.kind == NodeKind::SemanticDrift
        &&& n.semantic_drift matches Some(m) && m.prior_record_id == target
        &&& !is_buried(s, n.id)
        &&& forall|j: int|
            d < j < s.len() ==> !(#[trigger] s[j] matches RecordView::Node(o) && o.id == n.id)
    }
}

/// No record measures drift away from the target.
pub open spec fn is_steady(s: Seq<RecordView>, target: Seq<char>) -> bool {
    forall|d: int|
        0 <= d < s.len() ==> !(#[trigger] s[d] matches RecordView::Node(n) && n.kind
            == NodeKind::SemanticDrift && (n.semantic_drift matches Some(m) && m.prior_record_id
            == target))
}

proof fn lemma_latest_drift(s: Seq<RecordView>, d: int)
    requires
        0 <= d < s.len(),
        drift_of(s[d]) is Some,
        forall|j: int|
            d < j < s.len() ==> !(#[trigger] s[j] matches RecordView::Node(o) && o.id
                == s[d].id()),
    ensures
        latest_drift(s, s[d].id()) == drift_of(s[d]),
    decreases s.len(),
{
    let rest = s.drop_last();
    if d < rest.len() {
        assert(rest[d] == s[d]);
        assert(drift_of(s.last()) is Some ==> s[s.len() - 1] is Node);
        assert forall|j: int| d < j < rest.len() implies !(#[trigger] rest[j] matches
            RecordView::Node(o) && o.id == rest[d].id()) by {
            assert(rest[j] == s[j]);
        }
        lemma_latest_drift(rest, d);
    }
}

proof fn lemma_some_drift(s: Seq<RecordView>, target: Seq<char>, d: int, n: nat)
    requires
        0 <= d < n <= s.len(),
        drift_of(s[d]) is Some,
        drift_applies(s, s[d].id(), target),
    ensures
        earliest_drift_among(s, target, n) is Some,
    decreases n,
{
    if d < n - 1 {
        lemma_some_drift(s, target, d, (n - 1) as nat);
    }
}

proof fn lemma_drift_origin(s: Seq<RecordView>, id: Seq<char>)
    ensures
        latest_drift(s, id) matches Some(m) ==> exists|d: int|
            0 <= d < s.len() && drift_of(#[trigger] s[d]) == Some(m),
    decreases s.len(),
{
    if s.len() > 0 {
        let rest = s.drop_last();
        if s.last().id() == id && drift_of(s.last()) is Some {
            assert(drift_of(s[s.len() - 1]) == latest_drift(s, id));
        } else {
            lemma_drift_origin(rest, id);
            if let Some(m) = latest_drift(rest, id) {
                let d = choose|d: int|
                    0 <= d < rest.len() && drift_of(#[trigger] rest[d]) == Some(m);
                assert(s[d] == rest[d]);
            }
        }
    }
}

proof fn lemma_no_drift(s: Seq<RecordView>, target: Seq<char>, n: nat)
    requires
        n <= s.len(),
        is_steady(s, target),
    ensures
        earliest_drift_among(s, target, n) is None,
    decreases n,
{
    if n > 0 {
        lemma_no_drift(s, target, (n - 1) as nat);
        let id = s[n - 1].id();
        if drift_applies(s, id, target) {
            lemma_drift_origin(s, id);
            let m = latest_drift(s, id)->0;
            let d = choose|d: int| 0 <= d < s.len() && drift_of(#[trigger] s[d]) == Some(m);
            assert(s[d] is Node);
        }
    }
}

proof fn lemma_drifts(s: Seq<RecordView>, d: int, target: Seq<char>)
    requires
        drifts(s, d, target),
    ensures
        earliest_drift(s, target) is Some,
{
    let id = s[d].id();
    lemma_buried(s, id);
    lemma_latest_drift(s, d);
    lemma_some_drift(s, target, d, s.len());
}

// ── Citations ───────────────────────────────────────────────────────────────

/// The row of a citation, with what it was judged to be.
pub open spec fn judged(
    s: Seq<RecordView>,
    row: LinkHealthRowView,
    n: NodeRecordView,
    link: EvidenceLinkView,
    bucket: LinkBucket,
) -> bool {
    &&& link_rows(s).contains(row)
    &&& row.source_record_id == n.id
    &&& row.relation == link.relation
    &&& row.target_domain == link.target_domain
    &&& link.target_record_id matches Some(id) ==> row.target_record_id == id
    &&& row.bucket == bucket
}

proof fn lemma_row(s: Seq<RecordView>, i: int, n: NodeRecordView, k: int)
    requires
        stands(s, i, n),
        n.evidence_links matches Some(links) && 0 <= k < links.len(),
    ensures
        link_rows(s).contains(link_row(s, n.id, n.kind.name(), n.evidence_links->0[k])),
{
    lemma_source(s, i, n);
    let rows = all_link_rows(s, source_ids(s));
    assert(links_rows_of(s, n.id)[k] == link_row(s, n.id, n.kind.name(), n.evidence_links->0[k]));
    lemma_rows_of(s, source_ids(s), n.id, k);
    law_sorted_by_members(
        rows,
        rows.map_values(|r: LinkHealthRowView| crate::memory_evidence_health::link_key(r)),
    );
}

/// Every citation of a claim that stands is judged: it resolves where its target is there and
/// stands; it has drifted where a measurement says so of such a target; and it dangles where its
/// target was never there, was removed, or is not named.
pub proof fn law_citations_are_judged(s: Seq<RecordView>, i: int, n: NodeRecordView, k: int)
    requires
        stands(s, i, n),
        n.evidence_links matches Some(links) && 0 <= k < links.len(),
    ensures
        ({
            let link = n.evidence_links->0[k];
            &&& link.target_record_id is None ==> exists|row: LinkHealthRowView| #[trigger]
                judged(s, row, n, link, LinkBucket::Dangling)
            &&& link.target_record_id matches Some(id) ==> {
                &&& is_unknown(s, id) || is_buried(s, id) || id.len() == 0 ==> exists|
                    row: LinkHealthRowView,
                | #[trigger]
                    judged(s, row, n, link, LinkBucket::Dangling)
                &&& forall|j: int, m: NodeRecordView, d: int|
                    id.len() > 0 && #[trigger] is_newest(s, j, m) && m.id == id && !is_buried(s, id)
                        && #[trigger] drifts(s, d, id) ==> exists|row: LinkHealthRowView| #[trigger]
                        judged(s, row, n, link, LinkBucket::Drifted)
                &&& forall|j: int, m: NodeRecordView|
                    id.len() > 0 && #[trigger] is_newest(s, j, m) && m.id == id && !is_buried(s, id)
                        && is_steady(s, id) ==> exists|row: LinkHealthRowView| #[trigger]
                        judged(s, row, n, link, LinkBucket::ResolvesLive)
            }
        }),
{
    let link = n.evidence_links->0[k];
    let row = link_row(s, n.id, n.kind.name(), link);
    lemma_row(s, i, n, k);
    if let Some(id) = link.target_record_id {
        lemma_buried(s, id);
        if is_unknown(s, id) {
            lemma_unknown(s, id);
        }
        if is_unknown(s, id) || is_buried(s, id) || id.len() == 0 {
            assert(judged(s, row, n, link, LinkBucket::Dangling));
        }
        assert forall|j: int, m: NodeRecordView, d: int|
            id.len() > 0 && #[trigger] is_newest(s, j, m) && m.id == id && !is_buried(s, id)
                && #[trigger] drifts(s, d, id) implies exists|row: LinkHealthRowView| #[trigger]
            judged(s, row, n, link, LinkBucket::Drifted) by {
            lemma_newest(s, j, m);
            lemma_drifts(s, d, id);
            assert(judged(s, row, n, link, LinkBucket::Drifted));
        }
        assert forall|j: int, m: NodeRecordView|
            id.len() > 0 && #[trigger] is_newest(s, j, m) && m.id == id && !is_buried(s, id)
                && is_steady(s, id) implies exists|row: LinkHealthRowView| #[trigger]
            judged(s, row, n, link, LinkBucket::ResolvesLive) by {
            lemma_newest(s, j, m);
            lemma_no_drift(s, id, s.len());
            assert(judged(s, row, n, link, LinkBucket::ResolvesLive));
        }
    } else {
        assert(judged(s, row, n, link, LinkBucket::Dangling));
    }
}

// ── Citations and edges ─────────────────────────────────────────────────────

/// An edge that grounds a claim in evidence.
pub open spec fn is_evidence(label: EdgeLabel) -> bool {
    label == EdgeLabel::Observes || label == EdgeLabel::MentionsSymbol || label
        == EdgeLabel::ValidatedBy || label == EdgeLabel::ExplainsChange || label
        == EdgeLabel::ReferencesTask
}

/// The edge at `i` grounds the claim in the target, and stands.
pub open spec fn backs(
    s: Seq<RecordView>,
    i: int,
    source: Seq<char>,
    target: Seq<char>,
    relation: Seq<char>,
) -> bool {
    &&& 0 <= i < s.len()
    &&& s[i] matches RecordView::Edge(e) && {
        &&& is_evidence(e.label)
        &&& e.label.name() == relation
        &&& e.source == source
        &&& e.target == target
        &&& !is_buried(s, e.id)
        &&& forall|j: int|
            i < j < s.len() ==> !(#[trigger] s[j] matches RecordView::Edge(o) && o.id == e.id)
    }
}

/// A citation of the claim names the target under the relation.
pub open spec fn lists(n: NodeRecordView, target: Seq<char>, relation: Seq<char>) -> bool {
    n.evidence_links matches Some(links) && exists|k: int|
        0 <= k < links.len() && (#[trigger] links[k]).target_record_id == Some(target)
            && links[k].relation == relation
}

proof fn lemma_evidence_edge(s: Seq<RecordView>, source: Seq<char>, i: int)
    requires
        0 <= i < s.len(),
    ensures
        evidence_edge_at(s, source, i) <==> (s[i] is Edge && backs(
            s,
            i,
            source,
            s[i]->Edge_0.target,
            s[i]->Edge_0.label.name(),
        )),
{
    if let RecordView::Edge(e) = s[i] {
        lemma_buried(s, e.id);
        if forall|j: int|
            i < j < s.len() ==> !(#[trigger] s[j] matches RecordView::Edge(o) && o.id == e.id) {
            assert forall|j: int| i < j < s.len() implies !#[trigger] crate::liveness::is_edge_with_id(
                s[j],
                e.id,
            ) by {
                assert(!(s[j] matches RecordView::Edge(o) && o.id == e.id));
            }
        }
        if crate::liveness::is_latest_edge_version(s, e.id, i) {
            assert forall|j: int| i < j < s.len() implies !(#[trigger] s[j] matches RecordView::Edge(
                o,
            ) && o.id == e.id) by {
                assert(!crate::liveness::is_edge_with_id(s[j], e.id));
            }
        }
    }
}

proof fn lemma_edge_pairs(s: Seq<RecordView>, source: Seq<char>, n: nat, p: (Seq<char>, Seq<char>))
    requires
        n <= s.len(),
    ensures
        edge_pairs(s, source, n).contains(p) <==> exists|i: int|
            i < n && #[trigger] backs(s, i, source, p.0, p.1),
    decreases n,
{
    if n > 0 {
        lemma_edge_pairs(s, source, (n - 1) as nat, p);
        lemma_evidence_edge(s, source, n - 1);
        let before = edge_pairs(s, source, (n - 1) as nat);
        let all = edge_pairs(s, source, n);
        if all.contains(p) {
            let k = choose|k: int| 0 <= k < all.len() && all[k] == p;
            if k < before.len() {
                assert(before[k] == p);
            } else {
                assert(backs(s, n - 1, source, p.0, p.1));
            }
        }
        if exists|i: int| i < n && #[trigger] backs(s, i, source, p.0, p.1) {
            let i = choose|i: int| i < n && #[trigger] backs(s, i, source, p.0, p.1);
            if i < n - 1 {
                assert(before.contains(p));
                let k = choose|k: int| 0 <= k < before.len() && before[k] == p;
                assert(all[k] == p);
            } else {
                assert(all[all.len() - 1] == p);
            }
        }
    }
}

proof fn lemma_occurrences(pairs: Seq<(Seq<char>, Seq<char>)>, p: (Seq<char>, Seq<char>))
    ensures
        occurrences(pairs, p) >= 0,
        occurrences(pairs, p) > 0 <==> pairs.contains(p),
    decreases pairs.len(),
{
    if pairs.len() > 0 {
        let rest = pairs.drop_last();
        lemma_occurrences(rest, p);
        if rest.contains(p) {
            let k = choose|k: int| 0 <= k < rest.len() && rest[k] == p;
            assert(pairs[k] == p);
        }
        if pairs.contains(p) {
            let k = choose|k: int| 0 <= k < pairs.len() && pairs[k] == p;
            if k < rest.len() {
                assert(rest[k] == p);
            }
        }
        assert(pairs.last() == pairs[pairs.len() - 1]);
    }
}

proof fn lemma_array_pairs(n: NodeRecordView, target: Seq<char>, relation: Seq<char>)
    requires
        target.len() > 0,
    ensures
        array_pairs(n).contains((target, relation)) <==> lists(n, target, relation),
{
    let all = array_pairs(n);
    let p = (target, relation);
    if all.contains(p) {
        let k = choose|k: int| 0 <= k < all.len() && all[k] == p;
        let link = links_of(n)[k];
        assert(target_of(link) == target);
        assert(n.evidence_links->0[k].target_record_id == Some(target));
    }
    if lists(n, target, relation) {
        let links = n.evidence_links->0;
        let k = choose|k: int|
            0 <= k < links.len() && (#[trigger] links[k]).target_record_id == Some(target)
                && links[k].relation == relation;
        assert(all[k] == p);
    }
}

proof fn lemma_violations(s: Seq<RecordView>, sources: Seq<Seq<char>>, id: Seq<char>, k: int)
    requires
        sources.contains(id),
        0 <= k < violations_of(s, id).len(),
    ensures
        all_violations(s, sources).contains(violations_of(s, id)[k]),
    decreases sources.len(),
{
    let rest = sources.drop_last();
    let before = all_violations(s, rest);
    let here = violations_of(s, sources.last());
    let row = violations_of(s, id)[k];
    if sources.last() == id {
        assert((before + here)[before.len() + k] == row);
    } else {
        let m = choose|m: int| 0 <= m < sources.len() && sources[m] == id;
        assert(rest[m] == id);
        lemma_violations(s, rest, id, k);
        let x = choose|x: int| 0 <= x < before.len() && before[x] == row;
        assert((before + here)[x] == row);
    }
}

/// A row that reports the disagreement over one citation of a claim.
pub open spec fn disagrees(
    s: Seq<RecordView>,
    row: IntegrityViolationRowView,
    n: NodeRecordView,
    target: Seq<char>,
    relation: Seq<char>,
    violation: IntegrityViolationKind,
) -> bool {
    &&& violation_rows(s).contains(row)
    &&& row.source_record_id == n.id
    &&& row.target_record_id == target
    &&& row.relation == relation
    &&& row.violation == violation
}

/// A citation that no standing edge backs is reported, and so is an evidence edge that no citation
/// lists.
pub proof fn law_citations_and_edges_agree(
    s: Seq<RecordView>,
    i: int,
    n: NodeRecordView,
    target: Seq<char>,
    relation: Seq<char>,
)
    requires
        stands(s, i, n),
        target.len() > 0,
    ensures
        lists(n, target, relation) && (forall|j: int|
            !#[trigger] backs(s, j, n.id, target, relation)) ==> exists|
            row: IntegrityViolationRowView,
        | #[trigger]
            disagrees(s, row, n, target, relation, IntegrityViolationKind::ArrayWithoutEdge),
        !lists(n, target, relation) && (exists|j: int|
            #[trigger] backs(s, j, n.id, target, relation)) ==> exists|
            row: IntegrityViolationRowView,
        | #[trigger]
            disagrees(s, row, n, target, relation, IntegrityViolationKind::EdgeWithoutArray),
{
    let p = (target, relation);
    let array = array_pairs(n);
    let edges = edge_pairs(s, n.id, s.len());
    lemma_source(s, i, n);
    lemma_array_pairs(n, target, relation);
    lemma_edge_pairs(s, n.id, s.len(), p);
    lemma_occurrences(array, p);
    lemma_occurrences(edges, p);
    let listed = lists(n, target, relation);
    let backed = exists|j: int| #[trigger] backs(s, j, n.id, target, relation);
    if backed {
        let j = choose|j: int| #[trigger] backs(s, j, n.id, target, relation);
        assert(j < s.len() && backs(s, j, n.id, p.0, p.1));
        assert(edges.contains(p));
    } else {
        assert(!edges.contains(p));
    }
    if listed != backed {
        law_agreement_rows(n.id, n.kind.name(), array, edges);
        let rows = agreement_rows(n.id, n.kind.name(), array, edges);
        let row = crate::laws::health::disagreement(
            n.id,
            n.kind.name(),
            p,
            occurrences(array, p),
            occurrences(edges, p),
        );
        assert(crate::laws::health::reports(n.id, n.kind.name(), array, edges, row));
        assert(rows.contains(row));
        let k = choose|k: int| 0 <= k < rows.len() && rows[k] == row;
        assert(violations_of(s, n.id) == rows);
        lemma_violations(s, source_ids(s), n.id, k);
        let all = all_violations(s, source_ids(s));
        law_sorted_by_members(
            all,
            all.map_values(
                |r: IntegrityViolationRowView| crate::memory_evidence_health::violation_key(r),
            ),
        );
        assert(violation_rows(s).contains(row));
        if listed {
            assert(disagrees(
                s,
                row,
                n,
                target,
                relation,
                IntegrityViolationKind::ArrayWithoutEdge,
            ));
        } else {
            assert(disagrees(
                s,
                row,
                n,
                target,
                relation,
                IntegrityViolationKind::EdgeWithoutArray,
            ));
        }
    }
}

proof fn lemma_link_sources(s: Seq<RecordView>, sources: Seq<Seq<char>>, k: int)
    requires
        0 <= k < all_link_rows(s, sources).len(),
    ensures
        sources.contains(all_link_rows(s, sources)[k].source_record_id),
    decreases sources.len(),
{
    let rest = sources.drop_last();
    let before = all_link_rows(s, rest);
    if k < before.len() {
        lemma_link_sources(s, rest, k);
        let id = before[k].source_record_id;
        let m = choose|m: int| 0 <= m < rest.len() && rest[m] == id;
        assert(sources[m] == id);
    } else {
        assert(sources[sources.len() - 1] == sources.last());
    }
}

/// Only claims that stand have their citations judged.
pub proof fn law_only_standing_claims_are_judged(s: Seq<RecordView>, row: LinkHealthRowView)
    requires
        link_rows(s).contains(row),
    ensures
        exists|i: int, n: NodeRecordView| #[trigger] stands(s, i, n) && n.id == row.source_record_id,
{
    let rows = all_link_rows(s, source_ids(s));
    law_sorted_by_members(
        rows,
        rows.map_values(|r: LinkHealthRowView| crate::memory_evidence_health::link_key(r)),
    );
    assert(rows.contains(row));
    let k = choose|k: int| 0 <= k < rows.len() && rows[k] == row;
    lemma_link_sources(s, source_ids(s), k);
    let id = row.source_record_id;
    let f = |id: Seq<char>| live_source(s, id);
    broadcast use vstd::seq_lib::group_filter_ensures;

    let m = choose|m: int| 0 <= m < source_ids(s).len() && source_ids(s)[m] == id;
    assert(f(distinct(node_ids(s)).filter(f)[m]));
    lemma_latest_node_at(s, id);
    lemma_buried(s, id);
    let i = crate::liveness::latest_node_at(s, id)->0;
    let n = s[i]->Node_0;
    assert forall|j: int| i < j < s.len() implies !(#[trigger] s[j] matches RecordView::Node(o)
        && o.id == n.id) by {
        if s[j] is Node {
            assert(s[j].id() != id);
        }
    }
    assert(stands(s, i, n));
}

} // verus!
