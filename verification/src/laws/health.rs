//! The health report depends on what the store holds, not on the order it came in.
use vstd::prelude::*;

use crate::ir::{EdgeRecordView, EvidenceLinkView, RecordView};
use crate::liveness::{
    deleted, is_edge_with_id, is_latest_edge_version, latest_node, lemma_latest_node_at, removes,
};
use crate::memory_evidence_health::{
    agreement_rows, all_link_rows, all_violations, array_pairs, citing_count, disagreements,
    drift_applies, drift_before, drift_of, drift_time, earliest_drift, earliest_drift_among,
    edge_pairs, evidence_edge_at, latest_drift, link_row, link_rows, links_rows_of, live_source,
    node_ids, occurrences, pair_key, report, source_ids, violation_key, violation_rows,
    violations_of, IntegrityViolationKind, IntegrityViolationRowView,
};
use crate::order::{
    distinct, distinct_keys, law_distinct, law_distinct_forgets_order, law_sorted_by_members,
    law_sorting_forgets_order, lemma_sorted_is_strict, same_members, strict_by, strictly_ascending,
    KeyPartView,
};
use crate::text::{lemma_text_le_antisym, lemma_text_le_total};

verus! {

/// The records with one identity, in the order in which they were appended.
pub open spec fn versions(s: Seq<RecordView>, id: Seq<char>) -> Seq<RecordView>
    decreases s.len(),
{
    if s.len() == 0 {
        Seq::empty()
    } else if s.last().id() == id {
        versions(s.drop_last(), id).push(s.last())
    } else {
        versions(s.drop_last(), id)
    }
}

/// The same records, and those with one identity in the same order.
pub open spec fn reordered(s: Seq<RecordView>, t: Seq<RecordView>) -> bool {
    forall|id: Seq<char>| #[trigger] versions(s, id) == versions(t, id)
}

proof fn lemma_versions_contain(s: Seq<RecordView>, r: RecordView)
    ensures
        s.contains(r) <==> versions(s, r.id()).contains(r),
    decreases s.len(),
{
    if s.len() > 0 {
        let u = s.drop_last();
        lemma_versions_contain(u, r);
        let v = versions(u, r.id());
        let w = versions(s, r.id());
        if s.contains(r) {
            let i = choose|i: int| 0 <= i < s.len() && s[i] == r;
            if i < u.len() {
                assert(u[i] == r);
                assert(v.contains(r));
                let j = choose|j: int| 0 <= j < v.len() && v[j] == r;
                assert(w[j] == r);
            } else {
                assert(w[w.len() - 1] == r);
            }
        }
        if w.contains(r) {
            let j = choose|j: int| 0 <= j < w.len() && w[j] == r;
            if j < v.len() {
                assert(v[j] == r);
                assert(u.contains(r));
                let i = choose|i: int| 0 <= i < u.len() && u[i] == r;
                assert(s[i] == r);
            } else {
                assert(s[s.len() - 1] == r);
            }
        }
    }
}

proof fn lemma_same_records(s: Seq<RecordView>, t: Seq<RecordView>)
    requires
        reordered(s, t),
    ensures
        same_members(s, t),
{
    assert forall|r: RecordView| #[trigger] s.contains(r) <==> t.contains(r) by {
        lemma_versions_contain(s, r);
        lemma_versions_contain(t, r);
        assert(versions(s, r.id()) == versions(t, r.id()));
    }
}

proof fn lemma_latest_node_step(s: Seq<RecordView>, id: Seq<char>)
    requires
        s.len() > 0,
    ensures
        latest_node(s, id) == if s.last() is Node && s.last().id() == id {
            Some(s.last()->Node_0)
        } else {
            latest_node(s.drop_last(), id)
        },
{
    lemma_latest_node_at(s.drop_last(), id);
}

proof fn lemma_latest_node(s: Seq<RecordView>, id: Seq<char>)
    ensures
        latest_node(s, id) == latest_node(versions(s, id), id),
    decreases s.len(),
{
    if s.len() > 0 {
        lemma_latest_node(s.drop_last(), id);
        lemma_latest_node_step(s, id);
        if s.last().id() == id {
            let v = versions(s, id);
            assert(v.drop_last() =~= versions(s.drop_last(), id));
            lemma_latest_node_step(v, id);
        }
    }
}

proof fn lemma_latest_drift(s: Seq<RecordView>, id: Seq<char>)
    ensures
        latest_drift(s, id) == latest_drift(versions(s, id), id),
    decreases s.len(),
{
    if s.len() > 0 {
        lemma_latest_drift(s.drop_last(), id);
        if s.last().id() == id {
            assert(versions(s, id).drop_last() =~= versions(s.drop_last(), id));
        }
    }
}

proof fn lemma_deleted_one_way(s: Seq<RecordView>, t: Seq<RecordView>, id: Seq<char>)
    requires
        same_members(s, t),
        deleted(s, id),
    ensures
        deleted(t, id),
{
    let i = choose|i: int| 0 <= i < s.len() && #[trigger] removes(s[i], id);
    assert(s.contains(s[i]));
    assert(t.contains(s[i]));
    let j = choose|j: int| 0 <= j < t.len() && t[j] == s[i];
    assert(removes(t[j], id));
}

/// What a reader asks of one identity.
proof fn lemma_lookups(s: Seq<RecordView>, t: Seq<RecordView>, id: Seq<char>)
    requires
        reordered(s, t),
    ensures
        latest_node(s, id) == latest_node(t, id),
        latest_drift(s, id) == latest_drift(t, id),
        deleted(s, id) == deleted(t, id),
{
    lemma_latest_node(s, id);
    lemma_latest_node(t, id);
    lemma_latest_drift(s, id);
    lemma_latest_drift(t, id);
    assert(versions(s, id) == versions(t, id));
    lemma_same_records(s, t);
    if deleted(s, id) {
        lemma_deleted_one_way(s, t, id);
    }
    if deleted(t, id) {
        assert(same_members(t, s));
        lemma_deleted_one_way(t, s, id);
    }
}

// ── Drift ───────────────────────────────────────────────────────────────────

/// The record at `i` is a drift record that applies to `target`.
pub open spec fn drifts_at(s: Seq<RecordView>, target: Seq<char>, i: int) -> bool {
    drift_of(s[i]) is Some && drift_applies(s, s[i].id(), target)
}

proof fn lemma_before_total(s: Seq<RecordView>, a: Seq<char>, b: Seq<char>)
    ensures
        a == b || drift_before(s, a, b) || drift_before(s, b, a),
        !(drift_before(s, a, b) && drift_before(s, b, a)),
{
    lemma_text_le_total(a, b);
    lemma_text_le_total(drift_time(s, a), drift_time(s, b));
    if drift_before(s, a, b) && drift_before(s, b, a) {
        if drift_time(s, a) == drift_time(s, b) {
            lemma_text_le_antisym(a, b);
        } else {
            lemma_text_le_antisym(drift_time(s, a), drift_time(s, b));
        }
    }
}

proof fn lemma_before_trans(s: Seq<RecordView>, a: Seq<char>, b: Seq<char>, c: Seq<char>)
    requires
        drift_before(s, a, b),
        drift_before(s, b, c),
    ensures
        drift_before(s, a, c),
{
    let (x, y, z) = (drift_time(s, a), drift_time(s, b), drift_time(s, c));
    if x != y && y != z {
        crate::text::lemma_text_le_trans(x, y, z);
        if x == z {
            lemma_text_le_antisym(x, y);
        }
    }
    if x == y && y == z {
        crate::text::lemma_text_le_trans(a, b, c);
        if a == c {
            lemma_text_le_antisym(a, b);
        }
    }
}

proof fn lemma_earliest(s: Seq<RecordView>, target: Seq<char>, n: nat)
    requires
        n <= s.len(),
    ensures
        (match earliest_drift_among(s, target, n) {
            Some(b) => {
                &&& exists|i: int| 0 <= i < n && #[trigger] drifts_at(s, target, i) && s[i].id() == b
                &&& forall|i: int|
                    0 <= i < n && #[trigger] drifts_at(s, target, i) ==> !drift_before(
                        s,
                        s[i].id(),
                        b,
                    )
            },
            None => forall|i: int| 0 <= i < n ==> !#[trigger] drifts_at(s, target, i),
        }),
    decreases n,
{
    if n > 0 {
        lemma_earliest(s, target, (n - 1) as nat);
        let before = earliest_drift_among(s, target, (n - 1) as nat);
        let id = s[n - 1].id();
        assert(drifts_at(s, target, n - 1) == (drift_of(s[n - 1]) is Some && drift_applies(
            s,
            id,
            target,
        )));
        if drifts_at(s, target, n - 1) {
            lemma_before_total(s, id, id);
            if before is Some && drift_before(s, id, before->0) {
                assert forall|i: int| 0 <= i < n && #[trigger] drifts_at(s, target, i) implies
                    !drift_before(s, s[i].id(), id) by {
                    if i < n - 1 && drift_before(s, s[i].id(), id) {
                        lemma_before_trans(s, s[i].id(), id, before->0);
                    }
                }
            }
        }
        if before is Some && earliest_drift_among(s, target, n) == before {
            let i = choose|i: int|
                0 <= i < n - 1 && #[trigger] drifts_at(s, target, i) && s[i].id() == before->0;
            assert(0 <= i < n);
        }
    }
}

proof fn lemma_no_earlier(s: Seq<RecordView>, t: Seq<RecordView>, target: Seq<char>)
    requires
        reordered(s, t),
        earliest_drift(s, target) is Some,
    ensures
        earliest_drift(t, target) is Some,
        !drift_before(t, earliest_drift(s, target)->0, earliest_drift(t, target)->0),
{
    lemma_earliest(s, target, s.len());
    lemma_earliest(t, target, t.len());
    lemma_same_records(s, t);
    let b = earliest_drift(s, target)->0;
    let i = choose|i: int| 0 <= i < s.len() && #[trigger] drifts_at(s, target, i) && s[i].id() == b;
    assert(s.contains(s[i]));
    assert(t.contains(s[i]));
    let j = choose|j: int| 0 <= j < t.len() && t[j] == s[i];
    lemma_lookups(s, t, b);
    assert(drifts_at(t, target, j));
}

proof fn lemma_earliest_drift(s: Seq<RecordView>, t: Seq<RecordView>, target: Seq<char>)
    requires
        reordered(s, t),
    ensures
        earliest_drift(s, target) == earliest_drift(t, target),
{
    assert(reordered(t, s));
    if earliest_drift(s, target) is Some {
        lemma_no_earlier(s, t, target);
    }
    if earliest_drift(t, target) is Some {
        lemma_no_earlier(t, s, target);
        let (a, b) = (earliest_drift(s, target)->0, earliest_drift(t, target)->0);
        lemma_lookups(s, t, a);
        lemma_lookups(s, t, b);
        lemma_before_total(s, a, b);
    }
}

// ── Citations ───────────────────────────────────────────────────────────────

proof fn lemma_node_ids(s: Seq<RecordView>, id: Seq<char>)
    ensures
        node_ids(s).contains(id) <==> exists|i: int|
            0 <= i < s.len() && (#[trigger] s[i]) is Node && s[i].id() == id,
    decreases s.len(),
{
    if s.len() > 0 {
        let u = s.drop_last();
        lemma_node_ids(u, id);
        let v = node_ids(u);
        let w = node_ids(s);
        assert(forall|i: int| 0 <= i < u.len() ==> u[i] == #[trigger] s[i]);
        if w.contains(id) {
            let j = choose|j: int| 0 <= j < w.len() && w[j] == id;
            if j < v.len() {
                assert(v[j] == id);
                let i = choose|i: int|
                    0 <= i < u.len() && (#[trigger] u[i]) is Node && u[i].id() == id;
                assert(s[i] is Node);
            } else {
                assert(s[s.len() - 1] is Node);
            }
        }
        if exists|i: int| 0 <= i < s.len() && (#[trigger] s[i]) is Node && s[i].id() == id {
            let i = choose|i: int| 0 <= i < s.len() && (#[trigger] s[i]) is Node && s[i].id() == id;
            if i < u.len() {
                assert(u[i] is Node);
                let j = choose|j: int| 0 <= j < v.len() && v[j] == id;
                assert(w[j] == id);
            } else {
                assert(w[w.len() - 1] == id);
            }
        }
    }
}

proof fn lemma_node_ids_one_way(s: Seq<RecordView>, t: Seq<RecordView>, id: Seq<char>)
    requires
        same_members(s, t),
        node_ids(s).contains(id),
    ensures
        node_ids(t).contains(id),
{
    lemma_node_ids(s, id);
    lemma_node_ids(t, id);
    let i = choose|i: int| 0 <= i < s.len() && (#[trigger] s[i]) is Node && s[i].id() == id;
    assert(s.contains(s[i]));
    assert(t.contains(s[i]));
    let j = choose|j: int| 0 <= j < t.len() && t[j] == s[i];
    assert(t[j] is Node);
}

proof fn lemma_source_ids(s: Seq<RecordView>, t: Seq<RecordView>)
    requires
        reordered(s, t),
    ensures
        source_ids(s) == source_ids(t),
{
    lemma_same_records(s, t);
    assert(same_members(t, s));
    assert forall|id: Seq<char>| #[trigger] node_ids(s).contains(id) <==> node_ids(t).contains(
        id,
    ) by {
        if node_ids(s).contains(id) {
            lemma_node_ids_one_way(s, t, id);
        }
        if node_ids(t).contains(id) {
            lemma_node_ids_one_way(t, s, id);
        }
    }
    law_distinct_forgets_order(node_ids(s), node_ids(t));
    let f = |id: Seq<char>| live_source(s, id);
    let g = |id: Seq<char>| live_source(t, id);
    assert forall|id: Seq<char>| #[trigger] f(id) == g(id) by {
        lemma_lookups(s, t, id);
    }
    assert(f =~= g);
}

proof fn lemma_links_rows_of(s: Seq<RecordView>, t: Seq<RecordView>, source: Seq<char>)
    requires
        reordered(s, t),
    ensures
        links_rows_of(s, source) == links_rows_of(t, source),
{
    lemma_lookups(s, t, source);
    match latest_node(s, source) {
        Some(n) => {
            assert forall|l: EvidenceLinkView| #[trigger] link_row(s, source, n.kind.name(), l)
                == link_row(t, source, n.kind.name(), l) by {
                let target = crate::memory_evidence_health::target_of(l);
                lemma_lookups(s, t, target);
                lemma_earliest_drift(s, t, target);
            }
            assert(links_rows_of(s, source) =~= links_rows_of(t, source));
        },
        None => {},
    }
}

proof fn lemma_all_link_rows(s: Seq<RecordView>, t: Seq<RecordView>, sources: Seq<Seq<char>>)
    requires
        reordered(s, t),
    ensures
        all_link_rows(s, sources) == all_link_rows(t, sources),
        citing_count(s, sources) == citing_count(t, sources),
    decreases sources.len(),
{
    if sources.len() > 0 {
        lemma_all_link_rows(s, t, sources.drop_last());
        lemma_links_rows_of(s, t, sources.last());
        lemma_lookups(s, t, sources.last());
    }
}

// ── Disagreements ───────────────────────────────────────────────────────────

/// The latest edge with one identity.
pub open spec fn latest_edge(s: Seq<RecordView>, id: Seq<char>) -> Option<EdgeRecordView>
    decreases s.len(),
{
    if s.len() == 0 {
        None
    } else if is_edge_with_id(s.last(), id) {
        Some(s.last()->Edge_0)
    } else {
        latest_edge(s.drop_last(), id)
    }
}

proof fn lemma_latest_edge(s: Seq<RecordView>, id: Seq<char>)
    ensures
        latest_edge(s, id) == latest_edge(versions(s, id), id),
    decreases s.len(),
{
    if s.len() > 0 {
        lemma_latest_edge(s.drop_last(), id);
        if s.last().id() == id {
            assert(versions(s, id).drop_last() =~= versions(s.drop_last(), id));
        }
    }
}

proof fn lemma_latest_edge_at(s: Seq<RecordView>, id: Seq<char>, i: int)
    requires
        0 <= i < s.len(),
        is_edge_with_id(s[i], id),
        is_latest_edge_version(s, id, i),
    ensures
        latest_edge(s, id) == Some(s[i]->Edge_0),
    decreases s.len(),
{
    if i < s.len() - 1 {
        assert(!is_edge_with_id(s[s.len() - 1], id));
        let u = s.drop_last();
        assert forall|j: int| i < j < u.len() implies !#[trigger] is_edge_with_id(u[j], id) by {
            assert(u[j] == s[j]);
        }
        lemma_latest_edge_at(u, id, i);
    }
}

proof fn lemma_latest_edge_found(s: Seq<RecordView>, id: Seq<char>) -> (i: int)
    requires
        latest_edge(s, id) is Some,
    ensures
        0 <= i < s.len(),
        is_edge_with_id(s[i], id),
        is_latest_edge_version(s, id, i),
        latest_edge(s, id) == Some(s[i]->Edge_0),
    decreases s.len(),
{
    if is_edge_with_id(s.last(), id) {
        s.len() - 1
    } else {
        let u = s.drop_last();
        let i = lemma_latest_edge_found(u, id);
        assert forall|j: int| i < j < s.len() implies !#[trigger] is_edge_with_id(s[j], id) by {
            if j < u.len() {
                assert(u[j] == s[j]);
            }
        }
        i
    }
}

/// The pair of target and relation of the edge at `i` is `p`, and it counts as evidence.
pub open spec fn pair_at(
    s: Seq<RecordView>,
    source: Seq<char>,
    p: (Seq<char>, Seq<char>),
    i: int,
) -> bool {
    evidence_edge_at(s, source, i) && s[i]->Edge_0.target == p.0 && s[i]->Edge_0.label.name() == p.1
}

/// The identities of the edges among the first `n` records that give `p`.
pub open spec fn edges_with_pair(
    s: Seq<RecordView>,
    source: Seq<char>,
    p: (Seq<char>, Seq<char>),
    n: nat,
) -> Set<Seq<char>> {
    Set::new(|id: Seq<char>| exists|i: int| 0 <= i < n && #[trigger] pair_at(s, source, p, i)
        && s[i].id() == id)
}

proof fn lemma_pair_count(
    s: Seq<RecordView>,
    source: Seq<char>,
    p: (Seq<char>, Seq<char>),
    n: nat,
)
    requires
        n <= s.len(),
    ensures
        edges_with_pair(s, source, p, n).finite(),
        occurrences(edge_pairs(s, source, n), p) == edges_with_pair(s, source, p, n).len(),
    decreases n,
{
    let now = edges_with_pair(s, source, p, n);
    if n == 0 {
        assert(now =~= Set::empty());
    } else {
        lemma_pair_count(s, source, p, (n - 1) as nat);
        let before = edges_with_pair(s, source, p, (n - 1) as nat);
        let pairs = edge_pairs(s, source, (n - 1) as nat);
        let id = s[n - 1].id();
        if evidence_edge_at(s, source, n - 1) {
            assert(edge_pairs(s, source, n).drop_last() =~= pairs);
        }
        if pair_at(s, source, p, n - 1) {
            assert(!before.contains(id)) by {
                if before.contains(id) {
                    let i = choose|i: int|
                        0 <= i < n - 1 && #[trigger] pair_at(s, source, p, i) && s[i].id() == id;
                    assert(is_latest_edge_version(s, id, i));
                    assert(is_edge_with_id(s[n - 1], id));
                }
            }
            assert(now =~= before.insert(id)) by {
                assert forall|x: Seq<char>| now.contains(x) <==> before.insert(id).contains(x) by {
                    if before.contains(x) {
                        let i = choose|i: int|
                            0 <= i < n - 1 && #[trigger] pair_at(s, source, p, i) && s[i].id() == x;
                        assert(0 <= i < n);
                    }
                }
            }
        } else {
            assert(now =~= before) by {
                assert forall|x: Seq<char>| now.contains(x) <==> before.contains(x) by {
                    if before.contains(x) {
                        let i = choose|i: int|
                            0 <= i < n - 1 && #[trigger] pair_at(s, source, p, i) && s[i].id() == x;
                        assert(0 <= i < n);
                    }
                }
            }
        }
    }
}

proof fn lemma_edges_one_way(
    s: Seq<RecordView>,
    t: Seq<RecordView>,
    source: Seq<char>,
    p: (Seq<char>, Seq<char>),
    id: Seq<char>,
)
    requires
        reordered(s, t),
        edges_with_pair(s, source, p, s.len()).contains(id),
    ensures
        edges_with_pair(t, source, p, t.len()).contains(id),
{
    let i = choose|i: int| 0 <= i < s.len() && #[trigger] pair_at(s, source, p, i) && s[i].id() == id;
    lemma_latest_edge_at(s, id, i);
    lemma_latest_edge(s, id);
    lemma_latest_edge(t, id);
    assert(versions(s, id) == versions(t, id));
    let j = lemma_latest_edge_found(t, id);
    lemma_lookups(s, t, id);
    assert(pair_at(t, source, p, j));
}

proof fn lemma_edge_counts(
    s: Seq<RecordView>,
    t: Seq<RecordView>,
    source: Seq<char>,
    p: (Seq<char>, Seq<char>),
)
    requires
        reordered(s, t),
    ensures
        occurrences(edge_pairs(s, source, s.len()), p) == occurrences(
            edge_pairs(t, source, t.len()),
            p,
        ),
{
    lemma_pair_count(s, source, p, s.len());
    lemma_pair_count(t, source, p, t.len());
    let a = edges_with_pair(s, source, p, s.len());
    let b = edges_with_pair(t, source, p, t.len());
    assert(reordered(t, s));
    assert forall|id: Seq<char>| a.contains(id) <==> b.contains(id) by {
        if a.contains(id) {
            lemma_edges_one_way(s, t, source, p, id);
        }
        if b.contains(id) {
            lemma_edges_one_way(t, s, source, p, id);
        }
    }
    assert(a =~= b);
}

proof fn lemma_occurs(pairs: Seq<(Seq<char>, Seq<char>)>, p: (Seq<char>, Seq<char>))
    ensures
        occurrences(pairs, p) >= 0,
        occurrences(pairs, p) > 0 <==> pairs.contains(p),
    decreases pairs.len(),
{
    if pairs.len() > 0 {
        let u = pairs.drop_last();
        lemma_occurs(u, p);
        if pairs.contains(p) {
            let i = choose|i: int| 0 <= i < pairs.len() && pairs[i] == p;
            if i < u.len() {
                assert(u[i] == p);
            }
        }
        if u.contains(p) {
            let i = choose|i: int| 0 <= i < u.len() && u[i] == p;
            assert(pairs[i] == p);
        }
        if pairs.last() == p {
            assert(pairs[pairs.len() - 1] == p);
        }
    }
}

/// The row of a pair that occurs `a` times in the array and `e` times among the edges.
pub open spec fn disagreement(
    source: Seq<char>,
    kind: Seq<char>,
    p: (Seq<char>, Seq<char>),
    a: int,
    e: int,
) -> IntegrityViolationRowView {
    IntegrityViolationRowView {
        source_record_id: source,
        source_kind: kind,
        violation: if a > e {
            IntegrityViolationKind::ArrayWithoutEdge
        } else {
            IntegrityViolationKind::EdgeWithoutArray
        },
        target_record_id: p.0,
        relation: p.1,
        array_count: a,
        edge_count: e,
    }
}

proof fn lemma_disagreements(
    source: Seq<char>,
    kind: Seq<char>,
    array: Seq<(Seq<char>, Seq<char>)>,
    edges: Seq<(Seq<char>, Seq<char>)>,
    n: nat,
)
    requires
        n <= array.len() + edges.len(),
    ensures
        ({
            let rows = disagreements(source, kind, array, edges, n);
            &&& forall|i: int|
                0 <= i < rows.len() ==> {
                    let p = ((#[trigger] rows[i]).target_record_id, rows[i].relation);
                    let (a, e) = (occurrences(array, p), occurrences(edges, p));
                    a != e && rows[i] == disagreement(source, kind, p, a, e) && (array
                        + edges).take(n as int).contains(p)
                }
            &&& forall|i: int, j: int|
                0 <= i < j < rows.len() ==> ((#[trigger] rows[i]).target_record_id, rows[i].relation)
                    != ((#[trigger] rows[j]).target_record_id, rows[j].relation)
            &&& forall|p: (Seq<char>, Seq<char>)| #[trigger]
                (array + edges).take(n as int).contains(p) && occurrences(array, p) != occurrences(
                    edges,
                    p,
                ) ==> rows.contains(
                    disagreement(source, kind, p, occurrences(array, p), occurrences(edges, p)),
                )
        }),
    decreases n,
{
    let all = array + edges;
    if n > 0 {
        lemma_disagreements(source, kind, array, edges, (n - 1) as nat);
        let before = disagreements(source, kind, array, edges, (n - 1) as nat);
        let rows = disagreements(source, kind, array, edges, n);
        let p = all[n - 1];
        let seen = all.take(n - 1);
        let now = all.take(n as int);
        assert(now =~= seen.push(p));
        assert(now[n - 1] == p);
        assert forall|q: (Seq<char>, Seq<char>)| #[trigger] now.contains(q) <==> seen.contains(q)
            || q == p by {
            if seen.contains(q) {
                let i = choose|i: int| 0 <= i < seen.len() && seen[i] == q;
                assert(now[i] == q);
            }
            if now.contains(q) {
                let i = choose|i: int| 0 <= i < now.len() && now[i] == q;
                if i < n - 1 {
                    assert(seen[i] == q);
                }
            }
        }
        let (a, e) = (occurrences(array, p), occurrences(edges, p));
        let added = !(a == e || seen.contains(p));
        if added {
            assert(rows == before.push(disagreement(source, kind, p, a, e)));
            assert(rows[rows.len() - 1] == disagreement(source, kind, p, a, e));
        }
        assert forall|i: int| 0 <= i < rows.len() implies {
            let q = ((#[trigger] rows[i]).target_record_id, rows[i].relation);
            let (x, y) = (occurrences(array, q), occurrences(edges, q));
            x != y && rows[i] == disagreement(source, kind, q, x, y) && now.contains(q)
        } by {
            if i < before.len() {
                assert(rows[i] == before[i]);
                assert(seen.contains((before[i].target_record_id, before[i].relation)));
            }
        }
        assert forall|i: int, j: int| 0 <= i < j < rows.len() implies (
            (#[trigger] rows[i]).target_record_id,
            rows[i].relation,
        ) != ((#[trigger] rows[j]).target_record_id, rows[j].relation) by {
            assert(rows[i] == before[i]);
            assert(seen.contains((before[i].target_record_id, before[i].relation)));
            if j < before.len() {
                assert(rows[j] == before[j]);
            }
        }
        assert forall|q: (Seq<char>, Seq<char>)| #[trigger]
            now.contains(q) && occurrences(array, q) != occurrences(
                edges,
                q,
            ) implies rows.contains(
            disagreement(source, kind, q, occurrences(array, q), occurrences(edges, q)),
        ) by {
            if seen.contains(q) {
                let row = disagreement(
                    source,
                    kind,
                    q,
                    occurrences(array, q),
                    occurrences(edges, q),
                );
                let i = choose|i: int| 0 <= i < before.len() && before[i] == row;
                assert(rows[i] == row);
            }
        }
    }
}

/// `row` is that of a pair whose two counts differ.
pub open spec fn reports(
    source: Seq<char>,
    kind: Seq<char>,
    array: Seq<(Seq<char>, Seq<char>)>,
    edges: Seq<(Seq<char>, Seq<char>)>,
    row: IntegrityViolationRowView,
) -> bool {
    let p = (row.target_record_id, row.relation);
    let (a, e) = (occurrences(array, p), occurrences(edges, p));
    a != e && row == disagreement(source, kind, p, a, e)
}

/// A row is there for exactly the pairs whose two counts differ; the rows strictly ascend by target
/// and relation; and there is none exactly where array and edges agree as multisets.
pub proof fn law_agreement_rows(
    source: Seq<char>,
    kind: Seq<char>,
    array: Seq<(Seq<char>, Seq<char>)>,
    edges: Seq<(Seq<char>, Seq<char>)>,
)
    ensures
        ({
            let rows = agreement_rows(source, kind, array, edges);
            &&& forall|row: IntegrityViolationRowView| #[trigger]
                rows.contains(row) <==> reports(source, kind, array, edges, row)
            &&& strict_by(rows, |r: IntegrityViolationRowView| pair_key(r))
            &&& rows.len() == 0 <==> forall|p: (Seq<char>, Seq<char>)|
                occurrences(array, p) == #[trigger] occurrences(edges, p)
        }),
{
    let all = array + edges;
    let found = disagreements(source, kind, array, edges, array.len() + edges.len());
    let rows = agreement_rows(source, kind, array, edges);
    let key = |r: IntegrityViolationRowView| pair_key(r);
    lemma_disagreements(source, kind, array, edges, array.len() + edges.len());
    assert(all.take(all.len() as int) =~= all);
    assert forall|i: int, j: int|
        0 <= i < found.len() && 0 <= j < found.len() && i != j implies key(#[trigger] found[i])
        != key(#[trigger] found[j]) by {
        let (x, y) = (key(found[i]), key(found[j]));
        if x == y {
            assert(x[0] == KeyPartView::Text(found[i].target_record_id));
            assert(y[0] == KeyPartView::Text(found[j].target_record_id));
            assert(x[1] == KeyPartView::Text(found[i].relation));
            assert(y[1] == KeyPartView::Text(found[j].relation));
            if i < j {
                assert((found[i].target_record_id, found[i].relation) != (
                    found[j].target_record_id,
                    found[j].relation,
                ));
            } else {
                assert((found[j].target_record_id, found[j].relation) != (
                    found[i].target_record_id,
                    found[i].relation,
                ));
            }
        }
    }
    lemma_sorted_is_strict(found, key);
    law_sorted_by_members(found, found.map_values(key));
    assert forall|p: (Seq<char>, Seq<char>)| occurrences(array, p) != #[trigger] occurrences(
        edges,
        p,
    ) implies all.contains(p) by {
        lemma_occurs(array, p);
        lemma_occurs(edges, p);
        if array.contains(p) {
            let i = choose|i: int| 0 <= i < array.len() && array[i] == p;
            assert(all[i] == p);
        } else {
            let i = choose|i: int| 0 <= i < edges.len() && edges[i] == p;
            assert(all[array.len() + i] == p);
        }
    }
    assert forall|row: IntegrityViolationRowView| #[trigger] rows.contains(row) <==> reports(
        source,
        kind,
        array,
        edges,
        row,
    ) by {
        if found.contains(row) {
            let i = choose|i: int| 0 <= i < found.len() && found[i] == row;
            assert(found[i] == row);
        }
    }
    if rows.len() == 0 {
        assert forall|p: (Seq<char>, Seq<char>)| occurrences(array, p) == #[trigger] occurrences(
            edges,
            p,
        ) by {
            let (a, e) = (occurrences(array, p), occurrences(edges, p));
            if a != e {
                assert(reports(source, kind, array, edges, disagreement(source, kind, p, a, e)));
                assert(rows.contains(disagreement(source, kind, p, a, e)));
            }
        }
    } else {
        assert(rows.contains(rows[0]));
        let p = (rows[0].target_record_id, rows[0].relation);
        assert(occurrences(array, p) != occurrences(edges, p));
    }
}

/// A row is there for exactly the pairs whose two counts differ, and no two rows share a pair.
proof fn lemma_violations_of(s: Seq<RecordView>, source: Seq<char>)
    ensures
        forall|row: IntegrityViolationRowView| #[trigger]
            violations_of(s, source).contains(row) <==> is_violation(s, source, row),
        distinct_keys(violations_of(s, source), |r: IntegrityViolationRowView| violation_key(r)),
{
    let rows = violations_of(s, source);
    if let Some(n) = latest_node(s, source) {
        let array = array_pairs(n);
        let edges = edge_pairs(s, source, s.len());
        law_agreement_rows(source, n.kind.name(), array, edges);
        assert forall|row: IntegrityViolationRowView| #[trigger] rows.contains(
            row,
        ) <==> is_violation(s, source, row) by {
            assert(rows.contains(row) <==> reports(source, n.kind.name(), array, edges, row));
        }
        let key = |r: IntegrityViolationRowView| violation_key(r);
        let pair = |r: IntegrityViolationRowView| pair_key(r);
        assert(strict_by(rows, pair));
        assert forall|i: int, j: int|
            0 <= i < rows.len() && 0 <= j < rows.len() && i != j implies key(#[trigger] rows[i])
            != key(#[trigger] rows[j]) by {
            let (x, y) = (key(rows[i]), key(rows[j]));
            if x == y {
                assert(x[2] == KeyPartView::Text(rows[i].target_record_id));
                assert(y[2] == KeyPartView::Text(rows[j].target_record_id));
                assert(x[3] == KeyPartView::Text(rows[i].relation));
                assert(y[3] == KeyPartView::Text(rows[j].relation));
                assert(pair(rows[i]) == pair(rows[j]));
                if i < j {
                    assert(pair(rows[i]) != pair(rows[j]));
                } else {
                    assert(pair(rows[j]) != pair(rows[i]));
                }
            }
        }
    }
}

/// `row` reports a pair that the array of `source` and its edges cite a different number of times.
pub open spec fn is_violation(
    s: Seq<RecordView>,
    source: Seq<char>,
    row: IntegrityViolationRowView,
) -> bool {
    latest_node(s, source) matches Some(n) && {
        let p = (row.target_record_id, row.relation);
        let a = occurrences(array_pairs(n), p);
        let e = occurrences(edge_pairs(s, source, s.len()), p);
        a != e && row == disagreement(source, n.kind.name(), p, a, e)
    }
}

proof fn lemma_is_violation(
    s: Seq<RecordView>,
    t: Seq<RecordView>,
    source: Seq<char>,
    row: IntegrityViolationRowView,
)
    requires
        reordered(s, t),
    ensures
        is_violation(s, source, row) == is_violation(t, source, row),
{
    lemma_lookups(s, t, source);
    lemma_edge_counts(s, t, source, (row.target_record_id, row.relation));
}

proof fn lemma_all_violations(s: Seq<RecordView>, sources: Seq<Seq<char>>)
    requires
        sources.no_duplicates(),
    ensures
        forall|row: IntegrityViolationRowView| #[trigger]
            all_violations(s, sources).contains(row) <==> (sources.contains(row.source_record_id)
                && is_violation(s, row.source_record_id, row)),
        distinct_keys(all_violations(s, sources), |r: IntegrityViolationRowView| violation_key(r)),
    decreases sources.len(),
{
    let key = |r: IntegrityViolationRowView| violation_key(r);
    if sources.len() > 0 {
        let rest = sources.drop_last();
        let last = sources.last();
        assert forall|i: int, j: int|
            0 <= i < rest.len() && 0 <= j < rest.len() && i != j implies rest[i] != rest[j] by {
            assert(sources[i] == rest[i] && sources[j] == rest[j]);
        }
        lemma_all_violations(s, rest);
        lemma_violations_of(s, last);
        let before = all_violations(s, rest);
        let more = violations_of(s, last);
        let rows = all_violations(s, sources);
        assert(!rest.contains(last)) by {
            if rest.contains(last) {
                let i = choose|i: int| 0 <= i < rest.len() && rest[i] == last;
                assert(sources[i] == sources[sources.len() - 1]);
            }
        }
        assert forall|x: Seq<char>| #[trigger] sources.contains(x) <==> rest.contains(x) || x
            == last by {
            if sources.contains(x) {
                let i = choose|i: int| 0 <= i < sources.len() && sources[i] == x;
                if i < rest.len() {
                    assert(rest[i] == x);
                }
            }
            if rest.contains(x) {
                let i = choose|i: int| 0 <= i < rest.len() && rest[i] == x;
                assert(sources[i] == x);
            }
            assert(sources[sources.len() - 1] == last);
        }
        assert forall|row: IntegrityViolationRowView| #[trigger] rows.contains(row) <==> (
        sources.contains(row.source_record_id) && is_violation(s, row.source_record_id, row)) by {
            if rows.contains(row) {
                let i = choose|i: int| 0 <= i < rows.len() && rows[i] == row;
                if i < before.len() {
                    assert(before[i] == row);
                    assert(before.contains(row));
                } else {
                    assert(more[i - before.len()] == row);
                    assert(more.contains(row));
                }
            }
            if before.contains(row) {
                let i = choose|i: int| 0 <= i < before.len() && before[i] == row;
                assert(rows[i] == row);
            }
            if more.contains(row) {
                let i = choose|i: int| 0 <= i < more.len() && more[i] == row;
                assert(rows[before.len() + i] == row);
            }
            if sources.contains(row.source_record_id) && is_violation(
                s,
                row.source_record_id,
                row,
            ) {
                if row.source_record_id == last {
                    assert(more.contains(row));
                } else {
                    assert(rest.contains(row.source_record_id));
                    assert(before.contains(row));
                }
            }
        }
        assert forall|i: int, j: int|
            0 <= i < rows.len() && 0 <= j < rows.len() && i != j implies key(#[trigger] rows[i])
            != key(#[trigger] rows[j]) by {
            let m = before.len() as int;
            let (x, y) = (key(rows[i]), key(rows[j]));
            assert(x[0] == KeyPartView::Text(rows[i].source_record_id));
            assert(y[0] == KeyPartView::Text(rows[j].source_record_id));
            if i < m {
                assert(rows[i] == before[i]);
                assert(before.contains(before[i]));
            } else {
                assert(rows[i] == more[i - m]);
                assert(more.contains(more[i - m]));
            }
            if j < m {
                assert(rows[j] == before[j]);
                assert(before.contains(before[j]));
            } else {
                assert(rows[j] == more[j - m]);
                assert(more.contains(more[j - m]));
            }
            if i < m && j < m {
                assert(key(before[i]) != key(before[j]));
            } else if i >= m && j >= m {
                assert(key(more[i - m]) != key(more[j - m]));
            }
        }
    }
}

proof fn lemma_sources_once(s: Seq<RecordView>)
    ensures
        source_ids(s).no_duplicates(),
{
    let all = distinct(node_ids(s));
    law_distinct(node_ids(s));
    lemma_filter_once(all, |id: Seq<char>| live_source(s, id));
}

proof fn lemma_filter_once(all: Seq<Seq<char>>, keep: spec_fn(Seq<char>) -> bool)
    requires
        strictly_ascending(all),
    ensures
        all.filter(keep).no_duplicates(),
        forall|x: Seq<char>| #[trigger] all.filter(keep).contains(x) ==> all.contains(x),
    decreases all.len(),
{
    reveal(Seq::filter);
    if all.len() > 0 {
        let rest = all.drop_last();
        assert forall|i: int, j: int| 0 <= i < j < rest.len() implies crate::text::text_le(
            #[trigger] rest[i],
            #[trigger] rest[j],
        ) && rest[i] != rest[j] by {
            assert(rest[i] == all[i] && rest[j] == all[j]);
        }
        lemma_filter_once(rest, keep);
        let before = rest.filter(keep);
        let out = all.filter(keep);
        assert(!before.contains(all.last())) by {
            if before.contains(all.last()) {
                let i = choose|i: int| 0 <= i < rest.len() && rest[i] == all.last();
                assert(all[i] == all[all.len() - 1]);
            }
        }
        assert forall|x: Seq<char>| #[trigger] out.contains(x) implies all.contains(x) by {
            let i = choose|i: int| 0 <= i < out.len() && out[i] == x;
            if i < before.len() {
                assert(before[i] == x);
                assert(before.contains(x));
                let j = choose|j: int| 0 <= j < rest.len() && rest[j] == x;
                assert(all[j] == x);
            } else {
                assert(all[all.len() - 1] == x);
            }
        }
        assert forall|i: int, j: int|
            0 <= i < out.len() && 0 <= j < out.len() && i != j implies out[i] != out[j] by {
            if i < before.len() {
                assert(out[i] == before[i]);
                assert(before.contains(before[i]));
            }
            if j < before.len() {
                assert(out[j] == before[j]);
                assert(before.contains(before[j]));
            }
        }
    }
}

/// The report on two stores that hold the same records is the same, as long as the versions of
/// each record were appended in the same order.
pub proof fn law_report_forgets_order(s: Seq<RecordView>, t: Seq<RecordView>)
    requires
        reordered(s, t),
    ensures
        report(s) == report(t),
{
    let sources = source_ids(s);
    lemma_source_ids(s, t);
    lemma_all_link_rows(s, t, sources);
    assert(link_rows(s) == link_rows(t));
    lemma_sources_once(s);
    lemma_all_violations(s, sources);
    lemma_all_violations(t, sources);
    let a = all_violations(s, sources);
    let b = all_violations(t, sources);
    assert forall|row: IntegrityViolationRowView| #[trigger] a.contains(row) <==> b.contains(
        row,
    ) by {
        lemma_is_violation(s, t, row.source_record_id, row);
    }
    law_sorting_forgets_order(a, b, |r: IntegrityViolationRowView| violation_key(r));
    assert(violation_rows(s) == violation_rows(t));
}

/// Where no two records share an identity, every order of the same records gives the same report.
pub proof fn law_report_of_single_versions(s: Seq<RecordView>, t: Seq<RecordView>)
    requires
        same_members(s, t),
        one_version_each(s),
        one_version_each(t),
    ensures
        report(s) == report(t),
{
    assert forall|id: Seq<char>| #[trigger] versions(s, id) == versions(t, id) by {
        lemma_single_version(s, id);
        lemma_single_version(t, id);
        let (v, w) = (versions(s, id), versions(t, id));
        if v.len() > 0 {
            assert(s.contains(v[0]));
            assert(t.contains(v[0]));
            lemma_versions_contain(t, v[0]);
            assert(w.contains(v[0]));
        }
        if w.len() > 0 {
            assert(t.contains(w[0]));
            assert(s.contains(w[0]));
            lemma_versions_contain(s, w[0]);
            assert(v.contains(w[0]));
        }
        assert(v =~= w);
    }
    law_report_forgets_order(s, t);
}

/// No two records share an identity.
pub open spec fn one_version_each(s: Seq<RecordView>) -> bool {
    forall|i: int, j: int|
        0 <= i < j < s.len() ==> (#[trigger] s[i]).id() != (#[trigger] s[j]).id()
}

proof fn lemma_single_version(s: Seq<RecordView>, id: Seq<char>)
    requires
        one_version_each(s),
    ensures
        versions(s, id).len() <= 1,
        versions(s, id).len() == 1 ==> versions(s, id)[0].id() == id && s.contains(
            versions(s, id)[0],
        ),
    decreases s.len(),
{
    if s.len() > 0 {
        let u = s.drop_last();
        assert forall|i: int, j: int| 0 <= i < j < u.len() implies (#[trigger] u[i]).id() != (
        #[trigger] u[j]).id() by {
            assert(u[i] == s[i] && u[j] == s[j]);
        }
        lemma_single_version(u, id);
        let v = versions(u, id);
        if v.len() == 1 {
            let i = choose|i: int| 0 <= i < u.len() && u[i] == v[0];
            assert(s[i] == v[0]);
            assert(s[i].id() != s[s.len() - 1].id());
            assert(s.contains(v[0]));
        }
        assert(s.contains(s[s.len() - 1]));
    }
}

} // verus!
