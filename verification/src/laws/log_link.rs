//! What links between error signatures and runs keep.
use vstd::prelude::*;

use crate::ir::{
    id_domain, log_id, CorrelationBasis, EdgeLabel, EdgeRecordView, EvidenceLinkView, RecordView,
};
use crate::log_link::{
    add_edge, anchor, citation, citation_key, citations, edge_key, emitted_nodes, enriched,
    has_edge_id, hash_targets, id_key, in_log_domain, linked_records, log_records, new_edges,
    pending_edge, pending_of, pending_runs, pending_tasks, repo_eligible, run_link_key, run_links,
    runs_covering, signature_ids, signature_time, stronger_of, tally, temporal_targets,
    unsorted_citations, unsorted_run_links, window_of, with_edges, LinkLogsOptions, PendingView,
    RunLinkView,
};
use crate::order::{distinct, law_distinct, law_sorted_by_members};
use crate::text::{find, find_from, occurs_at};
use crate::time::{covers, Instant};

verus! {

/// Identities of the log domain name it.
pub proof fn lemma_log_id_domain(parts: Seq<Seq<char>>)
    ensures
        id_domain(log_id(parts)) == Some("log"@),
{
    let id = log_id(parts);
    let colon = seq![':'];
    reveal_strlit("log:v1:");
    reveal_strlit("log");
    assert(id[0] == 'l' && id[1] == 'o' && id[2] == 'g' && id[3] == ':');
    assert forall|i: int| 0 <= i < 3 implies !occurs_at(id, colon, i) by {
        if occurs_at(id, colon, i) {
            assert(id.subrange(i, i + 1)[0] == id[i]);
        }
    }
    assert(occurs_at(id, colon, 3)) by {
        assert(id.subrange(3, 4) =~= colon);
    }
    reveal_with_fuel(find_from, 5);
    assert(find(id, colon) == Some(3int));
    assert(id.take(3) =~= "log"@);
}

// ── Edges ───────────────────────────────────────────────────────────────────

/// An edge as the linker emits it: in the log domain, and with a basis and its confidence where it
/// leads to a run.
pub open spec fn sound_edge(r: RecordView) -> bool {
    match r {
        RecordView::Edge(e) => {
            &&& in_log_domain(r)
            &&& e.label == EdgeLabel::EmittedDuring || e.label == EdgeLabel::ReferencesTask
            &&& e.label == EdgeLabel::EmittedDuring ==> e.basis is Some && e.confidence == Some(
                e.basis->0.weight(),
            )
        },
        _ => false,
    }
}

/// Everything in a list comes from the links.
proof fn lemma_with_edges(edges: Seq<RecordView>, links: Seq<PendingView>, task: bool)
    ensures
        forall|r: RecordView| #[trigger]
            with_edges(edges, links, task).contains(r) ==> edges.contains(r) || exists|k: int|
                0 <= k < links.len() && r == RecordView::Edge(
                    pending_edge(#[trigger] links[k], task),
                ),
    decreases links.len(),
{
    if links.len() > 0 {
        let rest = links.drop_last();
        lemma_with_edges(edges, rest, task);
        let before = with_edges(edges, rest, task);
        let after = with_edges(edges, links, task);
        assert forall|r: RecordView| #[trigger] after.contains(r) implies edges.contains(r)
            || exists|k: int|
            0 <= k < links.len() && r == RecordView::Edge(
                pending_edge(#[trigger] links[k], task),
            ) by {
            let i = choose|i: int| 0 <= i < after.len() && after[i] == r;
            if i < before.len() {
                assert(before[i] == r);
                assert(before.contains(r));
                if !edges.contains(r) {
                    let k = choose|k: int|
                        0 <= k < rest.len() && r == RecordView::Edge(
                            pending_edge(#[trigger] rest[k], task),
                        );
                    assert(links[k] == rest[k]);
                }
            } else {
                assert(r == RecordView::Edge(pending_edge(links[links.len() - 1], task)));
            }
        }
    }
}

/// The edges before they are sorted.
pub open spec fn unsorted_edges(s: Seq<RecordView>, tolerance: int) -> Seq<RecordView> {
    let sigs = signature_ids(s);
    with_edges(
        with_edges(Seq::empty(), pending_runs(s, tolerance, sigs), false),
        pending_tasks(s, tolerance, sigs),
        true,
    )
}

proof fn lemma_edge_origin(s: Seq<RecordView>, tolerance: int, r: RecordView)
    requires
        new_edges(s, tolerance).contains(r),
    ensures
        (exists|k: int|
            0 <= k < pending_runs(s, tolerance, signature_ids(s)).len() && r == RecordView::Edge(
                pending_edge(
                    #[trigger] pending_runs(s, tolerance, signature_ids(s))[k],
                    false,
                ),
            )) || (exists|k: int|
            0 <= k < pending_tasks(s, tolerance, signature_ids(s)).len() && r == RecordView::Edge(
                pending_edge(
                    #[trigger] pending_tasks(s, tolerance, signature_ids(s))[k],
                    true,
                ),
            )),
{
    let sigs = signature_ids(s);
    let all = unsorted_edges(s, tolerance);
    law_sorted_by_members(all, all.map_values(|r: RecordView| edge_key(r)));
    assert(all.contains(r));
    let runs = with_edges(Seq::empty(), pending_runs(s, tolerance, sigs), false);
    lemma_with_edges(Seq::empty(), pending_runs(s, tolerance, sigs), false);
    lemma_with_edges(runs, pending_tasks(s, tolerance, sigs), true);
}

/// No link to a run is ever emitted without its basis, and its confidence is that of its basis.
pub proof fn law_every_run_edge_has_a_basis(s: Seq<RecordView>, tolerance: int)
    ensures
        forall|i: int| 0 <= i < new_edges(s, tolerance).len() ==> sound_edge(
            #[trigger] new_edges(s, tolerance)[i],
        ),
{
    let out = new_edges(s, tolerance);
    assert forall|i: int| 0 <= i < out.len() implies sound_edge(#[trigger] out[i]) by {
        let r = out[i];
        assert(out.contains(r));
        lemma_edge_origin(s, tolerance, r);
        let runs = pending_runs(s, tolerance, signature_ids(s));
        let tasks = pending_tasks(s, tolerance, signature_ids(s));
        if exists|k: int|
            0 <= k < runs.len() && r == RecordView::Edge(pending_edge(#[trigger] runs[k], false)) {
            let k = choose|k: int|
                0 <= k < runs.len() && r == RecordView::Edge(
                    pending_edge(#[trigger] runs[k], false),
                );
            let p = runs[k];
            lemma_log_id_domain(
                seq![
                    "edge"@,
                    EdgeLabel::EmittedDuring.name(),
                    p.sig,
                    p.target,
                    p.basis.name(),
                ],
            );
        } else {
            let k = choose|k: int|
                0 <= k < tasks.len() && r == RecordView::Edge(
                    pending_edge(#[trigger] tasks[k], true),
                );
            let p = tasks[k];
            lemma_log_id_domain(
                seq!["edge"@, EdgeLabel::ReferencesTask.name(), p.sig, p.target],
            );
        }
    }
}

proof fn lemma_emitted_nodes(s: Seq<RecordView>, tolerance: int, at: Option<Seq<char>>, n: nat)
    requires
        n <= s.len(),
    ensures
        forall|i: int| 0 <= i < emitted_nodes(s, tolerance, at, n).len() ==> in_log_domain(
            #[trigger] emitted_nodes(s, tolerance, at, n)[i],
        ),
    decreases n,
{
    if n > 0 {
        lemma_emitted_nodes(s, tolerance, at, (n - 1) as nat);
        let before = emitted_nodes(s, tolerance, at, (n - 1) as nat);
        let out = emitted_nodes(s, tolerance, at, n);
        let last = enriched(s, tolerance, at, s[n - 1]);
        assert(last.id() == s[n - 1].id());
        assert forall|i: int| 0 <= i < out.len() implies in_log_domain(#[trigger] out[i]) by {
            if i < before.len() {
                assert(out[i] == before[i]);
            } else {
                assert(out[i] == last);
            }
        }
    }
}

/// Only the log domain is emitted: records of other domains never come back.
pub proof fn law_only_the_log_domain_is_emitted(
    s: Seq<RecordView>,
    tolerance: int,
    at: Option<Seq<char>>,
)
    ensures
        forall|i: int| 0 <= i < linked_records(s, tolerance, at).len() ==> in_log_domain(
            #[trigger] linked_records(s, tolerance, at)[i],
        ),
{
    let nodes = emitted_nodes(s, tolerance, at, s.len());
    let sorted = log_records(s, tolerance, at);
    let edges = new_edges(s, tolerance);
    lemma_emitted_nodes(s, tolerance, at, s.len());
    law_sorted_by_members(nodes, nodes.map_values(|r: RecordView| id_key(r)));
    law_every_run_edge_has_a_basis(s, tolerance);
    let out = linked_records(s, tolerance, at);
    assert forall|i: int| 0 <= i < out.len() implies in_log_domain(#[trigger] out[i]) by {
        if i < sorted.len() {
            assert(sorted.contains(sorted[i]));
            let j = choose|j: int| 0 <= j < nodes.len() && nodes[j] == sorted[i];
            assert(in_log_domain(nodes[j]));
            assert(out[i] == sorted[i]);
        } else {
            assert(out[i] == edges[i - sorted.len()]);
        }
    }
}

// ── Links ───────────────────────────────────────────────────────────────────

/// A signature is uncorrelated exactly if it has no link to a run, and its counts are those of its
/// links.
pub proof fn law_uncorrelated_iff_no_link(s: Seq<RecordView>, tolerance: int, sig: Seq<char>)
    ensures
        tally(s, tolerance, sig).uncorrelated <==> run_links(s, tolerance, sig).len() == 0,
        run_links(s, tolerance, sig).len() == tally(s, tolerance, sig).content_hash_join + tally(
            s,
            tolerance,
            sig,
        ).temporal_correlation,
{
    let all = unsorted_run_links(s, tolerance, sig);
    law_sorted_by_members(all, all.map_values(|l: RunLinkView| run_link_key(l)));
}

/// Where the repository of a signature is not verified, time links nothing: not for a foreign
/// source, and not where the store names no repository or several.
pub proof fn law_time_links_only_within_the_repository(
    s: Seq<RecordView>,
    tolerance: int,
    sig: Seq<char>,
)
    ensures
        anchor(s) is None ==> !repo_eligible(s, sig),
        !repo_eligible(s, sig) ==> {
            &&& temporal_targets(s, tolerance, sig).len() == 0
            &&& tally(s, tolerance, sig).temporal_correlation == 0
            &&& forall|l: RunLinkView| #[trigger]
                run_links(s, tolerance, sig).contains(l) ==> l.basis
                    == CorrelationBasis::ContentHashJoin
        },
{
    let all = unsorted_run_links(s, tolerance, sig);
    law_sorted_by_members(all, all.map_values(|l: RunLinkView| run_link_key(l)));
    if !repo_eligible(s, sig) {
        assert forall|l: RunLinkView| #[trigger] run_links(s, tolerance, sig).contains(
            l,
        ) implies l.basis == CorrelationBasis::ContentHashJoin by {
            let i = choose|i: int| 0 <= i < all.len() && all[i] == l;
        }
    }
}

proof fn lemma_runs_covering(s: Seq<RecordView>, tolerance: int, t: Instant, i: int)
    requires
        0 <= i < s.len(),
        window_of(s[i]) matches Some(w) && covers(w.0, w.1, tolerance, t),
    ensures
        runs_covering(s, tolerance, t).contains(s[i].id()),
    decreases s.len(),
{
    let rest = s.drop_last();
    let all = runs_covering(s, tolerance, t);
    if i < rest.len() {
        lemma_runs_covering(rest, tolerance, t, i);
        let before = runs_covering(rest, tolerance, t);
        let k = choose|k: int| 0 <= k < before.len() && before[k] == rest[i].id();
        assert(all[k] == s[i].id());
    } else {
        assert(all[all.len() - 1] == s[i].id());
    }
}

/// Every run whose window covers a signature's time is linked: where windows overlap, none is
/// chosen over another.
pub proof fn law_every_covering_run_is_linked(
    s: Seq<RecordView>,
    tolerance: int,
    sig: Seq<char>,
    i: int,
)
    requires
        repo_eligible(s, sig),
        signature_time(s, sig) is Some,
        0 <= i < s.len(),
        window_of(s[i]) matches Some(w) && covers(w.0, w.1, tolerance, signature_time(s, sig)->0),
    ensures
        run_links(s, tolerance, sig).contains(
            RunLinkView { target: s[i].id(), basis: CorrelationBasis::TemporalCorrelation },
        ),
{
    let t = signature_time(s, sig)->0;
    lemma_runs_covering(s, tolerance, t, i);
    law_distinct(runs_covering(s, tolerance, t));
    let ids = temporal_targets(s, tolerance, sig);
    assert(ids == distinct(runs_covering(s, tolerance, t)));
    assert(ids.contains(s[i].id()));
    let k = choose|k: int| 0 <= k < ids.len() && ids[k] == s[i].id();
    let all = unsorted_run_links(s, tolerance, sig);
    let link = RunLinkView { target: s[i].id(), basis: CorrelationBasis::TemporalCorrelation };
    assert(all[hash_targets(s, sig).len() + k] == link);
    law_sorted_by_members(all, all.map_values(|l: RunLinkView| run_link_key(l)));
}

proof fn lemma_wider_window(s: Seq<RecordView>, narrow: int, wide: int, t: Instant, id: Seq<char>)
    requires
        0 <= narrow <= wide,
        runs_covering(s, narrow, t).contains(id),
    ensures
        runs_covering(s, wide, t).contains(id),
    decreases s.len(),
{
    if s.len() > 0 {
        let rest = s.drop_last();
        let small = runs_covering(s, narrow, t);
        let large = runs_covering(s, wide, t);
        let k = choose|k: int| 0 <= k < small.len() && small[k] == id;
        let before = runs_covering(rest, narrow, t);
        if k < before.len() {
            assert(before[k] == id);
            lemma_wider_window(rest, narrow, wide, t, id);
            let more = runs_covering(rest, wide, t);
            let m = choose|m: int| 0 <= m < more.len() && more[m] == id;
            assert(large[m] == id);
        } else {
            assert(large[large.len() - 1] == id);
        }
    }
}

/// A wider tolerance loses no link.
pub proof fn law_wider_tolerance_keeps_links(
    s: Seq<RecordView>,
    narrow: int,
    wide: int,
    sig: Seq<char>,
)
    requires
        0 <= narrow <= wide,
    ensures
        forall|id: Seq<char>| #[trigger]
            temporal_targets(s, narrow, sig).contains(id) ==> temporal_targets(
                s,
                wide,
                sig,
            ).contains(id),
{
    assert forall|id: Seq<char>| #[trigger]
        temporal_targets(s, narrow, sig).contains(id) implies temporal_targets(
        s,
        wide,
        sig,
    ).contains(id) by {
        let t = signature_time(s, sig)->0;
        law_distinct(runs_covering(s, narrow, t));
        law_distinct(runs_covering(s, wide, t));
        lemma_wider_window(s, narrow, wide, t, id);
    }
}

// ── Citations ───────────────────────────────────────────────────────────────

proof fn lemma_pending_runs(
    s: Seq<RecordView>,
    tolerance: int,
    sigs: Seq<Seq<char>>,
    p: PendingView,
)
    requires
        pending_runs(s, tolerance, sigs).contains(p),
    ensures
        sigs.contains(p.sig),
        run_links(s, tolerance, p.sig).contains(RunLinkView { target: p.target, basis: p.basis }),
    decreases sigs.len(),
{
    if sigs.len() > 0 {
        let rest = sigs.drop_last();
        let before = pending_runs(s, tolerance, rest);
        let here = run_links(s, tolerance, sigs.last());
        let all = pending_runs(s, tolerance, sigs);
        let k = choose|k: int| 0 <= k < all.len() && all[k] == p;
        if k < before.len() {
            assert(before[k] == p);
            lemma_pending_runs(s, tolerance, rest, p);
            let m = choose|m: int| 0 <= m < rest.len() && rest[m] == p.sig;
            assert(sigs[m] == p.sig);
        } else {
            let link = here[k - before.len()];
            assert(pending_of(sigs.last(), here)[k - before.len()] == p);
            assert(link == RunLinkView { target: p.target, basis: p.basis });
            assert(sigs[sigs.len() - 1] == p.sig);
        }
    }
}

/// Every link to a run is mirrored on its signature: the signature cites the run, under the same
/// relation and with the confidence of the same basis.
pub proof fn law_run_edges_are_cited(
    s: Seq<RecordView>,
    tolerance: int,
    at: Option<Seq<char>>,
    i: int,
)
    requires
        0 <= i < new_edges(s, tolerance).len(),
        new_edges(s, tolerance)[i] matches RecordView::Edge(e) && e.label
            == EdgeLabel::EmittedDuring,
    ensures
        ({
            let e = new_edges(s, tolerance)[i]->Edge_0;
            &&& e.basis is Some
            &&& citations(s, tolerance, at, e.source).contains(
                citation(e.target, EdgeLabel::EmittedDuring, e.basis->0, at),
            )
        }),
{
    let r = new_edges(s, tolerance)[i];
    let e = r->Edge_0;
    assert(new_edges(s, tolerance).contains(r));
    lemma_edge_origin(s, tolerance, r);
    let runs = pending_runs(s, tolerance, signature_ids(s));
    let k = choose|k: int|
        0 <= k < runs.len() && r == RecordView::Edge(pending_edge(#[trigger] runs[k], false));
    let p = runs[k];
    assert(runs.contains(p));
    lemma_pending_runs(s, tolerance, signature_ids(s), p);
    let link = RunLinkView { target: p.target, basis: p.basis };
    let links = run_links(s, tolerance, p.sig);
    let m = choose|m: int| 0 <= m < links.len() && links[m] == link;
    let all = unsorted_citations(s, tolerance, at, p.sig);
    assert(all[m] == citation(p.target, EdgeLabel::EmittedDuring, p.basis, at));
    law_sorted_by_members(all, all.map_values(|l: EvidenceLinkView| citation_key(l)));
}

/// The stronger of two bases does not depend on their order, and of one basis it is that basis.
pub proof fn law_stronger(a: CorrelationBasis, b: CorrelationBasis, c: CorrelationBasis)
    ensures
        stronger_of(a, b) == stronger_of(b, a),
        stronger_of(a, a) == a,
        stronger_of(a, stronger_of(b, c)) == stronger_of(stronger_of(a, b), c),
{
}

// ── Tolerance ───────────────────────────────────────────────────────────────

/// The edge of a run link.
pub open spec fn run_edge(p: PendingView) -> RecordView {
    RecordView::Edge(pending_edge(p, false))
}

/// The edge is that of some run link of the store.
pub open spec fn links_a_run(s: Seq<RecordView>, tolerance: int, r: RecordView) -> bool {
    exists|p: PendingView|
        pending_runs(s, tolerance, signature_ids(s)).contains(p) && r == #[trigger] run_edge(p)
}

/// No two different run links have one identity.
pub open spec fn run_identities_differ(s: Seq<RecordView>, tolerance: int) -> bool {
    forall|a: RecordView, b: RecordView|
        #![trigger links_a_run(s, tolerance, a), links_a_run(s, tolerance, b)]
        links_a_run(s, tolerance, a) && links_a_run(s, tolerance, b) && a.id() == b.id() ==> a == b
}

proof fn lemma_add_edge(edges: Seq<RecordView>, e: EdgeRecordView, id: Seq<char>)
    requires
        has_edge_id(edges, id) || e.id == id,
    ensures
        has_edge_id(add_edge(edges, e), id),
        forall|r: RecordView| #[trigger] edges.contains(r) ==> add_edge(edges, e).contains(r),
{
    let after = add_edge(edges, e);
    if has_edge_id(edges, id) {
        let i = choose|i: int| 0 <= i < edges.len() && (#[trigger] edges[i]).id() == id;
        assert(after[i].id() == id);
    } else {
        assert(after[after.len() - 1].id() == id);
    }
    assert forall|r: RecordView| #[trigger] edges.contains(r) implies after.contains(r) by {
        let i = choose|i: int| 0 <= i < edges.len() && edges[i] == r;
        assert(after[i] == r);
    }
}

/// Every link leaves an edge of its identity, and no edge is lost.
proof fn lemma_with_edges_keeps(edges: Seq<RecordView>, links: Seq<PendingView>, task: bool)
    ensures
        forall|r: RecordView| #[trigger]
            edges.contains(r) ==> with_edges(edges, links, task).contains(r),
        forall|k: int|
            0 <= k < links.len() ==> has_edge_id(
                with_edges(edges, links, task),
                pending_edge(#[trigger] links[k], task).id,
            ),
    decreases links.len(),
{
    if links.len() > 0 {
        let rest = links.drop_last();
        lemma_with_edges_keeps(edges, rest, task);
        let before = with_edges(edges, rest, task);
        let e = pending_edge(links.last(), task);
        lemma_add_edge(before, e, e.id);
        assert forall|k: int| 0 <= k < links.len() implies has_edge_id(
            with_edges(edges, links, task),
            pending_edge(#[trigger] links[k], task).id,
        ) by {
            if k < rest.len() {
                assert(rest[k] == links[k]);
                lemma_add_edge(before, e, pending_edge(links[k], task).id);
            }
        }
    }
}

/// The new edges to runs are exactly those of the run links.
pub proof fn law_run_edges_are_the_run_links(s: Seq<RecordView>, tolerance: int)
    requires
        run_identities_differ(s, tolerance),
    ensures
        forall|r: RecordView| #[trigger]
            links_a_run(s, tolerance, r) <==> new_edges(s, tolerance).contains(r) && is_run_edge(r),
{
    let sigs = signature_ids(s);
    let links = pending_runs(s, tolerance, sigs);
    let none = Seq::<RecordView>::empty();
    let runs = with_edges(none, links, false);
    let all = unsorted_edges(s, tolerance);
    law_sorted_by_members(all, all.map_values(|r: RecordView| edge_key(r)));
    lemma_with_edges(none, links, false);
    lemma_with_edges_keeps(none, links, false);
    lemma_with_edges_keeps(runs, pending_tasks(s, tolerance, sigs), true);
    assert forall|r: RecordView| #[trigger] links_a_run(s, tolerance, r) <==> new_edges(
        s,
        tolerance,
    ).contains(r) && is_run_edge(r) by {
        if links_a_run(s, tolerance, r) {
            let p = choose|p: PendingView| links.contains(p) && r == #[trigger] run_edge(p);
            let k = choose|k: int| 0 <= k < links.len() && links[k] == p;
            assert(has_edge_id(runs, pending_edge(links[k], false).id));
            let i = choose|i: int| 0 <= i < runs.len() && (#[trigger] runs[i]).id() == r.id();
            assert(runs.contains(runs[i]));
            let m = choose|m: int|
                0 <= m < links.len() && runs[i] == RecordView::Edge(
                    pending_edge(#[trigger] links[m], false),
                );
            assert(links.contains(links[m]));
            assert(runs[i] == run_edge(links[m]));
            assert(links_a_run(s, tolerance, runs[i]));
            assert(runs[i] == r);
            assert(all.contains(r));
        }
        if new_edges(s, tolerance).contains(r) && is_run_edge(r) {
            lemma_edge_origin(s, tolerance, r);
            let k = choose|k: int|
                0 <= k < links.len() && r == RecordView::Edge(
                    pending_edge(#[trigger] links[k], false),
                );
            assert(links.contains(links[k]));
            assert(r == run_edge(links[k]));
        }
    }
}

/// An edge from a signature to a run or a command.
pub open spec fn is_run_edge(r: RecordView) -> bool {
    r matches RecordView::Edge(e) && e.label == EdgeLabel::EmittedDuring
}

/// Such an edge that rests on equal bytes.
pub open spec fn is_hash_edge(r: RecordView) -> bool {
    is_run_edge(r) && r->Edge_0.basis == Some(CorrelationBasis::ContentHashJoin)
}

pub proof fn lemma_pending_back(
    s: Seq<RecordView>,
    tolerance: int,
    sigs: Seq<Seq<char>>,
    p: PendingView,
)
    requires
        sigs.contains(p.sig),
        run_links(s, tolerance, p.sig).contains(RunLinkView { target: p.target, basis: p.basis }),
    ensures
        pending_runs(s, tolerance, sigs).contains(p),
    decreases sigs.len(),
{
    let rest = sigs.drop_last();
    let before = pending_runs(s, tolerance, rest);
    let all = pending_runs(s, tolerance, sigs);
    let m = choose|m: int| 0 <= m < sigs.len() && sigs[m] == p.sig;
    if m < rest.len() {
        assert(rest[m] == p.sig);
        lemma_pending_back(s, tolerance, rest, p);
        let k = choose|k: int| 0 <= k < before.len() && before[k] == p;
        assert(all[k] == p);
    } else {
        let here = run_links(s, tolerance, p.sig);
        let link = RunLinkView { target: p.target, basis: p.basis };
        let k = choose|k: int| 0 <= k < here.len() && here[k] == link;
        assert(pending_of(p.sig, here)[k] == p);
        assert(all[before.len() + k] == p);
    }
}

pub proof fn lemma_link_members(s: Seq<RecordView>, tolerance: int, sig: Seq<char>, l: RunLinkView)
    ensures
        run_links(s, tolerance, sig).contains(l) <==> (match l.basis {
            CorrelationBasis::ContentHashJoin => hash_targets(s, sig).contains(l.target),
            CorrelationBasis::TemporalCorrelation => temporal_targets(s, tolerance, sig).contains(
                l.target,
            ),
        }),
{
    let all = unsorted_run_links(s, tolerance, sig);
    law_sorted_by_members(all, all.map_values(|l: RunLinkView| run_link_key(l)));
    let by_hash = hash_targets(s, sig);
    let by_time = temporal_targets(s, tolerance, sig);
    if all.contains(l) {
        let i = choose|i: int| 0 <= i < all.len() && all[i] == l;
        if i < by_hash.len() {
            assert(all[i].target == by_hash[i]);
        } else {
            assert(all[i].target == by_time[i - by_hash.len()]);
        }
    }
    if l.basis == CorrelationBasis::ContentHashJoin && by_hash.contains(l.target) {
        let i = choose|i: int| 0 <= i < by_hash.len() && by_hash[i] == l.target;
        assert(all[i] == l);
    }
    if l.basis == CorrelationBasis::TemporalCorrelation && by_time.contains(l.target) {
        let i = choose|i: int| 0 <= i < by_time.len() && by_time[i] == l.target;
        assert(all[by_hash.len() + i] == l);
    }
}

proof fn lemma_wider_links(s: Seq<RecordView>, narrow: int, wide: int, p: PendingView)
    requires
        0 <= narrow <= wide,
        pending_runs(s, narrow, signature_ids(s)).contains(p),
    ensures
        pending_runs(s, wide, signature_ids(s)).contains(p),
{
    let l = RunLinkView { target: p.target, basis: p.basis };
    lemma_pending_runs(s, narrow, signature_ids(s), p);
    lemma_link_members(s, narrow, p.sig, l);
    lemma_link_members(s, wide, p.sig, l);
    law_wider_tolerance_keeps_links(s, narrow, wide, p.sig);
    lemma_pending_back(s, wide, signature_ids(s), p);
}

/// A wider tolerance keeps every edge to a run, and the edges that rest on equal bytes are the same
/// under both. Of two links with one identity only the first becomes an edge, so no two may share one.
pub proof fn law_wider_tolerance_keeps_edges(s: Seq<RecordView>, narrow: int, wide: int)
    requires
        0 <= narrow <= wide,
        run_identities_differ(s, wide),
    ensures
        forall|r: RecordView| #[trigger]
            new_edges(s, narrow).contains(r) && is_run_edge(r) ==> new_edges(s, wide).contains(r),
        forall|r: RecordView|
            is_hash_edge(r) ==> (#[trigger] new_edges(s, wide).contains(r) <==> new_edges(
                s,
                narrow,
            ).contains(r)),
{
    let sigs = signature_ids(s);
    assert forall|r: RecordView| #[trigger] links_a_run(s, narrow, r) implies links_a_run(
        s,
        wide,
        r,
    ) by {
        let p = choose|p: PendingView|
            pending_runs(s, narrow, sigs).contains(p) && r == #[trigger] run_edge(p);
        lemma_wider_links(s, narrow, wide, p);
    }
    law_run_edges_are_the_run_links(s, wide);
    law_run_edges_are_the_run_links(s, narrow);
    assert forall|r: RecordView| #[trigger]
        new_edges(s, narrow).contains(r) && is_run_edge(r) implies new_edges(s, wide).contains(
        r,
    ) by {
        assert(links_a_run(s, narrow, r));
        assert(links_a_run(s, wide, r));
    }
    assert forall|r: RecordView| is_hash_edge(r) implies (#[trigger] new_edges(s, wide).contains(
        r,
    ) <==> new_edges(s, narrow).contains(r)) by {
        if new_edges(s, wide).contains(r) {
            assert(links_a_run(s, wide, r));
            let p = choose|p: PendingView|
                pending_runs(s, wide, sigs).contains(p) && r == #[trigger] run_edge(p);
            let l = RunLinkView { target: p.target, basis: p.basis };
            lemma_pending_runs(s, wide, sigs, p);
            lemma_link_members(s, wide, p.sig, l);
            lemma_link_members(s, narrow, p.sig, l);
            lemma_pending_back(s, narrow, sigs, p);
            assert(links_a_run(s, narrow, r));
        }
    }
}

/// Whatever the identities, a wider tolerance keeps that of every edge to a run.
pub proof fn law_wider_tolerance_keeps_identities(
    s: Seq<RecordView>,
    narrow: int,
    wide: int,
    r: RecordView,
)
    requires
        0 <= narrow <= wide,
        new_edges(s, narrow).contains(r),
        is_run_edge(r),
    ensures
        exists|w: RecordView| #[trigger]
            new_edges(s, wide).contains(w) && is_run_edge(w) && w.id() == r.id(),
{
    let sigs = signature_ids(s);
    let none = Seq::<RecordView>::empty();
    let before = pending_runs(s, narrow, sigs);
    let links = pending_runs(s, wide, sigs);
    let runs = with_edges(none, links, false);
    let all = unsorted_edges(s, wide);
    law_sorted_by_members(all, all.map_values(|r: RecordView| edge_key(r)));
    lemma_edge_origin(s, narrow, r);
    let k = choose|k: int|
        0 <= k < before.len() && r == RecordView::Edge(pending_edge(#[trigger] before[k], false));
    assert(before.contains(before[k]));
    lemma_wider_links(s, narrow, wide, before[k]);
    let j = choose|j: int| 0 <= j < links.len() && links[j] == before[k];
    lemma_with_edges(none, links, false);
    lemma_with_edges_keeps(none, links, false);
    lemma_with_edges_keeps(runs, pending_tasks(s, wide, sigs), true);
    assert(has_edge_id(runs, pending_edge(links[j], false).id));
    let i = choose|i: int| 0 <= i < runs.len() && (#[trigger] runs[i]).id() == r.id();
    let w = runs[i];
    assert(runs.contains(w));
    let m = choose|m: int|
        0 <= m < links.len() && w == RecordView::Edge(pending_edge(#[trigger] links[m], false));
    assert(is_run_edge(w));
    assert(all.contains(w));
    assert(new_edges(s, wide).contains(w));
}

/// Below zero a tolerance counts as zero.
pub proof fn law_negative_tolerance_counts_as_zero(opts: LinkLogsOptions, strict: LinkLogsOptions)
    requires
        opts.tolerance_seconds < 0,
        strict.tolerance_seconds == 0,
    ensures
        opts.tolerance() == strict.tolerance(),
        forall|s: Seq<RecordView>, at_commit: Option<Seq<char>>| #[trigger]
            linked_records(s, opts.tolerance() as int, at_commit) == linked_records(
                s,
                strict.tolerance() as int,
                at_commit,
            ),
{
}

} // verus!
