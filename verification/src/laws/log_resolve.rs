//! What the resolution of stack frames keeps.
use vstd::prelude::*;

use crate::ir::{
    EdgeLabel, EvidenceLinkView, FrameResolution, NodeRecordView, RecordView, StackFrameView,
};
use crate::laws::log_link::lemma_log_id_domain;
use crate::log_link::{id_key, in_log_domain};
use crate::log_resolve::{
    add_marker, bound_to, citation_key, citations, classified, code_view, edge_key,
    edges_of_frames, emitted_nodes, enriched, external, frame_citation, frame_count, frame_edges,
    frames_of, has_marker,
    marker, marker_id, markers, markers_of, named, new_edges, pending_edges, resolution_edge,
    resolved_nodes, signature_ids, simple_name_of, with_markers, CodeView, OutcomeView,
    PendingView,
};
use crate::order::law_sorted_by_members;
use crate::query::{enclosing_symbol, encloses, file_at, tighter};
use crate::text::decimal_of;

verus! {

/// The symbol that a place binds to encloses it, and no other symbol around it is tighter; there is
/// none only where no symbol encloses the place.
pub proof fn law_enclosing_symbol_is_tightest(
    symbols: Seq<NodeRecordView>,
    path: Seq<char>,
    line: int,
)
    ensures
        (match enclosing_symbol(symbols, path, line) {
            Some(n) => {
                &&& symbols.contains(n)
                &&& encloses(n, path, line)
                &&& forall|i: int|
                    0 <= i < symbols.len() && encloses(#[trigger] symbols[i], path, line)
                        ==> !tighter(symbols[i].span->0, n.span->0)
            },
            None => forall|i: int|
                0 <= i < symbols.len() ==> !encloses(#[trigger] symbols[i], path, line),
        }),
    decreases symbols.len(),
{
    if symbols.len() > 0 {
        let rest = symbols.drop_last();
        law_enclosing_symbol_is_tightest(rest, path, line);
        assert forall|i: int| 0 <= i < rest.len() implies rest[i] == #[trigger] symbols[i] by {}
        assert(symbols.contains(symbols[symbols.len() - 1]));
        if let Some(n) = enclosing_symbol(rest, path, line) {
            let k = choose|k: int| 0 <= k < rest.len() && rest[k] == n;
            assert(symbols[k] == n);
        }
    }
}

/// A frame is never bound to an invented target: what it resolves to is a symbol or a file of the
/// code graph.
pub proof fn law_targets_are_in_the_graph(v: CodeView, f: StackFrameView)
    ensures
        (match classified(v.symbols, v.files, f) {
            OutcomeView::Resolved(c) => exists|i: int|
                0 <= i < v.symbols.len() && (#[trigger] v.symbols[i]).id == c.target,
            OutcomeView::PathOnly(c) => exists|i: int|
                0 <= i < v.files.len() && (#[trigger] v.files[i]).id == c.target,
            OutcomeView::Ambiguous(cs) => forall|k: int|
                0 <= k < cs.len() ==> exists|i: int|
                    0 <= i < v.symbols.len() && (#[trigger] v.symbols[i]).id == (
                    #[trigger] cs[k]).target,
            _ => true,
        }),
{
    if f.file_path is Some && f.line is Some {
        let (path, line) = (f.file_path->0, f.line->0 as int);
        law_enclosing_symbol_is_tightest(v.symbols, path, line);
        if let Some(n) = enclosing_symbol(v.symbols, path, line) {
            let i = choose|i: int| 0 <= i < v.symbols.len() && v.symbols[i] == n;
            assert(v.symbols[i].id == n.id);
        }
        lemma_file_at(v.files, path, 0);
    } else if let Some(name) = simple_name_of(f) {
        lemma_named(v.symbols, name);
    }
}

proof fn lemma_file_at(files: Seq<NodeRecordView>, path: Seq<char>, i: int)
    requires
        0 <= i,
    ensures
        file_at(files, path, i) matches Some(n) ==> exists|k: int|
            0 <= k < files.len() && (#[trigger] files[k]).id == n.id,
    decreases files.len() - i,
{
    if i < files.len() {
        lemma_file_at(files, path, i + 1);
    }
}

proof fn lemma_named(symbols: Seq<NodeRecordView>, name: Seq<char>)
    ensures
        forall|k: int|
            0 <= k < named(symbols, name).len() ==> exists|i: int|
                0 <= i < symbols.len() && (#[trigger] symbols[i]).id == (#[trigger] named(
                    symbols,
                    name,
                )[k]).target,
    decreases symbols.len(),
{
    if symbols.len() > 0 {
        let rest = symbols.drop_last();
        lemma_named(rest, name);
        let (before, all) = (named(rest, name), named(symbols, name));
        assert forall|k: int| 0 <= k < all.len() implies exists|i: int|
            0 <= i < symbols.len() && (#[trigger] symbols[i]).id == (#[trigger] all[k]).target by {
            if k < before.len() {
                assert(all[k] == before[k]);
                let i = choose|i: int|
                    0 <= i < rest.len() && (#[trigger] rest[i]).id == before[k].target;
                assert(symbols[i].id == all[k].target);
            } else {
                assert(symbols[symbols.len() - 1].id == all[k].target);
            }
        }
    }
}

/// A frame of the standard library or of a dependency binds to nothing and leaves no edge.
pub proof fn law_external_frames_leave_no_edge(v: CodeView, sig: Seq<char>, f: StackFrameView)
    requires
        external(f),
    ensures
        frame_edges(sig, f, classified(v.symbols, v.files, f)).len() == 0,
{
}

/// Where a name alone leads to several symbols, each of them gets an edge, and none is chosen.
pub proof fn law_every_candidate_gets_an_edge(v: CodeView, sig: Seq<char>, f: StackFrameView)
    requires
        !external(f),
        f.file_path is None || f.line is None,
        simple_name_of(f) is Some,
        named(v.symbols, simple_name_of(f)->0).len() >= 2,
    ensures
        ({
            let found = named(v.symbols, simple_name_of(f)->0);
            frame_edges(sig, f, classified(v.symbols, v.files, f)) == found.map_values(
                |c| bound_to(sig, f, FrameResolution::Ambiguous, c),
            )
        }),
{
    let found = named(v.symbols, simple_name_of(f)->0);
    assert(frame_edges(sig, f, classified(v.symbols, v.files, f)) =~= found.map_values(
        |c| bound_to(sig, f, FrameResolution::Ambiguous, c),
    ));
}

/// A frame that is not external always leaves at least one edge: where it binds to nothing, to a
/// marker that carries its text.
pub proof fn law_inner_frames_leave_an_edge(v: CodeView, sig: Seq<char>, f: StackFrameView)
    requires
        !external(f),
    ensures
        ({
            let outcome = classified(v.symbols, v.files, f);
            let edges = frame_edges(sig, f, outcome);
            &&& edges.len() >= 1
            &&& outcome is Unresolved ==> edges.len() == 1 && edges[0].target_id == marker_id(f)
            &&& forall|i: int|
                0 <= i < edges.len() ==> (#[trigger] edges[i]).signature_id == sig
                    && edges[i].frame_index == f.frame_index
        }),
{
}

/// Every edge says how its frame was bound and which frame that is, and is in the log domain.
pub open spec fn sound_edge(r: RecordView) -> bool {
    match r {
        RecordView::Edge(e) => {
            &&& in_log_domain(r)
            &&& e.label == EdgeLabel::FrameResolvesTo
            &&& e.frame_resolution is Some
            &&& e.frame_index is Some
        },
        _ => false,
    }
}

pub proof fn law_every_edge_is_labelled(s: Seq<RecordView>, at: Option<Seq<char>>)
    ensures
        forall|i: int| 0 <= i < new_edges(s, at).len() ==> sound_edge(
            #[trigger] new_edges(s, at)[i],
        ),
{
    let pending = pending_edges(s, code_view(s, at), signature_ids(s));
    let all = pending.map_values(|p: PendingView| RecordView::Edge(resolution_edge(p)));
    law_sorted_by_members(all, all.map_values(|r: RecordView| edge_key(r)));
    let out = new_edges(s, at);
    assert forall|i: int| 0 <= i < out.len() implies sound_edge(#[trigger] out[i]) by {
        assert(out.contains(out[i]));
        let j = choose|j: int| 0 <= j < all.len() && all[j] == out[i];
        let p = pending[j];
        assert(out[i] == RecordView::Edge(resolution_edge(p)));
        lemma_log_id_domain(
            seq![
                "edge"@,
                EdgeLabel::FrameResolvesTo.name(),
                p.signature_id,
                decimal_of(p.frame_index as nat),
                p.target_id,
                p.resolution.name(),
            ],
        );
    }
}

proof fn lemma_emitted_nodes(s: Seq<RecordView>, at: Option<Seq<char>>, n: nat)
    requires
        n <= s.len(),
    ensures
        forall|i: int| 0 <= i < emitted_nodes(s, at, n).len() ==> in_log_domain(
            #[trigger] emitted_nodes(s, at, n)[i],
        ),
    decreases n,
{
    if n > 0 {
        lemma_emitted_nodes(s, at, (n - 1) as nat);
        let before = emitted_nodes(s, at, (n - 1) as nat);
        let out = emitted_nodes(s, at, n);
        let last = enriched(s, at, s[n - 1]);
        assert(last.id() == s[n - 1].id());
        assert forall|i: int| 0 <= i < out.len() implies in_log_domain(#[trigger] out[i]) by {
            if i < before.len() {
                assert(out[i] == before[i]);
            } else {
                assert(out[i] == last);
            }
        }
    }
}

/// Everything in a list is in the log domain.
pub open spec fn all_in_log_domain(s: Seq<RecordView>) -> bool {
    forall|i: int| 0 <= i < s.len() ==> in_log_domain(#[trigger] s[i])
}

proof fn lemma_with_markers(v: CodeView, start: Seq<RecordView>, frames: Seq<StackFrameView>)
    requires
        all_in_log_domain(start),
    ensures
        all_in_log_domain(with_markers(v, start, frames)),
    decreases frames.len(),
{
    if frames.len() > 0 {
        lemma_with_markers(v, start, frames.drop_last());
        let f = frames.last();
        let before = with_markers(v, start, frames.drop_last());
        lemma_log_id_domain(
            seq!["diagnostic"@, "unresolved-frame"@, crate::log_resolve::frame_text(f)],
        );
        assert(in_log_domain(RecordView::Node(marker(f))));
        assert(all_in_log_domain(add_marker(before, f)));
    }
}

proof fn lemma_markers_of(s: Seq<RecordView>, v: CodeView, sigs: Seq<Seq<char>>)
    ensures
        all_in_log_domain(markers_of(s, v, sigs)),
    decreases sigs.len(),
{
    if sigs.len() > 0 {
        lemma_markers_of(s, v, sigs.drop_last());
        lemma_with_markers(v, markers_of(s, v, sigs.drop_last()), frames_of(s, sigs.last()));
    }
}

proof fn lemma_sorted_stays(all: Seq<RecordView>)
    requires
        all_in_log_domain(all),
    ensures
        all_in_log_domain(
            crate::order::sorted_by(all, all.map_values(|r: RecordView| id_key(r))),
        ),
{
    let keys = all.map_values(|r: RecordView| id_key(r));
    law_sorted_by_members(all, keys);
    let out = crate::order::sorted_by(all, keys);
    assert forall|i: int| 0 <= i < out.len() implies in_log_domain(#[trigger] out[i]) by {
        assert(out.contains(out[i]));
        let j = choose|j: int| 0 <= j < all.len() && all[j] == out[i];
        assert(in_log_domain(all[j]));
    }
}

/// Records of the code graph are read and never come back: everything that is emitted is in the
/// log domain.
pub proof fn law_only_the_log_domain_is_emitted(s: Seq<RecordView>, at: Option<Seq<char>>)
    ensures
        all_in_log_domain(resolved_nodes(s, at) + new_edges(s, at)),
{
    lemma_emitted_nodes(s, at, s.len());
    lemma_markers_of(s, code_view(s, at), signature_ids(s));
    lemma_sorted_stays(markers_of(s, code_view(s, at), signature_ids(s)));
    let nodes = emitted_nodes(s, at, s.len());
    let extra = markers(s, at);
    assert forall|i: int| 0 <= i < (nodes + extra).len() implies in_log_domain(
        #[trigger] (nodes + extra)[i],
    ) by {
        if i >= nodes.len() {
            assert((nodes + extra)[i] == extra[i - nodes.len()]);
        } else {
            assert((nodes + extra)[i] == nodes[i]);
        }
    }
    lemma_sorted_stays(nodes + extra);
    law_every_edge_is_labelled(s, at);
    let a = resolved_nodes(s, at);
    let b = new_edges(s, at);
    assert forall|i: int| 0 <= i < (a + b).len() implies in_log_domain(#[trigger] (a + b)[i]) by {
        if i >= a.len() {
            assert((a + b)[i] == b[i - a.len()]);
            assert(sound_edge(b[i - a.len()]));
        } else {
            assert((a + b)[i] == a[i]);
        }
    }
}

/// The edges and the citations of a signature agree: for every binding of its frames there is one
/// citation, and there are no others.
pub proof fn law_bindings_are_cited(s: Seq<RecordView>, at: Option<Seq<char>>, sig: Seq<char>)
    ensures
        ({
            let bound = edges_of_frames(code_view(s, at), sig, frames_of(s, sig));
            &&& citations(s, at, sig).len() == bound.len()
            &&& forall|l: EvidenceLinkView| #[trigger]
                citations(s, at, sig).contains(l) <==> exists|i: int|
                    0 <= i < bound.len() && frame_citation(#[trigger] bound[i], at) == l
        }),
{
    let bound = edges_of_frames(code_view(s, at), sig, frames_of(s, sig));
    let all = bound.map_values(|p: PendingView| frame_citation(p, at));
    law_sorted_by_members(all, all.map_values(|l: EvidenceLinkView| citation_key(l)));
    assert forall|l: EvidenceLinkView| #[trigger] citations(s, at, sig).contains(
        l,
    ) <==> exists|i: int|
        0 <= i < bound.len() && frame_citation(#[trigger] bound[i], at) == l by {
        if all.contains(l) {
            let i = choose|i: int| 0 <= i < all.len() && all[i] == l;
            assert(frame_citation(bound[i], at) == l);
        }
        if exists|i: int| 0 <= i < bound.len() && frame_citation(#[trigger] bound[i], at) == l {
            let i = choose|i: int|
                0 <= i < bound.len() && frame_citation(#[trigger] bound[i], at) == l;
            assert(all[i] == l);
        }
    }
}

/// Every frame of a signature is counted in exactly one of the five ways.
pub proof fn law_every_frame_is_counted_once(v: CodeView, frames: Seq<StackFrameView>)
    ensures
        frame_count(v, frames, Some(FrameResolution::Resolved)) + frame_count(
            v,
            frames,
            Some(FrameResolution::Ambiguous),
        ) + frame_count(v, frames, Some(FrameResolution::PathOnly)) + frame_count(
            v,
            frames,
            Some(FrameResolution::Unresolved),
        ) + frame_count(v, frames, None) == frames.len(),
    decreases frames.len(),
{
    if frames.len() > 0 {
        law_every_frame_is_counted_once(v, frames.drop_last());
    }
}

proof fn lemma_markers_stay(
    v: CodeView,
    start: Seq<RecordView>,
    frames: Seq<StackFrameView>,
    id: Seq<char>,
)
    requires
        has_marker(start, id),
    ensures
        has_marker(with_markers(v, start, frames), id),
    decreases frames.len(),
{
    if frames.len() > 0 {
        lemma_markers_stay(v, start, frames.drop_last(), id);
        lemma_add_marker(with_markers(v, start, frames.drop_last()), frames.last(), id);
    }
}

proof fn lemma_add_marker(before: Seq<RecordView>, f: StackFrameView, id: Seq<char>)
    requires
        has_marker(before, id) || marker_id(f) == id,
    ensures
        has_marker(add_marker(before, f), id),
{
    let after = add_marker(before, f);
    if has_marker(before, id) {
        let i = choose|i: int| 0 <= i < before.len() && (#[trigger] before[i]).id() == id;
        assert(after[i].id() == id);
    } else {
        assert(after[after.len() - 1].id() == id);
    }
}

proof fn lemma_frames_have_markers(
    v: CodeView,
    start: Seq<RecordView>,
    sig: Seq<char>,
    frames: Seq<StackFrameView>,
    i: int,
)
    requires
        0 <= i < edges_of_frames(v, sig, frames).len(),
        edges_of_frames(v, sig, frames)[i].resolution == FrameResolution::Unresolved,
    ensures
        has_marker(with_markers(v, start, frames), edges_of_frames(v, sig, frames)[i].target_id),
    decreases frames.len(),
{
    let rest = frames.drop_last();
    let f = frames.last();
    let before = edges_of_frames(v, sig, rest);
    let id = edges_of_frames(v, sig, frames)[i].target_id;
    if i < before.len() {
        lemma_frames_have_markers(v, start, sig, rest, i);
        lemma_add_marker(with_markers(v, start, rest), f, id);
    } else {
        let outcome = classified(v.symbols, v.files, f);
        assert(edges_of_frames(v, sig, frames)[i] == frame_edges(sig, f, outcome)[i
            - before.len()]);
        assert(outcome is Unresolved);
        lemma_add_marker(with_markers(v, start, rest), f, id);
    }
}

proof fn lemma_edges_have_markers(s: Seq<RecordView>, v: CodeView, sigs: Seq<Seq<char>>, i: int)
    requires
        0 <= i < pending_edges(s, v, sigs).len(),
        pending_edges(s, v, sigs)[i].resolution == FrameResolution::Unresolved,
    ensures
        has_marker(markers_of(s, v, sigs), pending_edges(s, v, sigs)[i].target_id),
    decreases sigs.len(),
{
    let rest = sigs.drop_last();
    let before = pending_edges(s, v, rest);
    let frames = frames_of(s, sigs.last());
    let start = markers_of(s, v, rest);
    if i < before.len() {
        lemma_edges_have_markers(s, v, rest, i);
        lemma_markers_stay(v, start, frames, before[i].target_id);
    } else {
        lemma_frames_have_markers(v, start, sigs.last(), frames, i - before.len());
    }
}

/// An edge of a frame that binds to nothing leads to a marker that is emitted with it.
pub proof fn law_unresolved_edges_have_their_marker(
    s: Seq<RecordView>,
    at: Option<Seq<char>>,
    i: int,
)
    requires
        0 <= i < new_edges(s, at).len(),
        new_edges(s, at)[i] matches RecordView::Edge(e) && e.frame_resolution == Some(
            FrameResolution::Unresolved,
        ),
    ensures
        has_marker(resolved_nodes(s, at), new_edges(s, at)[i]->Edge_0.target),
{
    let v = code_view(s, at);
    let sigs = signature_ids(s);
    let pending = pending_edges(s, v, sigs);
    let all = pending.map_values(|p: PendingView| RecordView::Edge(resolution_edge(p)));
    law_sorted_by_members(all, all.map_values(|r: RecordView| edge_key(r)));
    assert(new_edges(s, at).contains(new_edges(s, at)[i]));
    let j = choose|j: int| 0 <= j < all.len() && all[j] == new_edges(s, at)[i];
    assert(all[j] == RecordView::Edge(resolution_edge(pending[j])));
    lemma_edges_have_markers(s, v, sigs, j);
    let id = pending[j].target_id;
    let found = markers_of(s, v, sigs);
    let m = choose|m: int| 0 <= m < found.len() && (#[trigger] found[m]).id() == id;
    law_sorted_by_members(found, found.map_values(|r: RecordView| id_key(r)));
    assert(found.contains(found[m]));
    assert(markers(s, at).contains(found[m]));
    let n = choose|n: int| 0 <= n < markers(s, at).len() && markers(s, at)[n] == found[m];
    let kept = emitted_nodes(s, at, s.len());
    let nodes = kept + markers(s, at);
    assert(nodes[kept.len() + n] == found[m]);
    assert(nodes.contains(found[m]));
    law_sorted_by_members(nodes, nodes.map_values(|r: RecordView| id_key(r)));
    let out = resolved_nodes(s, at);
    assert(out.contains(found[m]));
    let k = choose|k: int| 0 <= k < out.len() && out[k] == found[m];
    assert(out[k].id() == id);
}

} // verus!
