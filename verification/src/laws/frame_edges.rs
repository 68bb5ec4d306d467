//! The edges that stack frames leave.
use vstd::prelude::*;

use crate::ir::{
    EdgeLabel, FrameResolution, LogPayloadView, NodeKind, NodeRecordView, RecordView,
    StackFrameView,
};
use crate::log_link::ids_of_kind;
use crate::log_resolve::{
    classified, code_view, edge_key, edges_of_frames, external, frame_edges, frames_from, frames_of,
    marker_id, new_edges, pending_edges, resolution_edge, signature_ids, CodeView, OutcomeView,
    PendingView,
};
use crate::order::{law_distinct, law_sorted_by_members};
use crate::text::{has, starts};

verus! {

/// The record at `i` is the first of its signature, and has the frames.
pub open spec fn has_frames(
    s: Seq<RecordView>,
    i: int,
    sig: NodeRecordView,
    frames: Seq<StackFrameView>,
) -> bool {
    &&& 0 <= i < s.len()
    &&& s[i] == RecordView::Node(sig)
    &&& sig.kind == NodeKind::ErrorSignature
    &&& sig.log matches Some(LogPayloadView::ErrorSignature(p)) && p.frames == Some(frames)
    &&& forall|j: int| 0 <= j < i ==> (#[trigger] s[j]).id() != sig.id
}

proof fn lemma_frames_from(
    s: Seq<RecordView>,
    i: int,
    sig: NodeRecordView,
    frames: Seq<StackFrameView>,
    at: int,
)
    requires
        has_frames(s, i, sig, frames),
        0 <= at <= i,
    ensures
        frames_from(s, sig.id, at) == frames,
    decreases i - at,
{
    if at < i {
        lemma_frames_from(s, i, sig, frames, at + 1);
    }
}

proof fn lemma_signature_id(s: Seq<RecordView>, i: int)
    requires
        0 <= i < s.len(),
        s[i] matches RecordView::Node(n) && n.kind == NodeKind::ErrorSignature,
    ensures
        ids_of_kind(s, NodeKind::ErrorSignature).contains(s[i].id()),
    decreases s.len(),
{
    let rest = s.drop_last();
    let all = ids_of_kind(s, NodeKind::ErrorSignature);
    if i < rest.len() {
        assert(rest[i] == s[i]);
        lemma_signature_id(rest, i);
        let before = ids_of_kind(rest, NodeKind::ErrorSignature);
        let k = choose|k: int| 0 <= k < before.len() && before[k] == s[i].id();
        assert(all[k] == s[i].id());
    } else {
        assert(all[all.len() - 1] == s[i].id());
    }
}

proof fn lemma_frame_edges(
    v: CodeView,
    sig: Seq<char>,
    frames: Seq<StackFrameView>,
    k: int,
    p: PendingView,
)
    requires
        0 <= k < frames.len(),
        frame_edges(sig, frames[k], classified(v.symbols, v.files, frames[k])).contains(p),
    ensures
        edges_of_frames(v, sig, frames).contains(p),
    decreases frames.len(),
{
    let rest = frames.drop_last();
    let before = edges_of_frames(v, sig, rest);
    let all = edges_of_frames(v, sig, frames);
    if k < rest.len() {
        assert(rest[k] == frames[k]);
        lemma_frame_edges(v, sig, rest, k, p);
        let m = choose|m: int| 0 <= m < before.len() && before[m] == p;
        assert(all[m] == p);
    } else {
        let here = frame_edges(sig, frames[k], classified(v.symbols, v.files, frames[k]));
        let m = choose|m: int| 0 <= m < here.len() && here[m] == p;
        assert(all[before.len() + m] == p);
    }
}

proof fn lemma_pending_edges(
    s: Seq<RecordView>,
    v: CodeView,
    sigs: Seq<Seq<char>>,
    sig: Seq<char>,
    p: PendingView,
)
    requires
        sigs.contains(sig),
        edges_of_frames(v, sig, frames_of(s, sig)).contains(p),
    ensures
        pending_edges(s, v, sigs).contains(p),
    decreases sigs.len(),
{
    let rest = sigs.drop_last();
    let before = pending_edges(s, v, rest);
    let all = pending_edges(s, v, sigs);
    if sigs.last() == sig {
        let here = edges_of_frames(v, sig, frames_of(s, sig));
        let m = choose|m: int| 0 <= m < here.len() && here[m] == p;
        assert(all[before.len() + m] == p);
    } else {
        let x = choose|x: int| 0 <= x < sigs.len() && sigs[x] == sig;
        assert(rest[x] == sig);
        lemma_pending_edges(s, v, rest, sig, p);
        let m = choose|m: int| 0 <= m < before.len() && before[m] == p;
        assert(all[m] == p);
    }
}

proof fn lemma_new_edge(
    s: Seq<RecordView>,
    at: Option<Seq<char>>,
    i: int,
    sig: NodeRecordView,
    frames: Seq<StackFrameView>,
    k: int,
    p: PendingView,
)
    requires
        has_frames(s, i, sig, frames),
        0 <= k < frames.len(),
        ({
            let v = code_view(s, at);
            frame_edges(sig.id, frames[k], classified(v.symbols, v.files, frames[k])).contains(p)
        }),
    ensures
        new_edges(s, at).contains(RecordView::Edge(resolution_edge(p))),
{
    let v = code_view(s, at);
    lemma_frames_from(s, i, sig, frames, 0);
    lemma_signature_id(s, i);
    law_distinct(ids_of_kind(s, NodeKind::ErrorSignature));
    assert(signature_ids(s).contains(sig.id));
    lemma_frame_edges(v, sig.id, frames, k, p);
    lemma_pending_edges(s, v, signature_ids(s), sig.id, p);
    let pending = pending_edges(s, v, signature_ids(s));
    let m = choose|m: int| 0 <= m < pending.len() && pending[m] == p;
    let all = pending.map_values(|p: PendingView| RecordView::Edge(resolution_edge(p)));
    assert(all[m] == RecordView::Edge(resolution_edge(p)));
    law_sorted_by_members(all, all.map_values(|r: RecordView| edge_key(r)));
}

/// An edge of the result from the signature, for a frame.
pub open spec fn leads(
    r: RecordView,
    sig: Seq<char>,
    f: StackFrameView,
    target: Seq<char>,
    resolution: FrameResolution,
    confidence: Seq<char>,
) -> bool {
    r matches RecordView::Edge(e) && {
        &&& e.label == EdgeLabel::FrameResolvesTo
        &&& e.source == sig
        &&& e.target == target
        &&& e.frame_index == Some(f.frame_index)
        &&& e.frame_resolution == Some(resolution)
        &&& e.confidence == Some(confidence)
    }
}

/// Every frame that is not external leaves its edges: to the one symbol that it binds to, surely; to
/// each of several, or to a file alone, half surely; and to its marker where it binds to nothing.
pub proof fn law_every_frame_leaves_its_edges(
    s: Seq<RecordView>,
    at: Option<Seq<char>>,
    i: int,
    sig: NodeRecordView,
    frames: Seq<StackFrameView>,
    k: int,
)
    requires
        has_frames(s, i, sig, frames),
        0 <= k < frames.len(),
        !external(frames[k]),
    ensures
        ({
            let v = code_view(s, at);
            let f = frames[k];
            match classified(v.symbols, v.files, f) {
                OutcomeView::Resolved(c) => exists|r: RecordView|
                    new_edges(s, at).contains(r) && #[trigger] leads(
                        r,
                        sig.id,
                        f,
                        c.target,
                        FrameResolution::Resolved,
                        "1.0"@,
                    ),
                OutcomeView::PathOnly(c) => exists|r: RecordView|
                    new_edges(s, at).contains(r) && #[trigger] leads(
                        r,
                        sig.id,
                        f,
                        c.target,
                        FrameResolution::PathOnly,
                        "0.5"@,
                    ),
                OutcomeView::Ambiguous(cs) => forall|m: int|
                    0 <= m < cs.len() ==> exists|r: RecordView|
                        new_edges(s, at).contains(r) && #[trigger] leads(
                            r,
                            sig.id,
                            f,
                            (#[trigger] cs[m]).target,
                            FrameResolution::Ambiguous,
                            "0.5"@,
                        ),
                OutcomeView::Unresolved => exists|r: RecordView|
                    new_edges(s, at).contains(r) && #[trigger] leads(
                        r,
                        sig.id,
                        f,
                        marker_id(f),
                        FrameResolution::Unresolved,
                        "0.0"@,
                    ),
                OutcomeView::External => false,
            }
        }),
{
    let v = code_view(s, at);
    let f = frames[k];
    let outcome = classified(v.symbols, v.files, f);
    let edges = frame_edges(sig.id, f, outcome);
    match outcome {
        OutcomeView::Ambiguous(cs) => {
            assert forall|m: int| 0 <= m < cs.len() implies exists|r: RecordView|
                new_edges(s, at).contains(r) && #[trigger] leads(
                    r,
                    sig.id,
                    f,
                    (#[trigger] cs[m]).target,
                    FrameResolution::Ambiguous,
                    "0.5"@,
                ) by {
                let p = edges[m];
                assert(edges.contains(p));
                lemma_new_edge(s, at, i, sig, frames, k, p);
                assert(leads(
                    RecordView::Edge(resolution_edge(p)),
                    sig.id,
                    f,
                    cs[m].target,
                    FrameResolution::Ambiguous,
                    "0.5"@,
                ));
            }
        },
        _ => {
            let p = edges[0];
            assert(edges.contains(p));
            lemma_new_edge(s, at, i, sig, frames, k, p);
            assert(leads(
                RecordView::Edge(resolution_edge(p)),
                sig.id,
                f,
                p.target_id,
                p.resolution,
                p.confidence,
            ));
        },
    }
}

/// A frame that names no module is external exactly where its file is one of the toolchain, of a
/// registry or of a checkout.
pub proof fn law_external_files(f: StackFrameView, path: Seq<char>)
    requires
        f.module is None,
        f.file_path == Some(path),
    ensures
        external(f) == (starts(path, "rustc/"@) || starts(path, "registry/"@) || starts(
            path,
            ".cargo/"@,
        ) || starts(path, ".rustup/"@) || starts(path, "git/"@) || has(path, "/registry/"@) || has(
            path,
            "/rustc/"@,
        )),
{
}

} // verus!
