//! Which symbols a stack frame binds to.
use vstd::prelude::*;

use crate::ir::{
    EdgeLabel, EdgeRecordView, NodeKind, NodeRecordView, RecordView, SnapshotHeadView,
    StackFrameView,
};
use crate::laws::log_resolve::law_enclosing_symbol_is_tightest;
use crate::log_resolve::{classified, external, named, simple_name_of, OutcomeView};
use crate::order::{distinct, law_distinct};
use crate::query::{
    enclosing_symbol, file_at, in_view, is_repository, owner_of, owner_within, parent_from,
    repo_head, view_of, viewed, viewed_all, viewed_among,
};

verus! {

// ── The view ────────────────────────────────────────────────────────────────

/// A version of a record of this kind and identity.
pub open spec fn is_version(s: Seq<RecordView>, kind: NodeKind, id: Seq<char>, n: NodeRecordView) -> bool {
    s.contains(RecordView::Node(n)) && n.kind == kind && n.id == id
}

/// The record was read at the commit.
pub open spec fn read_at(n: NodeRecordView, commit: Seq<char>) -> bool {
    n.temporal matches Some(t) && t.git_commit == commit
}

/// A tombstone stands on the identity.
pub open spec fn is_buried(s: Seq<RecordView>, id: Seq<char>) -> bool {
    exists|i: int|
        0 <= i < s.len() && (#[trigger] s[i] matches RecordView::Tombstone(t) && t.deleted_id == id)
}

proof fn lemma_viewed_among(
    s: Seq<RecordView>,
    at: Option<Seq<char>>,
    kind: NodeKind,
    id: Seq<char>,
    n: nat,
)
    requires
        n <= s.len(),
    ensures
        (match viewed_among(s, at, kind, id, n) {
            Some(m) => is_version(s, kind, id, m) && in_view(s, at, m),
            None => forall|i: int|
                0 <= i < n ==> !(#[trigger] s[i] matches RecordView::Node(m) && m.kind == kind
                    && m.id == id && in_view(s, at, m)),
        }),
        viewed_among(s, at, kind, id, n) matches Some(m) ==> m.temporal is None || forall|i: int|
            0 <= i < n && (#[trigger] s[i] matches RecordView::Node(o) && o.kind == kind && o.id
                == id && in_view(s, at, o)) ==> s[i]->Node_0.temporal is Some,
    decreases n,
{
    if n > 0 {
        lemma_viewed_among(s, at, kind, id, (n - 1) as nat);
        assert(s.contains(s[n - 1]));
    }
}

proof fn lemma_viewed_all(
    s: Seq<RecordView>,
    at: Option<Seq<char>>,
    kind: NodeKind,
    ids: Seq<Seq<char>>,
)
    ensures
        forall|n: NodeRecordView| #[trigger]
            viewed_all(s, at, kind, ids).contains(n) <==> exists|i: int|
                0 <= i < ids.len() && viewed(s, at, kind, #[trigger] ids[i]) == Some(n),
    decreases ids.len(),
{
    if ids.len() > 0 {
        let rest = ids.drop_last();
        lemma_viewed_all(s, at, kind, rest);
        let before = viewed_all(s, at, kind, rest);
        let all = viewed_all(s, at, kind, ids);
        assert forall|n: NodeRecordView| #[trigger] all.contains(n) <==> exists|i: int|
            0 <= i < ids.len() && viewed(s, at, kind, #[trigger] ids[i]) == Some(n) by {
            if all.contains(n) {
                if before.contains(n) {
                    let i = choose|i: int|
                        0 <= i < rest.len() && viewed(s, at, kind, #[trigger] rest[i]) == Some(n);
                    assert(ids[i] == rest[i]);
                } else {
                    let k = choose|k: int| 0 <= k < all.len() && all[k] == n;
                    if k < before.len() {
                        assert(before[k] == n);
                    }
                    assert(viewed(s, at, kind, ids[ids.len() - 1]) == Some(n));
                }
            }
            if exists|i: int|
                0 <= i < ids.len() && viewed(s, at, kind, #[trigger] ids[i]) == Some(n) {
                let i = choose|i: int|
                    0 <= i < ids.len() && viewed(s, at, kind, #[trigger] ids[i]) == Some(n);
                if i < rest.len() {
                    assert(rest[i] == ids[i]);
                    assert(before.contains(n));
                    let k = choose|k: int| 0 <= k < before.len() && before[k] == n;
                    assert(all[k] == n);
                } else {
                    assert(all[all.len() - 1] == n);
                }
            }
        }
    }
}

proof fn lemma_ids(s: Seq<RecordView>, kind: NodeKind, n: NodeRecordView)
    requires
        s.contains(RecordView::Node(n)),
        n.kind == kind,
    ensures
        crate::log_link::ids_of_kind(s, kind).contains(n.id),
    decreases s.len(),
{
    let rest = s.drop_last();
    let all = crate::log_link::ids_of_kind(s, kind);
    let k = choose|k: int| 0 <= k < s.len() && s[k] == RecordView::Node(n);
    if k < rest.len() {
        assert(rest[k] == s[k]);
        lemma_ids(rest, kind, n);
        let before = crate::log_link::ids_of_kind(rest, kind);
        let m = choose|m: int| 0 <= m < before.len() && before[m] == n.id;
        assert(all[m] == n.id);
    } else {
        assert(all[all.len() - 1] == n.id);
    }
}

proof fn lemma_view_of(s: Seq<RecordView>, at: Option<Seq<char>>, kind: NodeKind, n: NodeRecordView)
    ensures
        view_of(s, at, kind).contains(n) ==> is_version(s, kind, n.id, n) && in_view(s, at, n)
            && viewed(s, at, kind, n.id) == Some(n),
        is_version(s, kind, n.id, n) && in_view(s, at, n) ==> exists|v: NodeRecordView| #[trigger]
            view_of(s, at, kind).contains(v) && v.id == n.id,
{
    let ids = distinct(crate::log_link::ids_of_kind(s, kind));
    lemma_viewed_all(s, at, kind, ids);
    if view_of(s, at, kind).contains(n) {
        let i = choose|i: int|
            0 <= i < ids.len() && viewed(s, at, kind, #[trigger] ids[i]) == Some(n);
        lemma_viewed_among(s, at, kind, ids[i], s.len());
    }
    if is_version(s, kind, n.id, n) && in_view(s, at, n) {
        lemma_ids(s, kind, n);
        law_distinct(crate::log_link::ids_of_kind(s, kind));
        assert(ids.contains(n.id));
        let i = choose|i: int| 0 <= i < ids.len() && ids[i] == n.id;
        lemma_viewed_among(s, at, kind, ids[i], s.len());
        let k = choose|k: int| 0 <= k < s.len() && s[k] == RecordView::Node(n);
        let v = viewed(s, at, kind, ids[i])->0;
        assert(viewed(s, at, kind, ids[i]) == Some(v));
        assert(view_of(s, at, kind).contains(v));
    }
}

/// At a commit, a record is in view exactly where it was read at that commit: one version of each
/// identity that has any.
pub proof fn law_view_at_a_commit(
    s: Seq<RecordView>,
    commit: Seq<char>,
    kind: NodeKind,
    n: NodeRecordView,
)
    ensures
        view_of(s, Some(commit), kind).contains(n) ==> s.contains(RecordView::Node(n)) && n.kind
            == kind && read_at(n, commit),
        s.contains(RecordView::Node(n)) && n.kind == kind && read_at(n, commit) ==> exists|
            v: NodeRecordView,
        | #[trigger]
            view_of(s, Some(commit), kind).contains(v) && v.id == n.id && read_at(v, commit),
{
    lemma_view_of(s, Some(commit), kind, n);
    if s.contains(RecordView::Node(n)) && n.kind == kind && read_at(n, commit) {
        let v = choose|v: NodeRecordView| #[trigger]
            view_of(s, Some(commit), kind).contains(v) && v.id == n.id;
        lemma_view_of(s, Some(commit), kind, v);
    }
}

/// Without a commit, nothing that a tombstone stands on is in view, and what the working tree holds
/// now is: where an identity has such a version, that version is the one in view.
pub proof fn law_current_view(s: Seq<RecordView>, kind: NodeKind, n: NodeRecordView)
    ensures
        view_of(s, None, kind).contains(n) ==> s.contains(RecordView::Node(n)) && n.kind == kind
            && !is_buried(s, n.id),
        s.contains(RecordView::Node(n)) && n.kind == kind && n.temporal is None && !is_buried(
            s,
            n.id,
        ) ==> exists|v: NodeRecordView| #[trigger]
            view_of(s, None, kind).contains(v) && v.id == n.id && v.temporal is None,
{
    lemma_view_of(s, None, kind, n);
    lemma_buried(s, n.id);
    if s.contains(RecordView::Node(n)) && n.kind == kind && n.temporal is None && !is_buried(
        s,
        n.id,
    ) {
        let v = choose|v: NodeRecordView| #[trigger]
            view_of(s, None, kind).contains(v) && v.id == n.id;
        lemma_view_of(s, None, kind, v);
        lemma_viewed_among(s, None, kind, v.id, s.len());
        let k = choose|k: int| 0 <= k < s.len() && s[k] == RecordView::Node(n);
        assert(s[k] == RecordView::Node(n));
    }
}

proof fn lemma_buried(s: Seq<RecordView>, id: Seq<char>)
    ensures
        is_buried(s, id) <==> crate::liveness::deleted(s, id),
{
    if is_buried(s, id) {
        let i = choose|i: int|
            0 <= i < s.len() && (#[trigger] s[i] matches RecordView::Tombstone(t) && t.deleted_id
                == id);
        assert(crate::liveness::removes(s[i], id));
    }
    if crate::liveness::deleted(s, id) {
        let i = choose|i: int| 0 <= i < s.len() && #[trigger] crate::liveness::removes(s[i], id);
        assert(s[i] is Tombstone);
    }
}

/// Of what was read at commits, the current view shows what was read at the commit that the
/// repository stands at.
pub proof fn law_current_view_of_history(s: Seq<RecordView>, kind: NodeKind, n: NodeRecordView)
    requires
        owner_of(s, n.id) is Some,
        repo_head(s, owner_of(s, n.id)->0) is Some,
    ensures
        view_of(s, None, kind).contains(n) && n.temporal is Some ==> read_at(
            n,
            repo_head(s, owner_of(s, n.id)->0)->0,
        ),
        s.contains(RecordView::Node(n)) && n.kind == kind && !is_buried(s, n.id) && read_at(
            n,
            repo_head(s, owner_of(s, n.id)->0)->0,
        ) ==> exists|v: NodeRecordView| #[trigger]
            view_of(s, None, kind).contains(v) && v.id == n.id,
{
    lemma_view_of(s, None, kind, n);
    lemma_buried(s, n.id);
}

/// A repository stands at the commit that its last stamped node names.
pub proof fn law_head_is_the_last_stamped(s: Seq<RecordView>, i: int, n: NodeRecordView, sha: Seq<char>)
    requires
        0 <= i < s.len(),
        s[i] == RecordView::Node(n),
        n.kind == NodeKind::Repository,
        n.repository.source_snapshot matches Some(x) && x.head == (SnapshotHeadView::Commit { sha }),
        forall|j: int| i < j < s.len() ==> (#[trigger] s[j]).id() != n.id,
    ensures
        repo_head(s, n.id) == Some(sha),
    decreases s.len(),
{
    if i < s.len() - 1 {
        let rest = s.drop_last();
        assert(rest[i] == s[i]);
        assert(s[s.len() - 1].id() != n.id);
        assert forall|j: int| i < j < rest.len() implies (#[trigger] rest[j]).id() != n.id by {
            assert(rest[j] == s[j]);
        }
        law_head_is_the_last_stamped(rest, i, n, sha);
    }
}

/// What a repository holds or defines directly belongs to it.
pub proof fn law_owner_is_found(s: Seq<RecordView>, i: int, edge: EdgeRecordView)
    requires
        0 <= i < s.len(),
        s[i] == RecordView::Edge(edge),
        edge.label == EdgeLabel::Contains || edge.label == EdgeLabel::Defines,
        forall|j: int|
            0 <= j < i ==> !(#[trigger] s[j] matches RecordView::Edge(e) && e.target
                == edge.target),
        exists|k: int|
            0 <= k < s.len() && (#[trigger] s[k] matches RecordView::Node(n) && n.kind
                == NodeKind::Repository && n.id == edge.source),
        forall|k: int|
            0 <= k < s.len() ==> !(#[trigger] s[k] matches RecordView::Node(n) && n.kind
                == NodeKind::Repository && n.id == edge.target),
    ensures
        owner_of(s, edge.target) == Some(edge.source),
{
    lemma_parent_from(s, i, edge, 0);
    let k = choose|k: int|
        0 <= k < s.len() && (#[trigger] s[k] matches RecordView::Node(n) && n.kind
            == NodeKind::Repository && n.id == edge.source);
    assert(s[k].is_kind(NodeKind::Repository) && s[k].id() == edge.source);
    assert(is_repository(s, edge.source));
    assert(!is_repository(s, edge.target));
    assert(owner_within(s, edge.source, (s.len() - 1) as nat) == Some(edge.source));
}

proof fn lemma_parent_from(s: Seq<RecordView>, i: int, edge: EdgeRecordView, from: int)
    requires
        0 <= from <= i < s.len(),
        s[i] == RecordView::Edge(edge),
        edge.label == EdgeLabel::Contains || edge.label == EdgeLabel::Defines,
        forall|j: int|
            0 <= j < i ==> !(#[trigger] s[j] matches RecordView::Edge(e) && e.target
                == edge.target),
    ensures
        parent_from(s, edge.target, from) == Some(edge.source),
    decreases i - from,
{
    if from < i {
        assert(!(s[from] matches RecordView::Edge(e) && e.target == edge.target));
        lemma_parent_from(s, i, edge, from + 1);
    }
}

// ── Binding ─────────────────────────────────────────────────────────────────

/// The symbol is in the file, and its lines hold the line.
pub open spec fn spans_line(n: NodeRecordView, path: Seq<char>, line: int) -> bool {
    n.repo_relative_path == Some(path) && (n.span matches Some(p) && p.start_line <= line
        && line <= p.end_line)
}

/// How many lines a span has, less one.
pub open spec fn extent(n: NodeRecordView) -> int {
    n.span->0.end_line - n.span->0.start_line
}

/// A frame with a place binds to the smallest symbol around that place; without one, to the file;
/// and without that to nothing.
pub proof fn law_placed_frames(
    symbols: Seq<NodeRecordView>,
    files: Seq<NodeRecordView>,
    f: StackFrameView,
    path: Seq<char>,
    line: u32,
)
    requires
        !external(f),
        f.file_path == Some(path),
        f.line == Some(line),
    ensures
        (match classified(symbols, files, f) {
            OutcomeView::Resolved(c) => exists|n: NodeRecordView| #[trigger]
                symbols.contains(n) && n.id == c.target && spans_line(n, path, line as int)
                    && c.span == n.span && c.path == Some(path) && forall|i: int|
                    0 <= i < symbols.len() && spans_line(#[trigger] symbols[i], path, line as int)
                        ==> extent(n) <= extent(symbols[i]),
            OutcomeView::PathOnly(c) => {
                &&& exists|n: NodeRecordView| #[trigger]
                    files.contains(n) && n.id == c.target && n.repo_relative_path == Some(path)
                &&& forall|i: int|
                    0 <= i < symbols.len() ==> !spans_line(#[trigger] symbols[i], path, line as int)
                &&& c.span is None
            },
            OutcomeView::Unresolved => {
                &&& forall|i: int|
                    0 <= i < symbols.len() ==> !spans_line(#[trigger] symbols[i], path, line as int)
                &&& forall|i: int|
                    0 <= i < files.len() ==> (#[trigger] files[i]).repo_relative_path != Some(path)
            },
            _ => false,
        }),
{
    law_enclosing_symbol_is_tightest(symbols, path, line as int);
    lemma_file_at(files, path, 0);
    match enclosing_symbol(symbols, path, line as int) {
        Some(n) => {
            assert(symbols.contains(n));
            assert forall|i: int|
                0 <= i < symbols.len() && spans_line(#[trigger] symbols[i], path, line as int) implies extent(n)
                <= extent(symbols[i]) by {
                assert(crate::query::encloses(symbols[i], path, line as int));
            }
        },
        None => {
            assert forall|i: int| 0 <= i < symbols.len() implies !spans_line(
                #[trigger] symbols[i],
                path,
                line as int,
            ) by {
                assert(!crate::query::encloses(symbols[i], path, line as int));
            }
            if let Some(n) = file_at(files, path, 0) {
                assert(files.contains(n));
            }
        },
    }
}

proof fn lemma_file_at(files: Seq<NodeRecordView>, path: Seq<char>, i: int)
    requires
        0 <= i,
    ensures
        (match file_at(files, path, i) {
            Some(n) => files.contains(n) && n.repo_relative_path == Some(path),
            None => forall|k: int|
                i <= k < files.len() ==> (#[trigger] files[k]).repo_relative_path != Some(path),
        }),
    decreases files.len() - i,
{
    if i < files.len() {
        lemma_file_at(files, path, i + 1);
        assert(files.contains(files[i]));
    }
}

/// Some symbol of this identity has the name.
pub open spec fn bears(symbols: Seq<NodeRecordView>, name: Seq<char>, id: Seq<char>) -> bool {
    exists|i: int|
        0 <= i < symbols.len() && (#[trigger] symbols[i]).name == Some(name) && symbols[i].id == id
}

proof fn lemma_named(symbols: Seq<NodeRecordView>, name: Seq<char>)
    ensures
        forall|k: int|
            0 <= k < named(symbols, name).len() ==> bears(
                symbols,
                name,
                (#[trigger] named(symbols, name)[k]).target,
            ),
        forall|id: Seq<char>| #[trigger]
            bears(symbols, name, id) ==> exists|k: int|
                0 <= k < named(symbols, name).len() && (#[trigger] named(symbols, name)[k]).target
                    == id,
    decreases symbols.len(),
{
    if symbols.len() > 0 {
        let rest = symbols.drop_last();
        lemma_named(rest, name);
        let (before, all) = (named(rest, name), named(symbols, name));
        assert forall|k: int| 0 <= k < all.len() implies bears(
            symbols,
            name,
            (#[trigger] all[k]).target,
        ) by {
            if k < before.len() {
                assert(all[k] == before[k]);
                let i = choose|i: int|
                    0 <= i < rest.len() && (#[trigger] rest[i]).name == Some(name) && rest[i].id
                        == before[k].target;
                assert(symbols[i] == rest[i]);
            } else {
                assert(symbols[symbols.len() - 1].name == Some(name));
            }
        }
        assert forall|id: Seq<char>| #[trigger] bears(symbols, name, id) implies exists|k: int|
            0 <= k < all.len() && (#[trigger] all[k]).target == id by {
            let i = choose|i: int|
                0 <= i < symbols.len() && (#[trigger] symbols[i]).name == Some(name)
                    && symbols[i].id == id;
            if i < rest.len() {
                assert(rest[i] == symbols[i]);
                assert(bears(rest, name, id));
                let k = choose|k: int| 0 <= k < before.len() && (#[trigger] before[k]).target == id;
                assert(all[k] == before[k]);
            } else {
                assert(all[all.len() - 1].target == id);
            }
        }
    }
}

/// A frame with a name alone binds to every symbol of that name: to none where there is none, and
/// otherwise to each of them and to no other.
pub proof fn law_named_frames(
    symbols: Seq<NodeRecordView>,
    files: Seq<NodeRecordView>,
    f: StackFrameView,
    name: Seq<char>,
    id: Seq<char>,
)
    requires
        !external(f),
        f.file_path is None || f.line is None,
        simple_name_of(f) == Some(name),
    ensures
        (match classified(symbols, files, f) {
            OutcomeView::Resolved(c) => bears(symbols, name, id) <==> id == c.target,
            OutcomeView::Ambiguous(cs) => cs.len() >= 2 && (bears(symbols, name, id) <==> exists|
                k: int,
            | 0 <= k < cs.len() && (#[trigger] cs[k]).target == id),
            OutcomeView::Unresolved => !bears(symbols, name, id),
            _ => false,
        }),
{
    lemma_named(symbols, name);
    let found = named(symbols, name);
    if found.len() > 0 {
        assert(bears(symbols, name, found[0].target));
    }
}

} // verus!
