//! Views of the code graph: which version of a record is current, which repository owns it, and
//! what stands at a place in a file.
use vstd::prelude::*;

use crate::duplicate::lemma_push;
use crate::ir::{
    EdgeLabel, GraphRecord, NodeKind, NodeRecord, NodeRecordView, RecordView, SnapshotHead,
    SnapshotHeadView, SourceSpan,
};
use crate::liveness::{deleted, Liveness};
use crate::log_link::{collect_ids, ids_of_kind};
use crate::order::{distinct, distinct_texts};
use crate::text::{le, same, text_le};
use crate::time::{at_or_before, instant_le, parse_rfc3339, rfc3339_instant, Instant};

verus! {

// ── Ownership ───────────────────────────────────────────────────────────────

pub open spec fn holds(r: RecordView, id: Seq<char>) -> bool {
    r matches RecordView::Edge(e) && (e.label == EdgeLabel::Contains || e.label
        == EdgeLabel::Defines) && e.target == id
}

/// What contains or defines `id`, by the first such edge from `i` on.
pub open spec fn parent_from(s: Seq<RecordView>, id: Seq<char>, i: int) -> Option<Seq<char>>
    decreases s.len() - i,
{
    if i < 0 || i >= s.len() {
        None
    } else if holds(s[i], id) {
        Some(s[i]->Edge_0.source)
    } else {
        parent_from(s, id, i + 1)
    }
}

pub open spec fn is_repository(s: Seq<RecordView>, id: Seq<char>) -> bool {
    exists|i: int|
        0 <= i < s.len() && (#[trigger] s[i]).is_kind(NodeKind::Repository) && s[i].id() == id
}

/// The repository reached from `id` in at most `fuel` steps upward.
pub open spec fn owner_within(s: Seq<RecordView>, id: Seq<char>, fuel: nat) -> Option<Seq<char>>
    decreases fuel,
{
    if is_repository(s, id) {
        Some(id)
    } else if fuel == 0 {
        None
    } else {
        match parent_from(s, id, 0) {
            Some(parent) => owner_within(s, parent, (fuel - 1) as nat),
            None => None,
        }
    }
}

/// The repository that a record belongs to.
pub open spec fn owner_of(s: Seq<RecordView>, id: Seq<char>) -> Option<Seq<char>> {
    owner_within(s, id, s.len())
}

fn find_parent<'a>(records: &'a [GraphRecord], id: &str) -> (r: Option<&'a str>)
    ensures
        r.deep_view() == parent_from(records.deep_view(), id@, 0),
{
    let ghost s = records.deep_view();
    let mut i: usize = 0;
    while i < records.len()
        invariant
            i <= records@.len(),
            s == records.deep_view(),
            parent_from(s, id@, 0) == parent_from(s, id@, i as int),
        decreases records.len() - i,
    {
        assert(s[i as int] == records@[i as int].deep_view());
        if let GraphRecord::Edge(e) = &records[i] {
            if (e.label == EdgeLabel::Contains || e.label == EdgeLabel::Defines) && same(
                e.target.as_str(),
                id,
            ) {
                return Some(e.source.as_str());
            }
        }
        i += 1;
    }
    None
}

fn names_repository(records: &[GraphRecord], id: &str) -> (r: bool)
    ensures
        r == is_repository(records.deep_view(), id@),
{
    let ghost s = records.deep_view();
    let mut i: usize = 0;
    while i < records.len()
        invariant
            i <= records@.len(),
            s == records.deep_view(),
            forall|k: int|
                0 <= k < i ==> !((#[trigger] s[k]).is_kind(NodeKind::Repository) && s[k].id()
                    == id@),
        decreases records.len() - i,
    {
        assert(s[i as int] == records@[i as int].deep_view());
        if records[i].is_kind(NodeKind::Repository) && same(records[i].id(), id) {
            return true;
        }
        i += 1;
    }
    false
}

pub fn find_owner(records: &[GraphRecord], id: &str) -> (r: Option<String>)
    ensures
        r.deep_view() == owner_of(records.deep_view(), id@),
{
    let ghost s = records.deep_view();
    let mut at: String = id.to_owned();
    let mut fuel: usize = records.len();
    loop
        invariant
            fuel <= records@.len(),
            s == records.deep_view(),
            owner_of(s, id@) == owner_within(s, at@, fuel as nat),
        decreases fuel,
    {
        if names_repository(records, at.as_str()) {
            return Some(at);
        }
        if fuel == 0 {
            return None;
        }
        match find_parent(records, at.as_str()) {
            Some(parent) => {
                at = parent.to_owned();
                fuel -= 1;
            },
            None => {
                return None;
            },
        }
    }
}

// ── Versions ────────────────────────────────────────────────────────────────

pub open spec fn stamped_head(r: RecordView) -> Option<Seq<char>> {
    match r {
        RecordView::Node(n) => if n.kind == NodeKind::Repository {
            match n.repository.source_snapshot {
                Some(snapshot) => match snapshot.head {
                    SnapshotHeadView::Commit { sha } => Some(sha),
                    _ => None,
                },
                None => None,
            }
        } else {
            None
        },
        _ => None,
    }
}

/// The head commit that was last stamped on a repository.
pub open spec fn repo_head(s: Seq<RecordView>, id: Seq<char>) -> Option<Seq<char>>
    decreases s.len(),
{
    if s.len() == 0 {
        None
    } else if s.last().id() == id && stamped_head(s.last()) is Some {
        stamped_head(s.last())
    } else {
        repo_head(s.drop_last(), id)
    }
}

/// The head of the repository that owns a record.
pub open spec fn owner_head(s: Seq<RecordView>, id: Seq<char>) -> Option<Seq<char>> {
    match owner_of(s, id) {
        Some(repository) => repo_head(s, repository),
        None => None,
    }
}

/// Whether a version of a node belongs to the view. At a commit: the version was read at it. Else:
/// the node is not removed, and a version from history was read at its repository's head.
pub open spec fn in_view(
    s: Seq<RecordView>,
    at_commit: Option<Seq<char>>,
    n: NodeRecordView,
) -> bool {
    match at_commit {
        Some(commit) => n.temporal matches Some(t) && t.git_commit == commit,
        None => !deleted(s, n.id) && !(n.temporal is Some && owner_head(s, n.id) is Some
            && n.temporal->0.git_commit != owner_head(s, n.id)->0),
    }
}

/// Where a version stands in time: a current scan comes after all history.
pub open spec fn recency_rank(n: NodeRecordView) -> int {
    if n.temporal is None {
        1
    } else {
        0
    }
}

pub open spec fn recency_time(n: NodeRecordView) -> Option<Instant> {
    match n.temporal {
        Some(t) => rfc3339_instant(t.valid_time),
        None => None,
    }
}

pub open spec fn recency_commit(n: NodeRecordView) -> Seq<char> {
    match n.temporal {
        Some(t) => t.git_commit,
        None => Seq::empty(),
    }
}

/// A missing time comes first.
pub open spec fn time_le(a: Option<Instant>, b: Option<Instant>) -> bool {
    match (a, b) {
        (None, _) => true,
        (Some(_), None) => false,
        (Some(x), Some(y)) => instant_le(x, y),
    }
}

/// By time, and at one time by commit.
pub open spec fn version_le(
    a: Option<Instant>,
    a_commit: Seq<char>,
    b: Option<Instant>,
    b_commit: Seq<char>,
) -> bool {
    if a != b {
        time_le(a, b)
    } else {
        text_le(a_commit, b_commit)
    }
}

pub fn is_no_later_version(
    a: Option<Instant>,
    a_commit: &str,
    b: Option<Instant>,
    b_commit: &str,
) -> (r: bool)
    ensures
        r == version_le(a, a_commit@, b, b_commit@),
{
    match (a, b) {
        (None, None) => le(a_commit, b_commit),
        (None, Some(_)) => true,
        (Some(_), None) => false,
        (Some(p), Some(q)) => if p == q {
            le(a_commit, b_commit)
        } else {
            at_or_before(p, q)
        },
    }
}

/// `a` is no more recent than `b`: by rank, then time, then commit.
pub open spec fn recency_le(a: NodeRecordView, b: NodeRecordView) -> bool {
    if recency_rank(a) != recency_rank(b) {
        recency_rank(a) < recency_rank(b)
    } else {
        version_le(recency_time(a), recency_commit(a), recency_time(b), recency_commit(b))
    }
}

/// The viewed version of a node among the first `n` records: the most recent one in the view, the
/// later record among equals.
pub open spec fn viewed_among(
    s: Seq<RecordView>,
    at_commit: Option<Seq<char>>,
    kind: NodeKind,
    id: Seq<char>,
    n: nat,
) -> Option<NodeRecordView>
    decreases n,
{
    if n == 0 {
        None
    } else {
        let best = viewed_among(s, at_commit, kind, id, (n - 1) as nat);
        match s[n - 1] {
            RecordView::Node(m) => if m.kind == kind && m.id == id && in_view(s, at_commit, m) && (
            best is None || recency_le(best->0, m)) {
                Some(m)
            } else {
                best
            },
            _ => best,
        }
    }
}

pub open spec fn viewed(
    s: Seq<RecordView>,
    at_commit: Option<Seq<char>>,
    kind: NodeKind,
    id: Seq<char>,
) -> Option<NodeRecordView> {
    viewed_among(s, at_commit, kind, id, s.len())
}

/// The viewed versions of the nodes named by `ids`.
pub open spec fn viewed_all(
    s: Seq<RecordView>,
    at_commit: Option<Seq<char>>,
    kind: NodeKind,
    ids: Seq<Seq<char>>,
) -> Seq<NodeRecordView>
    decreases ids.len(),
{
    if ids.len() == 0 {
        Seq::empty()
    } else {
        let before = viewed_all(s, at_commit, kind, ids.drop_last());
        match viewed(s, at_commit, kind, ids.last()) {
            Some(n) => before.push(n),
            None => before,
        }
    }
}

/// Every node of a kind in the view, by identity.
pub open spec fn view_of(s: Seq<RecordView>, at_commit: Option<Seq<char>>, kind: NodeKind) -> Seq<
    NodeRecordView,
> {
    viewed_all(s, at_commit, kind, distinct(ids_of_kind(s, kind)))
}

fn read_head(record: &GraphRecord) -> (r: Option<&str>)
    ensures
        r.deep_view() == stamped_head(record.deep_view()),
{
    match record {
        GraphRecord::Node(n) => if n.kind == NodeKind::Repository {
            match &n.repository.source_snapshot {
                Some(snapshot) => match &snapshot.head {
                    SnapshotHead::Commit { sha } => Some(sha.as_str()),
                    _ => None,
                },
                None => None,
            }
        } else {
            None
        },
        _ => None,
    }
}

fn find_repo_head<'a>(records: &'a [GraphRecord], id: &str) -> (r: Option<&'a str>)
    ensures
        r.deep_view() == repo_head(records.deep_view(), id@),
{
    let ghost s = records.deep_view();
    let mut i: usize = records.len();
    assert(s.take(i as int) =~= s);
    while i > 0
        invariant
            i <= records@.len(),
            s == records.deep_view(),
            repo_head(s, id@) == repo_head(s.take(i as int), id@),
        decreases i,
    {
        i -= 1;
        proof {
            assert(s.take(i + 1).drop_last() =~= s.take(i as int));
            assert(s.take(i + 1).last() == records@[i as int].deep_view());
        }
        if same(records[i].id(), id) {
            let head: Option<&str> = read_head(&records[i]);
            if head.is_some() {
                return head;
            }
        }
    }
    None
}

fn is_in_view(records: &[GraphRecord], at_commit: Option<&str>, n: &NodeRecord) -> (r: bool)
    ensures
        r == in_view(records.deep_view(), at_commit.deep_view(), n.deep_view()),
{
    match at_commit {
        Some(commit) => match &n.temporal {
            Some(t) => same(t.git_commit.as_str(), commit),
            None => false,
        },
        None => {
            if Liveness::new(records).deleted(n.id.as_str()) {
                return false;
            }
            match &n.temporal {
                Some(t) => match find_owner(records, n.id.as_str()) {
                    Some(repository) => match find_repo_head(records, repository.as_str()) {
                        Some(head) => same(t.git_commit.as_str(), head),
                        None => true,
                    },
                    None => true,
                },
                None => true,
            }
        },
    }
}

fn is_no_more_recent(a: &NodeRecord, b: &NodeRecord) -> (r: bool)
    ensures
        r == recency_le(a.deep_view(), b.deep_view()),
{
    match (&a.temporal, &b.temporal) {
        (None, None) => true,
        (None, Some(_)) => false,
        (Some(_), None) => true,
        (Some(x), Some(y)) => is_no_later_version(
            parse_rfc3339(x.valid_time.as_str()),
            x.git_commit.as_str(),
            parse_rfc3339(y.valid_time.as_str()),
            y.git_commit.as_str(),
        ),
    }
}

fn find_viewed<'a>(
    records: &'a [GraphRecord],
    at_commit: Option<&str>,
    kind: NodeKind,
    id: &str,
) -> (r: Option<&'a NodeRecord>)
    ensures
        r.deep_view() == viewed(records.deep_view(), at_commit.deep_view(), kind, id@),
{
    let ghost s = records.deep_view();
    let mut best: Option<&'a NodeRecord> = None;
    let mut i: usize = 0;
    while i < records.len()
        invariant
            i <= records@.len(),
            s == records.deep_view(),
            best.deep_view() == viewed_among(s, at_commit.deep_view(), kind, id@, i as nat),
        decreases records.len() - i,
    {
        assert(s[i as int] == records@[i as int].deep_view());
        if let GraphRecord::Node(n) = &records[i] {
            if n.kind == kind && same(n.id.as_str(), id) && is_in_view(records, at_commit, n) {
                let newer: bool = match best {
                    Some(b) => is_no_more_recent(b, n),
                    None => true,
                };
                if newer {
                    best = Some(n);
                }
            }
        }
        i += 1;
    }
    best
}

pub fn collect_view<'a>(records: &'a [GraphRecord], at_commit: Option<&str>, kind: NodeKind) -> (r:
    Vec<&'a NodeRecord>)
    ensures
        r.deep_view() == view_of(records.deep_view(), at_commit.deep_view(), kind),
{
    let ghost s = records.deep_view();
    let ids: Vec<String> = distinct_texts(&collect_ids(records, kind));
    let ghost all = ids.deep_view();
    let mut out: Vec<&'a NodeRecord> = Vec::new();
    let mut i: usize = 0;
    assert(out.deep_view() =~= viewed_all(s, at_commit.deep_view(), kind, all.take(0)));
    while i < ids.len()
        invariant
            i <= ids.len(),
            s == records.deep_view(),
            all == ids.deep_view(),
            out.deep_view() == viewed_all(s, at_commit.deep_view(), kind, all.take(i as int)),
        decreases ids.len() - i,
    {
        proof {
            assert(all.take(i + 1).drop_last() =~= all.take(i as int));
            assert(all.take(i + 1).last() == ids@[i as int]@);
        }
        if let Some(n) = find_viewed(records, at_commit, kind, ids[i].as_str()) {
            let ghost before = out;
            out.push(n);
            proof {
                lemma_push(before, out);
            }
        }
        i += 1;
    }
    assert(all.take(all.len() as int) =~= all);
    out
}

// ── Places ──────────────────────────────────────────────────────────────────

pub open spec fn has_path(n: NodeRecordView, path: Seq<char>) -> bool {
    n.repo_relative_path == Some(path)
}

/// The node's span covers a line of a file.
pub open spec fn encloses(n: NodeRecordView, path: Seq<char>, line: int) -> bool {
    has_path(n, path) && (n.span matches Some(p) && p.start_line <= line <= p.end_line)
}

/// Fewer lines, or as many lines and fewer bytes.
pub open spec fn tighter(a: SourceSpan, b: SourceSpan) -> bool {
    let la = a.end_line - a.start_line;
    let lb = b.end_line - b.start_line;
    la < lb || (la == lb && a.end_byte - a.start_byte < b.end_byte - b.start_byte)
}

/// The first of the tightest symbols that enclose a line.
pub open spec fn enclosing_symbol(
    symbols: Seq<NodeRecordView>,
    path: Seq<char>,
    line: int,
) -> Option<NodeRecordView>
    decreases symbols.len(),
{
    if symbols.len() == 0 {
        None
    } else {
        let best = enclosing_symbol(symbols.drop_last(), path, line);
        let n = symbols.last();
        if encloses(n, path, line) && (best is None || tighter(n.span->0, best->0.span->0)) {
            Some(n)
        } else {
            best
        }
    }
}

/// The first file record with a path.
pub open spec fn file_at(
    files: Seq<NodeRecordView>,
    path: Seq<char>,
    i: int,
) -> Option<NodeRecordView>
    decreases files.len() - i,
{
    if i < 0 || i >= files.len() {
        None
    } else if has_path(files[i], path) {
        Some(files[i])
    } else {
        file_at(files, path, i + 1)
    }
}

fn node_has_path(n: &NodeRecord, path: &str) -> (r: bool)
    ensures
        r == has_path(n.deep_view(), path@),
{
    match &n.repo_relative_path {
        Some(p) => same(p.as_str(), path),
        None => false,
    }
}

fn is_tighter(a: SourceSpan, b: SourceSpan) -> (r: bool)
    ensures
        r == tighter(a, b),
{
    let la: i128 = a.end_line as i128 - a.start_line as i128;
    let lb: i128 = b.end_line as i128 - b.start_line as i128;
    la < lb || (la == lb && (a.end_byte as i128 - a.start_byte as i128) < (b.end_byte as i128
        - b.start_byte as i128))
}

proof fn lemma_enclosing_has_span(symbols: Seq<NodeRecordView>, path: Seq<char>, line: int)
    ensures
        enclosing_symbol(symbols, path, line) matches Some(n) ==> n.span is Some,
    decreases symbols.len(),
{
    if symbols.len() > 0 {
        lemma_enclosing_has_span(symbols.drop_last(), path, line);
    }
}

pub fn find_enclosing_symbol<'a>(symbols: &Vec<&'a NodeRecord>, path: &str, line: usize) -> (r:
    Option<&'a NodeRecord>)
    ensures
        r.deep_view() == enclosing_symbol(symbols.deep_view(), path@, line as int),
{
    let ghost all = symbols.deep_view();
    let mut best: Option<&'a NodeRecord> = None;
    let mut i: usize = 0;
    assert(all.take(0) =~= Seq::empty());
    while i < symbols.len()
        invariant
            i <= symbols.len(),
            all == symbols.deep_view(),
            best.deep_view() == enclosing_symbol(all.take(i as int), path@, line as int),
        decreases symbols.len() - i,
    {
        proof {
            assert(all.take(i + 1).drop_last() =~= all.take(i as int));
            assert(all.take(i + 1).last() == symbols@[i as int].deep_view());
            lemma_enclosing_has_span(all.take(i as int), path@, line as int);
        }
        let n: &'a NodeRecord = symbols[i];
        if let Some(span) = n.span {
            if span.start_line <= line && line <= span.end_line && node_has_path(n, path) {
                let better: bool = match best {
                    Some(b) => match b.span {
                        Some(other) => is_tighter(span, other),
                        None => true,
                    },
                    None => true,
                };
                if better {
                    best = Some(n);
                }
            }
        }
        i += 1;
    }
    assert(all.take(all.len() as int) =~= all);
    best
}

pub fn find_file<'a>(files: &Vec<&'a NodeRecord>, path: &str) -> (r: Option<&'a NodeRecord>)
    ensures
        r.deep_view() == file_at(files.deep_view(), path@, 0),
{
    let ghost all = files.deep_view();
    let mut i: usize = 0;
    while i < files.len()
        invariant
            i <= files.len(),
            all == files.deep_view(),
            file_at(all, path@, 0) == file_at(all, path@, i as int),
        decreases files.len() - i,
    {
        assert(all[i as int] == files@[i as int].deep_view());
        if node_has_path(files[i], path) {
            return Some(files[i]);
        }
        i += 1;
    }
    None
}

} // verus!
