//! What a scan of a repository depends on, and what it does not.
use vstd::prelude::*;

use crate::ir::{NodeKind, NodeRecordView, ProducerView, RecordView, RepositoryFieldsView};
use crate::policy::CodePolicy;
use crate::scan::{
    covered, coverage_records, effective_input, file_paths, files_scanned, linked, outcome_of,
    pinned, reconciled, repository_fault, scanned, snapshot_node, speaks, timed,
    GrammarVersionsView, Language, RepositoryIdentityView, RepositoryInputView, ScanProgressView,
    ScanTimesView,
};

verus! {

// ── Success ─────────────────────────────────────────────────────────────────

/// No parser fails on one of the first `n` files.
pub open spec fn all_parse<R: CodePolicy>(policy: R, input: RepositoryInputView, n: nat) -> bool {
    forall|i: int| 0 <= i < n ==> parses(policy, input, i)
}

pub open spec fn parses<R: CodePolicy>(policy: R, input: RepositoryInputView, i: int) -> bool {
    outcome_of(policy, input.identity.id, input.files[i]) is Ok
}

proof fn lemma_one_file_more<R: CodePolicy>(
    policy: R,
    input: RepositoryInputView,
    time: Seq<char>,
    n: nat,
)
    requires
        n > 0,
    ensures
        files_scanned(policy, input, time, n) is Ok <==> files_scanned(
            policy,
            input,
            time,
            (n - 1) as nat,
        ) is Ok && parses(policy, input, n - 1),
{
}

proof fn lemma_files_are_scanned<R: CodePolicy>(
    policy: R,
    input: RepositoryInputView,
    time: Seq<char>,
    n: nat,
)
    ensures
        files_scanned(policy, input, time, n) is Ok <==> all_parse(policy, input, n),
    decreases n,
{
    if n > 0 {
        lemma_files_are_scanned(policy, input, time, (n - 1) as nat);
        lemma_one_file_more(policy, input, time, n);
        lemma_all_parse(policy, input, n);
    }
}

proof fn lemma_all_parse<R: CodePolicy>(policy: R, input: RepositoryInputView, n: nat)
    requires
        n > 0,
    ensures
        all_parse(policy, input, n) <==> all_parse(policy, input, (n - 1) as nat) && parses(
            policy,
            input,
            n - 1,
        ),
{
    let before = all_parse(policy, input, (n - 1) as nat);
    if before && parses(policy, input, n - 1) {
        assert forall|i: int| 0 <= i < n implies parses(policy, input, i) by {
            if i < n - 1 {
                assert(parses(policy, input, i));
            }
        }
    }
}

/// A scan succeeds if and only if the path is a repository, the parser takes every file that is
/// text, and the manifests can be read. A file that cannot be read or decoded ends no scan.
pub proof fn law_what_ends_a_scan<R: CodePolicy>(
    policy: R,
    input: RepositoryInputView,
    times: ScanTimesView,
    versions: GrammarVersionsView,
)
    ensures
        scanned(policy, input, times, versions) is Ok <==> {
            &&& repository_fault(input) is None
            &&& all_parse(policy, input, input.files.len())
            &&& policy.dependencies(input.identity.id) is Ok
        },
{
    lemma_files_are_scanned(policy, input, times.transaction_time, input.files.len());
}

// ── The repository ──────────────────────────────────────────────────────────

proof fn lemma_repository_stays<R: CodePolicy>(
    policy: R,
    input: RepositoryInputView,
    time: Seq<char>,
    n: nat,
)
    ensures
        files_scanned(policy, input, time, n) matches Ok(p) ==> p.repository == snapshot_node(
            input,
            time,
        ),
    decreases n,
{
    if n > 0 {
        lemma_repository_stays(policy, input, time, (n - 1) as nat);
    }
}

pub open spec fn producer_of(r: RecordView) -> Option<ProducerView> {
    match r {
        RecordView::Node(n) => n.producer,
        RecordView::Edge(e) => e.producer,
        RecordView::Tombstone(t) => t.producer,
    }
}

/// A pinned scan shows no clock: the time that it is pinned to is when its producer started, when
/// the repository was scanned, and the generation of its coverage. When the process started does
/// not show in it.
pub proof fn law_pinned_scan_shows_no_clock<R: CodePolicy>(
    policy: R,
    input: RepositoryInputView,
    time: Seq<char>,
    started: Seq<char>,
    versions: GrammarVersionsView,
)
    ensures
        scanned(policy, input, pinned(time), versions) == scanned(
            policy,
            input,
            (ScanTimesView { process_started_at: started, ..pinned(time) }),
            versions,
        ),
        scanned(policy, input, pinned(time), versions) matches Ok(g) ==> {
            &&& g.len() >= 3
            &&& forall|i: int|
                0 <= i < g.len() ==> (producer_of(#[trigger] g[i]) matches Some(p)
                    && p.producer_started_at == time)
            &&& g[0] matches RecordView::Node(n) && n.kind == NodeKind::Repository && n.valid_time
                == Some(time) && (n.repository.source_snapshot matches Some(s) && s.scanned_at
                == time)
            &&& g[g.len() - 2] matches RecordView::Node(n) && n.kind == NodeKind::ScanCoverage
                && n.valid_time == Some(time) && (n.repository.scan_coverage matches Some(c)
                && c.coverage_generation == Some(time))
        },
{
    lemma_repository_stays(policy, input, time, input.files.len());
    if let Ok(g) = scanned(policy, input, pinned(time), versions) {
        let p = files_scanned(policy, input, time, input.files.len())->Ok_0;
        let q = linked(policy, p, input.identity.id, time)->Ok_0;
        let all = covered(q, input.identity.id, pinned(time));
        let front = seq![q.repository] + q.records;
        let coverage = coverage_records(input.identity.id, reconciled(front, q.tally), time);
        assert(all == front + timed(coverage, time));
        assert(all[0] == q.repository);
        assert(all[all.len() - 2] == timed(coverage, time)[0]);
        assert(g.len() == all.len());
    }
}

// ── The dirty flag ──────────────────────────────────────────────────────────

/// The scans are the same but for the node of the repository.
pub open spec fn alike(a: ScanProgressView, b: ScanProgressView) -> bool {
    a == (ScanProgressView { repository: a.repository, ..b })
}

proof fn lemma_scanned_alike<R: CodePolicy>(
    policy: R,
    a: RepositoryInputView,
    b: RepositoryInputView,
    time: Seq<char>,
    n: nat,
)
    requires
        b == (RepositoryInputView { dirty: b.dirty, ..a }),
    ensures
        (match (files_scanned(policy, a, time, n), files_scanned(policy, b, time, n)) {
            (Ok(p), Ok(q)) => alike(p, q),
            (Err(x), Err(y)) => x == y,
            _ => false,
        }),
    decreases n,
{
    if n > 0 {
        lemma_scanned_alike(policy, a, b, time, (n - 1) as nat);
    }
}

/// A record that neither names a file nor speaks a language.
pub open spec fn is_bare(r: RecordView) -> bool {
    r matches RecordView::Node(n) && n.repo_relative_path is None && n.code.language is None
}

proof fn lemma_same_paths(x: RecordView, y: RecordView, rest: Seq<RecordView>)
    requires
        is_bare(x),
        is_bare(y),
    ensures
        file_paths(seq![x] + rest) == file_paths(seq![y] + rest),
    decreases rest.len(),
{
    let (a, b) = (seq![x] + rest, seq![y] + rest);
    if rest.len() == 0 {
        assert(a.drop_last() =~= Seq::empty());
        assert(b.drop_last() =~= Seq::empty());
    } else {
        lemma_same_paths(x, y, rest.drop_last());
        assert(a.drop_last() =~= seq![x] + rest.drop_last());
        assert(b.drop_last() =~= seq![y] + rest.drop_last());
    }
}

proof fn lemma_same_languages(x: RecordView, y: RecordView, rest: Seq<RecordView>, tag: Seq<char>)
    requires
        is_bare(x),
        is_bare(y),
    ensures
        speaks(seq![x] + rest, tag) == speaks(seq![y] + rest, tag),
{
    let (a, b) = (seq![x] + rest, seq![y] + rest);
    assert(a[0] == x && b[0] == y);
    assert forall|i: int| 1 <= i < a.len() implies #[trigger] a[i] == b[i] by {}
    assert forall|i: int| 1 <= i < b.len() implies #[trigger] b[i] == a[i] by {}
}

/// The record without what it says of the working tree.
pub open spec fn without_snapshot(r: RecordView) -> RecordView {
    match r {
        RecordView::Node(n) => RecordView::Node(
            NodeRecordView {
                repository: RepositoryFieldsView { source_snapshot: None, ..n.repository },
                ..n
            },
        ),
        other => other,
    }
}

/// Whether the working tree is dirty shows in the snapshot of the repository and nowhere else, so
/// leaving paths out of that probe changes no other record: their files are scanned all the same.
/// Where the probe says the same with and without them, so does the scan.
pub proof fn law_exclusions_show_in_the_snapshot_alone<R: CodePolicy>(
    policy: R,
    input: RepositoryInputView,
    override_identity: Option<RepositoryIdentityView>,
    dirty: bool,
    times: ScanTimesView,
    versions: GrammarVersionsView,
)
    ensures
        ({
            let plain = scanned(
                policy,
                effective_input(input, override_identity, input.dirty),
                times,
                versions,
            );
            let excluding = scanned(
                policy,
                effective_input(input, override_identity, dirty),
                times,
                versions,
            );
            &&& dirty == input.dirty ==> excluding == plain
            &&& match (plain, excluding) {
                (Ok(g), Ok(h)) => {
                    &&& g.len() == h.len() > 0
                    &&& forall|i: int| 1 <= i < g.len() ==> #[trigger] g[i] == h[i]
                    &&& g[0].is_kind(NodeKind::Repository)
                    &&& without_snapshot(g[0]) == without_snapshot(h[0])
                },
                (Err(x), Err(y)) => x == y,
                _ => false,
            }
        }),
{
    let a = effective_input(input, override_identity, input.dirty);
    let b = effective_input(input, override_identity, dirty);
    let time = times.transaction_time;
    let id = a.identity.id;
    let n = input.files.len();
    lemma_scanned_alike(policy, a, b, time, n);
    lemma_repository_stays(policy, a, time, n);
    lemma_repository_stays(policy, b, time, n);
    if let (Ok(g), Ok(h)) = (
        scanned(policy, a, times, versions),
        scanned(policy, b, times, versions),
    ) {
        let p = linked(policy, files_scanned(policy, a, time, n)->Ok_0, id, time)->Ok_0;
        let q = linked(policy, files_scanned(policy, b, time, n)->Ok_0, id, time)->Ok_0;
        assert(alike(p, q));
        let (x, y) = (p.repository, q.repository);
        lemma_same_paths(x, y, p.records);
        let (all, other) = (covered(p, id, times), covered(q, id, times));
        let tail = all.skip(1);
        assert(all =~= seq![x] + tail);
        assert(other =~= seq![y] + tail);
        lemma_same_languages(x, y, tail, Language::Rust.tag());
        lemma_same_languages(x, y, tail, Language::TypeScript.tag());
        assert(all[0] == x && other[0] == y);
        assert(all.len() == other.len());
        assert forall|i: int| 1 <= i < g.len() implies #[trigger] g[i] == h[i] by {
            assert(all[i] == other[i]);
        }
    }
}

} // verus!
