//! Which runs, commands and tasks an error signature is linked to.
use vstd::prelude::*;

use crate::ir::{CorrelationBasis, EdgeLabel, LogPayloadView, NodeKind, NodeRecordView, RecordView};
use crate::laws::citations::is_newest;
use crate::laws::log_link::{
    law_every_covering_run_is_linked, law_run_edges_are_the_run_links, lemma_link_members,
    lemma_pending_back, links_a_run, run_edge, run_identities_differ,
};
use crate::log_link::{
    command_with_hash, commands_of_sources, commands_with_hash, hash_targets, ids_of_kind, kind_of,
    log_source, log_source_of, new_edges, repo_eligible, run_links, runs_covering, signature_ids,
    signature_payload_times, signature_time, signature_times_from, sources_of, targets_of,
    task_basis, task_kind, task_links, task_targets, tasks_of, tasks_through, temporal_targets,
    window_of, PendingView, RunLinkView,
};
use crate::order::law_distinct;
use crate::time::{covers, rfc3339_instant, Instant};

verus! {

// ── Equal bytes ─────────────────────────────────────────────────────────────

/// An edge of the store.
pub open spec fn has_edge(
    s: Seq<RecordView>,
    label: EdgeLabel,
    source: Seq<char>,
    target: Seq<char>,
) -> bool {
    exists|i: int|
        0 <= i < s.len() && (#[trigger] s[i] matches RecordView::Edge(e) && e.label == label
            && e.source == source && e.target == target)
}

/// The node is a log whose bytes have the hash.
pub open spec fn is_log_with(n: NodeRecordView, hash: Seq<char>) -> bool {
    n.kind == NodeKind::LogSource && (n.log matches Some(LogPayloadView::LogSource(p))
        && p.source_artifact_hash == hash)
}

/// The node at `c` is a command one of whose outputs has the hash.
pub open spec fn wrote(s: Seq<RecordView>, c: int, hash: Seq<char>) -> bool {
    &&& 0 <= c < s.len()
    &&& s[c] matches RecordView::Node(n) && n.kind == NodeKind::CommandRun && {
        ||| n.verification.stdout_handle matches Some(h) && h.hash == hash
        ||| n.verification.stderr_handle matches Some(h) && h.hash == hash
    }
}

proof fn lemma_kind_of(s: Seq<RecordView>, i: int, n: NodeRecordView)
    requires
        is_newest(s, i, n),
    ensures
        kind_of(s, n.id) == Some(n.kind),
    decreases s.len(),
{
    let rest = s.drop_last();
    if i < rest.len() {
        assert(!(s[s.len() - 1] matches RecordView::Node(m) && m.id == n.id));
        assert forall|j: int| i < j < rest.len() implies !(#[trigger] rest[j] matches
            RecordView::Node(m) && m.id == n.id) by {
            assert(rest[j] == s[j]);
        }
        lemma_kind_of(rest, i, n);
    }
}

proof fn lemma_log_source(s: Seq<RecordView>, i: int, n: NodeRecordView)
    requires
        is_newest(s, i, n),
        log_source_of(s[i]) is Some,
    ensures
        log_source(s, n.id) == log_source_of(s[i]),
    decreases s.len(),
{
    let rest = s.drop_last();
    if i < rest.len() {
        assert(!(s[s.len() - 1] matches RecordView::Node(m) && m.id == n.id));
        assert forall|j: int| i < j < rest.len() implies !(#[trigger] rest[j] matches
            RecordView::Node(m) && m.id == n.id) by {
            assert(rest[j] == s[j]);
        }
        lemma_log_source(rest, i, n);
    }
}

proof fn lemma_targets(
    s: Seq<RecordView>,
    source: Seq<char>,
    label: EdgeLabel,
    other: EdgeLabel,
    target: Seq<char>,
)
    ensures
        targets_of(s, source, label, other).contains(target) <==> has_edge(
            s,
            label,
            source,
            target,
        ) || has_edge(s, other, source, target),
    decreases s.len(),
{
    if s.len() > 0 {
        let rest = s.drop_last();
        lemma_targets(rest, source, label, other, target);
        let before = targets_of(rest, source, label, other);
        let all = targets_of(s, source, label, other);
        assert forall|l: EdgeLabel| #[trigger] has_edge(rest, l, source, target) implies has_edge(
            s,
            l,
            source,
            target,
        ) by {
            let i = choose|i: int|
                0 <= i < rest.len() && (#[trigger] rest[i] matches RecordView::Edge(e) && e.label
                    == l && e.source == source && e.target == target);
            assert(s[i] == rest[i]);
        }
        if all.contains(target) {
            let k = choose|k: int| 0 <= k < all.len() && all[k] == target;
            if k < before.len() {
                assert(before[k] == target);
            } else {
                assert(s[s.len() - 1] is Edge);
            }
        }
        assert forall|l: EdgeLabel| #[trigger] has_edge(s, l, source, target) && (l == label || l
            == other) implies all.contains(target) by {
            let i = choose|i: int|
                0 <= i < s.len() && (#[trigger] s[i] matches RecordView::Edge(e) && e.label == l
                    && e.source == source && e.target == target);
            if i < rest.len() {
                assert(rest[i] == s[i]);
                assert(has_edge(rest, l, source, target));
                let k = choose|k: int| 0 <= k < before.len() && before[k] == target;
                assert(all[k] == target);
            } else {
                assert(all[all.len() - 1] == target);
            }
        }
    }
}

proof fn lemma_commands(s: Seq<RecordView>, hash: Seq<char>, c: int)
    requires
        wrote(s, c, hash),
        hash.len() > 0,
    ensures
        commands_with_hash(s, hash).contains(s[c].id()),
    decreases s.len(),
{
    let rest = s.drop_last();
    let all = commands_with_hash(s, hash);
    if c < rest.len() {
        assert(rest[c] == s[c]);
        lemma_commands(rest, hash, c);
        let before = commands_with_hash(rest, hash);
        let k = choose|k: int| 0 <= k < before.len() && before[k] == s[c].id();
        assert(all[k] == s[c].id());
    } else {
        assert(command_with_hash(s.last(), hash));
        assert(all[all.len() - 1] == s[c].id());
    }
}

proof fn lemma_commands_back(s: Seq<RecordView>, hash: Seq<char>, k: int) -> (c: int)
    requires
        0 <= k < commands_with_hash(s, hash).len(),
    ensures
        wrote(s, c, hash),
        s[c].id() == commands_with_hash(s, hash)[k],
        hash.len() > 0,
    decreases s.len(),
{
    let rest = s.drop_last();
    if k < commands_with_hash(rest, hash).len() {
        let c = lemma_commands_back(rest, hash, k);
        assert(rest[c] == s[c]);
        c
    } else {
        s.len() - 1
    }
}

proof fn lemma_source_commands(
    s: Seq<RecordView>,
    sources: Seq<Seq<char>>,
    source: Seq<char>,
    id: Seq<char>,
)
    requires
        sources.contains(source),
        log_source(s, source) matches Some(p) && commands_with_hash(
            s,
            p.source_artifact_hash,
        ).contains(id),
    ensures
        commands_of_sources(s, sources).contains(id),
    decreases sources.len(),
{
    let rest = sources.drop_last();
    let before = commands_of_sources(s, rest);
    let all = commands_of_sources(s, sources);
    if sources.last() == source {
        let here = commands_with_hash(s, log_source(s, source)->0.source_artifact_hash);
        let k = choose|k: int| 0 <= k < here.len() && here[k] == id;
        assert(all[before.len() + k] == id);
    } else {
        let m = choose|m: int| 0 <= m < sources.len() && sources[m] == source;
        assert(rest[m] == source);
        lemma_source_commands(s, rest, source, id);
        let k = choose|k: int| 0 <= k < before.len() && before[k] == id;
        assert(all[k] == id);
    }
}

/// A signature is linked by equal bytes to every command that wrote a log it was captured from.
pub proof fn law_commands_that_wrote_the_log_are_linked(
    s: Seq<RecordView>,
    tolerance: int,
    i: int,
    sig: NodeRecordView,
    j: int,
    log: NodeRecordView,
    hash: Seq<char>,
    c: int,
)
    requires
        is_newest(s, i, sig),
        sig.kind == NodeKind::ErrorSignature,
        has_edge(s, EdgeLabel::CapturedFrom, sig.id, log.id),
        is_newest(s, j, log),
        is_log_with(log, hash),
        hash.len() > 0,
        wrote(s, c, hash),
    ensures
        run_links(s, tolerance, sig.id).contains(
            RunLinkView { target: s[c].id(), basis: CorrelationBasis::ContentHashJoin },
        ),
{
    lemma_kind_of(s, i, sig);
    lemma_log_source(s, j, log);
    let captured = targets_of(s, sig.id, EdgeLabel::CapturedFrom, EdgeLabel::CapturedFrom);
    lemma_targets(s, sig.id, EdgeLabel::CapturedFrom, EdgeLabel::CapturedFrom, log.id);
    law_distinct(captured);
    assert(sources_of(s, sig.id).contains(log.id));
    lemma_commands(s, hash, c);
    lemma_source_commands(s, sources_of(s, sig.id), log.id, s[c].id());
    law_distinct(commands_of_sources(s, sources_of(s, sig.id)));
    assert(hash_targets(s, sig.id).contains(s[c].id()));
    lemma_link_members(
        s,
        tolerance,
        sig.id,
        RunLinkView { target: s[c].id(), basis: CorrelationBasis::ContentHashJoin },
    );
}

proof fn lemma_log_source_back(s: Seq<RecordView>, id: Seq<char>)
    ensures
        log_source(s, id) matches Some(p) ==> exists|j: int|
            0 <= j < s.len() && (#[trigger] s[j]).id() == id && log_source_of(s[j]) == Some(p),
    decreases s.len(),
{
    if s.len() > 0 {
        let rest = s.drop_last();
        if s.last().id() == id && log_source_of(s.last()) is Some {
            assert(s[s.len() - 1] == s.last());
        } else {
            lemma_log_source_back(rest, id);
            if let Some(p) = log_source(rest, id) {
                let j = choose|j: int|
                    0 <= j < rest.len() && (#[trigger] rest[j]).id() == id && log_source_of(rest[j])
                        == Some(p);
                assert(s[j] == rest[j]);
            }
        }
    }
}

proof fn lemma_source_commands_back(s: Seq<RecordView>, sources: Seq<Seq<char>>, k: int) -> (m: int)
    requires
        0 <= k < commands_of_sources(s, sources).len(),
    ensures
        0 <= m < sources.len(),
        log_source(s, sources[m]) matches Some(p) && commands_with_hash(
            s,
            p.source_artifact_hash,
        ).contains(commands_of_sources(s, sources)[k]),
    decreases sources.len(),
{
    let rest = sources.drop_last();
    let before = commands_of_sources(s, rest);
    if k < before.len() {
        let m = lemma_source_commands_back(s, rest, k);
        assert(sources[m] == rest[m]);
        m
    } else {
        let here = commands_with_hash(s, log_source(s, sources.last())->0.source_artifact_hash);
        assert(here[k - before.len()] == commands_of_sources(s, sources)[k]);
        sources.len() - 1
    }
}

/// The signature was captured from the log at `j`, whose bytes have the hash.
pub open spec fn is_log_at(s: Seq<RecordView>, j: int, sig: Seq<char>, hash: Seq<char>) -> bool {
    0 <= j < s.len() && (s[j] matches RecordView::Node(log) && is_log_with(log, hash) && has_edge(
        s,
        EdgeLabel::CapturedFrom,
        sig,
        log.id,
    ))
}

/// A link by equal bytes leads to a command that wrote a log, and the signature was captured from
/// that log.
pub proof fn law_linked_commands_wrote_the_log(
    s: Seq<RecordView>,
    tolerance: int,
    sig: Seq<char>,
    l: RunLinkView,
)
    requires
        run_links(s, tolerance, sig).contains(l),
        l.basis == CorrelationBasis::ContentHashJoin,
    ensures
        exists|c: int, j: int, hash: Seq<char>|
            #![trigger wrote(s, c, hash), is_log_at(s, j, sig, hash)]
            wrote(s, c, hash) && is_log_at(s, j, sig, hash) && s[c].id() == l.target,
{
    lemma_link_members(s, tolerance, sig, l);
    let sources = sources_of(s, sig);
    let all = commands_of_sources(s, sources);
    law_distinct(all);
    assert(all.contains(l.target));
    let k = choose|k: int| 0 <= k < all.len() && all[k] == l.target;
    let m = lemma_source_commands_back(s, sources, k);
    let p = log_source(s, sources[m])->0;
    let here = commands_with_hash(s, p.source_artifact_hash);
    let x = choose|x: int| 0 <= x < here.len() && here[x] == l.target;
    let c = lemma_commands_back(s, p.source_artifact_hash, x);
    lemma_log_source_back(s, sources[m]);
    let j = choose|j: int|
        0 <= j < s.len() && (#[trigger] s[j]).id() == sources[m] && log_source_of(s[j]) == Some(p);
    let captured = targets_of(s, sig, EdgeLabel::CapturedFrom, EdgeLabel::CapturedFrom);
    law_distinct(captured);
    assert(sources.contains(sources[m]));
    lemma_targets(s, sig, EdgeLabel::CapturedFrom, EdgeLabel::CapturedFrom, sources[m]);
    assert(wrote(s, c, p.source_artifact_hash));
    assert(s[j] is Node);
    assert(is_log_at(s, j, sig, p.source_artifact_hash));
}

// ── Time ────────────────────────────────────────────────────────────────────

/// An instant in nanoseconds.
pub open spec fn at(t: Instant) -> int {
    t.secs * 1_000_000_000 + t.nanos
}

/// Outside leap seconds, a widened window holds the instants from so many seconds before its start
/// to so many after its end, both included.
pub proof fn law_window(start: Instant, end: Instant, tolerance: int, t: Instant)
    requires
        start.nanos < 1_000_000_000,
        end.nanos < 1_000_000_000,
        t.nanos < 1_000_000_000,
    ensures
        covers(start, end, tolerance, t) <==> at(start) - tolerance * 1_000_000_000 <= at(t) <= at(
            end,
        ) + tolerance * 1_000_000_000,
{
}

/// The node is a run or a turn that started and finished then. One that does not say when it
/// started counts from when it was observed.
pub open spec fn ran(n: NodeRecordView, start: Instant, end: Instant) -> bool {
    &&& n.kind == NodeKind::AgentRun || n.kind == NodeKind::AgentTurn
    &&& n.memory.finished_at matches Some(b) && rfc3339_instant(b) == Some(end)
    &&& match n.memory.started_at {
        Some(a) => rfc3339_instant(a) == Some(start),
        None => n.memory.observed_at matches Some(a) && rfc3339_instant(a) == Some(start),
    }
}

proof fn lemma_signature_times(s: Seq<RecordView>, id: Seq<char>, i: int, at: int)
    requires
        0 <= at <= i < s.len(),
        s[i].id() == id,
        signature_payload_times(s[i]) is Some,
        forall|j: int| 0 <= j < i ==> (#[trigger] s[j]).id() != id,
    ensures
        signature_times_from(s, id, at) == signature_payload_times(s[i]),
    decreases i - at,
{
    if at < i {
        lemma_signature_times(s, id, i, at + 1);
    }
}

/// A signature of the repository is linked to every run that was under way, give or take the
/// tolerance, when it was last seen; where that is no timestamp, when it was first seen.
pub proof fn law_runs_at_the_time_are_linked(
    s: Seq<RecordView>,
    tolerance: int,
    i: int,
    sig: NodeRecordView,
    t: Instant,
    r: int,
    run: NodeRecordView,
    start: Instant,
    end: Instant,
)
    requires
        repo_eligible(s, sig.id),
        0 <= i < s.len(),
        s[i] == RecordView::Node(sig),
        forall|j: int| 0 <= j < i ==> (#[trigger] s[j]).id() != sig.id,
        sig.log matches Some(LogPayloadView::ErrorSignature(p)) && match rfc3339_instant(
            p.last_seen,
        ) {
            Some(x) => x == t,
            None => rfc3339_instant(p.first_seen) == Some(t),
        },
        0 <= r < s.len(),
        s[r] == RecordView::Node(run),
        ran(run, start, end),
        start.nanos < 1_000_000_000,
        end.nanos < 1_000_000_000,
        t.nanos < 1_000_000_000,
        at(start) <= at(end),
        at(start) - tolerance * 1_000_000_000 <= at(t) <= at(end) + tolerance * 1_000_000_000,
    ensures
        run_links(s, tolerance, sig.id).contains(
            RunLinkView { target: run.id, basis: CorrelationBasis::TemporalCorrelation },
        ),
{
    lemma_signature_times(s, sig.id, i, 0);
    assert(signature_time(s, sig.id) == Some(t));
    law_window(start, end, tolerance, t);
    assert(window_of(s[r]) == Some((start, end)));
    law_every_covering_run_is_linked(s, tolerance, sig.id, r);
}

proof fn lemma_covering_back(s: Seq<RecordView>, tolerance: int, t: Instant, k: int) -> (r: int)
    requires
        0 <= k < runs_covering(s, tolerance, t).len(),
    ensures
        0 <= r < s.len(),
        s[r].id() == runs_covering(s, tolerance, t)[k],
        window_of(s[r]) matches Some(w) && covers(w.0, w.1, tolerance, t),
    decreases s.len(),
{
    let rest = s.drop_last();
    if k < runs_covering(rest, tolerance, t).len() {
        let r = lemma_covering_back(rest, tolerance, t, k);
        assert(rest[r] == s[r]);
        r
    } else {
        s.len() - 1
    }
}

/// The run at `r` was under way at the instant, give or take the tolerance.
pub open spec fn under_way(s: Seq<RecordView>, r: int, tolerance: int, t: Instant) -> bool {
    0 <= r < s.len() && (s[r] matches RecordView::Node(run) && exists|start: Instant, end: Instant|
        #[trigger] ran(run, start, end) && covers(start, end, tolerance, t))
}

/// A link by time leads to a run that was under way then, and the signature belongs to the
/// repository.
pub proof fn law_linked_runs_were_under_way(
    s: Seq<RecordView>,
    tolerance: int,
    sig: Seq<char>,
    l: RunLinkView,
)
    requires
        run_links(s, tolerance, sig).contains(l),
        l.basis == CorrelationBasis::TemporalCorrelation,
    ensures
        repo_eligible(s, sig),
        signature_time(s, sig) matches Some(t) && exists|r: int| #[trigger]
            under_way(s, r, tolerance, t) && s[r].id() == l.target,
{
    lemma_link_members(s, tolerance, sig, l);
    let t = signature_time(s, sig)->0;
    let all = runs_covering(s, tolerance, t);
    law_distinct(all);
    assert(temporal_targets(s, tolerance, sig).contains(l.target));
    assert(all.contains(l.target));
    let k = choose|k: int| 0 <= k < all.len() && all[k] == l.target;
    let r = lemma_covering_back(s, tolerance, t, k);
    let (start, end) = window_of(s[r])->0;
    assert(ran(s[r]->Node_0, start, end));
    assert(under_way(s, r, tolerance, t));
}

// ── Tasks ───────────────────────────────────────────────────────────────────

pub open spec fn is_task(kind: NodeKind) -> bool {
    kind == NodeKind::Task || kind == NodeKind::GitHubIssue || kind == NodeKind::LocalTask
}

proof fn lemma_tasks_of(s: Seq<RecordView>, run: Seq<char>, j: int, task: NodeRecordView)
    requires
        is_newest(s, j, task),
        is_task(task.kind),
        has_edge(s, EdgeLabel::ReferencesTask, run, task.id) || has_edge(
            s,
            EdgeLabel::OwnedByTask,
            run,
            task.id,
        ),
    ensures
        tasks_of(s, run).contains(task.id),
{
    lemma_kind_of(s, j, task);
    lemma_targets(s, run, EdgeLabel::ReferencesTask, EdgeLabel::OwnedByTask, task.id);
    let all = targets_of(s, run, EdgeLabel::ReferencesTask, EdgeLabel::OwnedByTask);
    let f = |t: Seq<char>| task_kind(kind_of(s, t));
    broadcast use vstd::seq_lib::group_filter_ensures;

    assert(f(task.id));
    let k = choose|k: int| 0 <= k < all.len() && all[k] == task.id;
    assert(all.filter(f).contains(all[k]));
}

proof fn lemma_tasks_through(s: Seq<RecordView>, links: Seq<RunLinkView>, k: int, task: Seq<char>)
    requires
        0 <= k < links.len(),
        tasks_of(s, links[k].target).contains(task),
    ensures
        tasks_through(s, links).contains(task),
        links[k].basis == CorrelationBasis::ContentHashJoin ==> task_basis(s, links, task)
            == CorrelationBasis::ContentHashJoin,
    decreases links.len(),
{
    let rest = links.drop_last();
    let before = tasks_through(s, rest);
    let all = tasks_through(s, links);
    if k < rest.len() {
        assert(rest[k] == links[k]);
        lemma_tasks_through(s, rest, k, task);
        let m = choose|m: int| 0 <= m < before.len() && before[m] == task;
        assert(all[m] == task);
    } else {
        let here = tasks_of(s, links[k].target);
        let m = choose|m: int| 0 <= m < here.len() && here[m] == task;
        assert(all[before.len() + m] == task);
    }
}

/// A signature is linked to the tasks of what it is linked to, and by equal bytes where one of the
/// links that lead there is.
pub proof fn law_tasks_of_linked_runs_are_linked(
    s: Seq<RecordView>,
    tolerance: int,
    sig: Seq<char>,
    l: RunLinkView,
    j: int,
    task: NodeRecordView,
)
    requires
        run_links(s, tolerance, sig).contains(l),
        is_newest(s, j, task),
        is_task(task.kind),
        has_edge(s, EdgeLabel::ReferencesTask, l.target, task.id) || has_edge(
            s,
            EdgeLabel::OwnedByTask,
            l.target,
            task.id,
        ),
    ensures
        exists|k: int|
            0 <= k < task_links(s, tolerance, sig).len() && (#[trigger] task_links(
                s,
                tolerance,
                sig,
            )[k]).target == task.id && (l.basis == CorrelationBasis::ContentHashJoin ==> task_links(
                s,
                tolerance,
                sig,
            )[k].basis == CorrelationBasis::ContentHashJoin),
{
    let links = run_links(s, tolerance, sig);
    let m = choose|m: int| 0 <= m < links.len() && links[m] == l;
    lemma_tasks_of(s, l.target, j, task);
    lemma_tasks_through(s, links, m, task.id);
    law_distinct(tasks_through(s, links));
    let ids = task_targets(s, tolerance, sig);
    assert(ids.contains(task.id));
    let k = choose|k: int| 0 <= k < ids.len() && ids[k] == task.id;
    assert(task_links(s, tolerance, sig)[k].target == task.id);
}

// ── Edges ───────────────────────────────────────────────────────────────────

proof fn lemma_ids_of_kind(s: Seq<RecordView>, kind: NodeKind, i: int)
    requires
        0 <= i < s.len(),
        s[i] matches RecordView::Node(n) && n.kind == kind,
    ensures
        ids_of_kind(s, kind).contains(s[i].id()),
    decreases s.len(),
{
    let rest = s.drop_last();
    let all = ids_of_kind(s, kind);
    if i < rest.len() {
        assert(rest[i] == s[i]);
        lemma_ids_of_kind(rest, kind, i);
        let before = ids_of_kind(rest, kind);
        let k = choose|k: int| 0 <= k < before.len() && before[k] == s[i].id();
        assert(all[k] == s[i].id());
    } else {
        assert(all[all.len() - 1] == s[i].id());
    }
}

/// An edge of the result from a signature to what it is linked to.
pub open spec fn is_run_link(
    r: RecordView,
    sig: Seq<char>,
    target: Seq<char>,
    basis: CorrelationBasis,
) -> bool {
    r matches RecordView::Edge(e) && {
        &&& e.label == EdgeLabel::EmittedDuring
        &&& e.source == sig
        &&& e.target == target
        &&& e.basis == Some(basis)
        &&& basis == CorrelationBasis::ContentHashJoin ==> e.confidence == Some("1.0"@)
        &&& basis == CorrelationBasis::TemporalCorrelation ==> e.confidence == Some("0.5"@)
    }
}

/// Every link becomes an edge, sure where it rests on equal bytes and half sure where it rests on
/// time.
pub proof fn law_links_become_edges(
    s: Seq<RecordView>,
    tolerance: int,
    i: int,
    sig: NodeRecordView,
    l: RunLinkView,
)
    requires
        run_identities_differ(s, tolerance),
        0 <= i < s.len(),
        s[i] == RecordView::Node(sig),
        sig.kind == NodeKind::ErrorSignature,
        run_links(s, tolerance, sig.id).contains(l),
    ensures
        exists|r: RecordView|
            new_edges(s, tolerance).contains(r) && #[trigger] is_run_link(
                r,
                sig.id,
                l.target,
                l.basis,
            ),
{
    lemma_ids_of_kind(s, NodeKind::ErrorSignature, i);
    law_distinct(ids_of_kind(s, NodeKind::ErrorSignature));
    assert(signature_ids(s).contains(sig.id));
    let p = PendingView { sig: sig.id, target: l.target, basis: l.basis };
    lemma_pending_back(s, tolerance, signature_ids(s), p);
    let r = run_edge(p);
    assert(links_a_run(s, tolerance, r));
    law_run_edges_are_the_run_links(s, tolerance);
    assert(is_run_link(r, sig.id, l.target, l.basis));
}

// ── The repository ──────────────────────────────────────────────────────────

/// The node at `i` is the only repository of the store.
pub open spec fn is_only_repository(s: Seq<RecordView>, i: int) -> bool {
    &&& 0 <= i < s.len()
    &&& s[i] matches RecordView::Node(n) && n.kind == NodeKind::Repository
    &&& forall|j: int|
        0 <= j < s.len() && j != i ==> !(#[trigger] s[j] matches RecordView::Node(n) && n.kind
            == NodeKind::Repository)
}

proof fn lemma_no_repository(s: Seq<RecordView>)
    requires
        forall|j: int|
            0 <= j < s.len() ==> !(#[trigger] s[j] matches RecordView::Node(n) && n.kind
                == NodeKind::Repository),
    ensures
        ids_of_kind(s, NodeKind::Repository).len() == 0,
    decreases s.len(),
{
    if s.len() > 0 {
        let rest = s.drop_last();
        assert(!(s[s.len() - 1] matches RecordView::Node(n) && n.kind == NodeKind::Repository));
        assert forall|j: int| 0 <= j < rest.len() implies !(#[trigger] rest[j] matches
            RecordView::Node(n) && n.kind == NodeKind::Repository) by {
            assert(rest[j] == s[j]);
        }
        lemma_no_repository(rest);
    }
}

proof fn lemma_only_repository(s: Seq<RecordView>, i: int)
    requires
        is_only_repository(s, i),
    ensures
        ids_of_kind(s, NodeKind::Repository) == seq![s[i].id()],
    decreases s.len(),
{
    let rest = s.drop_last();
    if i < rest.len() {
        assert(!(s[s.len() - 1] matches RecordView::Node(n) && n.kind == NodeKind::Repository));
        assert(rest[i] == s[i]);
        assert forall|j: int| 0 <= j < rest.len() && j != i implies !(#[trigger] rest[j] matches
            RecordView::Node(n) && n.kind == NodeKind::Repository) by {
            assert(rest[j] == s[j]);
        }
        lemma_only_repository(rest, i);
    } else {
        assert forall|j: int| 0 <= j < rest.len() implies !(#[trigger] rest[j] matches
            RecordView::Node(n) && n.kind == NodeKind::Repository) by {
            assert(rest[j] == s[j]);
        }
        lemma_no_repository(rest);
        assert(ids_of_kind(s, NodeKind::Repository) =~= seq![s[i].id()]);
    }
}

/// A signature belongs to the repository of the store, where there is one alone, if it was captured
/// from a log that has the identity which that repository gives it.
pub proof fn law_signatures_of_the_repository(
    s: Seq<RecordView>,
    r: int,
    i: int,
    sig: NodeRecordView,
    j: int,
    log: NodeRecordView,
    path: Seq<char>,
    hash: Seq<char>,
)
    requires
        is_only_repository(s, r),
        is_newest(s, i, sig),
        sig.kind == NodeKind::ErrorSignature,
        has_edge(s, EdgeLabel::CapturedFrom, sig.id, log.id),
        is_newest(s, j, log),
        log.kind == NodeKind::LogSource,
        log.log matches Some(LogPayloadView::LogSource(p)) && p.source_relative_path == path
            && p.source_artifact_hash == hash,
        log.id == crate::ir::log_id(seq!["log_source"@, s[r].id(), path, hash]),
    ensures
        repo_eligible(s, sig.id),
{
    lemma_only_repository(s, r);
    lemma_kind_of(s, i, sig);
    lemma_log_source(s, j, log);
    let captured = targets_of(s, sig.id, EdgeLabel::CapturedFrom, EdgeLabel::CapturedFrom);
    lemma_targets(s, sig.id, EdgeLabel::CapturedFrom, EdgeLabel::CapturedFrom, log.id);
    law_distinct(captured);
    let sources = sources_of(s, sig.id);
    assert(sources.contains(log.id));
    let k = choose|k: int| 0 <= k < sources.len() && sources[k] == log.id;
    assert(crate::log_link::attributed(s, s[r].id(), sources[k]));
}

} // verus!
