//! Links error signatures to the agent runs and commands that plausibly produced them.
//!
//! A signature is linked to a command whose captured output is the very log that the signature
//! was read from (`content_hash_join`), and to a run or turn whose execution window covers the
//! signature's time (`temporal_correlation`). No link exists without one of these two bases. Task
//! links of a linked run are passed on to the signature with the strongest basis that reaches them.
//!
//! A temporal link needs the repository to be known: the store holds exactly one repository node,
//! and one of the signature's log sources has the identity that this repository gives it.
use vstd::prelude::*;

use crate::duplicate::{duplicate_opt, extend_with, lemma_push, Duplicate};
use crate::ir::{
    domain_from_record_id, id_domain, log_id, log_stable_id, CorrelationBasis, EdgeLabel,
    EdgeRecord, EdgeRecordView, EvidenceLink, EvidenceLinkView, GraphRecord, LogPayload,
    LogPayloadView, LogSourcePayload, LogSourcePayloadView, NodeKind, NodeRecordView, OutputHandle,
    OutputHandleView, RecordView, LOG_SCHEMA_VERSION,
};
use crate::order::{
    distinct, distinct_texts, lemma_sorted_len, sort_by_keys, sorted_by, KeyPart, KeyPartView,
};
use crate::text::{cat4, cat6, parts4, parts5, same};
use crate::time::{
    at_or_before, covers, instant_le, parse_rfc3339, rfc3339_instant, window_covers, Instant,
};

verus! {

/// Options for the log linker.
#[derive(Debug, PartialEq, Eq)]
pub struct LinkLogsOptions {
    /// Seconds by which an execution window is widened on both sides; below zero counts as zero.
    pub tolerance_seconds: i64,
    /// The commit view that is recorded on emitted citations.
    pub at_commit: Option<String>,
}

impl Default for LinkLogsOptions {
    fn default() -> (r: LinkLogsOptions)
        ensures
            r.tolerance_seconds == 0,
            r.at_commit is None,
    {
        LinkLogsOptions { tolerance_seconds: 0, at_commit: None }
    }
}

impl LinkLogsOptions {
    pub open spec fn tolerance(self) -> i64 {
        if self.tolerance_seconds < 0 {
            0
        } else {
            self.tolerance_seconds
        }
    }

    fn clamped(&self) -> (r: i64)
        ensures
            r == self.tolerance(),
            r >= 0,
    {
        if self.tolerance_seconds < 0 {
            0
        } else {
            self.tolerance_seconds
        }
    }
}

/// What was linked for one signature.
#[derive(Debug, PartialEq, Eq)]
pub struct SignatureLinkTally {
    pub signature_id: String,
    pub content_hash_join: u64,
    pub temporal_correlation: u64,
    pub task_links: u64,
    /// The signature got no run link at all.
    pub uncorrelated: bool,
}

#[verifier::ext_equal]
pub struct TallyView {
    pub signature_id: Seq<char>,
    pub content_hash_join: int,
    pub temporal_correlation: int,
    pub task_links: int,
    pub uncorrelated: bool,
}

impl DeepView for SignatureLinkTally {
    type V = TallyView;

    open spec fn deep_view(&self) -> TallyView {
        TallyView {
            signature_id: self.signature_id@,
            content_hash_join: self.content_hash_join as int,
            temporal_correlation: self.temporal_correlation as int,
            task_links: self.task_links as int,
            uncorrelated: self.uncorrelated,
        }
    }
}

/// What was linked over all signatures.
#[derive(Debug, PartialEq, Eq)]
pub struct LinkTotals {
    pub signatures: u64,
    pub content_hash_join_edges: u64,
    pub temporal_correlation_edges: u64,
    pub task_link_edges: u64,
    pub uncorrelated: u64,
    /// Signatures whose covering windows were passed over because the repository is not known.
    pub cross_repo_rejected: u64,
    pub tolerance_seconds: i64,
    pub temporal_correlation_enabled: bool,
}

#[verifier::ext_equal]
pub struct TotalsView {
    pub signatures: int,
    pub content_hash_join_edges: int,
    pub temporal_correlation_edges: int,
    pub task_link_edges: int,
    pub uncorrelated: int,
    pub cross_repo_rejected: int,
    pub tolerance_seconds: int,
    pub temporal_correlation_enabled: bool,
}

impl DeepView for LinkTotals {
    type V = TotalsView;

    open spec fn deep_view(&self) -> TotalsView {
        TotalsView {
            signatures: self.signatures as int,
            content_hash_join_edges: self.content_hash_join_edges as int,
            temporal_correlation_edges: self.temporal_correlation_edges as int,
            task_link_edges: self.task_link_edges as int,
            uncorrelated: self.uncorrelated as int,
            cross_repo_rejected: self.cross_repo_rejected as int,
            tolerance_seconds: self.tolerance_seconds as int,
            temporal_correlation_enabled: self.temporal_correlation_enabled,
        }
    }
}

/// Result of a link pass.
#[derive(Debug, PartialEq, Eq)]
pub struct LinkLogsResult {
    /// The log-domain records, signatures with their citations, then the new edges. Records of
    /// other domains are never emitted again.
    pub records: Vec<GraphRecord>,
    /// By signature.
    pub signatures: Vec<SignatureLinkTally>,
    pub totals: LinkTotals,
}

// ── What the store says ─────────────────────────────────────────────────────

/// The identities of the nodes of one kind, in store order.
pub open spec fn ids_of_kind(s: Seq<RecordView>, kind: NodeKind) -> Seq<Seq<char>>
    decreases s.len(),
{
    if s.len() == 0 {
        Seq::empty()
    } else if s.last().is_kind(kind) {
        ids_of_kind(s.drop_last(), kind).push(s.last().id())
    } else {
        ids_of_kind(s.drop_last(), kind)
    }
}

/// The repository that all records belong to: there is exactly one repository node.
pub open spec fn anchor(s: Seq<RecordView>) -> Option<Seq<char>> {
    let repositories = ids_of_kind(s, NodeKind::Repository);
    if repositories.len() == 1 {
        Some(repositories[0])
    } else {
        None
    }
}

/// The kind of the last node with this identity.
pub open spec fn kind_of(s: Seq<RecordView>, id: Seq<char>) -> Option<NodeKind>
    decreases s.len(),
{
    if s.len() == 0 {
        None
    } else if s.last() is Node && s.last().id() == id {
        Some(s.last()->Node_0.kind)
    } else {
        kind_of(s.drop_last(), id)
    }
}

pub open spec fn log_source_of(r: RecordView) -> Option<LogSourcePayloadView> {
    match r {
        RecordView::Node(n) => if n.kind == NodeKind::LogSource && n.log is Some
            && n.log->0 is LogSource {
            Some(n.log->0->LogSource_0)
        } else {
            None
        },
        _ => None,
    }
}

/// What the last log-source node with this identity says of its file.
pub open spec fn log_source(s: Seq<RecordView>, id: Seq<char>) -> Option<LogSourcePayloadView>
    decreases s.len(),
{
    if s.len() == 0 {
        None
    } else if s.last().id() == id && log_source_of(s.last()) is Some {
        log_source_of(s.last())
    } else {
        log_source(s.drop_last(), id)
    }
}

pub open spec fn has_hash(handle: Option<OutputHandleView>, hash: Seq<char>) -> bool {
    handle matches Some(h) && h.hash == hash
}

/// A command one of whose captured outputs has this hash.
pub open spec fn command_with_hash(r: RecordView, hash: Seq<char>) -> bool {
    hash.len() > 0 && (r matches RecordView::Node(n) && n.kind == NodeKind::CommandRun && (has_hash(
        n.verification.stdout_handle,
        hash,
    ) || has_hash(n.verification.stderr_handle, hash)))
}

pub open spec fn commands_with_hash(s: Seq<RecordView>, hash: Seq<char>) -> Seq<Seq<char>>
    decreases s.len(),
{
    if s.len() == 0 {
        Seq::empty()
    } else if command_with_hash(s.last(), hash) {
        commands_with_hash(s.drop_last(), hash).push(s.last().id())
    } else {
        commands_with_hash(s.drop_last(), hash)
    }
}

/// The window between two instants. There is none where either is missing, or where the end comes
/// first.
pub open spec fn window_between(start: Option<Instant>, end: Option<Instant>) -> Option<
    (Instant, Instant),
> {
    match (start, end) {
        (Some(a), Some(b)) => if instant_le(a, b) {
            Some((a, b))
        } else {
            None
        },
        _ => None,
    }
}

pub fn execution_window(start: Option<Instant>, end: Option<Instant>) -> (r: Option<
    (Instant, Instant),
>)
    ensures
        r == window_between(start, end),
{
    match (start, end) {
        (Some(a), Some(b)) => if at_or_before(a, b) {
            Some((a, b))
        } else {
            None
        },
        _ => None,
    }
}

/// The execution window of a run or turn: from its start, or else its observation, to its end.
/// There is none where either is missing or no timestamp, or where the end comes first.
pub open spec fn window_of(r: RecordView) -> Option<(Instant, Instant)> {
    match r {
        RecordView::Node(n) => if n.kind == NodeKind::AgentRun || n.kind == NodeKind::AgentTurn {
            let start_text = if n.memory.started_at is Some {
                n.memory.started_at
            } else {
                n.memory.observed_at
            };
            match (start_text, n.memory.finished_at) {
                (Some(a), Some(b)) => window_between(rfc3339_instant(a), rfc3339_instant(b)),
                _ => None,
            }
        } else {
            None
        },
        _ => None,
    }
}

/// The runs and turns whose widened window covers `t`.
pub open spec fn runs_covering(s: Seq<RecordView>, tolerance: int, t: Instant) -> Seq<Seq<char>>
    decreases s.len(),
{
    if s.len() == 0 {
        Seq::empty()
    } else if window_of(s.last()) matches Some((start, end)) && covers(start, end, tolerance, t) {
        runs_covering(s.drop_last(), tolerance, t).push(s.last().id())
    } else {
        runs_covering(s.drop_last(), tolerance, t)
    }
}

/// The targets of a node's edges with one of two labels.
pub open spec fn targets_of(
    s: Seq<RecordView>,
    source: Seq<char>,
    label: EdgeLabel,
    other: EdgeLabel,
) -> Seq<Seq<char>>
    decreases s.len(),
{
    if s.len() == 0 {
        Seq::empty()
    } else {
        let before = targets_of(s.drop_last(), source, label, other);
        match s.last() {
            RecordView::Edge(e) => if (e.label == label || e.label == other) && e.source == source {
                before.push(e.target)
            } else {
                before
            },
            _ => before,
        }
    }
}

pub open spec fn signature_payload_times(r: RecordView) -> Option<(Seq<char>, Seq<char>)> {
    match r {
        RecordView::Node(n) => match n.log {
            Some(LogPayloadView::ErrorSignature(p)) => Some((p.last_seen, p.first_seen)),
            _ => None,
        },
        _ => None,
    }
}

/// The first and last time that the first record of a signature was seen, from position `i` on.
pub open spec fn signature_times_from(s: Seq<RecordView>, id: Seq<char>, i: int) -> Option<
    (Seq<char>, Seq<char>),
>
    decreases s.len() - i,
{
    if i < 0 || i >= s.len() {
        None
    } else if s[i].id() == id && signature_payload_times(s[i]) is Some {
        signature_payload_times(s[i])
    } else {
        signature_times_from(s, id, i + 1)
    }
}

/// The time at which something was last seen, or else first seen.
pub open spec fn last_or_first(last: Option<Instant>, first: Option<Instant>) -> Option<Instant> {
    if last is Some {
        last
    } else {
        first
    }
}

pub fn representative_time(last: Option<Instant>, first: Option<Instant>) -> (r: Option<Instant>)
    ensures
        r == last_or_first(last, first),
{
    match last {
        Some(t) => Some(t),
        None => first,
    }
}

/// The time that stands for a signature: when it was last seen, or else first seen.
pub open spec fn signature_time(s: Seq<RecordView>, id: Seq<char>) -> Option<Instant> {
    match signature_times_from(s, id, 0) {
        Some((last, first)) => last_or_first(rfc3339_instant(last), rfc3339_instant(first)),
        None => None,
    }
}

// ── What is linked ──────────────────────────────────────────────────────────

pub open spec fn signature_ids(s: Seq<RecordView>) -> Seq<Seq<char>> {
    distinct(ids_of_kind(s, NodeKind::ErrorSignature))
}

/// The log sources that a signature was captured from.
pub open spec fn sources_of(s: Seq<RecordView>, sig: Seq<char>) -> Seq<Seq<char>> {
    if kind_of(s, sig) == Some(NodeKind::ErrorSignature) {
        distinct(targets_of(s, sig, EdgeLabel::CapturedFrom, EdgeLabel::CapturedFrom))
    } else {
        Seq::empty()
    }
}

/// The log source has the identity that the repository gives it.
pub open spec fn attributed(s: Seq<RecordView>, repository: Seq<char>, source: Seq<char>) -> bool {
    log_source(s, source) matches Some(p) && log_id(
        seq!["log_source"@, repository, p.source_relative_path, p.source_artifact_hash],
    ) == source
}

/// The repository is known and one of the signature's log sources belongs to it.
pub open spec fn repo_eligible(s: Seq<RecordView>, sig: Seq<char>) -> bool {
    match anchor(s) {
        Some(a) => any_attributed(s, a, sources_of(s, sig)),
        None => false,
    }
}

pub open spec fn any_attributed(
    s: Seq<RecordView>,
    repository: Seq<char>,
    sources: Seq<Seq<char>>,
) -> bool {
    exists|i: int| 0 <= i < sources.len() && #[trigger] attributed(s, repository, sources[i])
}

/// The commands whose output is one of the given log sources.
pub open spec fn commands_of_sources(s: Seq<RecordView>, sources: Seq<Seq<char>>) -> Seq<Seq<char>>
    decreases sources.len(),
{
    if sources.len() == 0 {
        Seq::empty()
    } else {
        commands_of_sources(s, sources.drop_last()) + (match log_source(s, sources.last()) {
            Some(p) => commands_with_hash(s, p.source_artifact_hash),
            None => Seq::empty(),
        })
    }
}

pub open spec fn hash_targets(s: Seq<RecordView>, sig: Seq<char>) -> Seq<Seq<char>> {
    distinct(commands_of_sources(s, sources_of(s, sig)))
}

pub open spec fn covering_targets(s: Seq<RecordView>, tolerance: int, sig: Seq<char>) -> Seq<
    Seq<char>,
> {
    match signature_time(s, sig) {
        Some(t) => distinct(runs_covering(s, tolerance, t)),
        None => Seq::empty(),
    }
}

pub open spec fn temporal_targets(s: Seq<RecordView>, tolerance: int, sig: Seq<char>) -> Seq<
    Seq<char>,
> {
    if repo_eligible(s, sig) {
        covering_targets(s, tolerance, sig)
    } else {
        Seq::empty()
    }
}

/// Runs cover the signature's time but the repository is not known.
pub open spec fn rejected(s: Seq<RecordView>, tolerance: int, sig: Seq<char>) -> bool {
    covering_targets(s, tolerance, sig).len() > 0 && !repo_eligible(s, sig)
}

/// One run link before it becomes an edge and a citation.
#[verifier::ext_equal]
pub struct RunLinkView {
    pub target: Seq<char>,
    pub basis: CorrelationBasis,
}

pub struct RunLink {
    pub target: String,
    pub basis: CorrelationBasis,
}

impl DeepView for RunLink {
    type V = RunLinkView;

    open spec fn deep_view(&self) -> RunLinkView {
        RunLinkView { target: self.target@, basis: self.basis }
    }
}

impl Duplicate for RunLink {
    fn duplicate(&self) -> (r: RunLink) {
        RunLink { target: self.target.clone(), basis: self.basis }
    }
}

pub open spec fn with_basis(ids: Seq<Seq<char>>, basis: CorrelationBasis) -> Seq<RunLinkView> {
    ids.map_values(|id: Seq<char>| RunLinkView { target: id, basis })
}

pub open spec fn run_link_key(l: RunLinkView) -> Seq<KeyPartView> {
    seq![
        KeyPartView::Text(l.target),
        KeyPartView::Num(
            match l.basis {
                CorrelationBasis::ContentHashJoin => 0,
                CorrelationBasis::TemporalCorrelation => 1,
            },
        ),
    ]
}

pub open spec fn unsorted_run_links(s: Seq<RecordView>, tolerance: int, sig: Seq<char>) -> Seq<
    RunLinkView,
> {
    with_basis(hash_targets(s, sig), CorrelationBasis::ContentHashJoin) + with_basis(
        temporal_targets(s, tolerance, sig),
        CorrelationBasis::TemporalCorrelation,
    )
}

/// The run links of a signature, by target and basis.
pub open spec fn run_links(s: Seq<RecordView>, tolerance: int, sig: Seq<char>) -> Seq<RunLinkView> {
    let all = unsorted_run_links(s, tolerance, sig);
    sorted_by(all, all.map_values(|l: RunLinkView| run_link_key(l)))
}

pub open spec fn task_kind(kind: Option<NodeKind>) -> bool {
    kind == Some(NodeKind::Task) || kind == Some(NodeKind::GitHubIssue) || kind == Some(
        NodeKind::LocalTask,
    )
}

/// The tasks that a run or command is tied to.
pub open spec fn tasks_of(s: Seq<RecordView>, run: Seq<char>) -> Seq<Seq<char>> {
    targets_of(s, run, EdgeLabel::ReferencesTask, EdgeLabel::OwnedByTask).filter(
        |t: Seq<char>| task_kind(kind_of(s, t)),
    )
}

/// The tasks reached through the given links.
pub open spec fn tasks_through(s: Seq<RecordView>, links: Seq<RunLinkView>) -> Seq<Seq<char>>
    decreases links.len(),
{
    if links.len() == 0 {
        Seq::empty()
    } else {
        tasks_through(s, links.drop_last()) + tasks_of(s, links.last().target)
    }
}

pub open spec fn task_targets(
    s: Seq<RecordView>,
    tolerance: int,
    sig: Seq<char>,
) -> Seq<Seq<char>> {
    distinct(tasks_through(s, run_links(s, tolerance, sig)))
}

/// The stronger of two bases: byte equality beats coincidence in time.
pub open spec fn stronger_of(a: CorrelationBasis, b: CorrelationBasis) -> CorrelationBasis {
    if a == CorrelationBasis::ContentHashJoin || b == CorrelationBasis::ContentHashJoin {
        CorrelationBasis::ContentHashJoin
    } else {
        CorrelationBasis::TemporalCorrelation
    }
}

/// The strongest basis among the links that reach a task.
pub open spec fn task_basis(
    s: Seq<RecordView>,
    links: Seq<RunLinkView>,
    task: Seq<char>,
) -> CorrelationBasis
    decreases links.len(),
{
    if links.len() == 0 {
        CorrelationBasis::TemporalCorrelation
    } else if tasks_of(s, links.last().target).contains(task) {
        stronger_of(task_basis(s, links.drop_last(), task), links.last().basis)
    } else {
        task_basis(s, links.drop_last(), task)
    }
}

pub fn stronger(a: CorrelationBasis, b: CorrelationBasis) -> (r: CorrelationBasis)
    ensures
        r == stronger_of(a, b),
{
    match (a, b) {
        (CorrelationBasis::ContentHashJoin, _) => CorrelationBasis::ContentHashJoin,
        (_, CorrelationBasis::ContentHashJoin) => CorrelationBasis::ContentHashJoin,
        _ => CorrelationBasis::TemporalCorrelation,
    }
}

// ── Edges and citations ─────────────────────────────────────────────────────

/// The domain of a record, for a citation.
pub open spec fn cited_domain(id: Seq<char>) -> Seq<char> {
    match id_domain(id) {
        Some(d) => d,
        None => "unknown"@,
    }
}

fn domain_of(id: &str) -> (r: String)
    ensures
        r@ == cited_domain(id@),
{
    match domain_from_record_id(id) {
        Some(d) => d,
        None => "unknown".to_owned(),
    }
}

pub open spec fn citation(
    target: Seq<char>,
    relation: EdgeLabel,
    basis: CorrelationBasis,
    at_commit: Option<Seq<char>>,
) -> EvidenceLinkView {
    EvidenceLinkView {
        target_record_id: Some(target),
        target_domain: cited_domain(target),
        relation: relation.name(),
        confidence: basis.weight(),
        as_of_commit: at_commit,
        target_repo_relative_path: None,
        target_span: None,
        target_git_commit: None,
    }
}

pub open spec fn emitted_edge(sig: Seq<char>, l: RunLinkView) -> EdgeRecordView {
    EdgeRecordView {
        basis: Some(l.basis),
        ..EdgeRecordView::plain(
            log_id(
                seq!["edge"@, EdgeLabel::EmittedDuring.name(), sig, l.target, l.basis.name()],
            ),
            LOG_SCHEMA_VERSION,
            EdgeLabel::EmittedDuring,
            sig,
            l.target,
            Some(l.basis.weight()),
            "error signature "@ + sig + " emitted during "@ + l.target + " ("@ + l.basis.name()
                + ")"@,
        )
    }
}

pub open spec fn task_edge(
    sig: Seq<char>,
    task: Seq<char>,
    basis: CorrelationBasis,
) -> EdgeRecordView {
    EdgeRecordView::plain(
        log_id(seq!["edge"@, EdgeLabel::ReferencesTask.name(), sig, task]),
        LOG_SCHEMA_VERSION,
        EdgeLabel::ReferencesTask,
        sig,
        task,
        Some(basis.weight()),
        "error signature "@ + sig + " references task "@ + task,
    )
}

pub open spec fn has_edge_id(edges: Seq<RecordView>, id: Seq<char>) -> bool {
    exists|i: int| 0 <= i < edges.len() && (#[trigger] edges[i]).id() == id
}

/// The edges with one more, unless its identity is taken.
pub open spec fn add_edge(edges: Seq<RecordView>, e: EdgeRecordView) -> Seq<RecordView> {
    if has_edge_id(edges, e.id) {
        edges
    } else {
        edges.push(RecordView::Edge(e))
    }
}

/// One link on its way to becoming an edge.
#[verifier::ext_equal]
pub struct PendingView {
    pub sig: Seq<char>,
    pub target: Seq<char>,
    pub basis: CorrelationBasis,
}

pub struct Pending {
    pub sig: String,
    pub target: String,
    pub basis: CorrelationBasis,
}

impl DeepView for Pending {
    type V = PendingView;

    open spec fn deep_view(&self) -> PendingView {
        PendingView { sig: self.sig@, target: self.target@, basis: self.basis }
    }
}

pub open spec fn pending_of(sig: Seq<char>, links: Seq<RunLinkView>) -> Seq<PendingView> {
    links.map_values(|l: RunLinkView| PendingView { sig, target: l.target, basis: l.basis })
}

/// The run links of the given signatures.
pub open spec fn pending_runs(s: Seq<RecordView>, tolerance: int, sigs: Seq<Seq<char>>) -> Seq<
    PendingView,
>
    decreases sigs.len(),
{
    if sigs.len() == 0 {
        Seq::empty()
    } else {
        pending_runs(s, tolerance, sigs.drop_last()) + pending_of(
            sigs.last(),
            run_links(s, tolerance, sigs.last()),
        )
    }
}

pub open spec fn task_links(
    s: Seq<RecordView>,
    tolerance: int,
    sig: Seq<char>,
) -> Seq<RunLinkView> {
    task_targets(s, tolerance, sig).map_values(
        |t: Seq<char>|
            RunLinkView { target: t, basis: task_basis(s, run_links(s, tolerance, sig), t) },
    )
}

/// The task links of the given signatures.
pub open spec fn pending_tasks(s: Seq<RecordView>, tolerance: int, sigs: Seq<Seq<char>>) -> Seq<
    PendingView,
>
    decreases sigs.len(),
{
    if sigs.len() == 0 {
        Seq::empty()
    } else {
        pending_tasks(s, tolerance, sigs.drop_last()) + pending_of(
            sigs.last(),
            task_links(s, tolerance, sigs.last()),
        )
    }
}

pub open spec fn pending_edge(p: PendingView, task: bool) -> EdgeRecordView {
    if task {
        task_edge(p.sig, p.target, p.basis)
    } else {
        emitted_edge(p.sig, RunLinkView { target: p.target, basis: p.basis })
    }
}

/// `edges` with an edge for each of the given links.
pub open spec fn with_edges(edges: Seq<RecordView>, links: Seq<PendingView>, task: bool) -> Seq<
    RecordView,
>
    decreases links.len(),
{
    if links.len() == 0 {
        edges
    } else {
        add_edge(with_edges(edges, links.drop_last(), task), pending_edge(links.last(), task))
    }
}

pub open spec fn edge_key(r: RecordView) -> Seq<KeyPartView> {
    match r {
        RecordView::Edge(e) => seq![
            KeyPartView::Text(e.source),
            KeyPartView::Text(e.label.name()),
            KeyPartView::Text(e.target),
            KeyPartView::Text(e.id),
        ],
        other => seq![
            KeyPartView::Text(Seq::empty()),
            KeyPartView::Text(Seq::empty()),
            KeyPartView::Text(Seq::empty()),
            KeyPartView::Text(other.id()),
        ],
    }
}

/// All new edges, by source, label, target and identity.
pub open spec fn new_edges(s: Seq<RecordView>, tolerance: int) -> Seq<RecordView> {
    let sigs = signature_ids(s);
    let runs = with_edges(Seq::empty(), pending_runs(s, tolerance, sigs), false);
    let all = with_edges(runs, pending_tasks(s, tolerance, sigs), true);
    sorted_by(all, all.map_values(|r: RecordView| edge_key(r)))
}

pub open spec fn citation_key(l: EvidenceLinkView) -> Seq<KeyPartView> {
    seq![
        KeyPartView::Text(l.relation),
        KeyPartView::Num(
            if l.target_record_id is Some {
                1
            } else {
                0
            },
        ),
        KeyPartView::Text(
            match l.target_record_id {
                Some(t) => t,
                None => Seq::empty(),
            },
        ),
    ]
}

pub open spec fn unsorted_citations(
    s: Seq<RecordView>,
    tolerance: int,
    at_commit: Option<Seq<char>>,
    sig: Seq<char>,
) -> Seq<EvidenceLinkView> {
    cited(run_links(s, tolerance, sig), EdgeLabel::EmittedDuring, at_commit) + cited(
        task_links(s, tolerance, sig),
        EdgeLabel::ReferencesTask,
        at_commit,
    )
}

pub open spec fn cited(
    links: Seq<RunLinkView>,
    relation: EdgeLabel,
    at_commit: Option<Seq<char>>,
) -> Seq<EvidenceLinkView> {
    links.map_values(|l: RunLinkView| citation(l.target, relation, l.basis, at_commit))
}

/// The citations that a signature gains, by relation and target.
pub open spec fn citations(
    s: Seq<RecordView>,
    tolerance: int,
    at_commit: Option<Seq<char>>,
    sig: Seq<char>,
) -> Seq<EvidenceLinkView> {
    let all = unsorted_citations(s, tolerance, at_commit, sig);
    sorted_by(all, all.map_values(|l: EvidenceLinkView| citation_key(l)))
}

/// A log-domain record as it is emitted: a linked signature carries its new citations.
pub open spec fn enriched(
    s: Seq<RecordView>,
    tolerance: int,
    at_commit: Option<Seq<char>>,
    r: RecordView,
) -> RecordView {
    match r {
        RecordView::Node(n) => if n.kind == NodeKind::ErrorSignature && unsorted_citations(
            s,
            tolerance,
            at_commit,
            n.id,
        ).len() > 0 {
            RecordView::Node(
                NodeRecordView {
                    evidence_links: Some(citations(s, tolerance, at_commit, n.id)),
                    ..n
                },
            )
        } else {
            r
        },
        other => other,
    }
}

pub open spec fn in_log_domain(r: RecordView) -> bool {
    id_domain(r.id()) == Some("log"@)
}

/// The log-domain records among the first `n`, as they are emitted.
pub open spec fn emitted_nodes(
    s: Seq<RecordView>,
    tolerance: int,
    at_commit: Option<Seq<char>>,
    n: nat,
) -> Seq<RecordView>
    decreases n,
{
    if n == 0 {
        Seq::empty()
    } else {
        let before = emitted_nodes(s, tolerance, at_commit, (n - 1) as nat);
        if in_log_domain(s[n - 1]) {
            before.push(enriched(s, tolerance, at_commit, s[n - 1]))
        } else {
            before
        }
    }
}

pub open spec fn id_key(r: RecordView) -> Seq<KeyPartView> {
    seq![KeyPartView::Text(r.id())]
}

/// The records of the result: the log domain by identity, then the new edges.
pub open spec fn linked_records(
    s: Seq<RecordView>,
    tolerance: int,
    at_commit: Option<Seq<char>>,
) -> Seq<RecordView> {
    log_records(s, tolerance, at_commit) + new_edges(s, tolerance)
}

/// The log-domain records as they are emitted, by identity.
pub open spec fn log_records(
    s: Seq<RecordView>,
    tolerance: int,
    at_commit: Option<Seq<char>>,
) -> Seq<RecordView> {
    let nodes = emitted_nodes(s, tolerance, at_commit, s.len());
    sorted_by(nodes, nodes.map_values(|r: RecordView| id_key(r)))
}

// ── Tallies ─────────────────────────────────────────────────────────────────

pub open spec fn tally(s: Seq<RecordView>, tolerance: int, sig: Seq<char>) -> TallyView {
    TallyView {
        signature_id: sig,
        content_hash_join: hash_targets(s, sig).len() as int,
        temporal_correlation: temporal_targets(s, tolerance, sig).len() as int,
        task_links: task_targets(s, tolerance, sig).len() as int,
        uncorrelated: hash_targets(s, sig).len() == 0 && temporal_targets(s, tolerance, sig).len()
            == 0,
    }
}

pub open spec fn sum_over(sigs: Seq<Seq<char>>, f: spec_fn(Seq<char>) -> int) -> int
    decreases sigs.len(),
{
    if sigs.len() == 0 {
        0
    } else {
        sum_over(sigs.drop_last(), f) + f(sigs.last())
    }
}

pub open spec fn as_count(b: bool) -> int {
    if b {
        1
    } else {
        0
    }
}

/// The totals over the given signatures.
pub open spec fn totals_over(
    s: Seq<RecordView>,
    tolerance: int,
    sigs: Seq<Seq<char>>,
) -> TotalsView {
    TotalsView {
        signatures: sigs.len() as int,
        content_hash_join_edges: sum_over(
            sigs,
            |sig: Seq<char>| tally(s, tolerance, sig).content_hash_join,
        ),
        temporal_correlation_edges: sum_over(
            sigs,
            |sig: Seq<char>| tally(s, tolerance, sig).temporal_correlation,
        ),
        task_link_edges: sum_over(sigs, |sig: Seq<char>| tally(s, tolerance, sig).task_links),
        uncorrelated: sum_over(
            sigs,
            |sig: Seq<char>| as_count(tally(s, tolerance, sig).uncorrelated),
        ),
        cross_repo_rejected: sum_over(sigs, |sig: Seq<char>| as_count(rejected(s, tolerance, sig))),
        tolerance_seconds: tolerance,
        temporal_correlation_enabled: anchor(s) is Some,
    }
}


// ── Reading the store ───────────────────────────────────────────────────────

pub fn collect_ids(records: &[GraphRecord], kind: NodeKind) -> (r: Vec<String>)
    ensures
        r.deep_view() == ids_of_kind(records.deep_view(), kind),
{
    let ghost s = records.deep_view();
    let mut out: Vec<String> = Vec::new();
    let mut i: usize = 0;
    assert(out.deep_view() =~= ids_of_kind(s.take(0), kind));
    while i < records.len()
        invariant
            i <= records@.len(),
            s == records.deep_view(),
            out.deep_view() == ids_of_kind(s.take(i as int), kind),
        decreases records.len() - i,
    {
        proof {
            assert(s.take(i + 1).drop_last() =~= s.take(i as int));
            assert(s.take(i + 1).last() == records@[i as int].deep_view());
        }
        if records[i].is_kind(kind) {
            let ghost before = out;
            out.push(records[i].id().to_owned());
            proof {
                lemma_push(before, out);
            }
        }
        i += 1;
    }
    assert(s.take(s.len() as int) =~= s);
    out
}

fn find_anchor(records: &[GraphRecord]) -> (r: Option<String>)
    ensures
        r.deep_view() == anchor(records.deep_view()),
{
    let ids: Vec<String> = collect_ids(records, NodeKind::Repository);
    if ids.len() == 1 {
        assert(ids.deep_view()[0] == ids@[0]@);
        Some(ids[0].clone())
    } else {
        None
    }
}

fn find_kind(records: &[GraphRecord], id: &str) -> (r: Option<NodeKind>)
    ensures
        r == kind_of(records.deep_view(), id@),
{
    let ghost s = records.deep_view();
    let mut i: usize = records.len();
    assert(s.take(i as int) =~= s);
    while i > 0
        invariant
            i <= records@.len(),
            s == records.deep_view(),
            kind_of(s, id@) == kind_of(s.take(i as int), id@),
        decreases i,
    {
        i -= 1;
        proof {
            assert(s.take(i + 1).drop_last() =~= s.take(i as int));
            assert(s.take(i + 1).last() == records@[i as int].deep_view());
        }
        if let GraphRecord::Node(n) = &records[i] {
            if same(n.id.as_str(), id) {
                return Some(n.kind);
            }
        }
    }
    None
}

fn read_log_source(record: &GraphRecord) -> (r: Option<&LogSourcePayload>)
    ensures
        (match r {
            Some(p) => log_source_of(record.deep_view()) == Some(p.deep_view()),
            None => log_source_of(record.deep_view()) is None,
        }),
{
    match record {
        GraphRecord::Node(n) => if n.kind == NodeKind::LogSource {
            match &n.log {
                Some(LogPayload::LogSource(p)) => Some(p),
                _ => None,
            }
        } else {
            None
        },
        _ => None,
    }
}

fn find_log_source<'a>(records: &'a [GraphRecord], id: &str) -> (r: Option<&'a LogSourcePayload>)
    ensures
        (match r {
            Some(p) => log_source(records.deep_view(), id@) == Some(p.deep_view()),
            None => log_source(records.deep_view(), id@) is None,
        }),
{
    let ghost s = records.deep_view();
    let mut i: usize = records.len();
    assert(s.take(i as int) =~= s);
    while i > 0
        invariant
            i <= records@.len(),
            s == records.deep_view(),
            log_source(s, id@) == log_source(s.take(i as int), id@),
        decreases i,
    {
        i -= 1;
        proof {
            assert(s.take(i + 1).drop_last() =~= s.take(i as int));
            assert(s.take(i + 1).last() == records@[i as int].deep_view());
        }
        if same(records[i].id(), id) {
            if let Some(p) = read_log_source(&records[i]) {
                return Some(p);
            }
        }
    }
    None
}

fn handle_has_hash(handle: &Option<OutputHandle>, hash: &str) -> (r: bool)
    ensures
        r == has_hash(handle.deep_view(), hash@),
{
    match handle {
        Some(h) => same(h.hash.as_str(), hash),
        None => false,
    }
}

fn push_commands(records: &[GraphRecord], hash: &str, out: &mut Vec<String>)
    ensures
        final(out).deep_view() == old(out).deep_view() + commands_with_hash(
            records.deep_view(),
            hash@,
        ),
{
    let ghost s = records.deep_view();
    let ghost start = out.deep_view();
    let mut i: usize = 0;
    assert(out.deep_view() =~= start + commands_with_hash(s.take(0), hash@));
    while i < records.len()
        invariant
            i <= records@.len(),
            s == records.deep_view(),
            out.deep_view() == start + commands_with_hash(s.take(i as int), hash@),
        decreases records.len() - i,
    {
        proof {
            assert(s.take(i + 1).drop_last() =~= s.take(i as int));
            assert(s.take(i + 1).last() == records@[i as int].deep_view());
        }
        if let GraphRecord::Node(n) = &records[i] {
            if !hash.is_empty() && n.kind == NodeKind::CommandRun && (handle_has_hash(
                &n.verification.stdout_handle,
                hash,
            ) || handle_has_hash(&n.verification.stderr_handle, hash)) {
                let ghost before = *out;
                out.push(n.id.clone());
                proof {
                    lemma_push(before, *out);
                    assert(out.deep_view() =~= start + commands_with_hash(s.take(i + 1), hash@));
                }
            }
        }
        i += 1;
    }
    assert(s.take(s.len() as int) =~= s);
}

fn read_window(record: &GraphRecord) -> (r: Option<(Instant, Instant)>)
    ensures
        r == window_of(record.deep_view()),
{
    match record {
        GraphRecord::Node(n) => if n.kind == NodeKind::AgentRun || n.kind == NodeKind::AgentTurn {
            let start_text: &Option<String> = if n.memory.started_at.is_some() {
                &n.memory.started_at
            } else {
                &n.memory.observed_at
            };
            match (start_text, &n.memory.finished_at) {
                (Some(a), Some(b)) => execution_window(
                    parse_rfc3339(a.as_str()),
                    parse_rfc3339(b.as_str()),
                ),
                _ => None,
            }
        } else {
            None
        },
        _ => None,
    }
}

fn collect_covering(records: &[GraphRecord], tolerance: i64, t: Instant) -> (r: Vec<String>)
    requires
        tolerance >= 0,
    ensures
        r.deep_view() == runs_covering(records.deep_view(), tolerance as int, t),
{
    let ghost s = records.deep_view();
    let mut out: Vec<String> = Vec::new();
    let mut i: usize = 0;
    assert(out.deep_view() =~= runs_covering(s.take(0), tolerance as int, t));
    while i < records.len()
        invariant
            i <= records@.len(),
            tolerance >= 0,
            s == records.deep_view(),
            out.deep_view() == runs_covering(s.take(i as int), tolerance as int, t),
        decreases records.len() - i,
    {
        proof {
            assert(s.take(i + 1).drop_last() =~= s.take(i as int));
            assert(s.take(i + 1).last() == records@[i as int].deep_view());
        }
        if let Some((start, end)) = read_window(&records[i]) {
            if window_covers(start, end, tolerance, t) {
                let ghost before = out;
                out.push(records[i].id().to_owned());
                proof {
                    lemma_push(before, out);
                }
            }
        }
        i += 1;
    }
    assert(s.take(s.len() as int) =~= s);
    out
}

fn collect_targets(
    records: &[GraphRecord],
    source: &str,
    label: EdgeLabel,
    other: EdgeLabel,
) -> (r: Vec<String>)
    ensures
        r.deep_view() == targets_of(records.deep_view(), source@, label, other),
{
    let ghost s = records.deep_view();
    let mut out: Vec<String> = Vec::new();
    let mut i: usize = 0;
    assert(out.deep_view() =~= targets_of(s.take(0), source@, label, other));
    while i < records.len()
        invariant
            i <= records@.len(),
            s == records.deep_view(),
            out.deep_view() == targets_of(s.take(i as int), source@, label, other),
        decreases records.len() - i,
    {
        proof {
            assert(s.take(i + 1).drop_last() =~= s.take(i as int));
            assert(s.take(i + 1).last() == records@[i as int].deep_view());
        }
        if let GraphRecord::Edge(e) = &records[i] {
            if (e.label == label || e.label == other) && same(e.source.as_str(), source) {
                let ghost before = out;
                out.push(e.target.clone());
                proof {
                    lemma_push(before, out);
                }
            }
        }
        i += 1;
    }
    assert(s.take(s.len() as int) =~= s);
    out
}

fn signature_valid_time(records: &[GraphRecord], signature_id: &str) -> (r: Option<Instant>)
    ensures
        r == signature_time(records.deep_view(), signature_id@),
{
    let ghost s = records.deep_view();
    let mut i: usize = 0;
    while i < records.len()
        invariant
            i <= records@.len(),
            s == records.deep_view(),
            signature_times_from(s, signature_id@, 0) == signature_times_from(
                s,
                signature_id@,
                i as int,
            ),
        decreases records.len() - i,
    {
        assert(s[i as int] == records@[i as int].deep_view());
        if same(records[i].id(), signature_id) {
            if let GraphRecord::Node(n) = &records[i] {
                if let Some(LogPayload::ErrorSignature(p)) = &n.log {
                    return representative_time(
                        parse_rfc3339(p.last_seen.as_str()),
                        parse_rfc3339(p.first_seen.as_str()),
                    );
                }
            }
        }
        i += 1;
    }
    None
}

fn find_sources(records: &[GraphRecord], sig: &str) -> (r: Vec<String>)
    ensures
        r.deep_view() == sources_of(records.deep_view(), sig@),
{
    if find_kind(records, sig) == Some(NodeKind::ErrorSignature) {
        distinct_texts(
            &collect_targets(records, sig, EdgeLabel::CapturedFrom, EdgeLabel::CapturedFrom),
        )
    } else {
        let none: Vec<String> = Vec::new();
        assert(none.deep_view() =~= Seq::<Seq<char>>::empty());
        none
    }
}

fn is_attributed(records: &[GraphRecord], repository: &str, source: &str) -> (r: bool)
    ensures
        r == attributed(records.deep_view(), repository@, source@),
{
    match find_log_source(records, source) {
        Some(p) => same(
            log_stable_id(
                &parts4(
                    "log_source",
                    repository,
                    p.source_relative_path.as_str(),
                    p.source_artifact_hash.as_str(),
                ),
            ).as_str(),
            source,
        ),
        None => false,
    }
}

fn is_repo_eligible(
    records: &[GraphRecord],
    repository: &Option<String>,
    sources: &Vec<String>,
    sig: &str,
) -> (r: bool)
    requires
        repository.deep_view() == anchor(records.deep_view()),
        sources.deep_view() == sources_of(records.deep_view(), sig@),
    ensures
        r == repo_eligible(records.deep_view(), sig@),
{
    let ghost s = records.deep_view();
    let ghost all = sources_of(s, sig@);
    match repository {
        None => false,
        Some(a) => {
            let mut i: usize = 0;
            while i < sources.len()
                invariant
                    i <= sources.len(),
                    s == records.deep_view(),
                    all == sources.deep_view(),
                    all == sources_of(s, sig@),
                    anchor(s) == Some(a@),
                    forall|k: int| 0 <= k < i ==> !#[trigger] attributed(s, a@, all[k]),
                decreases sources.len() - i,
            {
                assert(all[i as int] == sources@[i as int]@);
                if is_attributed(records, a.as_str(), sources[i].as_str()) {
                    assert(attributed(s, a@, all[i as int]));
                    return true;
                }
                i += 1;
            }
            false
        },
    }
}

fn find_hash_targets(records: &[GraphRecord], sources: &Vec<String>) -> (r: Vec<String>)
    ensures
        r.deep_view() == distinct(commands_of_sources(records.deep_view(), sources.deep_view())),
{
    let ghost s = records.deep_view();
    let ghost all = sources.deep_view();
    let mut out: Vec<String> = Vec::new();
    let mut i: usize = 0;
    assert(out.deep_view() =~= commands_of_sources(s, all.take(0)));
    while i < sources.len()
        invariant
            i <= sources.len(),
            s == records.deep_view(),
            all == sources.deep_view(),
            out.deep_view() == commands_of_sources(s, all.take(i as int)),
        decreases sources.len() - i,
    {
        proof {
            assert(all.take(i + 1).drop_last() =~= all.take(i as int));
            assert(all.take(i + 1).last() == sources@[i as int]@);
        }
        match find_log_source(records, sources[i].as_str()) {
            Some(p) => push_commands(records, p.source_artifact_hash.as_str(), &mut out),
            None => {
                assert(out.deep_view() + Seq::<Seq<char>>::empty() =~= out.deep_view());
            },
        }
        i += 1;
    }
    assert(all.take(all.len() as int) =~= all);
    distinct_texts(&out)
}

/// The targets of a signature's links, before they are put together.
struct Targets {
    by_hash: Vec<String>,
    by_time: Vec<String>,
    rejected: bool,
}

fn find_targets(
    records: &[GraphRecord],
    repository: &Option<String>,
    tolerance: i64,
    sig: &str,
) -> (r: Targets)
    requires
        repository.deep_view() == anchor(records.deep_view()),
        tolerance >= 0,
    ensures
        r.by_hash.deep_view() == hash_targets(records.deep_view(), sig@),
        r.by_time.deep_view() == temporal_targets(records.deep_view(), tolerance as int, sig@),
        r.rejected == rejected(records.deep_view(), tolerance as int, sig@),
{
    let sources: Vec<String> = find_sources(records, sig);
    let by_hash: Vec<String> = find_hash_targets(records, &sources);
    let covering: Vec<String> = match signature_valid_time(records, sig) {
        Some(t) => distinct_texts(&collect_covering(records, tolerance, t)),
        None => Vec::new(),
    };
    assert(covering.deep_view() =~= covering_targets(records.deep_view(), tolerance as int, sig@));
    if is_repo_eligible(records, repository, &sources, sig) {
        Targets { by_hash, by_time: covering, rejected: false }
    } else {
        let none: Vec<String> = Vec::new();
        assert(none.deep_view() =~= Seq::<Seq<char>>::empty());
        Targets { by_hash, by_time: none, rejected: covering.len() > 0 }
    }
}

fn push_with_basis(ids: &Vec<String>, basis: CorrelationBasis, out: &mut Vec<RunLink>)
    ensures
        final(out).deep_view() == old(out).deep_view() + with_basis(ids.deep_view(), basis),
{
    let ghost start = out.deep_view();
    let ghost all = with_basis(ids.deep_view(), basis);
    let mut i: usize = 0;
    assert(start + all.take(0) =~= start);
    while i < ids.len()
        invariant
            i <= ids.len(),
            all == with_basis(ids.deep_view(), basis),
            out.deep_view() == start + all.take(i as int),
        decreases ids.len() - i,
    {
        let ghost before = *out;
        out.push(RunLink { target: ids[i].clone(), basis });
        proof {
            lemma_push(before, *out);
            assert(ids.deep_view()[i as int] == ids@[i as int]@);
            assert(start + all.take(i + 1) =~= (start + all.take(i as int)).push(all[i as int]));
        }
        i += 1;
    }
    assert(all.take(ids.len() as int) =~= all);
}

fn run_link_keys(links: &Vec<RunLink>) -> (r: Vec<Vec<KeyPart>>)
    ensures
        r.deep_view() == links.deep_view().map_values(|l: RunLinkView| run_link_key(l)),
        r.len() == links.len(),
{
    let mut out: Vec<Vec<KeyPart>> = Vec::new();
    let ghost all = links.deep_view().map_values(|l: RunLinkView| run_link_key(l));
    let mut i: usize = 0;
    assert(out.deep_view() =~= all.take(0));
    while i < links.len()
        invariant
            i <= links.len(),
            out.len() == i,
            all == links.deep_view().map_values(|l: RunLinkView| run_link_key(l)),
            out.deep_view() == all.take(i as int),
        decreases links.len() - i,
    {
        let ghost before = out;
        let rank: u64 = match links[i].basis {
            CorrelationBasis::ContentHashJoin => 0,
            CorrelationBasis::TemporalCorrelation => 1,
        };
        let key: Vec<KeyPart> = vec![KeyPart::Text(links[i].target.clone()), KeyPart::Num(rank)];
        out.push(key);
        proof {
            lemma_push(before, out);
            assert(links.deep_view()[i as int] == links@[i as int].deep_view());
            assert(key.deep_view() =~= run_link_key(links@[i as int].deep_view()));
            assert(all.take(i + 1) =~= all.take(i as int).push(all[i as int]));
        }
        i += 1;
    }
    assert(all.take(links.len() as int) =~= all);
    out
}

fn link_targets(targets: &Targets) -> (r: Vec<RunLink>)
    ensures
        ({
            let all = with_basis(targets.by_hash.deep_view(), CorrelationBasis::ContentHashJoin)
                + with_basis(targets.by_time.deep_view(), CorrelationBasis::TemporalCorrelation);
            r.deep_view() == sorted_by(all, all.map_values(|l: RunLinkView| run_link_key(l)))
        }),
        r.len() == targets.by_hash.len() + targets.by_time.len(),
{
    let mut all: Vec<RunLink> = Vec::new();
    assert(all.deep_view() =~= Seq::<RunLinkView>::empty());
    push_with_basis(&targets.by_hash, CorrelationBasis::ContentHashJoin, &mut all);
    push_with_basis(&targets.by_time, CorrelationBasis::TemporalCorrelation, &mut all);
    assert(all.deep_view() =~= with_basis(
        targets.by_hash.deep_view(),
        CorrelationBasis::ContentHashJoin,
    ) + with_basis(targets.by_time.deep_view(), CorrelationBasis::TemporalCorrelation));
    let keys: Vec<Vec<KeyPart>> = run_link_keys(&all);
    let r: Vec<RunLink> = sort_by_keys(&all, &keys);
    proof {
        lemma_sorted_len(all.deep_view(), keys.deep_view());
        assert(r.deep_view().len() == r@.len());
        assert(all.deep_view().len() == targets.by_hash@.len() + targets.by_time@.len());
    }
    r
}

fn is_task_kind(kind: Option<NodeKind>) -> (r: bool)
    ensures
        r == task_kind(kind),
{
    matches!(kind, Some(NodeKind::Task | NodeKind::GitHubIssue | NodeKind::LocalTask))
}

fn find_tasks_of(records: &[GraphRecord], run: &str) -> (r: Vec<String>)
    ensures
        r.deep_view() == tasks_of(records.deep_view(), run@),
{
    let ghost s = records.deep_view();
    let targets: Vec<String> = collect_targets(
        records,
        run,
        EdgeLabel::ReferencesTask,
        EdgeLabel::OwnedByTask,
    );
    let ghost all = targets.deep_view();
    let ghost keep = |t: Seq<char>| task_kind(kind_of(s, t));
    let mut out: Vec<String> = Vec::new();
    let mut i: usize = 0;
    proof {
        reveal(Seq::filter);
        assert(out.deep_view() =~= all.take(0).filter(keep));
    }
    while i < targets.len()
        invariant
            i <= targets.len(),
            s == records.deep_view(),
            all == targets.deep_view(),
            keep == (|t: Seq<char>| task_kind(kind_of(s, t))),
            out.deep_view() == all.take(i as int).filter(keep),
        decreases targets.len() - i,
    {
        proof {
            reveal(Seq::filter);
            assert(all.take(i + 1).drop_last() =~= all.take(i as int));
            assert(all.take(i + 1).last() == targets@[i as int]@);
        }
        if is_task_kind(find_kind(records, targets[i].as_str())) {
            let ghost before = out;
            out.push(targets[i].clone());
            proof {
                lemma_push(before, out);
            }
        }
        i += 1;
    }
    assert(all.take(all.len() as int) =~= all);
    out
}

fn find_task_targets(records: &[GraphRecord], links: &Vec<RunLink>) -> (r: Vec<String>)
    ensures
        r.deep_view() == distinct(tasks_through(records.deep_view(), links.deep_view())),
{
    let ghost s = records.deep_view();
    let ghost all = links.deep_view();
    let mut out: Vec<String> = Vec::new();
    let mut i: usize = 0;
    assert(out.deep_view() =~= tasks_through(s, all.take(0)));
    while i < links.len()
        invariant
            i <= links.len(),
            s == records.deep_view(),
            all == links.deep_view(),
            out.deep_view() == tasks_through(s, all.take(i as int)),
        decreases links.len() - i,
    {
        proof {
            assert(all.take(i + 1).drop_last() =~= all.take(i as int));
            assert(all.take(i + 1).last() == links@[i as int].deep_view());
        }
        let tasks: Vec<String> = find_tasks_of(records, links[i].target.as_str());
        extend_with(&mut out, &tasks);
        i += 1;
    }
    assert(all.take(all.len() as int) =~= all);
    distinct_texts(&out)
}

fn find_task_basis(records: &[GraphRecord], links: &Vec<RunLink>, task: &str) -> (r:
    CorrelationBasis)
    ensures
        r == task_basis(records.deep_view(), links.deep_view(), task@),
{
    let ghost s = records.deep_view();
    let ghost all = links.deep_view();
    let mut best: CorrelationBasis = CorrelationBasis::TemporalCorrelation;
    let mut i: usize = 0;
    assert(all.take(0) =~= Seq::empty());
    while i < links.len()
        invariant
            i <= links.len(),
            s == records.deep_view(),
            all == links.deep_view(),
            best == task_basis(s, all.take(i as int), task@),
        decreases links.len() - i,
    {
        proof {
            assert(all.take(i + 1).drop_last() =~= all.take(i as int));
            assert(all.take(i + 1).last() == links@[i as int].deep_view());
        }
        let tasks: Vec<String> = find_tasks_of(records, links[i].target.as_str());
        if crate::text::contains_text(&tasks, task) {
            best = stronger(best, links[i].basis);
        }
        i += 1;
    }
    assert(all.take(all.len() as int) =~= all);
    best
}

/// The run links and task links of one signature.
struct SignatureLinks {
    runs: Vec<RunLink>,
    tasks: Vec<RunLink>,
}

fn find_links(records: &[GraphRecord], targets: &Targets, tolerance: i64, sig: &str) -> (r:
    SignatureLinks)
    requires
        targets.by_hash.deep_view() == hash_targets(records.deep_view(), sig@),
        targets.by_time.deep_view() == temporal_targets(records.deep_view(), tolerance as int, sig@),
    ensures
        r.runs.deep_view() == run_links(records.deep_view(), tolerance as int, sig@),
        r.tasks.deep_view() == task_links(records.deep_view(), tolerance as int, sig@),
        r.runs.len() == targets.by_hash.len() + targets.by_time.len(),
        r.tasks@.len() == task_targets(records.deep_view(), tolerance as int, sig@).len(),
{
    let ghost s = records.deep_view();
    let runs: Vec<RunLink> = link_targets(targets);
    let ids: Vec<String> = find_task_targets(records, &runs);
    let mut tasks: Vec<RunLink> = Vec::new();
    let ghost all = task_links(s, tolerance as int, sig@);
    let mut i: usize = 0;
    assert(tasks.deep_view() =~= all.take(0));
    while i < ids.len()
        invariant
            i <= ids.len(),
            s == records.deep_view(),
            runs.deep_view() == run_links(s, tolerance as int, sig@),
            ids.deep_view() == task_targets(s, tolerance as int, sig@),
            all == task_links(s, tolerance as int, sig@),
            tasks.deep_view() == all.take(i as int),
        decreases ids.len() - i,
    {
        let ghost before = tasks;
        let basis: CorrelationBasis = find_task_basis(records, &runs, ids[i].as_str());
        tasks.push(RunLink { target: ids[i].clone(), basis });
        proof {
            lemma_push(before, tasks);
            assert(ids.deep_view()[i as int] == ids@[i as int]@);
            assert(all.take(i + 1) =~= all.take(i as int).push(all[i as int]));
        }
        i += 1;
    }
    assert(all.take(ids.len() as int) =~= all);
    assert(tasks@.len() == tasks.deep_view().len());
    SignatureLinks { runs, tasks }
}

// ── Assembling the result ───────────────────────────────────────────────────

fn edge_id_taken(edges: &Vec<GraphRecord>, id: &str) -> (r: bool)
    ensures
        r == has_edge_id(edges.deep_view(), id@),
{
    let ghost all = edges.deep_view();
    let mut i: usize = 0;
    while i < edges.len()
        invariant
            i <= edges.len(),
            all == edges.deep_view(),
            forall|k: int| 0 <= k < i ==> (#[trigger] all[k]).id() != id@,
        decreases edges.len() - i,
    {
        assert(all[i as int] == edges@[i as int].deep_view());
        if same(edges[i].id(), id) {
            assert(all[i as int].id() == id@);
            return true;
        }
        i += 1;
    }
    false
}

fn build_edge(p: &Pending, task: bool) -> (r: EdgeRecord)
    ensures
        r.deep_view() == pending_edge(p.deep_view(), task),
{
    let sig: &str = p.sig.as_str();
    let target: &str = p.target.as_str();
    if task {
        let label: EdgeLabel = EdgeLabel::ReferencesTask;
        EdgeRecord::plain(
            log_stable_id(&parts4("edge", label.as_str(), sig, target)),
            LOG_SCHEMA_VERSION,
            label,
            sig.to_owned(),
            target.to_owned(),
            Some(p.basis.confidence().to_owned()),
            cat4("error signature ", sig, " references task ", target),
        )
    } else {
        let label: EdgeLabel = EdgeLabel::EmittedDuring;
        let mut e: EdgeRecord = EdgeRecord::plain(
            log_stable_id(&parts5("edge", label.as_str(), sig, target, p.basis.as_str())),
            LOG_SCHEMA_VERSION,
            label,
            sig.to_owned(),
            target.to_owned(),
            Some(p.basis.confidence().to_owned()),
            cat6(
                "error signature ",
                sig,
                " emitted during ",
                target,
                " (",
                p.basis.as_str(),
            ).concat(")"),
        );
        e.basis = Some(p.basis);
        e
    }
}

fn push_edges(links: &Vec<Pending>, task: bool, edges: &mut Vec<GraphRecord>)
    ensures
        final(edges).deep_view() == with_edges(old(edges).deep_view(), links.deep_view(), task),
{
    let ghost start = edges.deep_view();
    let ghost all = links.deep_view();
    let mut i: usize = 0;
    assert(all.take(0) =~= Seq::empty());
    while i < links.len()
        invariant
            i <= links.len(),
            all == links.deep_view(),
            edges.deep_view() == with_edges(start, all.take(i as int), task),
        decreases links.len() - i,
    {
        proof {
            assert(all.take(i + 1).drop_last() =~= all.take(i as int));
            assert(all.take(i + 1).last() == links@[i as int].deep_view());
        }
        let e: EdgeRecord = build_edge(&links[i], task);
        if !edge_id_taken(edges, e.id.as_str()) {
            let ghost before = *edges;
            edges.push(GraphRecord::Edge(e));
            proof {
                lemma_push(before, *edges);
            }
        }
        i += 1;
    }
    assert(all.take(all.len() as int) =~= all);
}

fn edge_keys(edges: &Vec<GraphRecord>) -> (r: Vec<Vec<KeyPart>>)
    ensures
        r.deep_view() == edges.deep_view().map_values(|r: RecordView| edge_key(r)),
        r.len() == edges.len(),
{
    let mut out: Vec<Vec<KeyPart>> = Vec::new();
    let ghost all = edges.deep_view().map_values(|r: RecordView| edge_key(r));
    let mut i: usize = 0;
    assert(out.deep_view() =~= all.take(0));
    while i < edges.len()
        invariant
            i <= edges.len(),
            out.len() == i,
            all == edges.deep_view().map_values(|r: RecordView| edge_key(r)),
            out.deep_view() == all.take(i as int),
        decreases edges.len() - i,
    {
        let ghost before = out;
        let key: Vec<KeyPart> = match &edges[i] {
            GraphRecord::Edge(e) => vec![
                KeyPart::Text(e.source.clone()),
                KeyPart::Text(e.label.as_str().to_owned()),
                KeyPart::Text(e.target.clone()),
                KeyPart::Text(e.id.clone()),
            ],
            other => vec![
                KeyPart::Text(String::new()),
                KeyPart::Text(String::new()),
                KeyPart::Text(String::new()),
                KeyPart::Text(other.id().to_owned()),
            ],
        };
        out.push(key);
        proof {
            lemma_push(before, out);
            assert(edges.deep_view()[i as int] == edges@[i as int].deep_view());
            assert(key.deep_view() =~= edge_key(edges@[i as int].deep_view()));
            assert(all.take(i + 1) =~= all.take(i as int).push(all[i as int]));
        }
        i += 1;
    }
    assert(all.take(edges.len() as int) =~= all);
    out
}

/// One identity key per record.
pub fn id_keys(records: &Vec<GraphRecord>) -> (r: Vec<Vec<KeyPart>>)
    ensures
        r.deep_view() == records.deep_view().map_values(|r: RecordView| id_key(r)),
        r.len() == records.len(),
{
    let mut out: Vec<Vec<KeyPart>> = Vec::new();
    let ghost all = records.deep_view().map_values(|r: RecordView| id_key(r));
    let mut i: usize = 0;
    assert(out.deep_view() =~= all.take(0));
    while i < records.len()
        invariant
            i <= records.len(),
            out.len() == i,
            all == records.deep_view().map_values(|r: RecordView| id_key(r)),
            out.deep_view() == all.take(i as int),
        decreases records.len() - i,
    {
        let ghost before = out;
        let key: Vec<KeyPart> = vec![KeyPart::Text(records[i].id().to_owned())];
        out.push(key);
        proof {
            lemma_push(before, out);
            assert(records.deep_view()[i as int] == records@[i as int].deep_view());
            assert(key.deep_view() =~= id_key(records@[i as int].deep_view()));
            assert(all.take(i + 1) =~= all.take(i as int).push(all[i as int]));
        }
        i += 1;
    }
    assert(all.take(records.len() as int) =~= all);
    out
}

fn push_citations(
    links: &Vec<RunLink>,
    relation: EdgeLabel,
    at_commit: &Option<String>,
    out: &mut Vec<EvidenceLink>,
)
    ensures
        final(out).deep_view() == old(out).deep_view() + cited(
            links.deep_view(),
            relation,
            at_commit.deep_view(),
        ),
{
    let ghost start = out.deep_view();
    let ghost all = cited(links.deep_view(), relation, at_commit.deep_view());
    let mut i: usize = 0;
    assert(start + all.take(0) =~= start);
    while i < links.len()
        invariant
            i <= links.len(),
            all == cited(links.deep_view(), relation, at_commit.deep_view()),
            out.deep_view() == start + all.take(i as int),
        decreases links.len() - i,
    {
        let ghost before = *out;
        out.push(
            EvidenceLink {
                target_record_id: Some(links[i].target.clone()),
                target_domain: domain_of(links[i].target.as_str()),
                relation: relation.as_str().to_owned(),
                confidence: links[i].basis.confidence().to_owned(),
                as_of_commit: duplicate_opt(at_commit),
                target_repo_relative_path: None,
                target_span: None,
                target_git_commit: None,
            },
        );
        proof {
            lemma_push(before, *out);
            assert(links.deep_view()[i as int] == links@[i as int].deep_view());
            assert(start + all.take(i + 1) =~= (start + all.take(i as int)).push(all[i as int]));
        }
        i += 1;
    }
    assert(all.take(links.len() as int) =~= all);
}

fn citation_keys(links: &Vec<EvidenceLink>) -> (r: Vec<Vec<KeyPart>>)
    ensures
        r.deep_view() == links.deep_view().map_values(|l: EvidenceLinkView| citation_key(l)),
        r.len() == links.len(),
{
    let mut out: Vec<Vec<KeyPart>> = Vec::new();
    let ghost all = links.deep_view().map_values(|l: EvidenceLinkView| citation_key(l));
    let mut i: usize = 0;
    assert(out.deep_view() =~= all.take(0));
    while i < links.len()
        invariant
            i <= links.len(),
            out.len() == i,
            all == links.deep_view().map_values(|l: EvidenceLinkView| citation_key(l)),
            out.deep_view() == all.take(i as int),
        decreases links.len() - i,
    {
        let ghost before = out;
        let key: Vec<KeyPart> = match &links[i].target_record_id {
            Some(t) => vec![
                KeyPart::Text(links[i].relation.clone()),
                KeyPart::Num(1),
                KeyPart::Text(t.clone()),
            ],
            None => vec![
                KeyPart::Text(links[i].relation.clone()),
                KeyPart::Num(0),
                KeyPart::Text(String::new()),
            ],
        };
        out.push(key);
        proof {
            lemma_push(before, out);
            assert(links.deep_view()[i as int] == links@[i as int].deep_view());
            assert(key.deep_view() =~= citation_key(links@[i as int].deep_view()));
            assert(all.take(i + 1) =~= all.take(i as int).push(all[i as int]));
        }
        i += 1;
    }
    assert(all.take(links.len() as int) =~= all);
    out
}

fn enrich(
    records: &[GraphRecord],
    repository: &Option<String>,
    tolerance: i64,
    at_commit: &Option<String>,
    record: &GraphRecord,
) -> (r: GraphRecord)
    requires
        repository.deep_view() == anchor(records.deep_view()),
        tolerance >= 0,
    ensures
        r.deep_view() == enriched(
            records.deep_view(),
            tolerance as int,
            at_commit.deep_view(),
            record.deep_view(),
        ),
{
    let copy: GraphRecord = record.duplicate();
    if let GraphRecord::Node(n) = record {
        if n.kind == NodeKind::ErrorSignature {
            let sig: &str = n.id.as_str();
            let targets: Targets = find_targets(records, repository, tolerance, sig);
            let links: SignatureLinks = find_links(records, &targets, tolerance, sig);
            let mut cites: Vec<EvidenceLink> = Vec::new();
            assert(cites.deep_view() =~= Seq::<EvidenceLinkView>::empty());
            push_citations(&links.runs, EdgeLabel::EmittedDuring, at_commit, &mut cites);
            push_citations(&links.tasks, EdgeLabel::ReferencesTask, at_commit, &mut cites);
            assert(cites.deep_view() =~= unsorted_citations(
                records.deep_view(),
                tolerance as int,
                at_commit.deep_view(),
                sig@,
            ));
            assert(cites.deep_view().len() == cites@.len());
            if cites.len() > 0 {
                return copy.with_evidence_links(sort_by_keys(&cites, &citation_keys(&cites)));
            }
        }
    }
    copy
}

pub fn is_in_log_domain(record: &GraphRecord) -> (r: bool)
    ensures
        r == in_log_domain(record.deep_view()),
{
    match domain_from_record_id(record.id()) {
        Some(d) => same(d.as_str(), "log"),
        None => false,
    }
}

fn collect_nodes(
    records: &[GraphRecord],
    repository: &Option<String>,
    tolerance: i64,
    at_commit: &Option<String>,
) -> (r: Vec<GraphRecord>)
    requires
        repository.deep_view() == anchor(records.deep_view()),
        tolerance >= 0,
    ensures
        r.deep_view() == emitted_nodes(
            records.deep_view(),
            tolerance as int,
            at_commit.deep_view(),
            records.deep_view().len(),
        ),
{
    let ghost s = records.deep_view();
    let mut out: Vec<GraphRecord> = Vec::new();
    let mut i: usize = 0;
    assert(out.deep_view() =~= emitted_nodes(s, tolerance as int, at_commit.deep_view(), 0));
    while i < records.len()
        invariant
            i <= records@.len(),
            tolerance >= 0,
            s == records.deep_view(),
            repository.deep_view() == anchor(s),
            out.deep_view() == emitted_nodes(
                s,
                tolerance as int,
                at_commit.deep_view(),
                i as nat,
            ),
        decreases records.len() - i,
    {
        assert(s[i as int] == records@[i as int].deep_view());
        if is_in_log_domain(&records[i]) {
            let ghost before = out;
            out.push(enrich(records, repository, tolerance, at_commit, &records[i]));
            proof {
                lemma_push(before, out);
            }
        }
        i += 1;
    }
    out
}

fn push_pending(sig: &str, links: &Vec<RunLink>, out: &mut Vec<Pending>)
    ensures
        final(out).deep_view() == old(out).deep_view() + pending_of(sig@, links.deep_view()),
        final(out).len() == old(out).len() + links.len(),
{
    let ghost start = out.deep_view();
    let ghost all = pending_of(sig@, links.deep_view());
    let ghost n = out.len();
    let mut i: usize = 0;
    assert(start + all.take(0) =~= start);
    while i < links.len()
        invariant
            i <= links.len(),
            out.len() == n + i,
            all == pending_of(sig@, links.deep_view()),
            out.deep_view() == start + all.take(i as int),
        decreases links.len() - i,
    {
        let ghost before = *out;
        out.push(
            Pending {
                sig: sig.to_owned(),
                target: links[i].target.clone(),
                basis: links[i].basis,
            },
        );
        proof {
            lemma_push(before, *out);
            assert(links.deep_view()[i as int] == links@[i as int].deep_view());
            assert(start + all.take(i + 1) =~= (start + all.take(i as int)).push(all[i as int]));
        }
        i += 1;
    }
    assert(all.take(links.len() as int) =~= all);
}

/// What a pass over signatures has gathered so far.
struct Pass {
    runs: Vec<Pending>,
    tasks: Vec<Pending>,
    tallies: Vec<SignatureLinkTally>,
    by_hash: u64,
    by_time: u64,
    by_task: u64,
    uncorrelated: u64,
    refused: u64,
}

impl Pass {
    /// The pass has gone over exactly the signatures `ids`.
    spec fn covers(self, s: Seq<RecordView>, tolerance: int, ids: Seq<Seq<char>>) -> bool {
        let t = totals_over(s, tolerance, ids);
        &&& self.runs.deep_view() == pending_runs(s, tolerance, ids)
        &&& self.tasks.deep_view() == pending_tasks(s, tolerance, ids)
        &&& self.tallies.deep_view() == ids.map_values(|sig: Seq<char>| tally(s, tolerance, sig))
        &&& self.by_hash == t.content_hash_join_edges
        &&& self.by_time == t.temporal_correlation_edges
        &&& self.by_task == t.task_link_edges
        &&& self.uncorrelated == t.uncorrelated
        &&& self.refused == t.cross_repo_rejected
        &&& self.by_hash + self.by_time == self.runs.len()
        &&& self.by_task == self.tasks.len()
        &&& self.uncorrelated <= ids.len()
        &&& self.refused <= ids.len()
    }
}

fn link_signature(
    records: &[GraphRecord],
    repository: &Option<String>,
    tolerance: i64,
    sig: &str,
    pass: &mut Pass,
    ids: Ghost<Seq<Seq<char>>>,
)
    requires
        repository.deep_view() == anchor(records.deep_view()),
        tolerance >= 0,
        old(pass).covers(records.deep_view(), tolerance as int, ids@),
        ids@.len() < usize::MAX,
    ensures
        final(pass).covers(records.deep_view(), tolerance as int, ids@.push(sig@)),
{
    let ghost s = records.deep_view();
    let ghost tol = tolerance as int;
    let ghost next = ids@.push(sig@);
    assert(next.drop_last() =~= ids@);
    let targets: Targets = find_targets(records, repository, tolerance, sig);
    let links: SignatureLinks = find_links(records, &targets, tolerance, sig);
    push_pending(sig, &links.runs, &mut pass.runs);
    push_pending(sig, &links.tasks, &mut pass.tasks);
    proof {
        assert(targets.by_hash.deep_view().len() == targets.by_hash@.len());
        assert(targets.by_time.deep_view().len() == targets.by_time@.len());
    }
    let n_runs: usize = pass.runs.len();
    let n_tasks: usize = pass.tasks.len();
    assert(pass.by_hash + pass.by_time + targets.by_hash.len() + targets.by_time.len() == n_runs);
    assert(pass.by_task + links.tasks.len() == n_tasks);
    pass.by_hash = pass.by_hash + targets.by_hash.len() as u64;
    pass.by_time = pass.by_time + targets.by_time.len() as u64;
    pass.by_task = pass.by_task + links.tasks.len() as u64;
    let alone: bool = targets.by_hash.len() == 0 && targets.by_time.len() == 0;
    if alone {
        pass.uncorrelated = pass.uncorrelated + 1;
    }
    if targets.rejected {
        pass.refused = pass.refused + 1;
    }
    let ghost before = pass.tallies;
    pass.tallies.push(
        SignatureLinkTally {
            signature_id: sig.to_owned(),
            content_hash_join: targets.by_hash.len() as u64,
            temporal_correlation: targets.by_time.len() as u64,
            task_links: links.tasks.len() as u64,
            uncorrelated: alone,
        },
    );
    proof {
        lemma_push(before, pass.tallies);
        assert(pass.tallies.deep_view() =~= next.map_values(
            |sig: Seq<char>| tally(s, tol, sig),
        ));
    }
}

fn finish_edges(
    records: &[GraphRecord],
    tolerance: i64,
    pass: &Pass,
    ids: Ghost<Seq<Seq<char>>>,
) -> (r: Vec<GraphRecord>)
    requires
        ids@ == signature_ids(records.deep_view()),
        pass.runs.deep_view() == pending_runs(records.deep_view(), tolerance as int, ids@),
        pass.tasks.deep_view() == pending_tasks(records.deep_view(), tolerance as int, ids@),
    ensures
        r.deep_view() == new_edges(records.deep_view(), tolerance as int),
{
    let mut edges: Vec<GraphRecord> = Vec::new();
    assert(edges.deep_view() =~= Seq::<RecordView>::empty());
    push_edges(&pass.runs, false, &mut edges);
    push_edges(&pass.tasks, true, &mut edges);
    sort_by_keys(&edges, &edge_keys(&edges))
}

fn finish_nodes(
    records: &[GraphRecord],
    repository: &Option<String>,
    tolerance: i64,
    at_commit: &Option<String>,
) -> (r: Vec<GraphRecord>)
    requires
        repository.deep_view() == anchor(records.deep_view()),
        tolerance >= 0,
    ensures
        r.deep_view() == log_records(
            records.deep_view(),
            tolerance as int,
            at_commit.deep_view(),
        ),
{
    let nodes: Vec<GraphRecord> = collect_nodes(records, repository, tolerance, at_commit);
    sort_by_keys(&nodes, &id_keys(&nodes))
}

/// Links error signatures to the agent runs and commands that produced them.
pub fn link_logs(records: &[GraphRecord], opts: &LinkLogsOptions) -> (r: LinkLogsResult)
    ensures
        r.records.deep_view() == linked_records(
            records.deep_view(),
            opts.tolerance() as int,
            opts.at_commit.deep_view(),
        ),
        r.signatures.deep_view() == signature_ids(records.deep_view()).map_values(
            |sig: Seq<char>| tally(records.deep_view(), opts.tolerance() as int, sig),
        ),
        r.totals.deep_view() == totals_over(
            records.deep_view(),
            opts.tolerance() as int,
            signature_ids(records.deep_view()),
        ),
{
    let ghost s = records.deep_view();
    let tolerance: i64 = opts.clamped();
    let ghost tol = tolerance as int;
    let repository: Option<String> = find_anchor(records);
    let sigs: Vec<String> = distinct_texts(&collect_ids(records, NodeKind::ErrorSignature));
    let ghost ids = sigs.deep_view();
    let mut pass: Pass = Pass {
        runs: Vec::new(),
        tasks: Vec::new(),
        tallies: Vec::new(),
        by_hash: 0,
        by_time: 0,
        by_task: 0,
        uncorrelated: 0,
        refused: 0,
    };
    let mut i: usize = 0;
    proof {
        assert(ids.take(0) =~= Seq::empty());
        assert(pass.runs.deep_view() =~= pending_runs(s, tol, ids.take(0)));
        assert(pass.tasks.deep_view() =~= pending_tasks(s, tol, ids.take(0)));
        assert(pass.tallies.deep_view() =~= ids.take(0).map_values(
            |sig: Seq<char>| tally(s, tol, sig),
        ));
    }
    while i < sigs.len()
        invariant
            i <= sigs.len(),
            tolerance >= 0,
            tol == tolerance,
            s == records.deep_view(),
            ids == sigs.deep_view(),
            repository.deep_view() == anchor(s),
            pass.covers(s, tol, ids.take(i as int)),
        decreases sigs.len() - i,
    {
        assert(ids.take(i + 1) =~= ids.take(i as int).push(sigs@[i as int]@));
        link_signature(
            records,
            &repository,
            tolerance,
            sigs[i].as_str(),
            &mut pass,
            Ghost(ids.take(i as int)),
        );
        i += 1;
    }
    assert(ids.take(ids.len() as int) =~= ids);

    let edges: Vec<GraphRecord> = finish_edges(records, tolerance, &pass, Ghost(ids));
    let mut out: Vec<GraphRecord> = finish_nodes(records, &repository, tolerance, &opts.at_commit);
    extend_with(&mut out, &edges);
    LinkLogsResult {
        records: out,
        signatures: pass.tallies,
        totals: LinkTotals {
            signatures: sigs.len() as u64,
            content_hash_join_edges: pass.by_hash,
            temporal_correlation_edges: pass.by_time,
            task_link_edges: pass.by_task,
            uncorrelated: pass.uncorrelated,
            cross_repo_rejected: pass.refused,
            tolerance_seconds: tolerance,
            temporal_correlation_enabled: repository.is_some(),
        },
    }
}

} // verus!
