//! Answers of the read-only tools.
//!
//! Every answer is a JSON object with `ok`. What a tool answers is computed here from what the
//! store handed out; fetching that, and sending the answer, is left to the server.
use vstd::prelude::*;

use crate::duplicate::lemma_push;
use crate::ir::{
    ArtifactFieldsView, EdgeLabel, EdgeRecord, EvidenceLink, EvidenceLinkView,
    GraphRecord, IdentitySource, NodeKind, NodeRecord, NodeRecordView, OutputHandle,
    OutputHandleView, PatchHandle, PatchHandleView, ProjectFieldsView, RecordView, RepositoryIdentityPayload,
    RepositoryIdentityPayloadView, SnapshotHead, SnapshotHeadView, SourceSnapshotPayload,
    SourceSnapshotPayloadView, SourceSpan, TemporalMetadata, TemporalMetadataView, VerificationFieldsView,
};
use crate::json::{
    array, find_member, flag, member, members, no_elements, no_members, number,
    set_member, text, text_array, text_or_null, texts, Json, JsonView, Members,
};
use crate::order::{count_text, distinct, distinct_texts, occurrences};
use crate::text::{cat3, cat5, contains, decimal, decimal_of, has, lower_ascii, lowered, same};

verus! {

// ── Arguments ───────────────────────────────────────────────────────────────

/// The arguments of `inspect_store`.
#[derive(Debug, PartialEq, Eq)]
pub struct InspectStoreArgs {
    /// The store's directory, where it is not the default one.
    pub data_dir: Option<String>,
    /// The working tree that freshness is judged against.
    pub repo_path: Option<String>,
}

#[verifier::ext_equal]
pub struct InspectStoreArgsView {
    pub data_dir: Option<Seq<char>>,
    pub repo_path: Option<Seq<char>>,
}

impl DeepView for InspectStoreArgs {
    type V = InspectStoreArgsView;

    open spec fn deep_view(&self) -> InspectStoreArgsView {
        InspectStoreArgsView {
            data_dir: self.data_dir.deep_view(),
            repo_path: self.repo_path.deep_view(),
        }
    }
}

/// The arguments of `symbol_context`.
#[derive(Debug, PartialEq, Eq)]
pub struct SymbolContextArgs {
    /// The exact name of the symbol.
    pub symbol_name: String,
    pub data_dir: Option<String>,
    pub repo_path: Option<String>,
}

#[verifier::ext_equal]
pub struct SymbolContextArgsView {
    pub symbol_name: Seq<char>,
    pub data_dir: Option<Seq<char>>,
    pub repo_path: Option<Seq<char>>,
}

impl DeepView for SymbolContextArgs {
    type V = SymbolContextArgsView;

    open spec fn deep_view(&self) -> SymbolContextArgsView {
        SymbolContextArgsView {
            symbol_name: self.symbol_name@,
            data_dir: self.data_dir.deep_view(),
            repo_path: self.repo_path.deep_view(),
        }
    }
}

/// The arguments of `task_evidence`.
#[derive(Debug, PartialEq, Eq)]
pub struct TaskEvidenceArgs {
    /// A record identity, an address, a short handle or a local handle.
    pub id_or_handle: String,
    pub data_dir: Option<String>,
    pub repo_path: Option<String>,
}

#[verifier::ext_equal]
pub struct TaskEvidenceArgsView {
    pub id_or_handle: Seq<char>,
    pub data_dir: Option<Seq<char>>,
    pub repo_path: Option<Seq<char>>,
}

impl DeepView for TaskEvidenceArgs {
    type V = TaskEvidenceArgsView;

    open spec fn deep_view(&self) -> TaskEvidenceArgsView {
        TaskEvidenceArgsView {
            id_or_handle: self.id_or_handle@,
            data_dir: self.data_dir.deep_view(),
            repo_path: self.repo_path.deep_view(),
        }
    }
}

/// The arguments of `store_freshness`.
#[derive(Debug, PartialEq, Eq)]
pub struct StoreFreshnessArgs {
    pub repo_path: Option<String>,
    pub data_dir: Option<String>,
}

#[verifier::ext_equal]
pub struct StoreFreshnessArgsView {
    pub repo_path: Option<Seq<char>>,
    pub data_dir: Option<Seq<char>>,
}

impl DeepView for StoreFreshnessArgs {
    type V = StoreFreshnessArgsView;

    open spec fn deep_view(&self) -> StoreFreshnessArgsView {
        StoreFreshnessArgsView {
            repo_path: self.repo_path.deep_view(),
            data_dir: self.data_dir.deep_view(),
        }
    }
}


// ── What the store hands out ────────────────────────────────────────────────

/// The schema version of a record.
#[derive(Debug, PartialEq, Eq)]
pub struct RecordVersion {
    pub domain: String,
    pub kind: String,
    pub version: u32,
}

#[verifier::ext_equal]
pub struct RecordVersionView {
    pub domain: Seq<char>,
    pub kind: Seq<char>,
    pub version: int,
}

impl DeepView for RecordVersion {
    type V = RecordVersionView;

    open spec fn deep_view(&self) -> RecordVersionView {
        RecordVersionView {
            domain: self.domain@,
            kind: self.kind@,
            version: self.version as int,
        }
    }
}

/// A record with its schema version, and whether that version is known.
#[derive(Debug, PartialEq, Eq)]
pub struct VersionedRecord {
    pub record: GraphRecord,
    pub version: RecordVersion,
    pub supported: bool,
}

#[verifier::ext_equal]
pub struct VersionedRecordView {
    pub record: RecordView,
    pub version: RecordVersionView,
    pub supported: bool,
}

impl DeepView for VersionedRecord {
    type V = VersionedRecordView;

    open spec fn deep_view(&self) -> VersionedRecordView {
        VersionedRecordView {
            record: self.record.deep_view(),
            version: self.version.deep_view(),
            supported: self.supported,
        }
    }
}

/// How far a record can be trusted: a closed set of classes.
#[derive(Debug, Clone, Copy, PartialEq, Eq, Structural)]
pub enum TrustClass {
    SourceDerived,
    VerificationEvidence,
    AgentVerified,
    AgentUnverified,
    AgentContradicted,
    ProjectState,
    Artifact,
    RuntimeObservation,
    Other,
}

impl TrustClass {
    pub open spec fn name(self) -> Seq<char> {
        match self {
            TrustClass::SourceDerived => "source_derived"@,
            TrustClass::VerificationEvidence => "verification_evidence"@,
            TrustClass::AgentVerified => "agent_verified"@,
            TrustClass::AgentUnverified => "agent_unverified"@,
            TrustClass::AgentContradicted => "agent_contradicted"@,
            TrustClass::ProjectState => "project_state"@,
            TrustClass::Artifact => "artifact"@,
            TrustClass::RuntimeObservation => "runtime_observation"@,
            TrustClass::Other => "other"@,
        }
    }

    pub fn as_str(&self) -> (r: &'static str)
        ensures
            r@ == self.name(),
    {
        match self {
            TrustClass::SourceDerived => "source_derived",
            TrustClass::VerificationEvidence => "verification_evidence",
            TrustClass::AgentVerified => "agent_verified",
            TrustClass::AgentUnverified => "agent_unverified",
            TrustClass::AgentContradicted => "agent_contradicted",
            TrustClass::ProjectState => "project_state",
            TrustClass::Artifact => "artifact",
            TrustClass::RuntimeObservation => "runtime_observation",
            TrustClass::Other => "other",
        }
    }
}

/// A record with the trust class that the whole store gives it.
#[derive(Debug, PartialEq, Eq)]
pub struct ClassifiedRecord {
    pub record: GraphRecord,
    pub trust: TrustClass,
}

#[verifier::ext_equal]
pub struct ClassifiedRecordView {
    pub record: RecordView,
    pub trust: TrustClass,
}

impl DeepView for ClassifiedRecord {
    type V = ClassifiedRecordView;

    open spec fn deep_view(&self) -> ClassifiedRecordView {
        ClassifiedRecordView {
            record: self.record.deep_view(),
            trust: self.trust,
        }
    }
}

/// A semantic-drift record with the place that it speaks of.
#[derive(Debug, PartialEq, Eq)]
pub struct DriftRow {
    pub record: GraphRecord,
    pub trust: TrustClass,
    pub resolved_path: Option<String>,
    pub resolved_span: Option<SourceSpan>,
}

#[verifier::ext_equal]
pub struct DriftRowView {
    pub record: RecordView,
    pub trust: TrustClass,
    pub resolved_path: Option<Seq<char>>,
    pub resolved_span: Option<SourceSpan>,
}

impl DeepView for DriftRow {
    type V = DriftRowView;

    open spec fn deep_view(&self) -> DriftRowView {
        DriftRowView {
            record: self.record.deep_view(),
            trust: self.trust,
            resolved_path: self.resolved_path.deep_view(),
            resolved_span: self.resolved_span,
        }
    }
}

/// A reference to something that is not in the store.
#[derive(Debug, PartialEq, Eq)]
pub struct UnresolvedRef {
    pub source_record_id: String,
    pub target_handle: String,
    pub relation: String,
    pub target_domain: String,
}

#[verifier::ext_equal]
pub struct UnresolvedRefView {
    pub source_record_id: Seq<char>,
    pub target_handle: Seq<char>,
    pub relation: Seq<char>,
    pub target_domain: Seq<char>,
}

impl DeepView for UnresolvedRef {
    type V = UnresolvedRefView;

    open spec fn deep_view(&self) -> UnresolvedRefView {
        UnresolvedRefView {
            source_record_id: self.source_record_id@,
            target_handle: self.target_handle@,
            relation: self.relation@,
            target_domain: self.target_domain@,
        }
    }
}

/// Something that a decision rests on and that the store holds.
#[derive(Debug, PartialEq, Eq)]
pub struct EvidenceHandle {
    pub relation: String,
    pub target_record_id: String,
    pub target_kind: String,
}

#[verifier::ext_equal]
pub struct EvidenceHandleView {
    pub relation: Seq<char>,
    pub target_record_id: Seq<char>,
    pub target_kind: Seq<char>,
}

impl DeepView for EvidenceHandle {
    type V = EvidenceHandleView;

    open spec fn deep_view(&self) -> EvidenceHandleView {
        EvidenceHandleView {
            relation: self.relation@,
            target_record_id: self.target_record_id@,
            target_kind: self.target_kind@,
        }
    }
}

/// A record of a decision, with what was decided, why, and what it rests on.
#[derive(Debug, PartialEq, Eq)]
pub struct DecisionRow {
    pub record: GraphRecord,
    pub trust: TrustClass,
    pub decision_text: Option<String>,
    pub rationale_summary: Option<String>,
    pub evidence_handles: Vec<EvidenceHandle>,
}

#[verifier::ext_equal]
pub struct DecisionRowView {
    pub record: RecordView,
    pub trust: TrustClass,
    pub decision_text: Option<Seq<char>>,
    pub rationale_summary: Option<Seq<char>>,
    pub evidence_handles: Seq<EvidenceHandleView>,
}

impl DeepView for DecisionRow {
    type V = DecisionRowView;

    open spec fn deep_view(&self) -> DecisionRowView {
        DecisionRowView {
            record: self.record.deep_view(),
            trust: self.trust,
            decision_text: self.decision_text.deep_view(),
            rationale_summary: self.rationale_summary.deep_view(),
            evidence_handles: self.evidence_handles.deep_view(),
        }
    }
}

/// Of which domains the store holds any record at all. It tells an empty section of a domain that
/// the store lacks from one in which the entity has nothing.
#[derive(Debug, Clone, Copy, PartialEq, Eq, Structural)]
pub struct StoreCoverage {
    pub code_graph: bool,
    pub agent_memory: bool,
    pub project: bool,
    pub artifact: bool,
    pub verification: bool,
}

/// What the store holds about a symbol, by domain.
#[derive(Debug, PartialEq, Eq)]
pub struct SymbolEvidence {
    pub source_facts: Vec<ClassifiedRecord>,
    pub topology_edges: Vec<ClassifiedRecord>,
    pub observations: Vec<ClassifiedRecord>,
    pub decisions: Vec<DecisionRow>,
    pub project_state: Vec<ClassifiedRecord>,
    pub artifacts: Vec<ClassifiedRecord>,
    pub verification_evidence: Vec<ClassifiedRecord>,
    pub drift_history: Vec<DriftRow>,
    pub unresolved: Vec<UnresolvedRef>,
    pub store_coverage: StoreCoverage,
}

#[verifier::ext_equal]
pub struct SymbolEvidenceView {
    pub source_facts: Seq<ClassifiedRecordView>,
    pub topology_edges: Seq<ClassifiedRecordView>,
    pub observations: Seq<ClassifiedRecordView>,
    pub decisions: Seq<DecisionRowView>,
    pub project_state: Seq<ClassifiedRecordView>,
    pub artifacts: Seq<ClassifiedRecordView>,
    pub verification_evidence: Seq<ClassifiedRecordView>,
    pub drift_history: Seq<DriftRowView>,
    pub unresolved: Seq<UnresolvedRefView>,
    pub store_coverage: StoreCoverage,
}

impl DeepView for SymbolEvidence {
    type V = SymbolEvidenceView;

    open spec fn deep_view(&self) -> SymbolEvidenceView {
        SymbolEvidenceView {
            source_facts: self.source_facts.deep_view(),
            topology_edges: self.topology_edges.deep_view(),
            observations: self.observations.deep_view(),
            decisions: self.decisions.deep_view(),
            project_state: self.project_state.deep_view(),
            artifacts: self.artifacts.deep_view(),
            verification_evidence: self.verification_evidence.deep_view(),
            drift_history: self.drift_history.deep_view(),
            unresolved: self.unresolved.deep_view(),
            store_coverage: self.store_coverage,
        }
    }
}

/// What the store holds about a task, by domain.
#[derive(Debug, PartialEq, Eq)]
pub struct TaskEvidence {
    pub task_id: String,
    pub tasks: Vec<ClassifiedRecord>,
    pub acceptance_criteria: Vec<ClassifiedRecord>,
    pub source_facts: Vec<ClassifiedRecord>,
    pub observations: Vec<ClassifiedRecord>,
    pub decisions: Vec<DecisionRow>,
    pub artifacts: Vec<ClassifiedRecord>,
    pub verification_evidence: Vec<ClassifiedRecord>,
    pub reviews: Vec<ClassifiedRecord>,
    pub external_links: Vec<ClassifiedRecord>,
    pub unresolved: Vec<UnresolvedRef>,
    pub store_coverage: StoreCoverage,
}

#[verifier::ext_equal]
pub struct TaskEvidenceView {
    pub task_id: Seq<char>,
    pub tasks: Seq<ClassifiedRecordView>,
    pub acceptance_criteria: Seq<ClassifiedRecordView>,
    pub source_facts: Seq<ClassifiedRecordView>,
    pub observations: Seq<ClassifiedRecordView>,
    pub decisions: Seq<DecisionRowView>,
    pub artifacts: Seq<ClassifiedRecordView>,
    pub verification_evidence: Seq<ClassifiedRecordView>,
    pub reviews: Seq<ClassifiedRecordView>,
    pub external_links: Seq<ClassifiedRecordView>,
    pub unresolved: Seq<UnresolvedRefView>,
    pub store_coverage: StoreCoverage,
}

impl DeepView for TaskEvidence {
    type V = TaskEvidenceView;

    open spec fn deep_view(&self) -> TaskEvidenceView {
        TaskEvidenceView {
            task_id: self.task_id@,
            tasks: self.tasks.deep_view(),
            acceptance_criteria: self.acceptance_criteria.deep_view(),
            source_facts: self.source_facts.deep_view(),
            observations: self.observations.deep_view(),
            decisions: self.decisions.deep_view(),
            artifacts: self.artifacts.deep_view(),
            verification_evidence: self.verification_evidence.deep_view(),
            reviews: self.reviews.deep_view(),
            external_links: self.external_links.deep_view(),
            unresolved: self.unresolved.deep_view(),
            store_coverage: self.store_coverage,
        }
    }
}

/// Whether a store still speaks of the working tree as it is.
#[derive(Debug, Clone, Copy, PartialEq, Eq, Structural)]
pub enum FreshnessVerdict {
    Fresh,
    StaleHead,
    StaleDirty,
    Unknown,
}

impl FreshnessVerdict {
    pub open spec fn name(self) -> Seq<char> {
        match self {
            FreshnessVerdict::Fresh => "fresh"@,
            FreshnessVerdict::StaleHead => "stale_head"@,
            FreshnessVerdict::StaleDirty => "stale_dirty"@,
            FreshnessVerdict::Unknown => "unknown"@,
        }
    }

    pub fn as_str(&self) -> (r: &'static str)
        ensures
            r@ == self.name(),
    {
        match self {
            FreshnessVerdict::Fresh => "fresh",
            FreshnessVerdict::StaleHead => "stale_head",
            FreshnessVerdict::StaleDirty => "stale_dirty",
            FreshnessVerdict::Unknown => "unknown",
        }
    }
}

/// How a store compares with a working tree.
#[derive(Debug, PartialEq, Eq)]
pub struct FreshnessReport {
    pub freshness: FreshnessVerdict,
    pub fresh: bool,
    pub repository_id: String,
    pub stored_snapshot: Option<SourceSnapshotPayload>,
    pub current_head: SnapshotHead,
    pub current_dirty: bool,
    pub message: String,
}

#[verifier::ext_equal]
pub struct FreshnessReportView {
    pub freshness: FreshnessVerdict,
    pub fresh: bool,
    pub repository_id: Seq<char>,
    pub stored_snapshot: Option<SourceSnapshotPayloadView>,
    pub current_head: SnapshotHeadView,
    pub current_dirty: bool,
    pub message: Seq<char>,
}

impl DeepView for FreshnessReport {
    type V = FreshnessReportView;

    open spec fn deep_view(&self) -> FreshnessReportView {
        FreshnessReportView {
            freshness: self.freshness,
            fresh: self.fresh,
            repository_id: self.repository_id@,
            stored_snapshot: self.stored_snapshot.deep_view(),
            current_head: self.current_head.deep_view(),
            current_dirty: self.current_dirty,
            message: self.message@,
        }
    }
}


// ── Values ──────────────────────────────────────────────────────────────────

pub open spec fn opt_int_json(o: Option<i64>) -> JsonView {
    match o {
        Some(n) => JsonView::Int(n),
        None => JsonView::Null,
    }
}

fn build_opt_int(o: Option<i64>) -> (r: Json)
    ensures
        r.deep_view() == opt_int_json(o),
{
    match o {
        Some(n) => Json::Int(n),
        None => Json::Null,
    }
}

pub open spec fn opt_uint_json(o: Option<u64>) -> JsonView {
    match o {
        Some(n) => JsonView::UInt(n),
        None => JsonView::Null,
    }
}

fn build_opt_uint(o: Option<u64>) -> (r: Json)
    ensures
        r.deep_view() == opt_uint_json(o),
{
    match o {
        Some(n) => Json::UInt(n),
        None => Json::Null,
    }
}

pub open spec fn opt_size_json(o: Option<usize>) -> JsonView {
    match o {
        Some(n) => JsonView::UInt(n as u64),
        None => JsonView::Null,
    }
}

fn build_opt_size(o: Option<usize>) -> (r: Json)
    ensures
        r.deep_view() == opt_size_json(o),
{
    match o {
        Some(n) => Json::UInt(n as u64),
        None => Json::Null,
    }
}

pub open spec fn opt_texts_json(o: Option<Seq<Seq<char>>>) -> JsonView {
    match o {
        Some(v) => text_array(v),
        None => JsonView::Null,
    }
}

fn build_opt_texts(o: &Option<Vec<String>>) -> (r: Json)
    ensures
        r.deep_view() == opt_texts_json(o.deep_view()),
{
    match o {
        Some(v) => texts(v),
        None => Json::Null,
    }
}

/// A place in a source file.
pub open spec fn span_json(s: SourceSpan) -> JsonView {
    JsonView::Obj(
        no_members()
            .push(("start_byte"@, JsonView::UInt(s.start_byte as u64)))
            .push(("end_byte"@, JsonView::UInt(s.end_byte as u64)))
            .push(("start_line"@, JsonView::UInt(s.start_line as u64)))
            .push(("end_line"@, JsonView::UInt(s.end_line as u64)))
            .push(("start_column"@, opt_size_json(s.start_column)))
            .push(("end_column"@, opt_size_json(s.end_column))),
    )
}

fn build_span(s: SourceSpan) -> (r: Json)
    ensures
        r.deep_view() == span_json(s),
{
    Members::new()
        .with("start_byte", number(s.start_byte as u64))
        .with("end_byte", number(s.end_byte as u64))
        .with("start_line", number(s.start_line as u64))
        .with("end_line", number(s.end_line as u64))
        .with("start_column", build_opt_size(s.start_column))
        .with("end_column", build_opt_size(s.end_column))
        .object()
}

pub open spec fn opt_span_json(s: Option<SourceSpan>) -> JsonView {
    match s {
        Some(x) => span_json(x),
        None => JsonView::Null,
    }
}

fn build_opt_span(s: Option<SourceSpan>) -> (r: Json)
    ensures
        r.deep_view() == opt_span_json(s),
{
    match s {
        Some(x) => build_span(x),
        None => Json::Null,
    }
}

pub open spec fn commit_json(t: Option<TemporalMetadataView>) -> JsonView {
    match t {
        Some(x) => JsonView::Str(x.git_commit),
        None => JsonView::Null,
    }
}

fn build_commit(t: &Option<TemporalMetadata>) -> (r: Json)
    ensures
        r.deep_view() == commit_json(t.deep_view()),
{
    match t {
        Some(x) => text(x.git_commit.as_str()),
        None => Json::Null,
    }
}

pub open spec fn valid_time_json(
    own: Option<Seq<char>>,
    t: Option<TemporalMetadataView>,
) -> JsonView {
    match own {
        Some(x) => JsonView::Str(x),
        None => match t {
            Some(x) => JsonView::Str(x.valid_time),
            None => JsonView::Null,
        },
    }
}

fn build_valid_time(own: &Option<String>, t: &Option<TemporalMetadata>) -> (r: Json)
    ensures
        r.deep_view() == valid_time_json(own.deep_view(), t.deep_view()),
{
    match own {
        Some(x) => text(x.as_str()),
        None => match t {
            Some(x) => text(x.valid_time.as_str()),
            None => Json::Null,
        },
    }
}

// ── Records ─────────────────────────────────────────────────────────────────

/// Who made a claim: the agent, with its session where that is known.
pub open spec fn provenance(agent_id: Option<Seq<char>>, session_id: Option<Seq<char>>) -> Option<
    Seq<char>,
> {
    match (agent_id, session_id) {
        (Some(a), Some(s)) => Some(a + ":"@ + s),
        (Some(a), None) => Some(a),
        _ => None,
    }
}

fn provenance_handle(agent_id: &Option<String>, session_id: &Option<String>) -> (r: Option<String>)
    ensures
        r.deep_view() == provenance(agent_id.deep_view(), session_id.deep_view()),
{
    match (agent_id, session_id) {
        (Some(a), Some(s)) => Some(cat3(a.as_str(), ":", s.as_str())),
        (Some(a), None) => Some(a.clone()),
        _ => None,
    }
}

/// An evidence link, cut down to its citation.
pub open spec fn link_json(l: EvidenceLinkView) -> JsonView {
    JsonView::Obj(
        no_members()
            .push(("target_record_id"@, text_or_null(l.target_record_id)))
            .push(("target_domain"@, JsonView::Str(l.target_domain)))
            .push(("relation"@, JsonView::Str(l.relation)))
            .push(("confidence"@, JsonView::Str(l.confidence))),
    )
}

fn build_link(l: &EvidenceLink) -> (r: Json)
    ensures
        r.deep_view() == link_json(l.deep_view()),
{
    Members::new()
        .with_opt("target_record_id", &l.target_record_id)
        .with_text("target_domain", l.target_domain.as_str())
        .with_text("relation", l.relation.as_str())
        .with_text("confidence", l.confidence.as_str())
        .object()
}

/// The evidence links of a record; none is an empty list.
pub open spec fn links_json(links: Option<Seq<EvidenceLinkView>>) -> JsonView {
    match links {
        Some(v) => JsonView::Arr(v.map_values(|l: EvidenceLinkView| link_json(l))),
        None => JsonView::Arr(no_elements()),
    }
}

fn build_links(links: &Option<Vec<EvidenceLink>>) -> (r: Json)
    ensures
        r.deep_view() == links_json(links.deep_view()),
{
    let mut out: Vec<Json> = Vec::new();
    if let Some(v) = links {
        let ghost all = v.deep_view().map_values(|l: EvidenceLinkView| link_json(l));
        let mut i: usize = 0;
        assert(out.deep_view() =~= all.take(0));
        while i < v.len()
            invariant
                i <= v.len(),
                all == v.deep_view().map_values(|l: EvidenceLinkView| link_json(l)),
                out.deep_view() == all.take(i as int),
            decreases v.len() - i,
        {
            let ghost before = out;
            out.push(build_link(&v[i]));
            proof {
                lemma_push(before, out);
                assert(v.deep_view()[i as int] == v@[i as int].deep_view());
                assert(all.take(i + 1) =~= all.take(i as int).push(all[i as int]));
            }
            i += 1;
        }
        assert(all.take(v.len() as int) =~= all);
    } else {
        assert(out.deep_view() =~= no_elements());
    }
    array(out)
}

/// A code-graph record. Its valid time is its own, or else that of its commit.
pub open spec fn source_fact_json(n: NodeRecordView, trust: Seq<char>) -> JsonView {
    JsonView::Obj(
        no_members()
            .push(("record_id"@, JsonView::Str(n.id)))
            .push(("kind"@, JsonView::Str(n.kind.name())))
            .push(("trust"@, JsonView::Str(trust)))
            .push(("name"@, text_or_null(n.name)))
            .push(("repo_relative_path"@, text_or_null(n.repo_relative_path)))
            .push(("span"@, opt_span_json(n.span)))
            .push(("git_commit"@, commit_json(n.temporal)))
            .push(("valid_time"@, valid_time_json(n.valid_time, n.temporal)))
            .push(("language"@, text_or_null(n.code.language)))
            .push(("symbol_kind"@, text_or_null(n.code.symbol_kind))),
    )
}

fn source_fact(n: &NodeRecord, trust: &str) -> (r: Json)
    ensures
        r.deep_view() == source_fact_json(n.deep_view(), trust@),
{
    Members::new()
        .with_text("record_id", n.id.as_str())
        .with_text("kind", n.kind.as_str())
        .with_text("trust", trust)
        .with_opt("name", &n.name)
        .with_opt("repo_relative_path", &n.repo_relative_path)
        .with("span", build_opt_span(n.span))
        .with("git_commit", build_commit(&n.temporal))
        .with("valid_time", build_valid_time(&n.valid_time, &n.temporal))
        .with_opt("language", &n.code.language)
        .with_opt("symbol_kind", &n.code.symbol_kind)
        .object()
}

/// An agent-authored record.
pub open spec fn observation_json(n: NodeRecordView, trust: Seq<char>) -> JsonView {
    JsonView::Obj(
        no_members()
            .push(("record_id"@, JsonView::Str(n.id)))
            .push(("kind"@, JsonView::Str(n.kind.name())))
            .push(("trust"@, JsonView::Str(trust)))
            .push(("summary"@, JsonView::Str(n.summary)))
            .push(("text"@, text_or_null(n.text)))
            .push(("provenance_handle"@, text_or_null(provenance(n.memory.agent_id, n.memory.session_id))))
            .push(("agent_id"@, text_or_null(n.memory.agent_id)))
            .push(("session_id"@, text_or_null(n.memory.session_id)))
            .push(("observed_at"@, text_or_null(n.memory.observed_at)))
            .push(("confidence"@, text_or_null(n.memory.confidence)))
            .push(("failure_kind"@, text_or_null(n.memory.failure_kind)))
            .push(("exit_code"@, opt_int_json(n.verification.exit_code)))
            .push(("evidence_links"@, links_json(n.evidence_links))),
    )
}

fn observation(n: &NodeRecord, trust: &str) -> (r: Json)
    ensures
        r.deep_view() == observation_json(n.deep_view(), trust@),
{
    Members::new()
        .with_text("record_id", n.id.as_str())
        .with_text("kind", n.kind.as_str())
        .with_text("trust", trust)
        .with_text("summary", n.summary.as_str())
        .with_opt("text", &n.text)
        .with_opt("provenance_handle", &provenance_handle(&n.memory.agent_id, &n.memory.session_id))
        .with_opt("agent_id", &n.memory.agent_id)
        .with_opt("session_id", &n.memory.session_id)
        .with_opt("observed_at", &n.memory.observed_at)
        .with_opt("confidence", &n.memory.confidence)
        .with_opt("failure_kind", &n.memory.failure_kind)
        .with("exit_code", build_opt_int(n.verification.exit_code))
        .with("evidence_links", build_links(&n.evidence_links))
        .object()
}

/// The citation of an output: its digest and length, never the output itself.
pub open spec fn output_citation(h: Option<OutputHandleView>) -> JsonView {
    match h {
        Some(x) => JsonView::Obj(
            no_members()
                .push(("hash"@, JsonView::Str(x.hash)))
                .push(("bytes"@, JsonView::UInt(x.bytes))),
        ),
        None => JsonView::Null,
    }
}

fn output_handle_citation(h: &Option<OutputHandle>) -> (r: Json)
    ensures
        r.deep_view() == output_citation(h.deep_view()),
{
    match h {
        Some(x) => Members::new()
            .with_text("hash", x.hash.as_str())
            .with("bytes", number(x.bytes))
            .object(),
        None => Json::Null,
    }
}

/// The citation of a patch: its path, never its bytes.
pub open spec fn patch_citation(h: Option<PatchHandleView>) -> JsonView {
    match h {
        Some(x) => JsonView::Obj(no_members().push(("path"@, JsonView::Str(x.path)))),
        None => JsonView::Null,
    }
}

fn patch_handle_citation(h: &Option<PatchHandle>) -> (r: Json)
    ensures
        r.deep_view() == patch_citation(h.deep_view()),
{
    match h {
        Some(x) => Members::new().with_text("path", x.path.as_str()).object(),
        None => Json::Null,
    }
}

/// A validation summary is never quoted.
pub open spec fn summarized(s: Option<Seq<char>>) -> Option<Seq<char>> {
    match s {
        Some(x) => if x.len() == 0 {
            Some(x)
        } else {
            Some("<summarized>"@)
        },
        None => None,
    }
}

fn summarize(s: &Option<String>) -> (r: Option<String>)
    ensures
        r.deep_view() == summarized(s.deep_view()),
{
    match s {
        Some(x) => if x.as_str().is_empty() {
            Some(x.clone())
        } else {
            Some("<summarized>".to_owned())
        },
        None => None,
    }
}

/// A record with its citations. Of outputs, bodies and patches it carries the handles alone, and a
/// validation summary is only said to be there.
pub open spec fn linked_item_json(n: NodeRecordView, trust: Seq<char>) -> JsonView {
    JsonView::Obj(
        no_members()
            .push(("record_id"@, JsonView::Str(n.id)))
            .push(("kind"@, JsonView::Str(n.kind.name())))
            .push(("trust"@, JsonView::Str(trust)))
            .push(("summary"@, JsonView::Str(n.summary)))
            .push(("title"@, text_or_null(n.project.title)))
            .push(("name"@, text_or_null(n.name)))
            .push(("text"@, text_or_null(n.text)))
            .push(("status"@, text_or_null(n.project.status)))
            .push(("verification_kind"@, text_or_null(n.verification.verification_kind)))
            .push(("exit_code"@, opt_int_json(n.verification.exit_code)))
            .push(("executed_at"@, text_or_null(n.verification.executed_at)))
            .push(("evidence_quality"@, text_or_null(n.verification.evidence_quality)))
            .push(("source_artifact_path"@, text_or_null(n.verification.source_artifact_path)))
            .push(("source_artifact_hash"@, text_or_null(n.verification.source_artifact_hash)))
            .push(("stdout_handle"@, output_citation(n.verification.stdout_handle)))
            .push(("stderr_handle"@, output_citation(n.verification.stderr_handle)))
            .push(("repo_relative_path"@, text_or_null(n.repo_relative_path)))
            .push(("edit_kind"@, text_or_null(n.artifact.edit_kind)))
            .push(("patch_status"@, text_or_null(n.artifact.patch_status)))
            .push(("patch_handle"@, patch_citation(n.artifact.patch_handle)))
            .push(("patch_bytes_hash"@, text_or_null(n.artifact.patch_bytes_hash)))
            .push(("patch_bytes_size"@, opt_uint_json(n.artifact.patch_bytes_size)))
            .push(("target_files"@, opt_texts_json(n.artifact.target_files)))
            .push(("validation_summary"@, text_or_null(summarized(n.artifact.validation_summary))))
            .push(("base_commit"@, text_or_null(n.artifact.base_commit)))
            .push(("producer_session_id"@, text_or_null(n.artifact.producer_session_id)))
            .push(("body_handle"@, output_citation(n.project.body_handle)))
            .push(("author"@, text_or_null(n.project.author)))
            .push(("url"@, text_or_null(n.project.url)))
            .push(("system_native_id"@, text_or_null(n.project.system_native_id)))
            .push(("evidence_links"@, links_json(n.evidence_links))),
    )
}

fn linked_item(n: &NodeRecord, trust: &str) -> (r: Json)
    ensures
        r.deep_view() == linked_item_json(n.deep_view(), trust@),
{
    Members::new()
        .with_text("record_id", n.id.as_str())
        .with_text("kind", n.kind.as_str())
        .with_text("trust", trust)
        .with_text("summary", n.summary.as_str())
        .with_opt("title", &n.project.title)
        .with_opt("name", &n.name)
        .with_opt("text", &n.text)
        .with_opt("status", &n.project.status)
        .with_opt("verification_kind", &n.verification.verification_kind)
        .with("exit_code", build_opt_int(n.verification.exit_code))
        .with_opt("executed_at", &n.verification.executed_at)
        .with_opt("evidence_quality", &n.verification.evidence_quality)
        .with_opt("source_artifact_path", &n.verification.source_artifact_path)
        .with_opt("source_artifact_hash", &n.verification.source_artifact_hash)
        .with("stdout_handle", output_handle_citation(&n.verification.stdout_handle))
        .with("stderr_handle", output_handle_citation(&n.verification.stderr_handle))
        .with_opt("repo_relative_path", &n.repo_relative_path)
        .with_opt("edit_kind", &n.artifact.edit_kind)
        .with_opt("patch_status", &n.artifact.patch_status)
        .with("patch_handle", patch_handle_citation(&n.artifact.patch_handle))
        .with_opt("patch_bytes_hash", &n.artifact.patch_bytes_hash)
        .with("patch_bytes_size", build_opt_uint(n.artifact.patch_bytes_size))
        .with("target_files", build_opt_texts(&n.artifact.target_files))
        .with_opt("validation_summary", &summarize(&n.artifact.validation_summary))
        .with_opt("base_commit", &n.artifact.base_commit)
        .with_opt("producer_session_id", &n.artifact.producer_session_id)
        .with("body_handle", output_handle_citation(&n.project.body_handle))
        .with_opt("author", &n.project.author)
        .with_opt("url", &n.project.url)
        .with_opt("system_native_id", &n.project.system_native_id)
        .with("evidence_links", build_links(&n.evidence_links))
        .object()
}

/// The sections of an answer, by what their rows show.
#[derive(Debug, Clone, Copy, PartialEq, Eq, Structural)]
pub enum Section {
    SourceFacts,
    Observations,
    LinkedItems,
    TopologyEdges,
}

/// A row of a section; a record of another sort has none.
pub open spec fn row_json(section: Section, c: ClassifiedRecordView) -> Option<JsonView> {
    match (section, c.record) {
        (Section::SourceFacts, RecordView::Node(n)) => Some(source_fact_json(n, c.trust.name())),
        (Section::Observations, RecordView::Node(n)) => Some(observation_json(n, c.trust.name())),
        (Section::LinkedItems, RecordView::Node(n)) => Some(linked_item_json(n, c.trust.name())),
        (Section::TopologyEdges, RecordView::Edge(e)) => Some(
            JsonView::Obj(
                no_members()
                    .push(("record_id"@, JsonView::Str(e.id)))
                    .push(("trust"@, JsonView::Str(c.trust.name())))
                    .push(("label"@, JsonView::Str(e.label.name())))
                    .push(("source_id"@, JsonView::Str(e.source)))
                    .push(("target_id"@, JsonView::Str(e.target)))
                    .push(("summary"@, JsonView::Str(e.summary)))
                    .push(("git_commit"@, commit_json(e.temporal)))
                    .push(("valid_time"@, valid_time_json(None, e.temporal))),
            ),
        ),
        _ => None,
    }
}

fn topology_edge(e: &EdgeRecord, trust: TrustClass) -> (r: Json)
    ensures
        row_json(
            Section::TopologyEdges,
            (ClassifiedRecordView { record: RecordView::Edge(e.deep_view()), trust }),
        ) == Some(r.deep_view()),
{
    Members::new()
        .with_text("record_id", e.id.as_str())
        .with_text("trust", trust.as_str())
        .with_text("label", e.label.as_str())
        .with_text("source_id", e.source.as_str())
        .with_text("target_id", e.target.as_str())
        .with_text("summary", e.summary.as_str())
        .with("git_commit", build_commit(&e.temporal))
        .with("valid_time", build_valid_time(&None, &e.temporal))
        .object()
}

fn record_to_row(section: Section, c: &ClassifiedRecord) -> (r: Option<Json>)
    ensures
        r.deep_view() == row_json(section, c.deep_view()),
{
    match (section, &c.record) {
        (Section::SourceFacts, GraphRecord::Node(n)) => Some(source_fact(n, c.trust.as_str())),
        (Section::Observations, GraphRecord::Node(n)) => Some(observation(n, c.trust.as_str())),
        (Section::LinkedItems, GraphRecord::Node(n)) => Some(linked_item(n, c.trust.as_str())),
        (Section::TopologyEdges, GraphRecord::Edge(e)) => Some(
            topology_edge(e, c.trust),
        ),
        _ => None,
    }
}

/// The rows of a section, in the order of its records.
pub open spec fn rows(section: Section, s: Seq<ClassifiedRecordView>) -> Seq<JsonView>
    decreases s.len(),
{
    if s.len() == 0 {
        Seq::empty()
    } else {
        match row_json(section, s.last()) {
            Some(row) => rows(section, s.drop_last()).push(row),
            None => rows(section, s.drop_last()),
        }
    }
}

fn build_rows(section: Section, s: &Vec<ClassifiedRecord>) -> (r: Json)
    ensures
        r.deep_view() == JsonView::Arr(rows(section, s.deep_view())),
{
    let ghost all = s.deep_view();
    let mut out: Vec<Json> = Vec::new();
    let mut i: usize = 0;
    assert(out.deep_view() =~= rows(section, all.take(0)));
    while i < s.len()
        invariant
            i <= s.len(),
            all == s.deep_view(),
            out.deep_view() == rows(section, all.take(i as int)),
        decreases s.len() - i,
    {
        proof {
            assert(all.take(i + 1).drop_last() =~= all.take(i as int));
            assert(all.take(i + 1).last() == s@[i as int].deep_view());
        }
        if let Some(row) = record_to_row(section, &s[i]) {
            let ghost before = out;
            out.push(row);
            proof {
                lemma_push(before, out);
            }
        }
        i += 1;
    }
    assert(all.take(s.len() as int) =~= all);
    array(out)
}

/// Members for a resolved place: what is not known is left out.
pub open spec fn place_members(
    base: Seq<(Seq<char>, JsonView)>,
    path: Option<Seq<char>>,
    span: Option<SourceSpan>,
) -> Seq<(Seq<char>, JsonView)> {
    let with_path = match path {
        Some(p) => base.push(("repo_relative_path"@, JsonView::Str(p))),
        None => base,
    };
    match span {
        Some(s) => with_path.push(("span"@, span_json(s))),
        None => with_path,
    }
}

/// A row of semantic drift, under the name of the model that measured it; a record that measures
/// none has no row.
pub open spec fn drift_json(d: DriftRowView) -> Option<JsonView> {
    match d.record {
        RecordView::Node(n) => match n.semantic_drift {
            Some(drift) => {
                let base = no_members()
                    .push(("record_id"@, JsonView::Str(n.id)))
                    .push(("trust"@, JsonView::Str(d.trust.name())))
                    .push(("score"@, JsonView::Float(drift.score_bits)))
                    .push(("before_commit"@, JsonView::Str(drift.before_git_commit)))
                    .push(("after_commit"@, JsonView::Str(drift.after_git_commit)))
                    .push(("before_valid_time"@, JsonView::Str(drift.before_valid_time)))
                    .push(("after_valid_time"@, JsonView::Str(drift.after_valid_time)))
                    .push(("embedding_model"@, JsonView::Str(drift.embedding_model.name)));
                Some(JsonView::Obj(place_members(base, d.resolved_path, d.resolved_span)))
            },
            None => None,
        },
        _ => None,
    }
}

fn with_place(base: Members, path: &Option<String>, span: Option<SourceSpan>) -> (r: Members)
    ensures
        r@ == place_members(base@, path.deep_view(), span),
{
    let with_path: Members = match path {
        Some(p) => base.with_text("repo_relative_path", p.as_str()),
        None => base,
    };
    match span {
        Some(s) => with_path.with("span", build_span(s)),
        None => with_path,
    }
}

fn score(bits: u64) -> (r: Json)
    ensures
        r.deep_view() == JsonView::Float(bits),
{
    Json::Float(bits)
}

fn record_to_drift(d: &DriftRow) -> (r: Option<Json>)
    ensures
        r.deep_view() == drift_json(d.deep_view()),
{
    match &d.record {
        GraphRecord::Node(n) => match &n.semantic_drift {
            Some(drift) => {
                let base: Members = Members::new()
                    .with_text("record_id", n.id.as_str())
                    .with_text("trust", d.trust.as_str())
                    .with("score", score(drift.score_bits))
                    .with_text("before_commit", drift.before_git_commit.as_str())
                    .with_text("after_commit", drift.after_git_commit.as_str())
                    .with_text("before_valid_time", drift.before_valid_time.as_str())
                    .with_text("after_valid_time", drift.after_valid_time.as_str())
                    .with_text("embedding_model", drift.embedding_model.name.as_str());
                Some(with_place(base, &d.resolved_path, d.resolved_span).object())
            },
            None => None,
        },
        _ => None,
    }
}

pub open spec fn drift_rows(s: Seq<DriftRowView>) -> Seq<JsonView>
    decreases s.len(),
{
    if s.len() == 0 {
        Seq::empty()
    } else {
        match drift_json(s.last()) {
            Some(row) => drift_rows(s.drop_last()).push(row),
            None => drift_rows(s.drop_last()),
        }
    }
}

fn build_drift_rows(s: &Vec<DriftRow>) -> (r: Json)
    ensures
        r.deep_view() == JsonView::Arr(drift_rows(s.deep_view())),
{
    let ghost all = s.deep_view();
    let mut out: Vec<Json> = Vec::new();
    let mut i: usize = 0;
    assert(out.deep_view() =~= drift_rows(all.take(0)));
    while i < s.len()
        invariant
            i <= s.len(),
            all == s.deep_view(),
            out.deep_view() == drift_rows(all.take(i as int)),
        decreases s.len() - i,
    {
        proof {
            assert(all.take(i + 1).drop_last() =~= all.take(i as int));
            assert(all.take(i + 1).last() == s@[i as int].deep_view());
        }
        if let Some(row) = record_to_drift(&s[i]) {
            let ghost before = out;
            out.push(row);
            proof {
                lemma_push(before, out);
            }
        }
        i += 1;
    }
    assert(all.take(s.len() as int) =~= all);
    array(out)
}

/// A reference that did not resolve.
pub open spec fn unresolved_json(u: UnresolvedRefView) -> JsonView {
    JsonView::Obj(
        no_members()
            .push(("source_record_id"@, JsonView::Str(u.source_record_id)))
            .push(("target_handle"@, JsonView::Str(u.target_handle)))
            .push(("relation"@, JsonView::Str(u.relation)))
            .push(("target_domain"@, JsonView::Str(u.target_domain)))
            .push(("verification_status"@, JsonView::Str("unresolved"@))),
    )
}

fn unresolved_to_json(u: &UnresolvedRef) -> (r: Json)
    ensures
        r.deep_view() == unresolved_json(u.deep_view()),
{
    Members::new()
        .with_text("source_record_id", u.source_record_id.as_str())
        .with_text("target_handle", u.target_handle.as_str())
        .with_text("relation", u.relation.as_str())
        .with_text("target_domain", u.target_domain.as_str())
        .with_text("verification_status", "unresolved")
        .object()
}

pub open spec fn unresolved_rows(s: Seq<UnresolvedRefView>) -> JsonView {
    JsonView::Arr(s.map_values(|u: UnresolvedRefView| unresolved_json(u)))
}

fn build_unresolved_rows(s: &Vec<UnresolvedRef>) -> (r: Json)
    ensures
        r.deep_view() == unresolved_rows(s.deep_view()),
{
    let ghost all = s.deep_view().map_values(|u: UnresolvedRefView| unresolved_json(u));
    let mut out: Vec<Json> = Vec::new();
    let mut i: usize = 0;
    assert(out.deep_view() =~= all.take(0));
    while i < s.len()
        invariant
            i <= s.len(),
            all == s.deep_view().map_values(|u: UnresolvedRefView| unresolved_json(u)),
            out.deep_view() == all.take(i as int),
        decreases s.len() - i,
    {
        let ghost before = out;
        out.push(unresolved_to_json(&s[i]));
        proof {
            lemma_push(before, out);
            assert(s.deep_view()[i as int] == s@[i as int].deep_view());
            assert(all.take(i + 1) =~= all.take(i as int).push(all[i as int]));
        }
        i += 1;
    }
    assert(all.take(s.len() as int) =~= all);
    array(out)
}

/// What a decision rests on.
pub open spec fn handle_json(h: EvidenceHandleView) -> JsonView {
    JsonView::Obj(
        no_members()
            .push(("relation"@, JsonView::Str(h.relation)))
            .push(("target_record_id"@, JsonView::Str(h.target_record_id)))
            .push(("target_kind"@, JsonView::Str(h.target_kind))),
    )
}

fn handle_to_json(h: &EvidenceHandle) -> (r: Json)
    ensures
        r.deep_view() == handle_json(h.deep_view()),
{
    Members::new()
        .with_text("relation", h.relation.as_str())
        .with_text("target_record_id", h.target_record_id.as_str())
        .with_text("target_kind", h.target_kind.as_str())
        .object()
}

pub open spec fn handle_rows(s: Seq<EvidenceHandleView>) -> JsonView {
    JsonView::Arr(s.map_values(|u: EvidenceHandleView| handle_json(u)))
}

fn build_handle_rows(s: &Vec<EvidenceHandle>) -> (r: Json)
    ensures
        r.deep_view() == handle_rows(s.deep_view()),
{
    let ghost all = s.deep_view().map_values(|u: EvidenceHandleView| handle_json(u));
    let mut out: Vec<Json> = Vec::new();
    let mut i: usize = 0;
    assert(out.deep_view() =~= all.take(0));
    while i < s.len()
        invariant
            i <= s.len(),
            all == s.deep_view().map_values(|u: EvidenceHandleView| handle_json(u)),
            out.deep_view() == all.take(i as int),
        decreases s.len() - i,
    {
        let ghost before = out;
        out.push(handle_to_json(&s[i]));
        proof {
            lemma_push(before, out);
            assert(s.deep_view()[i as int] == s@[i as int].deep_view());
            assert(all.take(i + 1) =~= all.take(i as int).push(all[i as int]));
        }
        i += 1;
    }
    assert(all.take(s.len() as int) =~= all);
    array(out)
}

/// A row of decisions; only a node has one.
pub open spec fn decision_json(d: DecisionRowView) -> Option<JsonView> {
    match d.record {
        RecordView::Node(n) => Some(
            JsonView::Obj(
                no_members()
                    .push(("record_id"@, JsonView::Str(n.id)))
                    .push(("kind"@, JsonView::Str(n.kind.name())))
                    .push(("trust"@, JsonView::Str(d.trust.name())))
                    .push(("summary"@, JsonView::Str(n.summary)))
                    .push(("decision_text"@, text_or_null(d.decision_text)))
                    .push(("rationale_summary"@, text_or_null(d.rationale_summary)))
                    .push(
                        (
                            "provenance_handle"@,
                            text_or_null(provenance(n.memory.agent_id, n.memory.session_id)),
                        ),
                    )
                    .push(("agent_id"@, text_or_null(n.memory.agent_id)))
                    .push(("session_id"@, text_or_null(n.memory.session_id)))
                    .push(("observed_at"@, text_or_null(n.memory.observed_at)))
                    .push(("confidence"@, text_or_null(n.memory.confidence)))
                    .push(("evidence_handles"@, handle_rows(d.evidence_handles))),
            ),
        ),
        _ => None,
    }
}

fn record_to_decision(d: &DecisionRow) -> (r: Option<Json>)
    ensures
        r.deep_view() == decision_json(d.deep_view()),
{
    match &d.record {
        GraphRecord::Node(n) => Some(
            Members::new()
                .with_text("record_id", n.id.as_str())
                .with_text("kind", n.kind.as_str())
                .with_text("trust", d.trust.as_str())
                .with_text("summary", n.summary.as_str())
                .with_opt("decision_text", &d.decision_text)
                .with_opt("rationale_summary", &d.rationale_summary)
                .with_opt(
                    "provenance_handle",
                    &provenance_handle(&n.memory.agent_id, &n.memory.session_id),
                )
                .with_opt("agent_id", &n.memory.agent_id)
                .with_opt("session_id", &n.memory.session_id)
                .with_opt("observed_at", &n.memory.observed_at)
                .with_opt("confidence", &n.memory.confidence)
                .with("evidence_handles", build_handle_rows(&d.evidence_handles))
                .object(),
        ),
        _ => None,
    }
}

/// The rows of the decisions, in their order.
pub open spec fn decision_rows(s: Seq<DecisionRowView>) -> Seq<JsonView>
    decreases s.len(),
{
    if s.len() == 0 {
        Seq::empty()
    } else {
        match decision_json(s.last()) {
            Some(row) => decision_rows(s.drop_last()).push(row),
            None => decision_rows(s.drop_last()),
        }
    }
}

fn build_decision_rows(s: &Vec<DecisionRow>) -> (r: Json)
    ensures
        r.deep_view() == JsonView::Arr(decision_rows(s.deep_view())),
{
    let ghost all = s.deep_view();
    let mut out: Vec<Json> = Vec::new();
    let mut i: usize = 0;
    assert(out.deep_view() =~= decision_rows(all.take(0)));
    while i < s.len()
        invariant
            i <= s.len(),
            all == s.deep_view(),
            out.deep_view() == decision_rows(all.take(i as int)),
        decreases s.len() - i,
    {
        proof {
            assert(all.take(i + 1).drop_last() =~= all.take(i as int));
            assert(all.take(i + 1).last() == s@[i as int].deep_view());
        }
        if let Some(row) = record_to_decision(&s[i]) {
            let ghost before = out;
            out.push(row);
            proof {
                lemma_push(before, out);
            }
        }
        i += 1;
    }
    assert(all.take(s.len() as int) =~= all);
    array(out)
}

/// Which domains the store covers.
pub open spec fn coverage_json(c: StoreCoverage) -> JsonView {
    JsonView::Obj(
        no_members()
            .push(("code_graph"@, JsonView::Bool(c.code_graph)))
            .push(("agent_memory"@, JsonView::Bool(c.agent_memory)))
            .push(("project"@, JsonView::Bool(c.project)))
            .push(("artifact"@, JsonView::Bool(c.artifact)))
            .push(("verification"@, JsonView::Bool(c.verification))),
    )
}

fn build_coverage(c: StoreCoverage) -> (r: Json)
    ensures
        r.deep_view() == coverage_json(c),
{
    Members::new()
        .with("code_graph", flag(c.code_graph))
        .with("agent_memory", flag(c.agent_memory))
        .with("project", flag(c.project))
        .with("artifact", flag(c.artifact))
        .with("verification", flag(c.verification))
        .object()
}

// ── Refusals ────────────────────────────────────────────────────────────────

/// The envelope of a refusal.
pub open spec fn refusal(error: Seq<(Seq<char>, JsonView)>) -> JsonView {
    JsonView::Obj(
        no_members().push(("ok"@, JsonView::Bool(false))).push(("error"@, JsonView::Obj(error))),
    )
}

fn refuse(error: Members) -> (r: Json)
    ensures
        r.deep_view() == refusal(error@),
{
    Members::new().with("ok", flag(false)).with("error", error.object()).object()
}

/// Why a store cannot be read. No letter beyond ASCII has a lower-case form that is part of one of
/// the two words, so folding ASCII letters decides.
pub open spec fn daemon_refusal(msg: Seq<char>) -> JsonView {
    let stale = has(lowered(msg), "stale"@) || has(lowered(msg), "metadata"@);
    refusal(
        no_members()
            .push(
                (
                    "code"@,
                    JsonView::Str(
                        if stale {
                            "daemon_stale"@
                        } else {
                            "daemon_not_running"@
                        },
                    ),
                ),
            )
            .push(("message"@, JsonView::Str(msg))),
    )
}

pub fn daemon_error(msg: &str) -> (r: Json)
    ensures
        r.deep_view() == daemon_refusal(msg@),
{
    let low: String = lower_ascii(msg);
    let code: &str = if contains(low.as_str(), "stale") || contains(low.as_str(), "metadata") {
        "daemon_stale"
    } else {
        "daemon_not_running"
    };
    refuse(Members::new().with_text("code", code).with_text("message", msg))
}

pub open spec fn missing_symbol_name() -> JsonView {
    refusal(
        no_members()
            .push(("code"@, JsonView::Str("missing_argument"@)))
            .push(("field"@, JsonView::Str("symbol_name"@)))
            .push(("message"@, JsonView::Str("symbol_name is required and must be non-empty"@))),
    )
}

fn refuse_missing_symbol_name() -> (r: Json)
    ensures
        r.deep_view() == missing_symbol_name(),
{
    refuse(
        Members::new()
            .with_text("code", "missing_argument")
            .with_text("field", "symbol_name")
            .with_text("message", "symbol_name is required and must be non-empty"),
    )
}

// ── Store inspection ────────────────────────────────────────────────────────

/// What a domain is called in a summary.
pub open spec fn category(domain: Seq<char>) -> Seq<char> {
    if domain == "codegraph"@ {
        "Deterministic Source Facts"@
    } else if domain == "semantic"@ {
        "Derived Measurements"@
    } else if domain == "agent_memory"@ {
        "Agent-Authored Claims"@
    } else if domain == "project"@ {
        "Project/Work State"@
    } else if domain == "artifact"@ {
        "Artifacts"@
    } else if domain == "verification"@ {
        "Verification Evidence"@
    } else if domain == "user_context"@ {
        "User Context"@
    } else if domain == "log"@ {
        "Runtime Observations"@
    } else {
        "Unknown Domain"@
    }
}

pub fn domain_category(domain: &str) -> (r: &'static str)
    ensures
        r@ == category(domain@),
{
    if same(domain, "codegraph") {
        "Deterministic Source Facts"
    } else if same(domain, "semantic") {
        "Derived Measurements"
    } else if same(domain, "agent_memory") {
        "Agent-Authored Claims"
    } else if same(domain, "project") {
        "Project/Work State"
    } else if same(domain, "artifact") {
        "Artifacts"
    } else if same(domain, "verification") {
        "Verification Evidence"
    } else if same(domain, "user_context") {
        "User Context"
    } else if same(domain, "log") {
        "Runtime Observations"
    } else {
        "Unknown Domain"
    }
}

pub open spec fn version_key(v: RecordVersionView) -> Seq<char> {
    v.domain + ":"@ + v.kind + ":"@ + decimal_of(v.version as nat)
}

fn key_of_version(v: &RecordVersion) -> (r: String)
    ensures
        r@ == version_key(v.deep_view()),
{
    cat5(v.domain.as_str(), ":", v.kind.as_str(), ":", decimal(v.version as u64).as_str())
}

pub open spec fn kind_key(v: RecordVersionView) -> Seq<char> {
    v.kind + " v"@ + decimal_of(v.version as nat)
}

fn kind_key_of(v: &RecordVersion) -> (r: String)
    ensures
        r@ == kind_key(v.deep_view()),
{
    cat3(v.kind.as_str(), " v", decimal(v.version as u64).as_str())
}

/// How often each key occurs, in the order of the keys.
pub open spec fn counts(keys: Seq<Seq<char>>) -> Seq<(Seq<char>, JsonView)> {
    distinct(keys).map_values(
        |k: Seq<char>| (k, JsonView::UInt(occurrences(keys, k) as u64)),
    )
}

fn build_counts(keys: &Vec<String>) -> (r: Members)
    ensures
        r@ == counts(keys.deep_view()),
{
    let ghost kv = keys.deep_view();
    let ghost all = counts(kv);
    let ks: Vec<String> = distinct_texts(keys);
    let ghost dv = ks.deep_view();
    let mut out: Members = Members::new();
    let mut i: usize = 0;
    assert(out@ =~= all.take(0));
    while i < ks.len()
        invariant
            i <= ks.len(),
            kv == keys.deep_view(),
            dv == ks.deep_view(),
            dv == distinct(kv),
            all == counts(kv),
            out@ == all.take(i as int),
        decreases ks.len() - i,
    {
        let n: usize = count_text(keys, ks[i].as_str());
        proof {
            assert(dv[i as int] == ks@[i as int].deep_view());
            assert(all.take(i + 1) =~= all.take(i as int).push(all[i as int]));
        }
        out = out.with(ks[i].as_str(), number(n as u64));
        i += 1;
    }
    assert(all.take(ks.len() as int) =~= all);
    out
}

/// The keys of the versions that are not known: those met in reading, then those of records.
pub open spec fn unknown_keys(unknown: Seq<RecordVersionView>, s: Seq<VersionedRecordView>) -> Seq<
    Seq<char>,
>
    decreases s.len(),
{
    if s.len() == 0 {
        unknown.map_values(|v: RecordVersionView| version_key(v))
    } else if s.last().supported {
        unknown_keys(unknown, s.drop_last())
    } else {
        unknown_keys(unknown, s.drop_last()).push(version_key(s.last().version))
    }
}

pub open spec fn known_keys(s: Seq<VersionedRecordView>) -> Seq<Seq<char>>
    decreases s.len(),
{
    if s.len() == 0 {
        Seq::empty()
    } else if s.last().supported {
        known_keys(s.drop_last()).push(version_key(s.last().version))
    } else {
        known_keys(s.drop_last())
    }
}

/// The categories of the known records.
pub open spec fn known_categories(s: Seq<VersionedRecordView>) -> Seq<Seq<char>>
    decreases s.len(),
{
    if s.len() == 0 {
        Seq::empty()
    } else if s.last().supported {
        known_categories(s.drop_last()).push(category(s.last().version.domain))
    } else {
        known_categories(s.drop_last())
    }
}

/// The kinds of the known records of a category.
pub open spec fn kinds_in(s: Seq<VersionedRecordView>, c: Seq<char>) -> Seq<Seq<char>>
    decreases s.len(),
{
    if s.len() == 0 {
        Seq::empty()
    } else if s.last().supported && category(s.last().version.domain) == c {
        kinds_in(s.drop_last(), c).push(kind_key(s.last().version))
    } else {
        kinds_in(s.drop_last(), c)
    }
}

pub open spec fn domain_counts(s: Seq<VersionedRecordView>) -> Seq<(Seq<char>, JsonView)> {
    distinct(known_categories(s)).map_values(
        |c: Seq<char>| (c, JsonView::Obj(counts(kinds_in(s, c)))),
    )
}

#[derive(Debug, Clone, Copy, PartialEq, Eq, Structural)]
pub enum Tally {
    Nodes,
    Edges,
    Tombstones,
    Diagnostics,
}

/// A known record counts.
pub open spec fn tallied(t: Tally, r: VersionedRecordView) -> bool {
    r.supported && match (t, r.record) {
        (Tally::Nodes, RecordView::Node(_)) => true,
        (Tally::Edges, RecordView::Edge(_)) => true,
        (Tally::Tombstones, RecordView::Tombstone(_)) => true,
        (Tally::Diagnostics, RecordView::Node(n)) => n.kind == NodeKind::Diagnostic,
        _ => false,
    }
}

pub open spec fn tally(t: Tally, s: Seq<VersionedRecordView>) -> nat
    decreases s.len(),
{
    if s.len() == 0 {
        0
    } else {
        tally(t, s.drop_last()) + if tallied(t, s.last()) {
            1nat
        } else {
            0
        }
    }
}

fn is_tallied(t: Tally, r: &VersionedRecord) -> (b: bool)
    ensures
        b == tallied(t, r.deep_view()),
{
    r.supported && match (t, &r.record) {
        (Tally::Nodes, GraphRecord::Node(_)) => true,
        (Tally::Edges, GraphRecord::Edge(_)) => true,
        (Tally::Tombstones, GraphRecord::Tombstone(_)) => true,
        (Tally::Diagnostics, GraphRecord::Node(n)) => n.kind == NodeKind::Diagnostic,
        _ => false,
    }
}

fn count_tally(t: Tally, s: &Vec<VersionedRecord>) -> (n: usize)
    ensures
        n == tally(t, s.deep_view()),
{
    let ghost all = s.deep_view();
    let mut n: usize = 0;
    let mut i: usize = 0;
    while i < s.len()
        invariant
            i <= s.len(),
            n <= i,
            all == s.deep_view(),
            n == tally(t, all.take(i as int)),
        decreases s.len() - i,
    {
        proof {
            assert(all.take(i + 1).drop_last() =~= all.take(i as int));
            assert(all.take(i + 1).last() == s@[i as int].deep_view());
        }
        if is_tallied(t, &s[i]) {
            n += 1;
        }
        i += 1;
    }
    assert(all.take(s.len() as int) =~= all);
    n
}

/// How a repository is known: where its identity comes from, and the best name it has.
pub open spec fn identity_summary(p: Option<RepositoryIdentityPayloadView>) -> Seq<char> {
    match p {
        None => "unknown"@,
        Some(x) => (match x.identity_source {
            IdentitySource::Remote => "remote"@,
            IdentitySource::LocalRootCommit => "local_root_commit"@,
            IdentitySource::LocalPath => "local_path"@,
            IdentitySource::OperatorOverride => "operator_override"@,
        }) + ": "@ + match (x.remote_url, x.root_commit_sha, x.canonical_path) {
            (Some(url), _, _) => url,
            (None, Some(sha), _) => sha,
            (None, None, Some(path)) => path,
            (None, None, None) => x.basename,
        },
    }
}

fn summarize_identity(p: &Option<RepositoryIdentityPayload>) -> (r: String)
    ensures
        r@ == identity_summary(p.deep_view()),
{
    match p {
        None => "unknown".to_owned(),
        Some(x) => {
            let source: &str = match x.identity_source {
                IdentitySource::Remote => "remote",
                IdentitySource::LocalRootCommit => "local_root_commit",
                IdentitySource::LocalPath => "local_path",
                IdentitySource::OperatorOverride => "operator_override",
            };
            let canonical: &str = match (&x.remote_url, &x.root_commit_sha, &x.canonical_path) {
                (Some(url), _, _) => url.as_str(),
                (None, Some(sha), _) => sha.as_str(),
                (None, None, Some(path)) => path.as_str(),
                (None, None, None) => x.basename.as_str(),
            };
            cat3(source, ": ", canonical)
        },
    }
}

/// The row of a known repository.
pub open spec fn repository_row(r: VersionedRecordView) -> Option<JsonView> {
    match r.record {
        RecordView::Node(n) => if r.supported && n.kind == NodeKind::Repository {
            Some(
                JsonView::Obj(
                    no_members()
                        .push(("id"@, JsonView::Str(n.id)))
                        .push(
                            (
                                "identity_summary"@,
                                JsonView::Str(
                                    identity_summary(n.repository.repository_identity),
                                ),
                            ),
                        ),
                ),
            )
        } else {
            None
        },
        _ => None,
    }
}

fn build_repository_row(r: &VersionedRecord) -> (o: Option<Json>)
    ensures
        o.deep_view() == repository_row(r.deep_view()),
{
    match &r.record {
        GraphRecord::Node(n) => if r.supported && n.kind == NodeKind::Repository {
            Some(
                Members::new()
                    .with_text("id", n.id.as_str())
                    .with_text(
                        "identity_summary",
                        summarize_identity(&n.repository.repository_identity).as_str(),
                    )
                    .object(),
            )
        } else {
            None
        },
        _ => None,
    }
}

pub open spec fn repository_rows(s: Seq<VersionedRecordView>) -> Seq<JsonView>
    decreases s.len(),
{
    if s.len() == 0 {
        Seq::empty()
    } else {
        match repository_row(s.last()) {
            Some(row) => repository_rows(s.drop_last()).push(row),
            None => repository_rows(s.drop_last()),
        }
    }
}

fn build_repository_rows(s: &Vec<VersionedRecord>) -> (r: Json)
    ensures
        r.deep_view() == JsonView::Arr(repository_rows(s.deep_view())),
{
    let ghost all = s.deep_view();
    let mut out: Vec<Json> = Vec::new();
    let mut i: usize = 0;
    assert(out.deep_view() =~= repository_rows(all.take(0)));
    while i < s.len()
        invariant
            i <= s.len(),
            all == s.deep_view(),
            out.deep_view() == repository_rows(all.take(i as int)),
        decreases s.len() - i,
    {
        proof {
            assert(all.take(i + 1).drop_last() =~= all.take(i as int));
            assert(all.take(i + 1).last() == s@[i as int].deep_view());
        }
        if let Some(row) = build_repository_row(&s[i]) {
            let ghost before = out;
            out.push(row);
            proof {
                lemma_push(before, out);
            }
        }
        i += 1;
    }
    assert(all.take(s.len() as int) =~= all);
    array(out)
}

fn collect_unknown_keys(unknown: &Vec<RecordVersion>, s: &Vec<VersionedRecord>) -> (r: Vec<String>)
    ensures
        r.deep_view() == unknown_keys(unknown.deep_view(), s.deep_view()),
{
    let ghost uv = unknown.deep_view();
    let ghost keys = uv.map_values(|v: RecordVersionView| version_key(v));
    let ghost all = s.deep_view();
    let mut out: Vec<String> = Vec::new();
    let mut i: usize = 0;
    assert(out.deep_view() =~= keys.take(0));
    while i < unknown.len()
        invariant
            i <= unknown.len(),
            uv == unknown.deep_view(),
            keys == uv.map_values(|v: RecordVersionView| version_key(v)),
            out.deep_view() == keys.take(i as int),
        decreases unknown.len() - i,
    {
        let ghost before = out;
        out.push(key_of_version(&unknown[i]));
        proof {
            lemma_push(before, out);
            assert(uv[i as int] == unknown@[i as int].deep_view());
            assert(keys.take(i + 1) =~= keys.take(i as int).push(keys[i as int]));
        }
        i += 1;
    }
    assert(keys.take(unknown.len() as int) =~= keys);
    let mut j: usize = 0;
    assert(all.take(0).len() == 0);
    while j < s.len()
        invariant
            j <= s.len(),
            all == s.deep_view(),
            out.deep_view() == unknown_keys(uv, all.take(j as int)),
        decreases s.len() - j,
    {
        proof {
            assert(all.take(j + 1).drop_last() =~= all.take(j as int));
            assert(all.take(j + 1).last() == s@[j as int].deep_view());
        }
        if !s[j].supported {
            let ghost before = out;
            out.push(key_of_version(&s[j].version));
            proof {
                lemma_push(before, out);
            }
        }
        j += 1;
    }
    assert(all.take(s.len() as int) =~= all);
    out
}

fn collect_known_keys(s: &Vec<VersionedRecord>) -> (r: Vec<String>)
    ensures
        r.deep_view() == known_keys(s.deep_view()),
{
    let ghost all = s.deep_view();
    let mut out: Vec<String> = Vec::new();
    let mut i: usize = 0;
    assert(out.deep_view() =~= known_keys(all.take(0)));
    while i < s.len()
        invariant
            i <= s.len(),
            all == s.deep_view(),
            out.deep_view() == known_keys(all.take(i as int)),
        decreases s.len() - i,
    {
        proof {
            assert(all.take(i + 1).drop_last() =~= all.take(i as int));
            assert(all.take(i + 1).last() == s@[i as int].deep_view());
        }
        if s[i].supported {
            let ghost before = out;
            out.push(key_of_version(&s[i].version));
            proof {
                lemma_push(before, out);
            }
        }
        i += 1;
    }
    assert(all.take(s.len() as int) =~= all);
    out
}

fn collect_categories(s: &Vec<VersionedRecord>) -> (r: Vec<String>)
    ensures
        r.deep_view() == known_categories(s.deep_view()),
{
    let ghost all = s.deep_view();
    let mut out: Vec<String> = Vec::new();
    let mut i: usize = 0;
    assert(out.deep_view() =~= known_categories(all.take(0)));
    while i < s.len()
        invariant
            i <= s.len(),
            all == s.deep_view(),
            out.deep_view() == known_categories(all.take(i as int)),
        decreases s.len() - i,
    {
        proof {
            assert(all.take(i + 1).drop_last() =~= all.take(i as int));
            assert(all.take(i + 1).last() == s@[i as int].deep_view());
        }
        if s[i].supported {
            let ghost before = out;
            out.push(domain_category(s[i].version.domain.as_str()).to_owned());
            proof {
                lemma_push(before, out);
            }
        }
        i += 1;
    }
    assert(all.take(s.len() as int) =~= all);
    out
}

fn collect_kinds(s: &Vec<VersionedRecord>, c: &str) -> (r: Vec<String>)
    ensures
        r.deep_view() == kinds_in(s.deep_view(), c@),
{
    let ghost all = s.deep_view();
    let mut out: Vec<String> = Vec::new();
    let mut i: usize = 0;
    assert(out.deep_view() =~= kinds_in(all.take(0), c@));
    while i < s.len()
        invariant
            i <= s.len(),
            all == s.deep_view(),
            out.deep_view() == kinds_in(all.take(i as int), c@),
        decreases s.len() - i,
    {
        proof {
            assert(all.take(i + 1).drop_last() =~= all.take(i as int));
            assert(all.take(i + 1).last() == s@[i as int].deep_view());
        }
        if s[i].supported && same(domain_category(s[i].version.domain.as_str()), c) {
            let ghost before = out;
            out.push(kind_key_of(&s[i].version));
            proof {
                lemma_push(before, out);
            }
        }
        i += 1;
    }
    assert(all.take(s.len() as int) =~= all);
    out
}

fn build_domain_counts(s: &Vec<VersionedRecord>) -> (r: Json)
    ensures
        r.deep_view() == JsonView::Obj(domain_counts(s.deep_view())),
{
    let ghost sv = s.deep_view();
    let ghost all = domain_counts(sv);
    let cs: Vec<String> = distinct_texts(&collect_categories(s));
    let ghost cv = cs.deep_view();
    let mut out: Members = Members::new();
    let mut i: usize = 0;
    assert(out@ =~= all.take(0));
    while i < cs.len()
        invariant
            i <= cs.len(),
            sv == s.deep_view(),
            cv == cs.deep_view(),
            cv == distinct(known_categories(sv)),
            all == domain_counts(sv),
            out@ == all.take(i as int),
        decreases cs.len() - i,
    {
        let c: &str = cs[i].as_str();
        let kinds: Vec<String> = collect_kinds(s, c);
        proof {
            assert(cv[i as int] == cs@[i as int].deep_view());
            assert(all.take(i + 1) =~= all.take(i as int).push(all[i as int]));
        }
        out = out.with(c, build_counts(&kinds).object());
        i += 1;
    }
    assert(all.take(cs.len() as int) =~= all);
    out.object()
}

/// A summary of a store: how many records of what sort, domain and version it holds, and which
/// repositories. A record whose version is not known is counted as such and as a record, and
/// nowhere else.
pub open spec fn inspection(
    records: Seq<VersionedRecordView>,
    unknown_versions: Seq<RecordVersionView>,
    snapshot_timestamp: Seq<char>,
) -> Seq<(Seq<char>, JsonView)> {
    no_members()
        .push(("ok"@, JsonView::Bool(true)))
        .push(("snapshot_timestamp"@, JsonView::Str(snapshot_timestamp)))
        .push(("records"@, JsonView::UInt((unknown_versions.len() + records.len()) as u64)))
        .push(("nodes"@, JsonView::UInt(tally(Tally::Nodes, records) as u64)))
        .push(("edges"@, JsonView::UInt(tally(Tally::Edges, records) as u64)))
        .push(("tombstones"@, JsonView::UInt(tally(Tally::Tombstones, records) as u64)))
        .push(("diagnostics"@, JsonView::UInt(tally(Tally::Diagnostics, records) as u64)))
        .push(("domain_counts"@, JsonView::Obj(domain_counts(records))))
        .push(("schema_versions"@, JsonView::Obj(counts(known_keys(records)))))
        .push(
            (
                "unknown_schema_versions"@,
                JsonView::Obj(counts(unknown_keys(unknown_versions, records))),
            ),
        )
        .push(("repositories"@, JsonView::Arr(repository_rows(records))))
}

pub fn tool_inspect_store_from_records(
    records: &Vec<VersionedRecord>,
    unknown_versions: &Vec<RecordVersion>,
    snapshot_timestamp: &str,
) -> (r: Json)
    requires
        records.len() + unknown_versions.len() <= u64::MAX,
    ensures
        r.deep_view() == JsonView::Obj(
            inspection(records.deep_view(), unknown_versions.deep_view(), snapshot_timestamp@),
        ),
{
    let known_versions: Vec<String> = collect_known_keys(records);
    let unknown: Vec<String> = collect_unknown_keys(unknown_versions, records);
    let total: u64 = unknown_versions.len() as u64 + records.len() as u64;
    Members::new()
        .with("ok", flag(true))
        .with_text("snapshot_timestamp", snapshot_timestamp)
        .with("records", number(total))
        .with("nodes", number(count_tally(Tally::Nodes, records) as u64))
        .with("edges", number(count_tally(Tally::Edges, records) as u64))
        .with("tombstones", number(count_tally(Tally::Tombstones, records) as u64))
        .with("diagnostics", number(count_tally(Tally::Diagnostics, records) as u64))
        .with("domain_counts", build_domain_counts(records))
        .with("schema_versions", build_counts(&known_versions).object())
        .with("unknown_schema_versions", build_counts(&unknown).object())
        .with("repositories", build_repository_rows(records))
        .object()
}

// ── Symbols ─────────────────────────────────────────────────────────────────

/// The evidence about a symbol, by domain; without any, the refusal `no_match`.
pub open spec fn symbol_answer(
    context: Option<SymbolEvidenceView>,
    symbol_name: Seq<char>,
) -> JsonView {
    match context {
        None => refusal(
            no_members()
                .push(("code"@, JsonView::Str("no_match"@)))
                .push(("symbol_name"@, JsonView::Str(symbol_name))),
        ),
        Some(c) => JsonView::Obj(
            no_members()
                .push(("ok"@, JsonView::Bool(true)))
                .push(("symbol_name"@, JsonView::Str(symbol_name)))
                .push(("source_facts"@, JsonView::Arr(rows(Section::SourceFacts, c.source_facts))))
                .push(
                    (
                        "topology_edges"@,
                        JsonView::Arr(rows(Section::TopologyEdges, c.topology_edges)),
                    ),
                )
                .push(("observations"@, JsonView::Arr(rows(Section::Observations, c.observations))))
                .push(("decisions"@, JsonView::Arr(decision_rows(c.decisions))))
                .push(("project_state"@, JsonView::Arr(rows(Section::LinkedItems, c.project_state))))
                .push(("artifacts"@, JsonView::Arr(rows(Section::LinkedItems, c.artifacts))))
                .push(
                    (
                        "verification_evidence"@,
                        JsonView::Arr(rows(Section::LinkedItems, c.verification_evidence)),
                    ),
                )
                .push(("drift_history"@, JsonView::Arr(drift_rows(c.drift_history))))
                .push(("unresolved"@, unresolved_rows(c.unresolved)))
                .push(("store_coverage"@, coverage_json(c.store_coverage))),
        ),
    }
}

pub fn tool_symbol_context_from_records(context: &Option<SymbolEvidence>, symbol_name: &str) -> (r:
    Json)
    ensures
        r.deep_view() == symbol_answer(context.deep_view(), symbol_name@),
{
    match context {
        None => refuse(
            Members::new().with_text("code", "no_match").with_text("symbol_name", symbol_name),
        ),
        Some(c) => Members::new()
            .with("ok", flag(true))
            .with_text("symbol_name", symbol_name)
            .with("source_facts", build_rows(Section::SourceFacts, &c.source_facts))
            .with("topology_edges", build_rows(Section::TopologyEdges, &c.topology_edges))
            .with("observations", build_rows(Section::Observations, &c.observations))
            .with("decisions", build_decision_rows(&c.decisions))
            .with("project_state", build_rows(Section::LinkedItems, &c.project_state))
            .with("artifacts", build_rows(Section::LinkedItems, &c.artifacts))
            .with(
                "verification_evidence",
                build_rows(Section::LinkedItems, &c.verification_evidence),
            )
            .with("drift_history", build_drift_rows(&c.drift_history))
            .with("unresolved", build_unresolved_rows(&c.unresolved))
            .with("store_coverage", build_coverage(c.store_coverage))
            .object(),
    }
}

// ── Tasks ───────────────────────────────────────────────────────────────────

/// What a task handle names.
#[derive(Debug, PartialEq, Eq)]
pub enum TaskLookup {
    Ambiguous { handle: String, candidates: Vec<String> },
    Unsupported { handle: String, message: String },
    NoMatch,
    Found { evidence: TaskEvidence },
}

#[verifier::ext_equal]
pub enum TaskLookupView {
    Ambiguous { handle: Seq<char>, candidates: Seq<Seq<char>> },
    Unsupported { handle: Seq<char>, message: Seq<char> },
    NoMatch,
    Found { evidence: TaskEvidenceView },
}

impl DeepView for TaskLookup {
    type V = TaskLookupView;

    open spec fn deep_view(&self) -> TaskLookupView {
        match self {
            TaskLookup::Ambiguous { handle, candidates } => TaskLookupView::Ambiguous {
                handle: handle@,
                candidates: candidates.deep_view(),
            },
            TaskLookup::Unsupported { handle, message } => TaskLookupView::Unsupported {
                handle: handle@,
                message: message@,
            },
            TaskLookup::NoMatch => TaskLookupView::NoMatch,
            TaskLookup::Found { evidence } => TaskLookupView::Found {
                evidence: evidence.deep_view(),
            },
        }
    }
}

/// The target of the first edge that closes a criterion.
pub open spec fn closing_target(
    records: Seq<ClassifiedRecordView>,
    id: Seq<char>,
) -> Option<Seq<char>>
    decreases records.len(),
{
    if records.len() == 0 {
        None
    } else {
        match records[0].record {
            RecordView::Edge(e) => if e.label == EdgeLabel::ClosesAcceptanceCriterion && e.source
                == id {
                Some(e.target)
            } else {
                closing_target(records.drop_first(), id)
            },
            _ => closing_target(records.drop_first(), id),
        }
    }
}

fn find_closing_target<'a>(records: &'a Vec<ClassifiedRecord>, id: &str) -> (r: Option<&'a str>)
    ensures
        (match r {
            Some(t) => closing_target(records.deep_view(), id@) == Some(t@),
            None => closing_target(records.deep_view(), id@) is None,
        }),
{
    let ghost all = records.deep_view();
    let mut i: usize = 0;
    assert(all.skip(0) =~= all);
    while i < records.len()
        invariant
            i <= records.len(),
            all == records.deep_view(),
            closing_target(all, id@) == closing_target(all.skip(i as int), id@),
        decreases records.len() - i,
    {
        proof {
            assert(all.skip(i as int).drop_first() =~= all.skip(i + 1));
            assert(all.skip(i as int)[0] == records@[i as int].deep_view());
        }
        if let GraphRecord::Edge(e) = &records[i].record {
            if e.label == EdgeLabel::ClosesAcceptanceCriterion && same(e.source.as_str(), id) {
                return Some(e.target.as_str());
            }
        }
        i += 1;
    }
    None
}

/// The first record with an identity.
pub open spec fn record_with(records: Seq<ClassifiedRecordView>, id: Seq<char>) -> Option<
    ClassifiedRecordView,
>
    decreases records.len(),
{
    if records.len() == 0 {
        None
    } else if records[0].record.id() == id {
        Some(records[0])
    } else {
        record_with(records.drop_first(), id)
    }
}

fn find_record_with<'a>(records: &'a Vec<ClassifiedRecord>, id: &str) -> (r: Option<
    &'a ClassifiedRecord,
>)
    ensures
        r.deep_view() == record_with(records.deep_view(), id@),
{
    let ghost all = records.deep_view();
    let mut i: usize = 0;
    assert(all.skip(0) =~= all);
    while i < records.len()
        invariant
            i <= records.len(),
            all == records.deep_view(),
            record_with(all, id@) == record_with(all.skip(i as int), id@),
        decreases records.len() - i,
    {
        proof {
            assert(all.skip(i as int).drop_first() =~= all.skip(i + 1));
            assert(all.skip(i as int)[0] == records@[i as int].deep_view());
        }
        if same(records[i].record.id(), id) {
            return Some(&records[i]);
        }
        i += 1;
    }
    None
}

/// The record that verifies a criterion: the one it names, or else the one that closes it.
pub open spec fn verification_row(records: Seq<ClassifiedRecordView>, n: NodeRecordView) -> Option<
    JsonView,
> {
    let id = match n.project.verification_link_id {
        Some(v) => Some(v),
        None => closing_target(records, n.id),
    };
    match id {
        Some(v) => match record_with(records, v) {
            Some(c) => row_json(Section::LinkedItems, c),
            None => None,
        },
        None => None,
    }
}

fn build_verification_row(records: &Vec<ClassifiedRecord>, n: &NodeRecord) -> (r: Option<Json>)
    ensures
        r.deep_view() == verification_row(records.deep_view(), n.deep_view()),
{
    let id: Option<&str> = match &n.project.verification_link_id {
        Some(v) => Some(v.as_str()),
        None => find_closing_target(records, n.id.as_str()),
    };
    match id {
        Some(v) => match find_record_with(records, v) {
            Some(c) => record_to_row(Section::LinkedItems, c),
            None => None,
        },
        None => None,
    }
}

/// A criterion. Where it counts as verified, the record that verifies it goes along.
pub open spec fn criterion_row(
    records: Seq<ClassifiedRecordView>,
    c: ClassifiedRecordView,
) -> Option<JsonView> {
    match c.record {
        RecordView::Node(n) => {
            let item = linked_item_json(n, c.trust.name())->Obj_0;
            let verification = verification_row(records, n);
            if n.project.status == Some("verified"@) && verification is Some {
                Some(JsonView::Obj(item.push(("verification_record"@, verification->0))))
            } else {
                Some(JsonView::Obj(item))
            }
        },
        _ => None,
    }
}

fn push_member(item: Json, key: &str, value: Json) -> (r: Json)
    requires
        item.deep_view() is Obj,
    ensures
        r.deep_view() == JsonView::Obj(
            item.deep_view()->Obj_0.push((key@, value.deep_view())),
        ),
{
    match item {
        Json::Obj(items) => {
            let base: Members = Members { items };
            proof {
                reveal_with_fuel(<Json as DeepView>::deep_view, 2);
                assert(base@ =~= item.deep_view()->Obj_0);
            }
            base.with(key, value).object()
        },
        other => other,
    }
}

fn build_criterion_row(records: &Vec<ClassifiedRecord>, c: &ClassifiedRecord) -> (r: Option<Json>)
    ensures
        r.deep_view() == criterion_row(records.deep_view(), c.deep_view()),
{
    match &c.record {
        GraphRecord::Node(n) => {
            let item: Json = linked_item(n, c.trust.as_str());
            let verified: bool = match &n.project.status {
                Some(s) => same(s.as_str(), "verified"),
                None => false,
            };
            if verified {
                if let Some(v) = build_verification_row(records, n) {
                    return Some(push_member(item, "verification_record", v));
                }
            }
            Some(item)
        },
        _ => None,
    }
}

pub open spec fn criterion_rows(
    records: Seq<ClassifiedRecordView>,
    s: Seq<ClassifiedRecordView>,
) -> Seq<JsonView>
    decreases s.len(),
{
    if s.len() == 0 {
        Seq::empty()
    } else {
        match criterion_row(records, s.last()) {
            Some(row) => criterion_rows(records, s.drop_last()).push(row),
            None => criterion_rows(records, s.drop_last()),
        }
    }
}

fn build_criterion_rows(records: &Vec<ClassifiedRecord>, s: &Vec<ClassifiedRecord>) -> (r: Json)
    ensures
        r.deep_view() == JsonView::Arr(criterion_rows(records.deep_view(), s.deep_view())),
{
    let ghost rv = records.deep_view();
    let ghost all = s.deep_view();
    let mut out: Vec<Json> = Vec::new();
    let mut i: usize = 0;
    assert(out.deep_view() =~= criterion_rows(rv, all.take(0)));
    while i < s.len()
        invariant
            i <= s.len(),
            rv == records.deep_view(),
            all == s.deep_view(),
            out.deep_view() == criterion_rows(rv, all.take(i as int)),
        decreases s.len() - i,
    {
        proof {
            assert(all.take(i + 1).drop_last() =~= all.take(i as int));
            assert(all.take(i + 1).last() == s@[i as int].deep_view());
        }
        if let Some(row) = build_criterion_row(records, &s[i]) {
            let ghost before = out;
            out.push(row);
            proof {
                lemma_push(before, out);
            }
        }
        i += 1;
    }
    assert(all.take(s.len() as int) =~= all);
    array(out)
}

/// The evidence about a task, by domain; or why the handle names none.
pub open spec fn task_answer(
    records: Seq<ClassifiedRecordView>,
    lookup: TaskLookupView,
    id_or_handle: Seq<char>,
) -> JsonView {
    match lookup {
        TaskLookupView::Ambiguous { handle, candidates } => refusal(
            no_members()
                .push(("code"@, JsonView::Str("ambiguous_handle"@)))
                .push(("handle"@, JsonView::Str(handle)))
                .push(("candidates"@, text_array(candidates))),
        ),
        TaskLookupView::Unsupported { handle, message } => refusal(
            no_members()
                .push(("code"@, JsonView::Str("unsupported_handle"@)))
                .push(("handle"@, JsonView::Str(handle)))
                .push(("message"@, JsonView::Str(message))),
        ),
        TaskLookupView::NoMatch => refusal(
            no_members()
                .push(("code"@, JsonView::Str("no_match"@)))
                .push(("id_or_handle"@, JsonView::Str(id_or_handle))),
        ),
        TaskLookupView::Found { evidence: e } => JsonView::Obj(
            no_members()
                .push(("ok"@, JsonView::Bool(true)))
                .push(("task_id"@, JsonView::Str(e.task_id)))
                .push(("tasks"@, JsonView::Arr(rows(Section::LinkedItems, e.tasks))))
                .push(
                    (
                        "acceptance_criteria"@,
                        JsonView::Arr(criterion_rows(records, e.acceptance_criteria)),
                    ),
                )
                .push(("source_facts"@, JsonView::Arr(rows(Section::SourceFacts, e.source_facts))))
                .push(("observations"@, JsonView::Arr(rows(Section::Observations, e.observations))))
                .push(("decisions"@, JsonView::Arr(decision_rows(e.decisions))))
                .push(("artifacts"@, JsonView::Arr(rows(Section::LinkedItems, e.artifacts))))
                .push(
                    (
                        "verification_evidence"@,
                        JsonView::Arr(rows(Section::LinkedItems, e.verification_evidence)),
                    ),
                )
                .push(("reviews"@, JsonView::Arr(rows(Section::LinkedItems, e.reviews))))
                .push(
                    ("external_links"@, JsonView::Arr(rows(Section::LinkedItems, e.external_links))),
                )
                .push(("unresolved"@, unresolved_rows(e.unresolved)))
                .push(("store_coverage"@, coverage_json(e.store_coverage))),
        ),
    }
}

pub fn tool_task_evidence_from_records(
    records: &Vec<ClassifiedRecord>,
    lookup: &TaskLookup,
    id_or_handle: &str,
) -> (r: Json)
    ensures
        r.deep_view() == task_answer(records.deep_view(), lookup.deep_view(), id_or_handle@),
{
    match lookup {
        TaskLookup::Ambiguous { handle, candidates } => refuse(
            Members::new()
                .with_text("code", "ambiguous_handle")
                .with_text("handle", handle.as_str())
                .with("candidates", texts(candidates)),
        ),
        TaskLookup::Unsupported { handle, message } => refuse(
            Members::new()
                .with_text("code", "unsupported_handle")
                .with_text("handle", handle.as_str())
                .with_text("message", message.as_str()),
        ),
        TaskLookup::NoMatch => refuse(
            Members::new().with_text("code", "no_match").with_text("id_or_handle", id_or_handle),
        ),
        TaskLookup::Found { evidence: e } => Members::new()
            .with("ok", flag(true))
            .with_text("task_id", e.task_id.as_str())
            .with("tasks", build_rows(Section::LinkedItems, &e.tasks))
            .with("acceptance_criteria", build_criterion_rows(records, &e.acceptance_criteria))
            .with("source_facts", build_rows(Section::SourceFacts, &e.source_facts))
            .with("observations", build_rows(Section::Observations, &e.observations))
            .with("decisions", build_decision_rows(&e.decisions))
            .with("artifacts", build_rows(Section::LinkedItems, &e.artifacts))
            .with(
                "verification_evidence",
                build_rows(Section::LinkedItems, &e.verification_evidence),
            )
            .with("reviews", build_rows(Section::LinkedItems, &e.reviews))
            .with("external_links", build_rows(Section::LinkedItems, &e.external_links))
            .with("unresolved", build_unresolved_rows(&e.unresolved))
            .with("store_coverage", build_coverage(e.store_coverage))
            .object(),
    }
}

// ── Freshness ───────────────────────────────────────────────────────────────

/// Where a working tree stands.
pub open spec fn head_json(h: SnapshotHeadView) -> JsonView {
    match h {
        SnapshotHeadView::Commit { sha } => JsonView::Obj(
            no_members().push(("state"@, JsonView::Str("commit"@))).push(
                ("sha"@, JsonView::Str(sha)),
            ),
        ),
        SnapshotHeadView::NoGit => JsonView::Obj(
            no_members().push(("state"@, JsonView::Str("no_git"@))),
        ),
        SnapshotHeadView::UnbornHead => JsonView::Obj(
            no_members().push(("state"@, JsonView::Str("unborn_head"@))),
        ),
    }
}

fn build_head(h: &SnapshotHead) -> (r: Json)
    ensures
        r.deep_view() == head_json(h.deep_view()),
{
    match h {
        SnapshotHead::Commit { sha } => Members::new()
            .with_text("state", "commit")
            .with_text("sha", sha.as_str())
            .object(),
        SnapshotHead::NoGit => Members::new().with_text("state", "no_git").object(),
        SnapshotHead::UnbornHead => Members::new().with_text("state", "unborn_head").object(),
    }
}

/// The snapshot that a store was made from. A store that names none says so.
pub open spec fn snapshot_json(s: Option<SourceSnapshotPayloadView>) -> JsonView {
    match s {
        Some(x) => JsonView::Obj(
            no_members()
                .push(("head"@, head_json(x.head)))
                .push(("dirty"@, JsonView::Bool(x.dirty)))
                .push(("repository_id"@, JsonView::Str(x.repository_id)))
                .push(("scanned_at"@, JsonView::Str(x.scanned_at))),
        ),
        None => JsonView::Obj(no_members().push(("state"@, JsonView::Str("pre_stamping"@)))),
    }
}

fn build_snapshot(s: &Option<SourceSnapshotPayload>) -> (r: Json)
    ensures
        r.deep_view() == snapshot_json(s.deep_view()),
{
    match s {
        Some(x) => Members::new()
            .with("head", build_head(&x.head))
            .with("dirty", flag(x.dirty))
            .with_text("repository_id", x.repository_id.as_str())
            .with_text("scanned_at", x.scanned_at.as_str())
            .object(),
        None => Members::new().with_text("state", "pre_stamping").object(),
    }
}

/// How fresh an answer is: the verdict, the snapshot it rests on, and the working tree that this
/// was compared with.
pub open spec fn freshness_stamp(report: FreshnessReportView, repo_path: Seq<char>) -> JsonView {
    JsonView::Obj(
        no_members()
            .push(("verdict"@, JsonView::Str(report.freshness.name())))
            .push(("fresh"@, JsonView::Bool(report.fresh)))
            .push(("repository_id"@, JsonView::Str(report.repository_id)))
            .push(("repo_path"@, JsonView::Str(repo_path)))
            .push(("stored_snapshot"@, snapshot_json(report.stored_snapshot)))
            .push(("current_head"@, head_json(report.current_head)))
            .push(("current_dirty"@, JsonView::Bool(report.current_dirty)))
            .push(("message"@, JsonView::Str(report.message))),
    )
}

pub fn tool_freshness_stamp(report: &FreshnessReport, repo_path: &str) -> (r: Json)
    ensures
        r.deep_view() == freshness_stamp(report.deep_view(), repo_path@),
{
    Members::new()
        .with_text("verdict", report.freshness.as_str())
        .with("fresh", flag(report.fresh))
        .with_text("repository_id", report.repository_id.as_str())
        .with_text("repo_path", repo_path)
        .with("stored_snapshot", build_snapshot(&report.stored_snapshot))
        .with("current_head", build_head(&report.current_head))
        .with("current_dirty", flag(report.current_dirty))
        .with_text("message", report.message.as_str())
        .object()
}

/// The freshness of the store as an answer of its own.
pub open spec fn freshness_answer(stamp: JsonView) -> JsonView {
    JsonView::Obj(
        no_members().push(("ok"@, JsonView::Bool(true))).push(("freshness"@, stamp)),
    )
}

/// A payload that says it is an answer.
pub open spec fn is_answer(payload: JsonView) -> bool {
    match payload {
        JsonView::Obj(m) => member(m, "ok"@) == Some(JsonView::Bool(true)),
        _ => false,
    }
}

/// An answer with its freshness; a refusal stays as it is.
pub open spec fn stamped(payload: JsonView, stamp: JsonView) -> JsonView {
    match payload {
        JsonView::Obj(m) => if member(m, "ok"@) == Some(JsonView::Bool(true)) {
            JsonView::Obj(set_member(m, "freshness"@, stamp))
        } else {
            payload
        },
        _ => payload,
    }
}

fn says_ok(items: &Vec<(String, Json)>) -> (r: bool)
    ensures
        r == (member(members(items@), "ok"@) == Some(JsonView::Bool(true))),
{
    match find_member(items, "ok") {
        Some(Json::Bool(b)) => *b,
        _ => false,
    }
}

pub fn stamp_freshness_on_payload(payload: Json, report: &FreshnessReport, repo_path: &str) -> (r:
    Json)
    ensures
        r.deep_view() == stamped(
            payload.deep_view(),
            freshness_stamp(report.deep_view(), repo_path@),
        ),
{
    match payload {
        Json::Obj(items) => {
            let base: Members = Members { items };
            proof {
                reveal_with_fuel(<Json as DeepView>::deep_view, 2);
                assert(base@ =~= payload.deep_view()->Obj_0);
            }
            if says_ok(&base.items) {
                base.set("freshness", tool_freshness_stamp(report, repo_path)).object()
            } else {
                base.object()
            }
        },
        other => other,
    }
}

/// The stamp is purely additive: of an answer it leaves every other member as it is, and a refusal
/// it leaves untouched.
pub proof fn law_stamp_is_additive(payload: JsonView, stamp: JsonView)
    ensures
        !is_answer(payload) ==> stamped(payload, stamp) == payload,
        is_answer(payload) ==> {
            &&& stamped(payload, stamp) is Obj
            &&& member(stamped(payload, stamp)->Obj_0, "freshness"@) == Some(stamp)
            &&& forall|k: Seq<char>|
                k != "freshness"@ ==> #[trigger] member(stamped(payload, stamp)->Obj_0, k)
                    == member(payload->Obj_0, k)
        },
{
    if is_answer(payload) {
        crate::json::law_set_member(payload->Obj_0, "freshness"@, stamp);
    }
}

// ── Laws ────────────────────────────────────────────────────────────────────

/// How many records have a version that is not known.
pub open spec fn unsupported(s: Seq<VersionedRecordView>) -> nat
    decreases s.len(),
{
    if s.len() == 0 {
        0
    } else {
        unsupported(s.drop_last()) + if s.last().supported {
            0nat
        } else {
            1
        }
    }
}

/// Every record counts once: as a node, an edge or a tombstone, or as one of unknown version.
pub proof fn law_tallies_partition(s: Seq<VersionedRecordView>)
    ensures
        tally(Tally::Nodes, s) + tally(Tally::Edges, s) + tally(Tally::Tombstones, s) + unsupported(
            s,
        ) == s.len(),
        tally(Tally::Diagnostics, s) <= tally(Tally::Nodes, s),
        known_keys(s).len() + unsupported(s) == s.len(),
    decreases s.len(),
{
    if s.len() > 0 {
        law_tallies_partition(s.drop_last());
    }
}

/// The node with its protected payloads taken out.
pub open spec fn without_payloads(n: NodeRecordView) -> NodeRecordView {
    NodeRecordView {
        project: ProjectFieldsView {
            body_handle: without_inline(n.project.body_handle),
            ..n.project
        },
        verification: VerificationFieldsView {
            stdout_handle: without_inline(n.verification.stdout_handle),
            stderr_handle: without_inline(n.verification.stderr_handle),
            ..n.verification
        },
        artifact: ArtifactFieldsView {
            validation_summary: summarized(n.artifact.validation_summary),
            ..n.artifact
        },
        ..n
    }
}

pub open spec fn without_inline(h: Option<OutputHandleView>) -> Option<OutputHandleView> {
    match h {
        Some(x) => Some(OutputHandleView { inline: None, ..x }),
        None => None,
    }
}

/// No row shows a protected payload: a body, an output or the text of a validation summary. It is
/// the same without them.
pub proof fn law_rows_show_no_payload(section: Section, n: NodeRecordView, trust: TrustClass)
    ensures
        row_json(section, (ClassifiedRecordView { record: RecordView::Node(n), trust })) == row_json(
            section,
            (ClassifiedRecordView { record: RecordView::Node(without_payloads(n)), trust }),
        ),
{
    reveal_strlit("<summarized>");
}

/// Nor does a row of decisions.
pub proof fn law_decisions_show_no_payload(n: NodeRecordView, d: DecisionRowView)
    ensures
        decision_json((DecisionRowView { record: RecordView::Node(n), ..d })) == decision_json(
            (DecisionRowView { record: RecordView::Node(without_payloads(n)), ..d }),
        ),
{
}

/// A symbol or a task that is found is answered, one that is not is refused.
pub proof fn law_refusal_iff_not_found(
    context: Option<SymbolEvidenceView>,
    symbol_name: Seq<char>,
    records: Seq<ClassifiedRecordView>,
    lookup: TaskLookupView,
    id_or_handle: Seq<char>,
)
    ensures
        is_answer(symbol_answer(context, symbol_name)) <==> context is Some,
        is_answer(task_answer(records, lookup, id_or_handle)) <==> lookup is Found,
{
    reveal_with_fuel(crate::json::member_from, 2);
}

// ── The server ──────────────────────────────────────────────────────────────

/// The tools of a store, with the directory in which the store is looked for by default.
#[derive(Debug, PartialEq, Eq)]
pub struct EgregoreMcpServer {
    pub default_data_dir: String,
}

/// What a store hands out for an inspection.
#[derive(Debug, PartialEq, Eq)]
pub struct StoreContents {
    pub records: Vec<VersionedRecord>,
    pub unknown_versions: Vec<RecordVersion>,
    pub snapshot_timestamp: String,
}

/// What a store hands out about a task handle.
#[derive(Debug, PartialEq, Eq)]
pub struct TaskContents {
    pub records: Vec<ClassifiedRecord>,
    pub lookup: TaskLookup,
}

pub open spec fn given_or(o: Option<Seq<char>>, otherwise: Seq<char>) -> Seq<char> {
    match o {
        Some(x) => x,
        None => otherwise,
    }
}

/// The directory that an argument names, or else the default one.
pub fn opt_data_dir(data_dir: &Option<String>, default_dir: &str) -> (r: String)
    ensures
        r@ == given_or(data_dir.deep_view(), default_dir@),
{
    match data_dir {
        Some(d) => d.clone(),
        None => default_dir.to_owned(),
    }
}

/// The working tree that an argument names, or else the current directory. Where there is none
/// either, the path is empty, and freshness is not known.
pub fn opt_repo_path(repo_path: &Option<String>, current_dir: &Option<String>) -> (r: String)
    ensures
        r@ == given_or(repo_path.deep_view(), given_or(current_dir.deep_view(), Seq::empty())),
{
    match repo_path {
        Some(p) => p.clone(),
        None => match current_dir {
            Some(d) => d.clone(),
            None => String::new(),
        },
    }
}

impl EgregoreMcpServer {
    pub fn new(default_data_dir: String) -> (r: Self)
        ensures
            r.default_data_dir@ == default_data_dir@,
    {
        EgregoreMcpServer { default_data_dir }
    }

    /// The directory in which a call looks for the store.
    pub fn data_dir(&self, data_dir: &Option<String>) -> (r: String)
        ensures
            r@ == given_or(data_dir.deep_view(), self.default_data_dir@),
    {
        opt_data_dir(data_dir, self.default_data_dir.as_str())
    }

    /// The answer of `inspect_store`, or why the store could not be read. With what it holds a
    /// store hands out how it compares with the working tree.
    pub fn inspect_store(
        &self,
        fetched: &Result<(StoreContents, FreshnessReport), String>,
        repo_path: &str,
    ) -> (r: Json)
        requires
            fetched matches Ok((c, _)) ==> c.records.len() + c.unknown_versions.len() <= u64::MAX,
        ensures
            r.deep_view() == (match fetched {
                Err(e) => daemon_refusal(e@),
                Ok((c, report)) => stamped(
                    JsonView::Obj(
                        inspection(
                            c.records.deep_view(),
                            c.unknown_versions.deep_view(),
                            c.snapshot_timestamp@,
                        ),
                    ),
                    freshness_stamp(report.deep_view(), repo_path@),
                ),
            }),
    {
        match fetched {
            Err(e) => daemon_error(e.as_str()),
            Ok((c, report)) => {
                let payload: Json = tool_inspect_store_from_records(
                    &c.records,
                    &c.unknown_versions,
                    c.snapshot_timestamp.as_str(),
                );
                stamp_freshness_on_payload(payload, report, repo_path)
            },
        }
    }

    /// The answer of `symbol_context`. An empty name is refused whatever the store holds.
    pub fn symbol_context(
        &self,
        args: &SymbolContextArgs,
        fetched: &Result<(Option<SymbolEvidence>, FreshnessReport), String>,
        repo_path: &str,
    ) -> (r: Json)
        ensures
            r.deep_view() == (if args.symbol_name@.len() == 0 {
                missing_symbol_name()
            } else {
                match fetched {
                    Err(e) => daemon_refusal(e@),
                    Ok((c, report)) => stamped(
                        symbol_answer(c.deep_view(), args.symbol_name@),
                        freshness_stamp(report.deep_view(), repo_path@),
                    ),
                }
            }),
    {
        if args.symbol_name.as_str().is_empty() {
            return refuse_missing_symbol_name();
        }
        match fetched {
            Err(e) => daemon_error(e.as_str()),
            Ok((c, report)) => {
                let payload: Json = tool_symbol_context_from_records(c, args.symbol_name.as_str());
                stamp_freshness_on_payload(payload, report, repo_path)
            },
        }
    }

    /// The answer of `task_evidence`.
    pub fn task_evidence(
        &self,
        args: &TaskEvidenceArgs,
        fetched: &Result<(TaskContents, FreshnessReport), String>,
        repo_path: &str,
    ) -> (r: Json)
        ensures
            r.deep_view() == (match fetched {
                Err(e) => daemon_refusal(e@),
                Ok((c, report)) => stamped(
                    task_answer(c.records.deep_view(), c.lookup.deep_view(), args.id_or_handle@),
                    freshness_stamp(report.deep_view(), repo_path@),
                ),
            }),
    {
        match fetched {
            Err(e) => daemon_error(e.as_str()),
            Ok((c, report)) => {
                let payload: Json = tool_task_evidence_from_records(
                    &c.records,
                    &c.lookup,
                    args.id_or_handle.as_str(),
                );
                stamp_freshness_on_payload(payload, report, repo_path)
            },
        }
    }

    /// The answer of `store_freshness`: the verdict that the other answers carry.
    pub fn store_freshness(&self, fetched: &Result<FreshnessReport, String>, repo_path: &str) -> (r:
        Json)
        ensures
            r.deep_view() == (match fetched {
                Err(e) => daemon_refusal(e@),
                Ok(report) => freshness_answer(freshness_stamp(report.deep_view(), repo_path@)),
            }),
    {
        match fetched {
            Err(e) => daemon_error(e.as_str()),
            Ok(report) => Members::new()
                .with("ok", flag(true))
                .with("freshness", tool_freshness_stamp(report, repo_path))
                .object(),
        }
    }
}

} // verus!
