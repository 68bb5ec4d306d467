//! The graph's records: nodes, edges and tombstones, with their exact mathematical views.
use vstd::prelude::*;

use crate::duplicate::{duplicate_all, duplicate_opt, duplicate_opt_all, Duplicate};
use crate::text::{cat, join, joined, parts4};

verus! {

pub const SCHEMA_VERSION: u32 = 1;

pub const PROJECT_SCHEMA_VERSION: u32 = 1;

pub const SEMANTIC_SCHEMA_VERSION: u32 = 1;

pub const LOG_SCHEMA_VERSION: u32 = 3;

/// The version of the redaction policy that free text is stored under.
pub const REDACTION_POLICY_VERSION: u32 = 1;

pub const EGREGORE_VERSION: &'static str = "0.1.0";

// ── Closed vocabularies ─────────────────────────────────────────────────────

#[derive(Debug, Clone, Copy, PartialEq, Eq, Structural)]
pub enum NodeKind {
    Repository,
    File,
    Module,
    Symbol,
    Import,
    ScanCoverage,
    Diagnostic,
    DebtMarker,
    PanicRiskSite,
    UnsafeSite,
    Observation,
    Decision,
    Failure,
    ToolCall,
    Agent,
    AgentRun,
    AgentTurn,
    CommandRun,
    SemanticDrift,
    LogSource,
    ErrorSignature,
    LogEvent,
    LogOccurrenceBucket,
    Task,
    GitHubIssue,
    LocalTask,
    AcceptanceCriterion,
    ExternalLink,
}

#[derive(Debug, Clone, Copy, PartialEq, Eq, Structural)]
pub enum EdgeLabel {
    Contains,
    Defines,
    Imports,
    Implements,
    Calls,
    References,
    CapturedFrom,
    FingerprintedAs,
    Aggregates,
    EmittedDuring,
    ReferencesTask,
    OwnedByTask,
    FrameResolvesTo,
    ExternalHandle,
    Observes,
    MentionsSymbol,
    ValidatedBy,
    AuthoredBy,
    ExplainsChange,
    ClosesAcceptanceCriterion,
}

impl NodeKind {
    /// The kind's name on the wire.
    pub open spec fn name(self) -> Seq<char> {
        match self {
            NodeKind::Repository => "Repository"@,
            NodeKind::File => "File"@,
            NodeKind::Module => "Module"@,
            NodeKind::Symbol => "Symbol"@,
            NodeKind::Import => "Import"@,
            NodeKind::ScanCoverage => "ScanCoverage"@,
            NodeKind::Diagnostic => "Diagnostic"@,
            NodeKind::DebtMarker => "DebtMarker"@,
            NodeKind::PanicRiskSite => "PanicRiskSite"@,
            NodeKind::UnsafeSite => "UnsafeSite"@,
            NodeKind::Observation => "Observation"@,
            NodeKind::Decision => "Decision"@,
            NodeKind::Failure => "Failure"@,
            NodeKind::ToolCall => "ToolCall"@,
            NodeKind::Agent => "Agent"@,
            NodeKind::AgentRun => "AgentRun"@,
            NodeKind::AgentTurn => "AgentTurn"@,
            NodeKind::CommandRun => "CommandRun"@,
            NodeKind::SemanticDrift => "SemanticDrift"@,
            NodeKind::LogSource => "LogSource"@,
            NodeKind::ErrorSignature => "ErrorSignature"@,
            NodeKind::LogEvent => "LogEvent"@,
            NodeKind::LogOccurrenceBucket => "LogOccurrenceBucket"@,
            NodeKind::Task => "Task"@,
            NodeKind::GitHubIssue => "GitHubIssue"@,
            NodeKind::LocalTask => "LocalTask"@,
            NodeKind::AcceptanceCriterion => "AcceptanceCriterion"@,
            NodeKind::ExternalLink => "ExternalLink"@,
        }
    }

    pub fn as_str(self) -> (r: &'static str)
        ensures
            r@ == self.name(),
    {
        match self {
            NodeKind::Repository => "Repository",
            NodeKind::File => "File",
            NodeKind::Module => "Module",
            NodeKind::Symbol => "Symbol",
            NodeKind::Import => "Import",
            NodeKind::ScanCoverage => "ScanCoverage",
            NodeKind::Diagnostic => "Diagnostic",
            NodeKind::DebtMarker => "DebtMarker",
            NodeKind::PanicRiskSite => "PanicRiskSite",
            NodeKind::UnsafeSite => "UnsafeSite",
            NodeKind::Observation => "Observation",
            NodeKind::Decision => "Decision",
            NodeKind::Failure => "Failure",
            NodeKind::ToolCall => "ToolCall",
            NodeKind::Agent => "Agent",
            NodeKind::AgentRun => "AgentRun",
            NodeKind::AgentTurn => "AgentTurn",
            NodeKind::CommandRun => "CommandRun",
            NodeKind::SemanticDrift => "SemanticDrift",
            NodeKind::LogSource => "LogSource",
            NodeKind::ErrorSignature => "ErrorSignature",
            NodeKind::LogEvent => "LogEvent",
            NodeKind::LogOccurrenceBucket => "LogOccurrenceBucket",
            NodeKind::Task => "Task",
            NodeKind::GitHubIssue => "GitHubIssue",
            NodeKind::LocalTask => "LocalTask",
            NodeKind::AcceptanceCriterion => "AcceptanceCriterion",
            NodeKind::ExternalLink => "ExternalLink",
        }
    }
}

impl EdgeLabel {
    /// The label's name on the wire.
    pub open spec fn name(self) -> Seq<char> {
        match self {
            EdgeLabel::Contains => "CONTAINS"@,
            EdgeLabel::Defines => "DEFINES"@,
            EdgeLabel::Imports => "IMPORTS"@,
            EdgeLabel::Implements => "IMPLEMENTS"@,
            EdgeLabel::Calls => "CALLS"@,
            EdgeLabel::References => "REFERENCES"@,
            EdgeLabel::CapturedFrom => "CAPTURED_FROM"@,
            EdgeLabel::FingerprintedAs => "FINGERPRINTED_AS"@,
            EdgeLabel::Aggregates => "AGGREGATES"@,
            EdgeLabel::EmittedDuring => "EMITTED_DURING"@,
            EdgeLabel::ReferencesTask => "REFERENCES_TASK"@,
            EdgeLabel::OwnedByTask => "OWNED_BY_TASK"@,
            EdgeLabel::FrameResolvesTo => "FRAME_RESOLVES_TO"@,
            EdgeLabel::ExternalHandle => "EXTERNAL_HANDLE"@,
            EdgeLabel::Observes => "OBSERVES"@,
            EdgeLabel::MentionsSymbol => "MENTIONS_SYMBOL"@,
            EdgeLabel::ValidatedBy => "VALIDATED_BY"@,
            EdgeLabel::AuthoredBy => "AUTHORED_BY"@,
            EdgeLabel::ExplainsChange => "EXPLAINS_CHANGE"@,
            EdgeLabel::ClosesAcceptanceCriterion => "CLOSES_ACCEPTANCE_CRITERION"@,
        }
    }

    pub fn as_str(self) -> (r: &'static str)
        ensures
            r@ == self.name(),
    {
        match self {
            EdgeLabel::Contains => "CONTAINS",
            EdgeLabel::Defines => "DEFINES",
            EdgeLabel::Imports => "IMPORTS",
            EdgeLabel::Implements => "IMPLEMENTS",
            EdgeLabel::Calls => "CALLS",
            EdgeLabel::References => "REFERENCES",
            EdgeLabel::CapturedFrom => "CAPTURED_FROM",
            EdgeLabel::FingerprintedAs => "FINGERPRINTED_AS",
            EdgeLabel::Aggregates => "AGGREGATES",
            EdgeLabel::EmittedDuring => "EMITTED_DURING",
            EdgeLabel::ReferencesTask => "REFERENCES_TASK",
            EdgeLabel::OwnedByTask => "OWNED_BY_TASK",
            EdgeLabel::FrameResolvesTo => "FRAME_RESOLVES_TO",
            EdgeLabel::ExternalHandle => "EXTERNAL_HANDLE",
            EdgeLabel::Observes => "OBSERVES",
            EdgeLabel::MentionsSymbol => "MENTIONS_SYMBOL",
            EdgeLabel::ValidatedBy => "VALIDATED_BY",
            EdgeLabel::AuthoredBy => "AUTHORED_BY",
            EdgeLabel::ExplainsChange => "EXPLAINS_CHANGE",
            EdgeLabel::ClosesAcceptanceCriterion => "CLOSES_ACCEPTANCE_CRITERION",
        }
    }
}

#[derive(Debug, Clone, Copy, PartialEq, Eq, Structural)]
pub enum SymbolRole {
    Test,
    Production,
}

/// Why an error signature is linked to a run.
#[derive(Debug, Clone, Copy, PartialEq, Eq, Structural)]
pub enum CorrelationBasis {
    ContentHashJoin,
    TemporalCorrelation,
}

impl CorrelationBasis {
    pub open spec fn name(self) -> Seq<char> {
        match self {
            CorrelationBasis::ContentHashJoin => "content_hash_join"@,
            CorrelationBasis::TemporalCorrelation => "temporal_correlation"@,
        }
    }

    pub open spec fn weight(self) -> Seq<char> {
        match self {
            CorrelationBasis::ContentHashJoin => "1.0"@,
            CorrelationBasis::TemporalCorrelation => "0.5"@,
        }
    }

    pub fn as_str(self) -> (r: &'static str)
        ensures
            r@ == self.name(),
    {
        match self {
            CorrelationBasis::ContentHashJoin => "content_hash_join",
            CorrelationBasis::TemporalCorrelation => "temporal_correlation",
        }
    }

    pub fn confidence(self) -> (r: &'static str)
        ensures
            r@ == self.weight(),
    {
        match self {
            CorrelationBasis::ContentHashJoin => "1.0",
            CorrelationBasis::TemporalCorrelation => "0.5",
        }
    }
}

/// How a backtrace frame was bound.
#[derive(Debug, Clone, Copy, PartialEq, Eq, Structural)]
pub enum FrameResolution {
    Resolved,
    Ambiguous,
    PathOnly,
    Unresolved,
}

impl FrameResolution {
    pub open spec fn name(self) -> Seq<char> {
        match self {
            FrameResolution::Resolved => "resolved"@,
            FrameResolution::Ambiguous => "ambiguous"@,
            FrameResolution::PathOnly => "path_only"@,
            FrameResolution::Unresolved => "unresolved"@,
        }
    }

    pub fn as_str(self) -> (r: &'static str)
        ensures
            r@ == self.name(),
    {
        match self {
            FrameResolution::Resolved => "resolved",
            FrameResolution::Ambiguous => "ambiguous",
            FrameResolution::PathOnly => "path_only",
            FrameResolution::Unresolved => "unresolved",
        }
    }
}

#[derive(Debug, Clone, Copy, PartialEq, Eq, Structural)]
pub enum IdentitySource {
    Remote,
    LocalRootCommit,
    LocalPath,
    OperatorOverride,
}

#[derive(Debug, Clone, Copy, PartialEq, Eq, Structural)]
pub enum ProducerKind {
    TaskWriter,
    LogImporter,
    CodeGraphExtractor,
}

#[derive(Debug, Clone, Copy, PartialEq, Eq, Structural)]
pub enum MetricKind {
    CosineDistance,
}

#[derive(Debug, Clone, Copy, PartialEq, Eq, Structural)]
pub enum SelectionBasis {
    ThresholdOnly,
}

/// A stretch of source: bytes, one-based lines, and zero-based byte columns where they are known.
#[derive(Debug, Clone, Copy, PartialEq, Eq, Structural)]
pub struct SourceSpan {
    pub start_byte: usize,
    pub end_byte: usize,
    pub start_line: usize,
    pub end_line: usize,
    pub start_column: Option<usize>,
    pub end_column: Option<usize>,
}

/// What the working tree's head was.
#[derive(Debug, PartialEq, Eq)]
pub enum SnapshotHead {
    Commit { sha: String },
    NoGit,
    UnbornHead,
}

#[verifier::ext_equal]
pub enum SnapshotHeadView {
    Commit { sha: Seq<char> },
    NoGit,
    UnbornHead,
}

impl DeepView for SnapshotHead {
    type V = SnapshotHeadView;

    open spec fn deep_view(&self) -> SnapshotHeadView {
        match self {
            SnapshotHead::Commit { sha } => SnapshotHeadView::Commit { sha: sha@ },
            SnapshotHead::NoGit => SnapshotHeadView::NoGit,
            SnapshotHead::UnbornHead => SnapshotHeadView::UnbornHead,
        }
    }
}

impl Duplicate for SnapshotHead {
    fn duplicate(&self) -> (r: SnapshotHead) {
        match self {
            SnapshotHead::Commit { sha } => SnapshotHead::Commit { sha: sha.clone() },
            SnapshotHead::NoGit => SnapshotHead::NoGit,
            SnapshotHead::UnbornHead => SnapshotHead::UnbornHead,
        }
    }
}

/// The log-specific part of a node.
#[derive(Debug, PartialEq, Eq)]
pub enum LogPayload {
    LogSource(LogSourcePayload),
    ErrorSignature(ErrorSignaturePayload),
    LogEvent(LogEventPayload),
    LogOccurrenceBucket(LogOccurrenceBucketPayload),
}

#[verifier::ext_equal]
pub enum LogPayloadView {
    LogSource(LogSourcePayloadView),
    ErrorSignature(ErrorSignaturePayloadView),
    LogEvent(LogEventPayloadView),
    LogOccurrenceBucket(LogOccurrenceBucketPayloadView),
}

impl DeepView for LogPayload {
    type V = LogPayloadView;

    open spec fn deep_view(&self) -> LogPayloadView {
        match self {
            LogPayload::LogSource(p) => LogPayloadView::LogSource(p.deep_view()),
            LogPayload::ErrorSignature(p) => LogPayloadView::ErrorSignature(p.deep_view()),
            LogPayload::LogEvent(p) => LogPayloadView::LogEvent(p.deep_view()),
            LogPayload::LogOccurrenceBucket(p) => LogPayloadView::LogOccurrenceBucket(p.deep_view()),
        }
    }
}

impl Duplicate for LogPayload {
    fn duplicate(&self) -> (r: LogPayload) {
        match self {
            LogPayload::LogSource(p) => LogPayload::LogSource(p.duplicate()),
            LogPayload::ErrorSignature(p) => LogPayload::ErrorSignature(p.duplicate()),
            LogPayload::LogEvent(p) => LogPayload::LogEvent(p.duplicate()),
            LogPayload::LogOccurrenceBucket(p) => LogPayload::LogOccurrenceBucket(p.duplicate()),
        }
    }
}

// ── Record parts ────────────────────────────────────────────────────────────

/// A citation from one record to another.
#[derive(Debug, PartialEq, Eq)]
pub struct EvidenceLink {
    pub target_record_id: Option<String>,
    pub target_domain: String,
    pub relation: String,
    pub confidence: String,
    pub as_of_commit: Option<String>,
    pub target_repo_relative_path: Option<String>,
    pub target_span: Option<SourceSpan>,
    pub target_git_commit: Option<String>,
}

#[verifier::ext_equal]
pub struct EvidenceLinkView {
    pub target_record_id: Option<Seq<char>>,
    pub target_domain: Seq<char>,
    pub relation: Seq<char>,
    pub confidence: Seq<char>,
    pub as_of_commit: Option<Seq<char>>,
    pub target_repo_relative_path: Option<Seq<char>>,
    pub target_span: Option<SourceSpan>,
    pub target_git_commit: Option<Seq<char>>,
}

impl DeepView for EvidenceLink {
    type V = EvidenceLinkView;

    open spec fn deep_view(&self) -> EvidenceLinkView {
        EvidenceLinkView {
            target_record_id: self.target_record_id.deep_view(),
            target_domain: self.target_domain@,
            relation: self.relation@,
            confidence: self.confidence@,
            as_of_commit: self.as_of_commit.deep_view(),
            target_repo_relative_path: self.target_repo_relative_path.deep_view(),
            target_span: self.target_span,
            target_git_commit: self.target_git_commit.deep_view(),
        }
    }
}

impl Duplicate for EvidenceLink {
    fn duplicate(&self) -> (r: EvidenceLink) {
        EvidenceLink {
            target_record_id: duplicate_opt(&self.target_record_id),
            target_domain: self.target_domain.clone(),
            relation: self.relation.clone(),
            confidence: self.confidence.clone(),
            as_of_commit: duplicate_opt(&self.as_of_commit),
            target_repo_relative_path: duplicate_opt(&self.target_repo_relative_path),
            target_span: self.target_span,
            target_git_commit: duplicate_opt(&self.target_git_commit),
        }
    }
}

/// A captured output: its hash and size, and its text where it is small.
#[derive(Debug, PartialEq, Eq)]
pub struct OutputHandle {
    pub inline: Option<String>,
    pub hash: String,
    pub bytes: u64,
}

#[verifier::ext_equal]
pub struct OutputHandleView {
    pub inline: Option<Seq<char>>,
    pub hash: Seq<char>,
    pub bytes: u64,
}

impl DeepView for OutputHandle {
    type V = OutputHandleView;

    open spec fn deep_view(&self) -> OutputHandleView {
        OutputHandleView {
            inline: self.inline.deep_view(),
            hash: self.hash@,
            bytes: self.bytes,
        }
    }
}

impl Duplicate for OutputHandle {
    fn duplicate(&self) -> (r: OutputHandle) {
        OutputHandle {
            inline: duplicate_opt(&self.inline),
            hash: self.hash.clone(),
            bytes: self.bytes,
        }
    }
}

/// Where a captured patch lies.
#[derive(Debug, PartialEq, Eq)]
pub struct PatchHandle {
    pub path: String,
}

#[verifier::ext_equal]
pub struct PatchHandleView {
    pub path: Seq<char>,
}

impl DeepView for PatchHandle {
    type V = PatchHandleView;

    open spec fn deep_view(&self) -> PatchHandleView {
        PatchHandleView {
            path: self.path@,
        }
    }
}

impl Duplicate for PatchHandle {
    fn duplicate(&self) -> (r: PatchHandle) {
        PatchHandle {
            path: self.path.clone(),
        }
    }
}

/// The commit that a history-backed record was read at.
#[derive(Debug, PartialEq, Eq)]
pub struct TemporalMetadata {
    pub git_commit: String,
    pub valid_time: String,
}

#[verifier::ext_equal]
pub struct TemporalMetadataView {
    pub git_commit: Seq<char>,
    pub valid_time: Seq<char>,
}

impl DeepView for TemporalMetadata {
    type V = TemporalMetadataView;

    open spec fn deep_view(&self) -> TemporalMetadataView {
        TemporalMetadataView {
            git_commit: self.git_commit@,
            valid_time: self.valid_time@,
        }
    }
}

impl Duplicate for TemporalMetadata {
    fn duplicate(&self) -> (r: TemporalMetadata) {
        TemporalMetadata {
            git_commit: self.git_commit.clone(),
            valid_time: self.valid_time.clone(),
        }
    }
}

/// One frame of a backtrace.
#[derive(Debug, PartialEq, Eq)]
pub struct StackFrame {
    pub frame_index: u32,
    pub module: Option<String>,
    pub file_path: Option<String>,
    pub line: Option<u32>,
}

#[verifier::ext_equal]
pub struct StackFrameView {
    pub frame_index: u32,
    pub module: Option<Seq<char>>,
    pub file_path: Option<Seq<char>>,
    pub line: Option<u32>,
}

impl DeepView for StackFrame {
    type V = StackFrameView;

    open spec fn deep_view(&self) -> StackFrameView {
        StackFrameView {
            frame_index: self.frame_index,
            module: self.module.deep_view(),
            file_path: self.file_path.deep_view(),
            line: self.line,
        }
    }
}

impl Duplicate for StackFrame {
    fn duplicate(&self) -> (r: StackFrame) {
        StackFrame {
            frame_index: self.frame_index,
            module: duplicate_opt(&self.module),
            file_path: duplicate_opt(&self.file_path),
            line: self.line,
        }
    }
}

/// A routing attribute: an HTTP method and a path.
#[derive(Debug, PartialEq, Eq)]
pub struct RouteAnnotation {
    pub method: String,
    pub path: String,
}

#[verifier::ext_equal]
pub struct RouteAnnotationView {
    pub method: Seq<char>,
    pub path: Seq<char>,
}

impl DeepView for RouteAnnotation {
    type V = RouteAnnotationView;

    open spec fn deep_view(&self) -> RouteAnnotationView {
        RouteAnnotationView {
            method: self.method@,
            path: self.path@,
        }
    }
}

impl Duplicate for RouteAnnotation {
    fn duplicate(&self) -> (r: RouteAnnotation) {
        RouteAnnotation {
            method: self.method.clone(),
            path: self.path.clone(),
        }
    }
}

/// The model that a drift score was measured with.
#[derive(Debug, PartialEq, Eq)]
pub struct EmbeddingModel {
    pub provider: String,
    pub name: String,
    pub version: String,
    pub dim: u64,
    pub content_hash: String,
}

#[verifier::ext_equal]
pub struct EmbeddingModelView {
    pub provider: Seq<char>,
    pub name: Seq<char>,
    pub version: Seq<char>,
    pub dim: u64,
    pub content_hash: Seq<char>,
}

impl DeepView for EmbeddingModel {
    type V = EmbeddingModelView;

    open spec fn deep_view(&self) -> EmbeddingModelView {
        EmbeddingModelView {
            provider: self.provider@,
            name: self.name@,
            version: self.version@,
            dim: self.dim,
            content_hash: self.content_hash@,
        }
    }
}

impl Duplicate for EmbeddingModel {
    fn duplicate(&self) -> (r: EmbeddingModel) {
        EmbeddingModel {
            provider: self.provider.clone(),
            name: self.name.clone(),
            version: self.version.clone(),
            dim: self.dim,
            content_hash: self.content_hash.clone(),
        }
    }
}

/// A measured change of meaning between two versions of a record. The score and the threshold are
/// kept as the bits of their floating-point values.
#[derive(Debug, PartialEq, Eq)]
pub struct SemanticDriftMetadata {
    pub embedding_model: EmbeddingModel,
    pub target_record_id: String,
    pub prior_record_id: String,
    pub before_git_commit: String,
    pub after_git_commit: String,
    pub before_valid_time: String,
    pub after_valid_time: String,
    pub metric_kind: MetricKind,
    pub score_bits: u64,
    pub selection_threshold_bits: u64,
    pub selection_basis: SelectionBasis,
}

#[verifier::ext_equal]
pub struct SemanticDriftMetadataView {
    pub embedding_model: EmbeddingModelView,
    pub target_record_id: Seq<char>,
    pub prior_record_id: Seq<char>,
    pub before_git_commit: Seq<char>,
    pub after_git_commit: Seq<char>,
    pub before_valid_time: Seq<char>,
    pub after_valid_time: Seq<char>,
    pub metric_kind: MetricKind,
    pub score_bits: u64,
    pub selection_threshold_bits: u64,
    pub selection_basis: SelectionBasis,
}

impl DeepView for SemanticDriftMetadata {
    type V = SemanticDriftMetadataView;

    open spec fn deep_view(&self) -> SemanticDriftMetadataView {
        SemanticDriftMetadataView {
            embedding_model: self.embedding_model.deep_view(),
            target_record_id: self.target_record_id@,
            prior_record_id: self.prior_record_id@,
            before_git_commit: self.before_git_commit@,
            after_git_commit: self.after_git_commit@,
            before_valid_time: self.before_valid_time@,
            after_valid_time: self.after_valid_time@,
            metric_kind: self.metric_kind,
            score_bits: self.score_bits,
            selection_threshold_bits: self.selection_threshold_bits,
            selection_basis: self.selection_basis,
        }
    }
}

impl Duplicate for SemanticDriftMetadata {
    fn duplicate(&self) -> (r: SemanticDriftMetadata) {
        SemanticDriftMetadata {
            embedding_model: self.embedding_model.duplicate(),
            target_record_id: self.target_record_id.clone(),
            prior_record_id: self.prior_record_id.clone(),
            before_git_commit: self.before_git_commit.clone(),
            after_git_commit: self.after_git_commit.clone(),
            before_valid_time: self.before_valid_time.clone(),
            after_valid_time: self.after_valid_time.clone(),
            metric_kind: self.metric_kind,
            score_bits: self.score_bits,
            selection_threshold_bits: self.selection_threshold_bits,
            selection_basis: self.selection_basis,
        }
    }
}

/// What a repository's identity was derived from.
#[derive(Debug, PartialEq, Eq)]
pub struct RepositoryIdentityPayload {
    pub identity_source: IdentitySource,
    pub remote_url: Option<String>,
    pub root_commit_sha: Option<String>,
    pub canonical_path: Option<String>,
    pub basename: String,
}

#[verifier::ext_equal]
pub struct RepositoryIdentityPayloadView {
    pub identity_source: IdentitySource,
    pub remote_url: Option<Seq<char>>,
    pub root_commit_sha: Option<Seq<char>>,
    pub canonical_path: Option<Seq<char>>,
    pub basename: Seq<char>,
}

impl DeepView for RepositoryIdentityPayload {
    type V = RepositoryIdentityPayloadView;

    open spec fn deep_view(&self) -> RepositoryIdentityPayloadView {
        RepositoryIdentityPayloadView {
            identity_source: self.identity_source,
            remote_url: self.remote_url.deep_view(),
            root_commit_sha: self.root_commit_sha.deep_view(),
            canonical_path: self.canonical_path.deep_view(),
            basename: self.basename@,
        }
    }
}

impl Duplicate for RepositoryIdentityPayload {
    fn duplicate(&self) -> (r: RepositoryIdentityPayload) {
        RepositoryIdentityPayload {
            identity_source: self.identity_source,
            remote_url: duplicate_opt(&self.remote_url),
            root_commit_sha: duplicate_opt(&self.root_commit_sha),
            canonical_path: duplicate_opt(&self.canonical_path),
            basename: self.basename.clone(),
        }
    }
}

/// The state of the working tree that a scan read.
#[derive(Debug, PartialEq, Eq)]
pub struct SourceSnapshotPayload {
    pub head: SnapshotHead,
    pub dirty: bool,
    pub repository_id: String,
    pub scanned_at: String,
}

#[verifier::ext_equal]
pub struct SourceSnapshotPayloadView {
    pub head: SnapshotHeadView,
    pub dirty: bool,
    pub repository_id: Seq<char>,
    pub scanned_at: Seq<char>,
}

impl DeepView for SourceSnapshotPayload {
    type V = SourceSnapshotPayloadView;

    open spec fn deep_view(&self) -> SourceSnapshotPayloadView {
        SourceSnapshotPayloadView {
            head: self.head.deep_view(),
            dirty: self.dirty,
            repository_id: self.repository_id@,
            scanned_at: self.scanned_at@,
        }
    }
}

impl Duplicate for SourceSnapshotPayload {
    fn duplicate(&self) -> (r: SourceSnapshotPayload) {
        SourceSnapshotPayload {
            head: self.head.duplicate(),
            dirty: self.dirty,
            repository_id: self.repository_id.clone(),
            scanned_at: self.scanned_at.clone(),
        }
    }
}

/// How many walked files with one extension were not indexed.
#[derive(Debug, PartialEq, Eq)]
pub struct ExtensionCount {
    pub extension: String,
    pub count: usize,
}

#[verifier::ext_equal]
pub struct ExtensionCountView {
    pub extension: Seq<char>,
    pub count: usize,
}

impl DeepView for ExtensionCount {
    type V = ExtensionCountView;

    open spec fn deep_view(&self) -> ExtensionCountView {
        ExtensionCountView {
            extension: self.extension@,
            count: self.count,
        }
    }
}

impl Duplicate for ExtensionCount {
    fn duplicate(&self) -> (r: ExtensionCount) {
        ExtensionCount {
            extension: self.extension.clone(),
            count: self.count,
        }
    }
}

/// Which of the walked files a scan indexed.
#[derive(Debug, PartialEq, Eq)]
pub struct ScanCoveragePayload {
    pub files_walked: usize,
    pub files_indexed: usize,
    pub skipped_by_extension: Vec<ExtensionCount>,
    pub indexed_languages: Vec<String>,
    pub coverage_complete: bool,
    pub coverage_generation: Option<String>,
}

#[verifier::ext_equal]
pub struct ScanCoveragePayloadView {
    pub files_walked: usize,
    pub files_indexed: usize,
    pub skipped_by_extension: Seq<ExtensionCountView>,
    pub indexed_languages: Seq<Seq<char>>,
    pub coverage_complete: bool,
    pub coverage_generation: Option<Seq<char>>,
}

impl DeepView for ScanCoveragePayload {
    type V = ScanCoveragePayloadView;

    open spec fn deep_view(&self) -> ScanCoveragePayloadView {
        ScanCoveragePayloadView {
            files_walked: self.files_walked,
            files_indexed: self.files_indexed,
            skipped_by_extension: self.skipped_by_extension.deep_view(),
            indexed_languages: self.indexed_languages.deep_view(),
            coverage_complete: self.coverage_complete,
            coverage_generation: self.coverage_generation.deep_view(),
        }
    }
}

impl Duplicate for ScanCoveragePayload {
    fn duplicate(&self) -> (r: ScanCoveragePayload) {
        ScanCoveragePayload {
            files_walked: self.files_walked,
            files_indexed: self.files_indexed,
            skipped_by_extension: duplicate_all(&self.skipped_by_extension),
            indexed_languages: duplicate_all(&self.indexed_languages),
            coverage_complete: self.coverage_complete,
            coverage_generation: duplicate_opt(&self.coverage_generation),
        }
    }
}

/// One scanned log file.
#[derive(Debug, PartialEq, Eq)]
pub struct LogSourcePayload {
    pub source_relative_path: String,
    pub source_format_version: String,
    pub source_artifact_hash: String,
    pub line_count: u64,
    pub repository_id: String,
}

#[verifier::ext_equal]
pub struct LogSourcePayloadView {
    pub source_relative_path: Seq<char>,
    pub source_format_version: Seq<char>,
    pub source_artifact_hash: Seq<char>,
    pub line_count: u64,
    pub repository_id: Seq<char>,
}

impl DeepView for LogSourcePayload {
    type V = LogSourcePayloadView;

    open spec fn deep_view(&self) -> LogSourcePayloadView {
        LogSourcePayloadView {
            source_relative_path: self.source_relative_path@,
            source_format_version: self.source_format_version@,
            source_artifact_hash: self.source_artifact_hash@,
            line_count: self.line_count,
            repository_id: self.repository_id@,
        }
    }
}

impl Duplicate for LogSourcePayload {
    fn duplicate(&self) -> (r: LogSourcePayload) {
        LogSourcePayload {
            source_relative_path: self.source_relative_path.clone(),
            source_format_version: self.source_format_version.clone(),
            source_artifact_hash: self.source_artifact_hash.clone(),
            line_count: self.line_count,
            repository_id: self.repository_id.clone(),
        }
    }
}

/// One distinct error of a log.
#[derive(Debug, PartialEq, Eq)]
pub struct ErrorSignaturePayload {
    pub fingerprint_algorithm: String,
    pub template_excerpt: String,
    pub severity: String,
    pub occurrence_count: u64,
    pub first_seen: String,
    pub last_seen: String,
    pub frames: Option<Vec<StackFrame>>,
    pub repository_id: String,
}

#[verifier::ext_equal]
pub struct ErrorSignaturePayloadView {
    pub fingerprint_algorithm: Seq<char>,
    pub template_excerpt: Seq<char>,
    pub severity: Seq<char>,
    pub occurrence_count: u64,
    pub first_seen: Seq<char>,
    pub last_seen: Seq<char>,
    pub frames: Option<Seq<StackFrameView>>,
    pub repository_id: Seq<char>,
}

impl DeepView for ErrorSignaturePayload {
    type V = ErrorSignaturePayloadView;

    open spec fn deep_view(&self) -> ErrorSignaturePayloadView {
        ErrorSignaturePayloadView {
            fingerprint_algorithm: self.fingerprint_algorithm@,
            template_excerpt: self.template_excerpt@,
            severity: self.severity@,
            occurrence_count: self.occurrence_count,
            first_seen: self.first_seen@,
            last_seen: self.last_seen@,
            frames: self.frames.deep_view(),
            repository_id: self.repository_id@,
        }
    }
}

impl Duplicate for ErrorSignaturePayload {
    fn duplicate(&self) -> (r: ErrorSignaturePayload) {
        ErrorSignaturePayload {
            fingerprint_algorithm: self.fingerprint_algorithm.clone(),
            template_excerpt: self.template_excerpt.clone(),
            severity: self.severity.clone(),
            occurrence_count: self.occurrence_count,
            first_seen: self.first_seen.clone(),
            last_seen: self.last_seen.clone(),
            frames: duplicate_opt_all(&self.frames),
            repository_id: self.repository_id.clone(),
        }
    }
}

/// One kept example of an error.
#[derive(Debug, PartialEq, Eq)]
pub struct LogEventPayload {
    pub event_excerpt: String,
    pub event_content_hash: String,
    pub source_line: u64,
    pub severity: String,
    pub repository_id: String,
}

#[verifier::ext_equal]
pub struct LogEventPayloadView {
    pub event_excerpt: Seq<char>,
    pub event_content_hash: Seq<char>,
    pub source_line: u64,
    pub severity: Seq<char>,
    pub repository_id: Seq<char>,
}

impl DeepView for LogEventPayload {
    type V = LogEventPayloadView;

    open spec fn deep_view(&self) -> LogEventPayloadView {
        LogEventPayloadView {
            event_excerpt: self.event_excerpt@,
            event_content_hash: self.event_content_hash@,
            source_line: self.source_line,
            severity: self.severity@,
            repository_id: self.repository_id@,
        }
    }
}

impl Duplicate for LogEventPayload {
    fn duplicate(&self) -> (r: LogEventPayload) {
        LogEventPayload {
            event_excerpt: self.event_excerpt.clone(),
            event_content_hash: self.event_content_hash.clone(),
            source_line: self.source_line,
            severity: self.severity.clone(),
            repository_id: self.repository_id.clone(),
        }
    }
}

/// How often an error occurred within one hour.
#[derive(Debug, PartialEq, Eq)]
pub struct LogOccurrenceBucketPayload {
    pub bucket_start: String,
    pub bucket_width: String,
    pub occurrence_count: u64,
    pub source_id: String,
    pub repository_id: String,
    pub occurrence_timestamps: Vec<String>,
}

#[verifier::ext_equal]
pub struct LogOccurrenceBucketPayloadView {
    pub bucket_start: Seq<char>,
    pub bucket_width: Seq<char>,
    pub occurrence_count: u64,
    pub source_id: Seq<char>,
    pub repository_id: Seq<char>,
    pub occurrence_timestamps: Seq<Seq<char>>,
}

impl DeepView for LogOccurrenceBucketPayload {
    type V = LogOccurrenceBucketPayloadView;

    open spec fn deep_view(&self) -> LogOccurrenceBucketPayloadView {
        LogOccurrenceBucketPayloadView {
            bucket_start: self.bucket_start@,
            bucket_width: self.bucket_width@,
            occurrence_count: self.occurrence_count,
            source_id: self.source_id@,
            repository_id: self.repository_id@,
            occurrence_timestamps: self.occurrence_timestamps.deep_view(),
        }
    }
}

impl Duplicate for LogOccurrenceBucketPayload {
    fn duplicate(&self) -> (r: LogOccurrenceBucketPayload) {
        LogOccurrenceBucketPayload {
            bucket_start: self.bucket_start.clone(),
            bucket_width: self.bucket_width.clone(),
            occurrence_count: self.occurrence_count,
            source_id: self.source_id.clone(),
            repository_id: self.repository_id.clone(),
            occurrence_timestamps: duplicate_all(&self.occurrence_timestamps),
        }
    }
}

/// One versioned component of a producer.
#[derive(Debug, PartialEq, Eq)]
pub struct ProducerComponent {
    pub name: String,
    pub version: String,
}

#[verifier::ext_equal]
pub struct ProducerComponentView {
    pub name: Seq<char>,
    pub version: Seq<char>,
}

impl DeepView for ProducerComponent {
    type V = ProducerComponentView;

    open spec fn deep_view(&self) -> ProducerComponentView {
        ProducerComponentView {
            name: self.name@,
            version: self.version@,
        }
    }
}

impl Duplicate for ProducerComponent {
    fn duplicate(&self) -> (r: ProducerComponent) {
        ProducerComponent {
            name: self.name.clone(),
            version: self.version.clone(),
        }
    }
}

/// The program that wrote a record.
#[derive(Debug, PartialEq, Eq)]
pub struct Producer {
    pub egregore_version: String,
    pub egregore_git: Option<String>,
    pub producer_kind: ProducerKind,
    pub producer_components: Vec<ProducerComponent>,
    pub producer_started_at: String,
}

#[verifier::ext_equal]
pub struct ProducerView {
    pub egregore_version: Seq<char>,
    pub egregore_git: Option<Seq<char>>,
    pub producer_kind: ProducerKind,
    pub producer_components: Seq<ProducerComponentView>,
    pub producer_started_at: Seq<char>,
}

impl DeepView for Producer {
    type V = ProducerView;

    open spec fn deep_view(&self) -> ProducerView {
        ProducerView {
            egregore_version: self.egregore_version@,
            egregore_git: self.egregore_git.deep_view(),
            producer_kind: self.producer_kind,
            producer_components: self.producer_components.deep_view(),
            producer_started_at: self.producer_started_at@,
        }
    }
}

impl Duplicate for Producer {
    fn duplicate(&self) -> (r: Producer) {
        Producer {
            egregore_version: self.egregore_version.clone(),
            egregore_git: duplicate_opt(&self.egregore_git),
            producer_kind: self.producer_kind,
            producer_components: duplicate_all(&self.producer_components),
            producer_started_at: self.producer_started_at.clone(),
        }
    }
}

/// What source extraction records of a node.
#[derive(Debug, PartialEq, Eq)]
pub struct CodeFields {
    pub language: Option<String>,
    pub symbol_kind: Option<String>,
    pub disambiguator: Option<u64>,
    pub visibility: Option<String>,
    pub signature: Option<String>,
    pub doc: Option<String>,
    pub content_signature: Option<String>,
    pub note: Option<String>,
    pub call_context: Option<String>,
    pub route: Option<Vec<RouteAnnotation>>,
    pub role: Option<SymbolRole>,
}

#[verifier::ext_equal]
pub struct CodeFieldsView {
    pub language: Option<Seq<char>>,
    pub symbol_kind: Option<Seq<char>>,
    pub disambiguator: Option<u64>,
    pub visibility: Option<Seq<char>>,
    pub signature: Option<Seq<char>>,
    pub doc: Option<Seq<char>>,
    pub content_signature: Option<Seq<char>>,
    pub note: Option<Seq<char>>,
    pub call_context: Option<Seq<char>>,
    pub route: Option<Seq<RouteAnnotationView>>,
    pub role: Option<SymbolRole>,
}

impl DeepView for CodeFields {
    type V = CodeFieldsView;

    open spec fn deep_view(&self) -> CodeFieldsView {
        CodeFieldsView {
            language: self.language.deep_view(),
            symbol_kind: self.symbol_kind.deep_view(),
            disambiguator: self.disambiguator,
            visibility: self.visibility.deep_view(),
            signature: self.signature.deep_view(),
            doc: self.doc.deep_view(),
            content_signature: self.content_signature.deep_view(),
            note: self.note.deep_view(),
            call_context: self.call_context.deep_view(),
            route: self.route.deep_view(),
            role: self.role,
        }
    }
}

impl Duplicate for CodeFields {
    fn duplicate(&self) -> (r: CodeFields) {
        CodeFields {
            language: duplicate_opt(&self.language),
            symbol_kind: duplicate_opt(&self.symbol_kind),
            disambiguator: self.disambiguator,
            visibility: duplicate_opt(&self.visibility),
            signature: duplicate_opt(&self.signature),
            doc: duplicate_opt(&self.doc),
            content_signature: duplicate_opt(&self.content_signature),
            note: duplicate_opt(&self.note),
            call_context: duplicate_opt(&self.call_context),
            route: duplicate_opt_all(&self.route),
            role: self.role,
        }
    }
}

impl CodeFields {
    pub fn none() -> (r: CodeFields)
        ensures
            r.deep_view() == CodeFieldsView::none(),
    {
        CodeFields {
            language: None,
            symbol_kind: None,
            disambiguator: None,
            visibility: None,
            signature: None,
            doc: None,
            content_signature: None,
            note: None,
            call_context: None,
            route: None,
            role: None,
        }
    }
}

impl CodeFieldsView {
    pub open spec fn none() -> CodeFieldsView {
        CodeFieldsView {
            language: None,
            symbol_kind: None,
            disambiguator: None,
            visibility: None,
            signature: None,
            doc: None,
            content_signature: None,
            note: None,
            call_context: None,
            route: None,
            role: None,
        }
    }
}

/// What a scan records of a repository.
#[derive(Debug, PartialEq, Eq)]
pub struct RepositoryFields {
    pub repository_identity: Option<RepositoryIdentityPayload>,
    pub source_snapshot: Option<SourceSnapshotPayload>,
    pub scan_coverage: Option<ScanCoveragePayload>,
}

#[verifier::ext_equal]
pub struct RepositoryFieldsView {
    pub repository_identity: Option<RepositoryIdentityPayloadView>,
    pub source_snapshot: Option<SourceSnapshotPayloadView>,
    pub scan_coverage: Option<ScanCoveragePayloadView>,
}

impl DeepView for RepositoryFields {
    type V = RepositoryFieldsView;

    open spec fn deep_view(&self) -> RepositoryFieldsView {
        RepositoryFieldsView {
            repository_identity: self.repository_identity.deep_view(),
            source_snapshot: self.source_snapshot.deep_view(),
            scan_coverage: self.scan_coverage.deep_view(),
        }
    }
}

impl Duplicate for RepositoryFields {
    fn duplicate(&self) -> (r: RepositoryFields) {
        RepositoryFields {
            repository_identity: duplicate_opt(&self.repository_identity),
            source_snapshot: duplicate_opt(&self.source_snapshot),
            scan_coverage: duplicate_opt(&self.scan_coverage),
        }
    }
}

impl RepositoryFields {
    pub fn none() -> (r: RepositoryFields)
        ensures
            r.deep_view() == RepositoryFieldsView::none(),
    {
        RepositoryFields {
            repository_identity: None,
            source_snapshot: None,
            scan_coverage: None,
        }
    }
}

impl RepositoryFieldsView {
    pub open spec fn none() -> RepositoryFieldsView {
        RepositoryFieldsView {
            repository_identity: None,
            source_snapshot: None,
            scan_coverage: None,
        }
    }
}

/// What a project import records of a node.
#[derive(Debug, PartialEq, Eq)]
pub struct ProjectFields {
    pub entity_id: Option<String>,
    pub transaction_time: Option<String>,
    pub source_handle: Option<String>,
    pub importer_id: Option<String>,
    pub importer_version: Option<String>,
    pub title: Option<String>,
    pub body_handle: Option<OutputHandle>,
    pub source_kind: Option<String>,
    pub source_external_link_id: Option<String>,
    pub assignees: Option<Vec<String>>,
    pub labels: Option<Vec<String>>,
    pub priority: Option<String>,
    pub status: Option<String>,
    pub parent_task_id: Option<String>,
    pub ordinal: Option<u32>,
    pub verification_link_id: Option<String>,
    pub system: Option<String>,
    pub url: Option<String>,
    pub system_native_id: Option<String>,
    pub discovered_at: Option<String>,
    pub author: Option<String>,
}

#[verifier::ext_equal]
pub struct ProjectFieldsView {
    pub entity_id: Option<Seq<char>>,
    pub transaction_time: Option<Seq<char>>,
    pub source_handle: Option<Seq<char>>,
    pub importer_id: Option<Seq<char>>,
    pub importer_version: Option<Seq<char>>,
    pub title: Option<Seq<char>>,
    pub body_handle: Option<OutputHandleView>,
    pub source_kind: Option<Seq<char>>,
    pub source_external_link_id: Option<Seq<char>>,
    pub assignees: Option<Seq<Seq<char>>>,
    pub labels: Option<Seq<Seq<char>>>,
    pub priority: Option<Seq<char>>,
    pub status: Option<Seq<char>>,
    pub parent_task_id: Option<Seq<char>>,
    pub ordinal: Option<u32>,
    pub verification_link_id: Option<Seq<char>>,
    pub system: Option<Seq<char>>,
    pub url: Option<Seq<char>>,
    pub system_native_id: Option<Seq<char>>,
    pub discovered_at: Option<Seq<char>>,
    pub author: Option<Seq<char>>,
}

impl DeepView for ProjectFields {
    type V = ProjectFieldsView;

    open spec fn deep_view(&self) -> ProjectFieldsView {
        ProjectFieldsView {
            entity_id: self.entity_id.deep_view(),
            transaction_time: self.transaction_time.deep_view(),
            source_handle: self.source_handle.deep_view(),
            importer_id: self.importer_id.deep_view(),
            importer_version: self.importer_version.deep_view(),
            title: self.title.deep_view(),
            body_handle: self.body_handle.deep_view(),
            source_kind: self.source_kind.deep_view(),
            source_external_link_id: self.source_external_link_id.deep_view(),
            assignees: self.assignees.deep_view(),
            labels: self.labels.deep_view(),
            priority: self.priority.deep_view(),
            status: self.status.deep_view(),
            parent_task_id: self.parent_task_id.deep_view(),
            ordinal: self.ordinal,
            verification_link_id: self.verification_link_id.deep_view(),
            system: self.system.deep_view(),
            url: self.url.deep_view(),
            system_native_id: self.system_native_id.deep_view(),
            discovered_at: self.discovered_at.deep_view(),
            author: self.author.deep_view(),
        }
    }
}

impl Duplicate for ProjectFields {
    fn duplicate(&self) -> (r: ProjectFields) {
        ProjectFields {
            entity_id: duplicate_opt(&self.entity_id),
            transaction_time: duplicate_opt(&self.transaction_time),
            source_handle: duplicate_opt(&self.source_handle),
            importer_id: duplicate_opt(&self.importer_id),
            importer_version: duplicate_opt(&self.importer_version),
            title: duplicate_opt(&self.title),
            body_handle: duplicate_opt(&self.body_handle),
            source_kind: duplicate_opt(&self.source_kind),
            source_external_link_id: duplicate_opt(&self.source_external_link_id),
            assignees: duplicate_opt_all(&self.assignees),
            labels: duplicate_opt_all(&self.labels),
            priority: duplicate_opt(&self.priority),
            status: duplicate_opt(&self.status),
            parent_task_id: duplicate_opt(&self.parent_task_id),
            ordinal: self.ordinal,
            verification_link_id: duplicate_opt(&self.verification_link_id),
            system: duplicate_opt(&self.system),
            url: duplicate_opt(&self.url),
            system_native_id: duplicate_opt(&self.system_native_id),
            discovered_at: duplicate_opt(&self.discovered_at),
            author: duplicate_opt(&self.author),
        }
    }
}

impl ProjectFields {
    pub fn none() -> (r: ProjectFields)
        ensures
            r.deep_view() == ProjectFieldsView::none(),
    {
        ProjectFields {
            entity_id: None,
            transaction_time: None,
            source_handle: None,
            importer_id: None,
            importer_version: None,
            title: None,
            body_handle: None,
            source_kind: None,
            source_external_link_id: None,
            assignees: None,
            labels: None,
            priority: None,
            status: None,
            parent_task_id: None,
            ordinal: None,
            verification_link_id: None,
            system: None,
            url: None,
            system_native_id: None,
            discovered_at: None,
            author: None,
        }
    }
}

impl ProjectFieldsView {
    pub open spec fn none() -> ProjectFieldsView {
        ProjectFieldsView {
            entity_id: None,
            transaction_time: None,
            source_handle: None,
            importer_id: None,
            importer_version: None,
            title: None,
            body_handle: None,
            source_kind: None,
            source_external_link_id: None,
            assignees: None,
            labels: None,
            priority: None,
            status: None,
            parent_task_id: None,
            ordinal: None,
            verification_link_id: None,
            system: None,
            url: None,
            system_native_id: None,
            discovered_at: None,
            author: None,
        }
    }
}

/// What an agent records of its work.
#[derive(Debug, PartialEq, Eq)]
pub struct MemoryFields {
    pub agent_id: Option<String>,
    pub session_id: Option<String>,
    pub observed_at: Option<String>,
    pub started_at: Option<String>,
    pub finished_at: Option<String>,
    pub confidence: Option<String>,
    pub failure_kind: Option<String>,
}

#[verifier::ext_equal]
pub struct MemoryFieldsView {
    pub agent_id: Option<Seq<char>>,
    pub session_id: Option<Seq<char>>,
    pub observed_at: Option<Seq<char>>,
    pub started_at: Option<Seq<char>>,
    pub finished_at: Option<Seq<char>>,
    pub confidence: Option<Seq<char>>,
    pub failure_kind: Option<Seq<char>>,
}

impl DeepView for MemoryFields {
    type V = MemoryFieldsView;

    open spec fn deep_view(&self) -> MemoryFieldsView {
        MemoryFieldsView {
            agent_id: self.agent_id.deep_view(),
            session_id: self.session_id.deep_view(),
            observed_at: self.observed_at.deep_view(),
            started_at: self.started_at.deep_view(),
            finished_at: self.finished_at.deep_view(),
            confidence: self.confidence.deep_view(),
            failure_kind: self.failure_kind.deep_view(),
        }
    }
}

impl Duplicate for MemoryFields {
    fn duplicate(&self) -> (r: MemoryFields) {
        MemoryFields {
            agent_id: duplicate_opt(&self.agent_id),
            session_id: duplicate_opt(&self.session_id),
            observed_at: duplicate_opt(&self.observed_at),
            started_at: duplicate_opt(&self.started_at),
            finished_at: duplicate_opt(&self.finished_at),
            confidence: duplicate_opt(&self.confidence),
            failure_kind: duplicate_opt(&self.failure_kind),
        }
    }
}

impl MemoryFields {
    pub fn none() -> (r: MemoryFields)
        ensures
            r.deep_view() == MemoryFieldsView::none(),
    {
        MemoryFields {
            agent_id: None,
            session_id: None,
            observed_at: None,
            started_at: None,
            finished_at: None,
            confidence: None,
            failure_kind: None,
        }
    }
}

impl MemoryFieldsView {
    pub open spec fn none() -> MemoryFieldsView {
        MemoryFieldsView {
            agent_id: None,
            session_id: None,
            observed_at: None,
            started_at: None,
            finished_at: None,
            confidence: None,
            failure_kind: None,
        }
    }
}

/// What a verification run records.
#[derive(Debug, PartialEq, Eq)]
pub struct VerificationFields {
    pub verification_kind: Option<String>,
    pub exit_code: Option<i64>,
    pub executed_at: Option<String>,
    pub evidence_quality: Option<String>,
    pub source_artifact_path: Option<String>,
    pub source_artifact_hash: Option<String>,
    pub stdout_handle: Option<OutputHandle>,
    pub stderr_handle: Option<OutputHandle>,
}

#[verifier::ext_equal]
pub struct VerificationFieldsView {
    pub verification_kind: Option<Seq<char>>,
    pub exit_code: Option<i64>,
    pub executed_at: Option<Seq<char>>,
    pub evidence_quality: Option<Seq<char>>,
    pub source_artifact_path: Option<Seq<char>>,
    pub source_artifact_hash: Option<Seq<char>>,
    pub stdout_handle: Option<OutputHandleView>,
    pub stderr_handle: Option<OutputHandleView>,
}

impl DeepView for VerificationFields {
    type V = VerificationFieldsView;

    open spec fn deep_view(&self) -> VerificationFieldsView {
        VerificationFieldsView {
            verification_kind: self.verification_kind.deep_view(),
            exit_code: self.exit_code,
            executed_at: self.executed_at.deep_view(),
            evidence_quality: self.evidence_quality.deep_view(),
            source_artifact_path: self.source_artifact_path.deep_view(),
            source_artifact_hash: self.source_artifact_hash.deep_view(),
            stdout_handle: self.stdout_handle.deep_view(),
            stderr_handle: self.stderr_handle.deep_view(),
        }
    }
}

impl Duplicate for VerificationFields {
    fn duplicate(&self) -> (r: VerificationFields) {
        VerificationFields {
            verification_kind: duplicate_opt(&self.verification_kind),
            exit_code: self.exit_code,
            executed_at: duplicate_opt(&self.executed_at),
            evidence_quality: duplicate_opt(&self.evidence_quality),
            source_artifact_path: duplicate_opt(&self.source_artifact_path),
            source_artifact_hash: duplicate_opt(&self.source_artifact_hash),
            stdout_handle: duplicate_opt(&self.stdout_handle),
            stderr_handle: duplicate_opt(&self.stderr_handle),
        }
    }
}

impl VerificationFields {
    pub fn none() -> (r: VerificationFields)
        ensures
            r.deep_view() == VerificationFieldsView::none(),
    {
        VerificationFields {
            verification_kind: None,
            exit_code: None,
            executed_at: None,
            evidence_quality: None,
            source_artifact_path: None,
            source_artifact_hash: None,
            stdout_handle: None,
            stderr_handle: None,
        }
    }
}

impl VerificationFieldsView {
    pub open spec fn none() -> VerificationFieldsView {
        VerificationFieldsView {
            verification_kind: None,
            exit_code: None,
            executed_at: None,
            evidence_quality: None,
            source_artifact_path: None,
            source_artifact_hash: None,
            stdout_handle: None,
            stderr_handle: None,
        }
    }
}

/// What is recorded of a captured artifact.
#[derive(Debug, PartialEq, Eq)]
pub struct ArtifactFields {
    pub edit_kind: Option<String>,
    pub patch_status: Option<String>,
    pub patch_handle: Option<PatchHandle>,
    pub patch_bytes_hash: Option<String>,
    pub patch_bytes_size: Option<u64>,
    pub target_files: Option<Vec<String>>,
    pub validation_summary: Option<String>,
    pub base_commit: Option<String>,
    pub producer_session_id: Option<String>,
}

#[verifier::ext_equal]
pub struct ArtifactFieldsView {
    pub edit_kind: Option<Seq<char>>,
    pub patch_status: Option<Seq<char>>,
    pub patch_handle: Option<PatchHandleView>,
    pub patch_bytes_hash: Option<Seq<char>>,
    pub patch_bytes_size: Option<u64>,
    pub target_files: Option<Seq<Seq<char>>>,
    pub validation_summary: Option<Seq<char>>,
    pub base_commit: Option<Seq<char>>,
    pub producer_session_id: Option<Seq<char>>,
}

impl DeepView for ArtifactFields {
    type V = ArtifactFieldsView;

    open spec fn deep_view(&self) -> ArtifactFieldsView {
        ArtifactFieldsView {
            edit_kind: self.edit_kind.deep_view(),
            patch_status: self.patch_status.deep_view(),
            patch_handle: self.patch_handle.deep_view(),
            patch_bytes_hash: self.patch_bytes_hash.deep_view(),
            patch_bytes_size: self.patch_bytes_size,
            target_files: self.target_files.deep_view(),
            validation_summary: self.validation_summary.deep_view(),
            base_commit: self.base_commit.deep_view(),
            producer_session_id: self.producer_session_id.deep_view(),
        }
    }
}

impl Duplicate for ArtifactFields {
    fn duplicate(&self) -> (r: ArtifactFields) {
        ArtifactFields {
            edit_kind: duplicate_opt(&self.edit_kind),
            patch_status: duplicate_opt(&self.patch_status),
            patch_handle: duplicate_opt(&self.patch_handle),
            patch_bytes_hash: duplicate_opt(&self.patch_bytes_hash),
            patch_bytes_size: self.patch_bytes_size,
            target_files: duplicate_opt_all(&self.target_files),
            validation_summary: duplicate_opt(&self.validation_summary),
            base_commit: duplicate_opt(&self.base_commit),
            producer_session_id: duplicate_opt(&self.producer_session_id),
        }
    }
}

impl ArtifactFields {
    pub fn none() -> (r: ArtifactFields)
        ensures
            r.deep_view() == ArtifactFieldsView::none(),
    {
        ArtifactFields {
            edit_kind: None,
            patch_status: None,
            patch_handle: None,
            patch_bytes_hash: None,
            patch_bytes_size: None,
            target_files: None,
            validation_summary: None,
            base_commit: None,
            producer_session_id: None,
        }
    }
}

impl ArtifactFieldsView {
    pub open spec fn none() -> ArtifactFieldsView {
        ArtifactFieldsView {
            edit_kind: None,
            patch_status: None,
            patch_handle: None,
            patch_bytes_hash: None,
            patch_bytes_size: None,
            target_files: None,
            validation_summary: None,
            base_commit: None,
            producer_session_id: None,
        }
    }
}

/// A node of the evidence graph.
#[derive(Debug, PartialEq, Eq)]
pub struct NodeRecord {
    pub id: String,
    pub schema_version: u32,
    pub kind: NodeKind,
    pub repo_relative_path: Option<String>,
    pub span: Option<SourceSpan>,
    pub name: Option<String>,
    pub summary: String,
    pub text: Option<String>,
    pub domain: Option<String>,
    pub valid_time: Option<String>,
    pub valid_time_source: Option<String>,
    pub redaction_policy_version: Option<u32>,
    pub evidence_links: Option<Vec<EvidenceLink>>,
    pub temporal: Option<TemporalMetadata>,
    pub code: CodeFields,
    pub repository: RepositoryFields,
    pub project: ProjectFields,
    pub memory: MemoryFields,
    pub verification: VerificationFields,
    pub artifact: ArtifactFields,
    pub log: Option<LogPayload>,
    pub semantic_drift: Option<SemanticDriftMetadata>,
    pub producer: Option<Producer>,
}

#[verifier::ext_equal]
pub struct NodeRecordView {
    pub id: Seq<char>,
    pub schema_version: u32,
    pub kind: NodeKind,
    pub repo_relative_path: Option<Seq<char>>,
    pub span: Option<SourceSpan>,
    pub name: Option<Seq<char>>,
    pub summary: Seq<char>,
    pub text: Option<Seq<char>>,
    pub domain: Option<Seq<char>>,
    pub valid_time: Option<Seq<char>>,
    pub valid_time_source: Option<Seq<char>>,
    pub redaction_policy_version: Option<u32>,
    pub evidence_links: Option<Seq<EvidenceLinkView>>,
    pub temporal: Option<TemporalMetadataView>,
    pub code: CodeFieldsView,
    pub repository: RepositoryFieldsView,
    pub project: ProjectFieldsView,
    pub memory: MemoryFieldsView,
    pub verification: VerificationFieldsView,
    pub artifact: ArtifactFieldsView,
    pub log: Option<LogPayloadView>,
    pub semantic_drift: Option<SemanticDriftMetadataView>,
    pub producer: Option<ProducerView>,
}

impl DeepView for NodeRecord {
    type V = NodeRecordView;

    open spec fn deep_view(&self) -> NodeRecordView {
        NodeRecordView {
            id: self.id@,
            schema_version: self.schema_version,
            kind: self.kind,
            repo_relative_path: self.repo_relative_path.deep_view(),
            span: self.span,
            name: self.name.deep_view(),
            summary: self.summary@,
            text: self.text.deep_view(),
            domain: self.domain.deep_view(),
            valid_time: self.valid_time.deep_view(),
            valid_time_source: self.valid_time_source.deep_view(),
            redaction_policy_version: self.redaction_policy_version,
            evidence_links: self.evidence_links.deep_view(),
            temporal: self.temporal.deep_view(),
            code: self.code.deep_view(),
            repository: self.repository.deep_view(),
            project: self.project.deep_view(),
            memory: self.memory.deep_view(),
            verification: self.verification.deep_view(),
            artifact: self.artifact.deep_view(),
            log: self.log.deep_view(),
            semantic_drift: self.semantic_drift.deep_view(),
            producer: self.producer.deep_view(),
        }
    }
}

impl Duplicate for NodeRecord {
    fn duplicate(&self) -> (r: NodeRecord) {
        NodeRecord {
            id: self.id.clone(),
            schema_version: self.schema_version,
            kind: self.kind,
            repo_relative_path: duplicate_opt(&self.repo_relative_path),
            span: self.span,
            name: duplicate_opt(&self.name),
            summary: self.summary.clone(),
            text: duplicate_opt(&self.text),
            domain: duplicate_opt(&self.domain),
            valid_time: duplicate_opt(&self.valid_time),
            valid_time_source: duplicate_opt(&self.valid_time_source),
            redaction_policy_version: self.redaction_policy_version,
            evidence_links: duplicate_opt_all(&self.evidence_links),
            temporal: duplicate_opt(&self.temporal),
            code: self.code.duplicate(),
            repository: self.repository.duplicate(),
            project: self.project.duplicate(),
            memory: self.memory.duplicate(),
            verification: self.verification.duplicate(),
            artifact: self.artifact.duplicate(),
            log: duplicate_opt(&self.log),
            semantic_drift: duplicate_opt(&self.semantic_drift),
            producer: duplicate_opt(&self.producer),
        }
    }
}

/// A directed, labelled edge of the evidence graph.
#[derive(Debug, PartialEq, Eq)]
pub struct EdgeRecord {
    pub id: String,
    pub schema_version: u32,
    pub label: EdgeLabel,
    pub source: String,
    pub target: String,
    pub confidence: Option<String>,
    pub frame_resolution: Option<FrameResolution>,
    pub frame_index: Option<u32>,
    pub basis: Option<CorrelationBasis>,
    pub temporal: Option<TemporalMetadata>,
    pub summary: String,
    pub producer: Option<Producer>,
}

#[verifier::ext_equal]
pub struct EdgeRecordView {
    pub id: Seq<char>,
    pub schema_version: u32,
    pub label: EdgeLabel,
    pub source: Seq<char>,
    pub target: Seq<char>,
    pub confidence: Option<Seq<char>>,
    pub frame_resolution: Option<FrameResolution>,
    pub frame_index: Option<u32>,
    pub basis: Option<CorrelationBasis>,
    pub temporal: Option<TemporalMetadataView>,
    pub summary: Seq<char>,
    pub producer: Option<ProducerView>,
}

impl DeepView for EdgeRecord {
    type V = EdgeRecordView;

    open spec fn deep_view(&self) -> EdgeRecordView {
        EdgeRecordView {
            id: self.id@,
            schema_version: self.schema_version,
            label: self.label,
            source: self.source@,
            target: self.target@,
            confidence: self.confidence.deep_view(),
            frame_resolution: self.frame_resolution,
            frame_index: self.frame_index,
            basis: self.basis,
            temporal: self.temporal.deep_view(),
            summary: self.summary@,
            producer: self.producer.deep_view(),
        }
    }
}

impl Duplicate for EdgeRecord {
    fn duplicate(&self) -> (r: EdgeRecord) {
        EdgeRecord {
            id: self.id.clone(),
            schema_version: self.schema_version,
            label: self.label,
            source: self.source.clone(),
            target: self.target.clone(),
            confidence: duplicate_opt(&self.confidence),
            frame_resolution: self.frame_resolution,
            frame_index: self.frame_index,
            basis: self.basis,
            temporal: duplicate_opt(&self.temporal),
            summary: self.summary.clone(),
            producer: duplicate_opt(&self.producer),
        }
    }
}

/// The removal of a record.
#[derive(Debug, PartialEq, Eq)]
pub struct TombstoneRecord {
    pub id: String,
    pub schema_version: u32,
    pub deleted_id: String,
    pub summary: String,
    pub producer: Option<Producer>,
}

#[verifier::ext_equal]
pub struct TombstoneRecordView {
    pub id: Seq<char>,
    pub schema_version: u32,
    pub deleted_id: Seq<char>,
    pub summary: Seq<char>,
    pub producer: Option<ProducerView>,
}

impl DeepView for TombstoneRecord {
    type V = TombstoneRecordView;

    open spec fn deep_view(&self) -> TombstoneRecordView {
        TombstoneRecordView {
            id: self.id@,
            schema_version: self.schema_version,
            deleted_id: self.deleted_id@,
            summary: self.summary@,
            producer: self.producer.deep_view(),
        }
    }
}

impl Duplicate for TombstoneRecord {
    fn duplicate(&self) -> (r: TombstoneRecord) {
        TombstoneRecord {
            id: self.id.clone(),
            schema_version: self.schema_version,
            deleted_id: self.deleted_id.clone(),
            summary: self.summary.clone(),
            producer: duplicate_opt(&self.producer),
        }
    }
}
// ── Records ─────────────────────────────────────────────────────────────────

/// One record of the graph.
#[derive(Debug, PartialEq, Eq)]
pub enum GraphRecord {
    Node(NodeRecord),
    Edge(EdgeRecord),
    Tombstone(TombstoneRecord),
}

#[verifier::ext_equal]
pub enum RecordView {
    Node(NodeRecordView),
    Edge(EdgeRecordView),
    Tombstone(TombstoneRecordView),
}

impl DeepView for GraphRecord {
    type V = RecordView;

    open spec fn deep_view(&self) -> RecordView {
        match self {
            GraphRecord::Node(n) => RecordView::Node(n.deep_view()),
            GraphRecord::Edge(e) => RecordView::Edge(e.deep_view()),
            GraphRecord::Tombstone(t) => RecordView::Tombstone(t.deep_view()),
        }
    }
}

impl RecordView {
    pub open spec fn id(self) -> Seq<char> {
        match self {
            RecordView::Node(n) => n.id,
            RecordView::Edge(e) => e.id,
            RecordView::Tombstone(t) => t.id,
        }
    }

    pub open spec fn is_kind(self, kind: NodeKind) -> bool {
        self matches RecordView::Node(n) && n.kind == kind
    }
}

impl NodeRecordView {
    /// A node with nothing beyond what every node has.
    pub open spec fn plain(
        id: Seq<char>,
        kind: NodeKind,
        repo_relative_path: Option<Seq<char>>,
        span: Option<SourceSpan>,
        name: Option<Seq<char>>,
        summary: Seq<char>,
    ) -> NodeRecordView {
        NodeRecordView {
            id,
            schema_version: SCHEMA_VERSION,
            kind,
            repo_relative_path,
            span,
            name,
            summary,
            text: None,
            domain: None,
            valid_time: None,
            valid_time_source: None,
            redaction_policy_version: None,
            evidence_links: None,
            temporal: None,
            code: CodeFieldsView::none(),
            repository: RepositoryFieldsView::none(),
            project: ProjectFieldsView::none(),
            memory: MemoryFieldsView::none(),
            verification: VerificationFieldsView::none(),
            artifact: ArtifactFieldsView::none(),
            log: None,
            semantic_drift: None,
            producer: None,
        }
    }
}

impl NodeRecord {
    pub fn plain(
        id: String,
        kind: NodeKind,
        repo_relative_path: Option<String>,
        span: Option<SourceSpan>,
        name: Option<String>,
        summary: String,
    ) -> (r: NodeRecord)
        ensures
            r.deep_view() == NodeRecordView::plain(
                id@,
                kind,
                repo_relative_path.deep_view(),
                span,
                name.deep_view(),
                summary@,
            ),
    {
        NodeRecord {
            id,
            schema_version: SCHEMA_VERSION,
            kind,
            repo_relative_path,
            span,
            name,
            summary,
            text: None,
            domain: None,
            valid_time: None,
            valid_time_source: None,
            redaction_policy_version: None,
            evidence_links: None,
            temporal: None,
            code: CodeFields::none(),
            repository: RepositoryFields::none(),
            project: ProjectFields::none(),
            memory: MemoryFields::none(),
            verification: VerificationFields::none(),
            artifact: ArtifactFields::none(),
            log: None,
            semantic_drift: None,
            producer: None,
        }
    }
}

impl EdgeRecordView {
    /// An edge with nothing beyond what every edge has.
    pub open spec fn plain(
        id: Seq<char>,
        schema_version: u32,
        label: EdgeLabel,
        source: Seq<char>,
        target: Seq<char>,
        confidence: Option<Seq<char>>,
        summary: Seq<char>,
    ) -> EdgeRecordView {
        EdgeRecordView {
            id,
            schema_version,
            label,
            source,
            target,
            confidence,
            frame_resolution: None,
            frame_index: None,
            basis: None,
            temporal: None,
            summary,
            producer: None,
        }
    }
}

impl EdgeRecord {
    pub fn plain(
        id: String,
        schema_version: u32,
        label: EdgeLabel,
        source: String,
        target: String,
        confidence: Option<String>,
        summary: String,
    ) -> (r: EdgeRecord)
        ensures
            r.deep_view() == EdgeRecordView::plain(
                id@,
                schema_version,
                label,
                source@,
                target@,
                confidence.deep_view(),
                summary@,
            ),
    {
        EdgeRecord {
            id,
            schema_version,
            label,
            source,
            target,
            confidence,
            frame_resolution: None,
            frame_index: None,
            basis: None,
            temporal: None,
            summary,
            producer: None,
        }
    }
}

impl Duplicate for GraphRecord {
    fn duplicate(&self) -> (r: GraphRecord) {
        match self {
            GraphRecord::Node(n) => GraphRecord::Node(n.duplicate()),
            GraphRecord::Edge(e) => GraphRecord::Edge(e.duplicate()),
            GraphRecord::Tombstone(t) => GraphRecord::Tombstone(t.duplicate()),
        }
    }
}

impl GraphRecord {
    pub fn id(&self) -> (r: &str)
        ensures
            r@ == self.deep_view().id(),
    {
        match self {
            GraphRecord::Node(n) => n.id.as_str(),
            GraphRecord::Edge(e) => e.id.as_str(),
            GraphRecord::Tombstone(t) => t.id.as_str(),
        }
    }

    pub fn is_kind(&self, kind: NodeKind) -> (r: bool)
        ensures
            r == self.deep_view().is_kind(kind),
    {
        match self {
            GraphRecord::Node(n) => n.kind == kind,
            _ => false,
        }
    }

    /// A node with nothing beyond what every node has.
    pub fn node(
        id: String,
        kind: NodeKind,
        repo_relative_path: Option<String>,
        span: Option<SourceSpan>,
        name: Option<String>,
        summary: String,
    ) -> (r: GraphRecord)
        ensures
            r.deep_view() == RecordView::Node(
                NodeRecordView::plain(
                    id@,
                    kind,
                    repo_relative_path.deep_view(),
                    span,
                    name.deep_view(),
                    summary@,
                ),
            ),
    {
        GraphRecord::Node(NodeRecord::plain(id, kind, repo_relative_path, span, name, summary))
    }

    /// A code-graph edge; its identity is its label and its two ends.
    pub fn edge(
        label: EdgeLabel,
        source: String,
        target: String,
        confidence: Option<String>,
        summary: String,
    ) -> (r: GraphRecord)
        ensures
            r.deep_view() == RecordView::Edge(
                code_edge(label, source@, target@, confidence.deep_view(), summary@),
            ),
    {
        let id: String = stable_id(
            &parts4("edge", label.as_str(), source.as_str(), target.as_str()),
        );
        GraphRecord::Edge(
            EdgeRecord::plain(id, SCHEMA_VERSION, label, source, target, confidence, summary),
        )
    }

    pub fn with_evidence_links(self, links: Vec<EvidenceLink>) -> (r: GraphRecord)
        ensures
            r.deep_view() == (match self.deep_view() {
                RecordView::Node(n) => RecordView::Node(
                    NodeRecordView { evidence_links: Some(links.deep_view()), ..n },
                ),
                other => other,
            }),
    {
        match self {
            GraphRecord::Node(mut n) => {
                n.evidence_links = Some(links);
                GraphRecord::Node(n)
            },
            other => other,
        }
    }

    pub fn with_domain(self, domain: &str, version: u32) -> (r: GraphRecord)
        ensures
            r.deep_view() == (match self.deep_view() {
                RecordView::Node(n) => RecordView::Node(
                    NodeRecordView { domain: Some(domain@), schema_version: version, ..n },
                ),
                other => other,
            }),
    {
        match self {
            GraphRecord::Node(mut n) => {
                n.domain = Some(domain.to_owned());
                n.schema_version = version;
                GraphRecord::Node(n)
            },
            other => other,
        }
    }

    pub fn with_semantic_drift(self, drift: SemanticDriftMetadata) -> (r: GraphRecord)
        ensures
            r.deep_view() == (match self.deep_view() {
                RecordView::Node(n) => RecordView::Node(
                    NodeRecordView { semantic_drift: Some(drift.deep_view()), ..n },
                ),
                other => other,
            }),
    {
        match self {
            GraphRecord::Node(mut n) => {
                n.semantic_drift = Some(drift);
                GraphRecord::Node(n)
            },
            other => other,
        }
    }

    /// Stamps a node with a valid time that was inferred from the transaction time.
    pub fn with_valid_time_inferred(self, time: &str) -> (r: GraphRecord)
        ensures
            r.deep_view() == valid_time_inferred(self.deep_view(), time@),
    {
        match self {
            GraphRecord::Node(mut n) => {
                n.valid_time = Some(time.to_owned());
                n.valid_time_source = Some("inferred_from_transaction_time".to_owned());
                GraphRecord::Node(n)
            },
            other => other,
        }
    }

    pub fn with_producer(self, producer: &Producer) -> (r: GraphRecord)
        ensures
            r.deep_view() == produced(self.deep_view(), producer.deep_view()),
    {
        match self {
            GraphRecord::Node(mut n) => {
                n.producer = Some(producer.duplicate());
                GraphRecord::Node(n)
            },
            GraphRecord::Edge(mut e) => {
                e.producer = Some(producer.duplicate());
                GraphRecord::Edge(e)
            },
            GraphRecord::Tombstone(mut t) => {
                t.producer = Some(producer.duplicate());
                GraphRecord::Tombstone(t)
            },
        }
    }
}

pub open spec fn valid_time_inferred(r: RecordView, time: Seq<char>) -> RecordView {
    match r {
        RecordView::Node(n) => RecordView::Node(
            NodeRecordView {
                valid_time: Some(time),
                valid_time_source: Some("inferred_from_transaction_time"@),
                ..n
            },
        ),
        other => other,
    }
}

pub open spec fn produced(r: RecordView, producer: ProducerView) -> RecordView {
    match r {
        RecordView::Node(n) => RecordView::Node(
            NodeRecordView { producer: Some(producer), ..n },
        ),
        RecordView::Edge(e) => RecordView::Edge(EdgeRecordView { producer: Some(producer), ..e }),
        RecordView::Tombstone(t) => RecordView::Tombstone(
            TombstoneRecordView { producer: Some(producer), ..t },
        ),
    }
}

// ── Stable identities ───────────────────────────────────────────────────────

/// The BLAKE3 digest of some bytes, in lower-case hexadecimal.
pub uninterp spec fn blake3_hex(bytes: Seq<u8>) -> Seq<char>;

/// 64 lower-case hexadecimal digits.
pub open spec fn is_digest(s: Seq<char>) -> bool {
    s.len() == 64 && forall|i: int|
        0 <= i < 64 ==> ('0' <= #[trigger] s[i] && s[i] <= '9') || ('a' <= s[i] && s[i] <= 'f')
}

/// `blake3::hash` followed by `Hash::to_hex`: the digest depends on the bytes alone, and is written
/// with two lower-case hexadecimal digits for each of its 32 bytes.
#[verifier::external_body]
pub(crate) fn blake3_digest(bytes: &[u8]) -> (r: String)
    ensures
        r@ == blake3_hex(bytes@),
        is_digest(r@),
{
    blake3::hash(bytes).to_hex().to_string()
}

/// The digest of a text's UTF-8 bytes.
pub open spec fn text_digest(s: Seq<char>) -> Seq<char> {
    blake3_hex(vstd::utf8::encode_utf8(s))
}

pub fn digest_text(s: &str) -> (r: String)
    ensures
        r@ == text_digest(s@),
        is_digest(r@),
{
    blake3_digest(s.as_bytes())
}

/// The identity of what `parts` name, in the domain that `prefix` names.
pub open spec fn domain_id(prefix: Seq<char>, parts: Seq<Seq<char>>) -> Seq<char> {
    prefix + text_digest(joined(parts, seq!['\0']))
}

pub open spec fn code_id(parts: Seq<Seq<char>>) -> Seq<char> {
    domain_id("codegraph:v1:"@, parts)
}

pub open spec fn project_id(parts: Seq<Seq<char>>) -> Seq<char> {
    domain_id("project:v1:"@, parts)
}

pub open spec fn log_id(parts: Seq<Seq<char>>) -> Seq<char> {
    domain_id("log:v1:"@, parts)
}

fn make_id(prefix: &str, parts: &Vec<String>) -> (r: String)
    ensures
        r@ == domain_id(prefix@, parts.deep_view()),
{
    proof {
        reveal_strlit("\0");
        assert("\0"@ =~= seq!['\0']);
    }
    cat(prefix, digest_text(join(parts, "\0").as_str()).as_str())
}

pub fn stable_id(parts: &Vec<String>) -> (r: String)
    ensures
        r@ == code_id(parts.deep_view()),
{
    make_id("codegraph:v1:", parts)
}

pub fn project_stable_id(parts: &Vec<String>) -> (r: String)
    ensures
        r@ == project_id(parts.deep_view()),
{
    make_id("project:v1:", parts)
}

pub fn log_stable_id(parts: &Vec<String>) -> (r: String)
    ensures
        r@ == log_id(parts.deep_view()),
{
    make_id("log:v1:", parts)
}

pub open spec fn edge_key(
    label: EdgeLabel,
    source: Seq<char>,
    target: Seq<char>,
) -> Seq<Seq<char>> {
    seq!["edge"@, label.name(), source, target]
}

pub open spec fn code_edge(
    label: EdgeLabel,
    source: Seq<char>,
    target: Seq<char>,
    confidence: Option<Seq<char>>,
    summary: Seq<char>,
) -> EdgeRecordView {
    EdgeRecordView::plain(
        code_id(edge_key(label, source, target)),
        SCHEMA_VERSION,
        label,
        source,
        target,
        confidence,
        summary,
    )
}

/// The domain that a record identity names: what stands in front of its first colon.
pub open spec fn id_domain(id: Seq<char>) -> Option<Seq<char>> {
    match crate::text::split_first(id, seq![':']) {
        Some((domain, _)) => Some(domain),
        None => None,
    }
}

pub fn domain_from_record_id(id: &str) -> (r: Option<String>)
    ensures
        r.deep_view() == id_domain(id@),
{
    proof {
        reveal_strlit(":");
        assert(":"@ =~= seq![':']);
    }
    match crate::text::split_once(id, ":") {
        Some((domain, _)) => Some(domain),
        None => None,
    }
}

// ── Graphs ──────────────────────────────────────────────────────────────────

/// Records in the order in which they were added.
#[derive(Debug, PartialEq, Eq)]
pub struct Graph {
    pub records: Vec<GraphRecord>,
}

impl View for Graph {
    type V = Seq<RecordView>;

    open spec fn view(&self) -> Seq<RecordView> {
        self.records.deep_view()
    }
}

impl Graph {
    pub fn new() -> (r: Graph)
        ensures
            r@ == Seq::<RecordView>::empty(),
    {
        let r = Graph { records: Vec::new() };
        assert(r@ =~= Seq::<RecordView>::empty());
        r
    }

    pub fn push(&mut self, record: GraphRecord)
        ensures
            final(self)@ == old(self)@.push(record.deep_view()),
    {
        self.records.push(record);
        assert(self@ =~= old(self)@.push(record.deep_view()));
    }

    pub fn records(&self) -> (r: &Vec<GraphRecord>)
        ensures
            r.deep_view() == self@,
    {
        &self.records
    }

    /// Names the producer on every record.
    pub fn stamp_producer(self, producer: &Producer) -> (r: Graph)
        ensures
            r@ == self@.map_values(|x: RecordView| produced(x, producer.deep_view())),
    {
        let mut out: Graph = Graph::new();
        let mut i: usize = 0;
        while i < self.records.len()
            invariant
                i <= self.records.len(),
                out@ == self@.take(i as int).map_values(
                    |x: RecordView| produced(x, producer.deep_view()),
                ),
            decreases self.records.len() - i,
        {
            out.push(self.records[i].duplicate().with_producer(producer));
            assert(out@ =~= self@.take(i + 1).map_values(
                |x: RecordView| produced(x, producer.deep_view()),
            ));
            i += 1;
        }
        assert(self@.take(self.records.len() as int) =~= self@);
        out
    }
}

} // verus!
