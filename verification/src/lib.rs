//! Evidence-graph core.
//!
//! Source files, logs and task files become records of one graph: nodes and edges with stable
//! identities. Other parts link, resolve and audit these records, and answer questions about them.
pub mod assoc;
pub mod duplicate;
pub mod ir;
pub mod json;
pub mod languages;
pub mod laws;
pub mod liveness;
pub mod local_project;
pub mod log_graph;
pub mod log_link;
pub mod log_resolve;
pub mod mcp;
pub mod mcp_contract;
pub mod memory_evidence_health;
pub mod order;
pub mod path;
pub mod policy;
pub mod query;
pub mod scan;
pub mod text;
pub mod time;

pub use crate::ir::{
    EdgeLabel, EmbeddingModel, ErrorSignaturePayload, EvidenceLink, Graph, GraphRecord,
    IdentitySource, LOG_SCHEMA_VERSION, LogEventPayload, LogOccurrenceBucketPayload, LogPayload,
    LogSourcePayload, MetricKind, NodeKind, PROJECT_SCHEMA_VERSION, PatchHandle, Producer,
    ProducerKind, RepositoryIdentityPayload, SCHEMA_VERSION, SEMANTIC_SCHEMA_VERSION,
    ScanCoveragePayload, SelectionBasis, SemanticDriftMetadata, SnapshotHead, SourceSnapshotPayload,
    SourceSpan, SymbolRole, TemporalMetadata, log_stable_id, project_stable_id, stable_id,
};
pub use crate::local_project::import_local_tasks;
pub use crate::scan::{
    scan_repository, scan_repository_at, scan_repository_at_with_exclusions,
    scan_repository_at_with_override, scan_repository_with_exclusions,
    scan_repository_with_override,
};
