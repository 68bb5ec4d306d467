//! The published schemas of the tools' answers.
//!
//! The contract version rises only with a breaking change: a field that goes away, changes its
//! name, its type or its meaning, or an error code that changes. New tools, parameters, fields and
//! error codes never raise it, and the schemas forbid no additional field anywhere.
use vstd::prelude::*;

use crate::json::{flag, no_elements, no_members, text, Elements, Json, JsonView, Members};
use crate::text::{cat, same};

verus! {

/// The version of the contract, distinct from the protocol's and from that of records.
pub const MCP_CONTRACT_VERSION: u32 = 1;

/// The tools that the contract covers, in the order of their registration.
pub const MCP_CONTRACT_TOOLS: [&'static str; 5] = [
    "inspect_store",
    "symbol_context",
    "task_evidence",
    "store_freshness",
    "failure_history",
];

// ── Fragments ───────────────────────────────────────────────────────────────

/// A string.
pub open spec fn string_schema_json() -> JsonView {
    JsonView::Obj(seq![("type"@, JsonView::Str("string"@))])
}

fn string_schema() -> (r: Json)
    ensures
        r.deep_view() == string_schema_json(),
{
    Members::new().with_text("type", "string").object()
}

/// An integer.
pub open spec fn integer_schema_json() -> JsonView {
    JsonView::Obj(seq![("type"@, JsonView::Str("integer"@))])
}

fn integer_schema() -> (r: Json)
    ensures
        r.deep_view() == integer_schema_json(),
{
    Members::new().with_text("type", "integer").object()
}

/// A string, or nothing.
pub open spec fn str_or_null_json() -> JsonView {
    JsonView::Obj(
        no_members()
            .push(("type"@, JsonView::Arr(
                no_elements()
                    .push(JsonView::Str("string"@))
                    .push(JsonView::Str("null"@)),
            ))),
    )
}

fn str_or_null() -> (r: Json)
    ensures
        r.deep_view() == str_or_null_json(),
{
    Members::new()
        .with(
            "type",
            Elements::new()
                .with_text("string")
                .with_text("null")
                .array(),
        )
        .object()
}

/// An integer, or nothing.
pub open spec fn int_or_null_json() -> JsonView {
    JsonView::Obj(
        no_members()
            .push(("type"@, JsonView::Arr(
                no_elements()
                    .push(JsonView::Str("integer"@))
                    .push(JsonView::Str("null"@)),
            ))),
    )
}

fn int_or_null() -> (r: Json)
    ensures
        r.deep_view() == int_or_null_json(),
{
    Members::new()
        .with(
            "type",
            Elements::new()
                .with_text("integer")
                .with_text("null")
                .array(),
        )
        .object()
}

/// A boolean.
pub open spec fn bool_schema_json() -> JsonView {
    JsonView::Obj(
        no_members()
            .push(("type"@, JsonView::Str("boolean"@))),
    )
}

fn bool_schema() -> (r: Json)
    ensures
        r.deep_view() == bool_schema_json(),
{
    Members::new()
        .with_text("type", "boolean")
        .object()
}

/// How far a record is to be trusted.
pub open spec fn trust_schema_json() -> JsonView {
    JsonView::Obj(
        no_members()
            .push(("type"@, JsonView::Str("string"@)))
            .push(("enum"@, JsonView::Arr(
                no_elements()
                    .push(JsonView::Str("source_derived"@))
                    .push(JsonView::Str("verification_evidence"@))
                    .push(JsonView::Str("agent_verified"@))
                    .push(JsonView::Str("agent_unverified"@))
                    .push(JsonView::Str("agent_contradicted"@))
                    .push(JsonView::Str("project_state"@))
                    .push(JsonView::Str("artifact"@))
                    .push(JsonView::Str("runtime_observation"@))
                    .push(JsonView::Str("other"@)),
            ))),
    )
}

fn trust_schema() -> (r: Json)
    ensures
        r.deep_view() == trust_schema_json(),
{
    Members::new()
        .with_text("type", "string")
        .with(
            "enum",
            Elements::new()
                .with_text("source_derived")
                .with_text("verification_evidence")
                .with_text("agent_verified")
                .with_text("agent_unverified")
                .with_text("agent_contradicted")
                .with_text("project_state")
                .with_text("artifact")
                .with_text("runtime_observation")
                .with_text("other")
                .array(),
        )
        .object()
}

/// A place in a source file.
pub open spec fn span_schema_json() -> JsonView {
    JsonView::Obj(
        no_members()
            .push(("type"@, JsonView::Arr(
                no_elements()
                    .push(JsonView::Str("object"@))
                    .push(JsonView::Str("null"@)),
            )))
            .push(("additionalProperties"@, JsonView::Bool(true)))
            .push(("required"@, JsonView::Arr(
                no_elements()
                    .push(JsonView::Str("start_byte"@))
                    .push(JsonView::Str("end_byte"@))
                    .push(JsonView::Str("start_line"@))
                    .push(JsonView::Str("end_line"@)),
            )))
            .push(("properties"@, JsonView::Obj(
                no_members()
                    .push(("start_byte"@, integer_schema_json()))
                    .push(("end_byte"@, integer_schema_json()))
                    .push(("start_line"@, integer_schema_json()))
                    .push(("end_line"@, integer_schema_json()))
                    .push(("start_column"@, int_or_null_json()))
                    .push(("end_column"@, int_or_null_json())),
            ))),
    )
}

fn span_schema() -> (r: Json)
    ensures
        r.deep_view() == span_schema_json(),
{
    Members::new()
        .with(
            "type",
            Elements::new()
                .with_text("object")
                .with_text("null")
                .array(),
        )
        .with("additionalProperties", flag(true))
        .with(
            "required",
            Elements::new()
                .with_text("start_byte")
                .with_text("end_byte")
                .with_text("start_line")
                .with_text("end_line")
                .array(),
        )
        .with(
            "properties",
            Members::new()
                .with("start_byte", integer_schema())
                .with("end_byte", integer_schema())
                .with("start_line", integer_schema())
                .with("end_line", integer_schema())
                .with("start_column", int_or_null())
                .with("end_column", int_or_null())
                .object(),
        )
        .object()
}

/// A link from a claim to what it rests on.
pub open spec fn evidence_link_schema_json() -> JsonView {
    JsonView::Obj(
        no_members()
            .push(("type"@, JsonView::Str("object"@)))
            .push(("additionalProperties"@, JsonView::Bool(true)))
            .push(("properties"@, JsonView::Obj(
                no_members()
                    .push(("target_record_id"@, str_or_null_json()))
                    .push(("target_domain"@, string_schema_json()))
                    .push(("relation"@, string_schema_json()))
                    .push(("confidence"@, string_schema_json())),
            ))),
    )
}

fn evidence_link_schema() -> (r: Json)
    ensures
        r.deep_view() == evidence_link_schema_json(),
{
    Members::new()
        .with_text("type", "object")
        .with("additionalProperties", flag(true))
        .with(
            "properties",
            Members::new()
                .with("target_record_id", str_or_null())
                .with("target_domain", string_schema())
                .with("relation", string_schema())
                .with("confidence", string_schema())
                .object(),
        )
        .object()
}

/// Such links.
pub open spec fn evidence_links_schema_json() -> JsonView {
    JsonView::Obj(
        no_members()
            .push(("type"@, JsonView::Str("array"@)))
            .push(("items"@, evidence_link_schema_json())),
    )
}

fn evidence_links_schema() -> (r: Json)
    ensures
        r.deep_view() == evidence_links_schema_json(),
{
    Members::new()
        .with_text("type", "array")
        .with("items", evidence_link_schema())
        .object()
}

/// What every returned record carries: its identity, its kind and how far it is to be trusted.
pub open spec fn record_header_properties_json() -> Seq<(Seq<char>, JsonView)> {
    no_members()
        .push(("record_id"@, string_schema_json()))
        .push(("kind"@, string_schema_json()))
        .push(("trust"@, trust_schema_json()))
}

fn record_header_properties() -> (r: Members)
    ensures
        r@ == record_header_properties_json(),
{
    Members::new()
        .with("record_id", string_schema())
        .with("kind", string_schema())
        .with("trust", trust_schema())
}

/// A deterministic code-graph record.
pub open spec fn source_fact_properties_json() -> Seq<(Seq<char>, JsonView)> {
    record_header_properties_json()
        .push(("name"@, str_or_null_json()))
        .push(("repo_relative_path"@, str_or_null_json()))
        .push(("span"@, span_schema_json()))
        .push(("git_commit"@, str_or_null_json()))
        .push(("valid_time"@, str_or_null_json()))
        .push(("language"@, str_or_null_json()))
        .push(("symbol_kind"@, str_or_null_json()))
}

fn source_fact_properties() -> (r: Members)
    ensures
        r@ == source_fact_properties_json(),
{
    record_header_properties()
        .with("name", str_or_null())
        .with("repo_relative_path", str_or_null())
        .with("span", span_schema())
        .with("git_commit", str_or_null())
        .with("valid_time", str_or_null())
        .with("language", str_or_null())
        .with("symbol_kind", str_or_null())
}

/// A row of source facts.
pub open spec fn source_fact_schema_json() -> JsonView {
    JsonView::Obj(
        no_members()
            .push(("type"@, JsonView::Str("object"@)))
            .push(("additionalProperties"@, JsonView::Bool(true)))
            .push(("required"@, JsonView::Arr(
                no_elements()
                    .push(JsonView::Str("record_id"@))
                    .push(JsonView::Str("kind"@))
                    .push(JsonView::Str("trust"@)),
            )))
            .push(("properties"@, JsonView::Obj(source_fact_properties_json()))),
    )
}

fn source_fact_schema() -> (r: Json)
    ensures
        r.deep_view() == source_fact_schema_json(),
{
    Members::new()
        .with_text("type", "object")
        .with("additionalProperties", flag(true))
        .with(
            "required",
            Elements::new()
                .with_text("record_id")
                .with_text("kind")
                .with_text("trust")
                .array(),
        )
        .with("properties", source_fact_properties().object())
        .object()
}

/// An agent-authored record.
pub open spec fn observation_properties_json() -> Seq<(Seq<char>, JsonView)> {
    record_header_properties_json()
        .push(("summary"@, str_or_null_json()))
        .push(("text"@, str_or_null_json()))
        .push(("provenance_handle"@, str_or_null_json()))
        .push(("agent_id"@, str_or_null_json()))
        .push(("session_id"@, str_or_null_json()))
        .push(("observed_at"@, str_or_null_json()))
        .push(("confidence"@, str_or_null_json()))
        .push(("failure_kind"@, str_or_null_json()))
        .push(("exit_code"@, int_or_null_json()))
        .push(("evidence_links"@, evidence_links_schema_json()))
}

fn observation_properties() -> (r: Members)
    ensures
        r@ == observation_properties_json(),
{
    record_header_properties()
        .with("summary", str_or_null())
        .with("text", str_or_null())
        .with("provenance_handle", str_or_null())
        .with("agent_id", str_or_null())
        .with("session_id", str_or_null())
        .with("observed_at", str_or_null())
        .with("confidence", str_or_null())
        .with("failure_kind", str_or_null())
        .with("exit_code", int_or_null())
        .with("evidence_links", evidence_links_schema())
}

/// A row of observations.
pub open spec fn observation_schema_json() -> JsonView {
    JsonView::Obj(
        no_members()
            .push(("type"@, JsonView::Str("object"@)))
            .push(("additionalProperties"@, JsonView::Bool(true)))
            .push(("required"@, JsonView::Arr(
                no_elements()
                    .push(JsonView::Str("record_id"@))
                    .push(JsonView::Str("kind"@))
                    .push(JsonView::Str("trust"@)),
            )))
            .push(("properties"@, JsonView::Obj(observation_properties_json()))),
    )
}

fn observation_schema() -> (r: Json)
    ensures
        r.deep_view() == observation_schema_json(),
{
    Members::new()
        .with_text("type", "object")
        .with("additionalProperties", flag(true))
        .with(
            "required",
            Elements::new()
                .with_text("record_id")
                .with_text("kind")
                .with_text("trust")
                .array(),
        )
        .with("properties", observation_properties().object())
        .object()
}

/// An agent-authored decision with its reasons and the handles it rests on.
pub open spec fn decision_properties_json() -> Seq<(Seq<char>, JsonView)> {
    record_header_properties_json()
        .push(("summary"@, string_schema_json()))
        .push(("decision_text"@, str_or_null_json()))
        .push(("rationale_summary"@, str_or_null_json()))
        .push(("provenance_handle"@, str_or_null_json()))
        .push(("agent_id"@, str_or_null_json()))
        .push(("session_id"@, str_or_null_json()))
        .push(("observed_at"@, str_or_null_json()))
        .push(("confidence"@, str_or_null_json()))
        .push(("evidence_handles"@, JsonView::Obj(
            no_members()
                .push(("type"@, JsonView::Str("array"@)))
                .push(("items"@, JsonView::Obj(
                    no_members()
                        .push(("type"@, JsonView::Str("object"@)))
                        .push(("additionalProperties"@, JsonView::Bool(true)))
                        .push(("required"@, JsonView::Arr(
                            no_elements()
                                .push(JsonView::Str("relation"@))
                                .push(JsonView::Str("target_record_id"@))
                                .push(JsonView::Str("target_kind"@)),
                        )))
                        .push(("properties"@, JsonView::Obj(
                            no_members()
                                .push(("relation"@, string_schema_json()))
                                .push(("target_record_id"@, string_schema_json()))
                                .push(("target_kind"@, string_schema_json())),
                        ))),
                ))),
        )))
}

fn decision_properties() -> (r: Members)
    ensures
        r@ == decision_properties_json(),
{
    record_header_properties()
        .with("summary", string_schema())
        .with("decision_text", str_or_null())
        .with("rationale_summary", str_or_null())
        .with("provenance_handle", str_or_null())
        .with("agent_id", str_or_null())
        .with("session_id", str_or_null())
        .with("observed_at", str_or_null())
        .with("confidence", str_or_null())
        .with(
            "evidence_handles",
            Members::new()
                .with_text("type", "array")
                .with(
                    "items",
                    Members::new()
                        .with_text("type", "object")
                        .with("additionalProperties", flag(true))
                        .with(
                            "required",
                            Elements::new()
                                .with_text("relation")
                                .with_text("target_record_id")
                                .with_text("target_kind")
                                .array(),
                        )
                        .with(
                            "properties",
                            Members::new()
                                .with("relation", string_schema())
                                .with("target_record_id", string_schema())
                                .with("target_kind", string_schema())
                                .object(),
                        )
                        .object(),
                )
                .object(),
        )
}

/// A row of decisions.
pub open spec fn decision_schema_json() -> JsonView {
    JsonView::Obj(
        no_members()
            .push(("type"@, JsonView::Str("object"@)))
            .push(("additionalProperties"@, JsonView::Bool(true)))
            .push(("required"@, JsonView::Arr(
                no_elements()
                    .push(JsonView::Str("record_id"@))
                    .push(JsonView::Str("kind"@))
                    .push(JsonView::Str("trust"@))
                    .push(JsonView::Str("decision_text"@))
                    .push(JsonView::Str("rationale_summary"@)),
            )))
            .push(("properties"@, JsonView::Obj(decision_properties_json()))),
    )
}

fn decision_schema() -> (r: Json)
    ensures
        r.deep_view() == decision_schema_json(),
{
    Members::new()
        .with_text("type", "object")
        .with("additionalProperties", flag(true))
        .with(
            "required",
            Elements::new()
                .with_text("record_id")
                .with_text("kind")
                .with_text("trust")
                .with_text("decision_text")
                .with_text("rationale_summary")
                .array(),
        )
        .with("properties", decision_properties().object())
        .object()
}

/// The citation of an output: never the output itself.
pub open spec fn output_handle_citation_schema_json() -> JsonView {
    JsonView::Obj(
        no_members()
            .push(("type"@, JsonView::Arr(
                no_elements()
                    .push(JsonView::Str("object"@))
                    .push(JsonView::Str("null"@)),
            )))
            .push(("additionalProperties"@, JsonView::Bool(true)))
            .push(("properties"@, JsonView::Obj(
                no_members()
                    .push(("hash"@, string_schema_json()))
                    .push(("bytes"@, integer_schema_json())),
            ))),
    )
}

fn output_handle_citation_schema() -> (r: Json)
    ensures
        r.deep_view() == output_handle_citation_schema_json(),
{
    Members::new()
        .with(
            "type",
            Elements::new()
                .with_text("object")
                .with_text("null")
                .array(),
        )
        .with("additionalProperties", flag(true))
        .with(
            "properties",
            Members::new()
                .with("hash", string_schema())
                .with("bytes", integer_schema())
                .object(),
        )
        .object()
}

/// The citation of a patch: never its bytes.
pub open spec fn patch_handle_citation_schema_json() -> JsonView {
    JsonView::Obj(
        no_members()
            .push(("type"@, JsonView::Arr(
                no_elements()
                    .push(JsonView::Str("object"@))
                    .push(JsonView::Str("null"@)),
            )))
            .push(("additionalProperties"@, JsonView::Bool(true)))
            .push(("properties"@, JsonView::Obj(
                no_members()
                    .push(("path"@, string_schema_json())),
            ))),
    )
}

fn patch_handle_citation_schema() -> (r: Json)
    ensures
        r.deep_view() == patch_handle_citation_schema_json(),
{
    Members::new()
        .with(
            "type",
            Elements::new()
                .with_text("object")
                .with_text("null")
                .array(),
        )
        .with("additionalProperties", flag(true))
        .with(
            "properties",
            Members::new()
                .with("path", string_schema())
                .object(),
        )
        .object()
}

/// A task, criterion, artifact, verification, review or link.
pub open spec fn linked_item_properties_json() -> Seq<(Seq<char>, JsonView)> {
    record_header_properties_json()
        .push(("summary"@, str_or_null_json()))
        .push(("title"@, str_or_null_json()))
        .push(("name"@, str_or_null_json()))
        .push(("text"@, str_or_null_json()))
        .push(("status"@, str_or_null_json()))
        .push(("verification_kind"@, str_or_null_json()))
        .push(("exit_code"@, int_or_null_json()))
        .push(("executed_at"@, str_or_null_json()))
        .push(("evidence_quality"@, str_or_null_json()))
        .push(("source_artifact_path"@, str_or_null_json()))
        .push(("source_artifact_hash"@, str_or_null_json()))
        .push(("stdout_handle"@, output_handle_citation_schema_json()))
        .push(("stderr_handle"@, output_handle_citation_schema_json()))
        .push(("repo_relative_path"@, str_or_null_json()))
        .push(("edit_kind"@, str_or_null_json()))
        .push(("patch_status"@, str_or_null_json()))
        .push(("patch_handle"@, patch_handle_citation_schema_json()))
        .push(("patch_bytes_hash"@, str_or_null_json()))
        .push(("patch_bytes_size"@, int_or_null_json()))
        .push(("target_files"@, JsonView::Obj(
            no_members()
                .push(("type"@, JsonView::Arr(
                    no_elements()
                        .push(JsonView::Str("array"@))
                        .push(JsonView::Str("null"@)),
                )))
                .push(("items"@, string_schema_json())),
        )))
        .push(("validation_summary"@, str_or_null_json()))
        .push(("base_commit"@, str_or_null_json()))
        .push(("producer_session_id"@, str_or_null_json()))
        .push(("body_handle"@, output_handle_citation_schema_json()))
        .push(("author"@, str_or_null_json()))
        .push(("url"@, str_or_null_json()))
        .push(("system_native_id"@, str_or_null_json()))
        .push(("evidence_links"@, evidence_links_schema_json()))
}

fn linked_item_properties() -> (r: Members)
    ensures
        r@ == linked_item_properties_json(),
{
    record_header_properties()
        .with("summary", str_or_null())
        .with("title", str_or_null())
        .with("name", str_or_null())
        .with("text", str_or_null())
        .with("status", str_or_null())
        .with("verification_kind", str_or_null())
        .with("exit_code", int_or_null())
        .with("executed_at", str_or_null())
        .with("evidence_quality", str_or_null())
        .with("source_artifact_path", str_or_null())
        .with("source_artifact_hash", str_or_null())
        .with("stdout_handle", output_handle_citation_schema())
        .with("stderr_handle", output_handle_citation_schema())
        .with("repo_relative_path", str_or_null())
        .with("edit_kind", str_or_null())
        .with("patch_status", str_or_null())
        .with("patch_handle", patch_handle_citation_schema())
        .with("patch_bytes_hash", str_or_null())
        .with("patch_bytes_size", int_or_null())
        .with(
            "target_files",
            Members::new()
                .with(
                    "type",
                    Elements::new()
                        .with_text("array")
                        .with_text("null")
                        .array(),
                )
                .with("items", string_schema())
                .object(),
        )
        .with("validation_summary", str_or_null())
        .with("base_commit", str_or_null())
        .with("producer_session_id", str_or_null())
        .with("body_handle", output_handle_citation_schema())
        .with("author", str_or_null())
        .with("url", str_or_null())
        .with("system_native_id", str_or_null())
        .with("evidence_links", evidence_links_schema())
}

/// A row of linked items. It carries citations only, no payloads.
pub open spec fn linked_item_schema_json() -> JsonView {
    JsonView::Obj(
        no_members()
            .push(("type"@, JsonView::Str("object"@)))
            .push(("additionalProperties"@, JsonView::Bool(true)))
            .push(("required"@, JsonView::Arr(
                no_elements()
                    .push(JsonView::Str("record_id"@))
                    .push(JsonView::Str("kind"@))
                    .push(JsonView::Str("trust"@)),
            )))
            .push(("properties"@, JsonView::Obj(linked_item_properties_json()))),
    )
}

fn linked_item_schema() -> (r: Json)
    ensures
        r.deep_view() == linked_item_schema_json(),
{
    Members::new()
        .with_text("type", "object")
        .with("additionalProperties", flag(true))
        .with(
            "required",
            Elements::new()
                .with_text("record_id")
                .with_text("kind")
                .with_text("trust")
                .array(),
        )
        .with("properties", linked_item_properties().object())
        .object()
}

/// A linked item that may carry its verification.
pub open spec fn acceptance_criterion_properties_json() -> Seq<(Seq<char>, JsonView)> {
    linked_item_properties_json()
        .push(("verification_record"@, JsonView::Obj(
            no_members()
                .push(("type"@, JsonView::Str("object"@)))
                .push(("additionalProperties"@, JsonView::Bool(true))),
        )))
}

fn acceptance_criterion_properties() -> (r: Members)
    ensures
        r@ == acceptance_criterion_properties_json(),
{
    linked_item_properties()
        .with(
            "verification_record",
            Members::new()
                .with_text("type", "object")
                .with("additionalProperties", flag(true))
                .object(),
        )
}

/// A row of acceptance criteria.
pub open spec fn acceptance_criterion_schema_json() -> JsonView {
    JsonView::Obj(
        no_members()
            .push(("type"@, JsonView::Str("object"@)))
            .push(("additionalProperties"@, JsonView::Bool(true)))
            .push(("required"@, JsonView::Arr(
                no_elements()
                    .push(JsonView::Str("record_id"@))
                    .push(JsonView::Str("kind"@))
                    .push(JsonView::Str("trust"@)),
            )))
            .push(("properties"@, JsonView::Obj(acceptance_criterion_properties_json()))),
    )
}

fn acceptance_criterion_schema() -> (r: Json)
    ensures
        r.deep_view() == acceptance_criterion_schema_json(),
{
    Members::new()
        .with_text("type", "object")
        .with("additionalProperties", flag(true))
        .with(
            "required",
            Elements::new()
                .with_text("record_id")
                .with_text("kind")
                .with_text("trust")
                .array(),
        )
        .with("properties", acceptance_criterion_properties().object())
        .object()
}

/// A row of topology edges.
pub open spec fn topology_edge_schema_json() -> JsonView {
    JsonView::Obj(
        no_members()
            .push(("type"@, JsonView::Str("object"@)))
            .push(("additionalProperties"@, JsonView::Bool(true)))
            .push(("required"@, JsonView::Arr(
                no_elements()
                    .push(JsonView::Str("record_id"@))
                    .push(JsonView::Str("trust"@))
                    .push(JsonView::Str("label"@))
                    .push(JsonView::Str("source_id"@))
                    .push(JsonView::Str("target_id"@)),
            )))
            .push(("properties"@, JsonView::Obj(
                no_members()
                    .push(("record_id"@, string_schema_json()))
                    .push(("trust"@, trust_schema_json()))
                    .push(("label"@, string_schema_json()))
                    .push(("source_id"@, string_schema_json()))
                    .push(("target_id"@, string_schema_json()))
                    .push(("summary"@, str_or_null_json()))
                    .push(("git_commit"@, str_or_null_json()))
                    .push(("valid_time"@, str_or_null_json())),
            ))),
    )
}

fn topology_edge_schema() -> (r: Json)
    ensures
        r.deep_view() == topology_edge_schema_json(),
{
    Members::new()
        .with_text("type", "object")
        .with("additionalProperties", flag(true))
        .with(
            "required",
            Elements::new()
                .with_text("record_id")
                .with_text("trust")
                .with_text("label")
                .with_text("source_id")
                .with_text("target_id")
                .array(),
        )
        .with(
            "properties",
            Members::new()
                .with("record_id", string_schema())
                .with("trust", trust_schema())
                .with("label", string_schema())
                .with("source_id", string_schema())
                .with("target_id", string_schema())
                .with("summary", str_or_null())
                .with("git_commit", str_or_null())
                .with("valid_time", str_or_null())
                .object(),
        )
        .object()
}

/// A row of semantic drift.
pub open spec fn drift_row_schema_json() -> JsonView {
    JsonView::Obj(
        no_members()
            .push(("type"@, JsonView::Str("object"@)))
            .push(("additionalProperties"@, JsonView::Bool(true)))
            .push(("required"@, JsonView::Arr(
                no_elements()
                    .push(JsonView::Str("record_id"@))
                    .push(JsonView::Str("trust"@))
                    .push(JsonView::Str("score"@))
                    .push(JsonView::Str("before_commit"@))
                    .push(JsonView::Str("after_commit"@))
                    .push(JsonView::Str("before_valid_time"@))
                    .push(JsonView::Str("after_valid_time"@))
                    .push(JsonView::Str("embedding_model"@)),
            )))
            .push(("properties"@, JsonView::Obj(
                no_members()
                    .push(("record_id"@, string_schema_json()))
                    .push(("trust"@, trust_schema_json()))
                    .push(("score"@, JsonView::Obj(
                        no_members()
                            .push(("type"@, JsonView::Str("number"@))),
                    )))
                    .push(("before_commit"@, string_schema_json()))
                    .push(("after_commit"@, string_schema_json()))
                    .push(("before_valid_time"@, string_schema_json()))
                    .push(("after_valid_time"@, string_schema_json()))
                    .push(("embedding_model"@, string_schema_json()))
                    .push(("repo_relative_path"@, string_schema_json()))
                    .push(("span"@, span_schema_json())),
            ))),
    )
}

fn drift_row_schema() -> (r: Json)
    ensures
        r.deep_view() == drift_row_schema_json(),
{
    Members::new()
        .with_text("type", "object")
        .with("additionalProperties", flag(true))
        .with(
            "required",
            Elements::new()
                .with_text("record_id")
                .with_text("trust")
                .with_text("score")
                .with_text("before_commit")
                .with_text("after_commit")
                .with_text("before_valid_time")
                .with_text("after_valid_time")
                .with_text("embedding_model")
                .array(),
        )
        .with(
            "properties",
            Members::new()
                .with("record_id", string_schema())
                .with("trust", trust_schema())
                .with(
                    "score",
                    Members::new()
                        .with_text("type", "number")
                        .object(),
                )
                .with("before_commit", string_schema())
                .with("after_commit", string_schema())
                .with("before_valid_time", string_schema())
                .with("after_valid_time", string_schema())
                .with("embedding_model", string_schema())
                .with("repo_relative_path", string_schema())
                .with("span", span_schema())
                .object(),
        )
        .object()
}

/// A reference to something that is not in the store.
pub open spec fn unresolved_schema_json() -> JsonView {
    JsonView::Obj(
        no_members()
            .push(("type"@, JsonView::Str("object"@)))
            .push(("additionalProperties"@, JsonView::Bool(true)))
            .push(("required"@, JsonView::Arr(
                no_elements()
                    .push(JsonView::Str("source_record_id"@))
                    .push(JsonView::Str("target_handle"@))
                    .push(JsonView::Str("relation"@))
                    .push(JsonView::Str("target_domain"@))
                    .push(JsonView::Str("verification_status"@)),
            )))
            .push(("properties"@, JsonView::Obj(
                no_members()
                    .push(("source_record_id"@, string_schema_json()))
                    .push(("target_handle"@, string_schema_json()))
                    .push(("relation"@, string_schema_json()))
                    .push(("target_domain"@, string_schema_json()))
                    .push(("verification_status"@, JsonView::Obj(
                        no_members()
                            .push(("const"@, JsonView::Str("unresolved"@))),
                    ))),
            ))),
    )
}

fn unresolved_schema() -> (r: Json)
    ensures
        r.deep_view() == unresolved_schema_json(),
{
    Members::new()
        .with_text("type", "object")
        .with("additionalProperties", flag(true))
        .with(
            "required",
            Elements::new()
                .with_text("source_record_id")
                .with_text("target_handle")
                .with_text("relation")
                .with_text("target_domain")
                .with_text("verification_status")
                .array(),
        )
        .with(
            "properties",
            Members::new()
                .with("source_record_id", string_schema())
                .with("target_handle", string_schema())
                .with("relation", string_schema())
                .with("target_domain", string_schema())
                .with(
                    "verification_status",
                    Members::new()
                        .with_text("const", "unresolved")
                        .object(),
                )
                .object(),
        )
        .object()
}

/// Which domains the store holds at all.
pub open spec fn store_coverage_schema_json() -> JsonView {
    JsonView::Obj(
        no_members()
            .push(("type"@, JsonView::Str("object"@)))
            .push(("additionalProperties"@, JsonView::Bool(true)))
            .push(("required"@, JsonView::Arr(
                no_elements()
                    .push(JsonView::Str("code_graph"@))
                    .push(JsonView::Str("agent_memory"@))
                    .push(JsonView::Str("project"@))
                    .push(JsonView::Str("artifact"@))
                    .push(JsonView::Str("verification"@)),
            )))
            .push(("properties"@, JsonView::Obj(
                no_members()
                    .push(("code_graph"@, bool_schema_json()))
                    .push(("agent_memory"@, bool_schema_json()))
                    .push(("project"@, bool_schema_json()))
                    .push(("artifact"@, bool_schema_json()))
                    .push(("verification"@, bool_schema_json())),
            ))),
    )
}

fn store_coverage_schema() -> (r: Json)
    ensures
        r.deep_view() == store_coverage_schema_json(),
{
    Members::new()
        .with_text("type", "object")
        .with("additionalProperties", flag(true))
        .with(
            "required",
            Elements::new()
                .with_text("code_graph")
                .with_text("agent_memory")
                .with_text("project")
                .with_text("artifact")
                .with_text("verification")
                .array(),
        )
        .with(
            "properties",
            Members::new()
                .with("code_graph", bool_schema())
                .with("agent_memory", bool_schema())
                .with("project", bool_schema())
                .with("artifact", bool_schema())
                .with("verification", bool_schema())
                .object(),
        )
        .object()
}

/// Where a working tree stands.
pub open spec fn snapshot_head_schema_json() -> JsonView {
    JsonView::Obj(
        no_members()
            .push(("type"@, JsonView::Str("object"@)))
            .push(("additionalProperties"@, JsonView::Bool(true)))
            .push(("required"@, JsonView::Arr(
                no_elements()
                    .push(JsonView::Str("state"@)),
            )))
            .push(("properties"@, JsonView::Obj(
                no_members()
                    .push(("state"@, JsonView::Obj(
                        no_members()
                            .push(("type"@, JsonView::Str("string"@)))
                            .push(("enum"@, JsonView::Arr(
                                no_elements()
                                    .push(JsonView::Str("commit"@))
                                    .push(JsonView::Str("no_git"@))
                                    .push(JsonView::Str("unborn_head"@)),
                            ))),
                    )))
                    .push(("sha"@, string_schema_json())),
            ))),
    )
}

fn snapshot_head_schema() -> (r: Json)
    ensures
        r.deep_view() == snapshot_head_schema_json(),
{
    Members::new()
        .with_text("type", "object")
        .with("additionalProperties", flag(true))
        .with(
            "required",
            Elements::new()
                .with_text("state")
                .array(),
        )
        .with(
            "properties",
            Members::new()
                .with(
                    "state",
                    Members::new()
                        .with_text("type", "string")
                        .with(
                            "enum",
                            Elements::new()
                                .with_text("commit")
                                .with_text("no_git")
                                .with_text("unborn_head")
                                .array(),
                        )
                        .object(),
                )
                .with("sha", string_schema())
                .object(),
        )
        .object()
}

/// The snapshot that a store was made from, or the explicit marker that it names none.
pub open spec fn stored_snapshot_schema_json() -> JsonView {
    JsonView::Obj(
        no_members()
            .push(("anyOf"@, JsonView::Arr(
                no_elements()
                    .push(JsonView::Obj(
                        no_members()
                            .push(("type"@, JsonView::Str("object"@)))
                            .push(("additionalProperties"@, JsonView::Bool(true)))
                            .push(("required"@, JsonView::Arr(
                                no_elements()
                                    .push(JsonView::Str("head"@))
                                    .push(JsonView::Str("dirty"@))
                                    .push(JsonView::Str("repository_id"@))
                                    .push(JsonView::Str("scanned_at"@)),
                            )))
                            .push(("properties"@, JsonView::Obj(
                                no_members()
                                    .push(("head"@, snapshot_head_schema_json()))
                                    .push(("dirty"@, bool_schema_json()))
                                    .push(("repository_id"@, string_schema_json()))
                                    .push(("scanned_at"@, string_schema_json())),
                            ))),
                    ))
                    .push(JsonView::Obj(
                        no_members()
                            .push(("description"@, JsonView::Str("Explicit marker for a pre-stamping store — never a silent absence, never a false `fresh`."@)))
                            .push(("type"@, JsonView::Str("object"@)))
                            .push(("required"@, JsonView::Arr(
                                no_elements()
                                    .push(JsonView::Str("state"@)),
                            )))
                            .push(("properties"@, JsonView::Obj(
                                no_members()
                                    .push(("state"@, JsonView::Obj(
                                        no_members()
                                            .push(("const"@, JsonView::Str("pre_stamping"@))),
                                    ))),
                            ))),
                    )),
            ))),
    )
}

fn stored_snapshot_schema() -> (r: Json)
    ensures
        r.deep_view() == stored_snapshot_schema_json(),
{
    Members::new()
        .with(
            "anyOf",
            Elements::new()
                .with(Members::new()
                    .with_text("type", "object")
                    .with("additionalProperties", flag(true))
                    .with(
                        "required",
                        Elements::new()
                            .with_text("head")
                            .with_text("dirty")
                            .with_text("repository_id")
                            .with_text("scanned_at")
                            .array(),
                    )
                    .with(
                        "properties",
                        Members::new()
                            .with("head", snapshot_head_schema())
                            .with("dirty", bool_schema())
                            .with("repository_id", string_schema())
                            .with("scanned_at", string_schema())
                            .object(),
                    )
                    .object())
                .with(Members::new()
                    .with_text("description", "Explicit marker for a pre-stamping store — never a silent absence, never a false `fresh`.")
                    .with_text("type", "object")
                    .with(
                        "required",
                        Elements::new()
                            .with_text("state")
                            .array(),
                    )
                    .with(
                        "properties",
                        Members::new()
                            .with(
                                "state",
                                Members::new()
                                    .with_text("const", "pre_stamping")
                                    .object(),
                            )
                            .object(),
                    )
                    .object())
                .array(),
        )
        .object()
}

/// The trust signal on every answer.
pub open spec fn freshness_schema_json() -> JsonView {
    JsonView::Obj(
        no_members()
            .push(("type"@, JsonView::Str("object"@)))
            .push(("additionalProperties"@, JsonView::Bool(true)))
            .push(("required"@, JsonView::Arr(
                no_elements()
                    .push(JsonView::Str("verdict"@))
                    .push(JsonView::Str("fresh"@))
                    .push(JsonView::Str("repository_id"@))
                    .push(JsonView::Str("repo_path"@))
                    .push(JsonView::Str("stored_snapshot"@))
                    .push(JsonView::Str("current_head"@))
                    .push(JsonView::Str("current_dirty"@))
                    .push(JsonView::Str("message"@)),
            )))
            .push(("properties"@, JsonView::Obj(
                no_members()
                    .push(("verdict"@, JsonView::Obj(
                        no_members()
                            .push(("type"@, JsonView::Str("string"@)))
                            .push(("enum"@, JsonView::Arr(
                                no_elements()
                                    .push(JsonView::Str("fresh"@))
                                    .push(JsonView::Str("stale_head"@))
                                    .push(JsonView::Str("stale_dirty"@))
                                    .push(JsonView::Str("unknown"@)),
                            ))),
                    )))
                    .push(("fresh"@, bool_schema_json()))
                    .push(("repository_id"@, string_schema_json()))
                    .push(("repo_path"@, string_schema_json()))
                    .push(("stored_snapshot"@, stored_snapshot_schema_json()))
                    .push(("current_head"@, snapshot_head_schema_json()))
                    .push(("current_dirty"@, bool_schema_json()))
                    .push(("message"@, string_schema_json())),
            ))),
    )
}

fn freshness_schema() -> (r: Json)
    ensures
        r.deep_view() == freshness_schema_json(),
{
    Members::new()
        .with_text("type", "object")
        .with("additionalProperties", flag(true))
        .with(
            "required",
            Elements::new()
                .with_text("verdict")
                .with_text("fresh")
                .with_text("repository_id")
                .with_text("repo_path")
                .with_text("stored_snapshot")
                .with_text("current_head")
                .with_text("current_dirty")
                .with_text("message")
                .array(),
        )
        .with(
            "properties",
            Members::new()
                .with(
                    "verdict",
                    Members::new()
                        .with_text("type", "string")
                        .with(
                            "enum",
                            Elements::new()
                                .with_text("fresh")
                                .with_text("stale_head")
                                .with_text("stale_dirty")
                                .with_text("unknown")
                                .array(),
                        )
                        .object(),
                )
                .with("fresh", bool_schema())
                .with("repository_id", string_schema())
                .with("repo_path", string_schema())
                .with("stored_snapshot", stored_snapshot_schema())
                .with("current_head", snapshot_head_schema())
                .with("current_dirty", bool_schema())
                .with("message", string_schema())
                .object(),
        )
        .object()
}

// ── Tools ───────────────────────────────────────────────────────────────────

/// What every tool's schema begins with.
pub open spec fn schema_head_json(tool: Seq<char>, description: Seq<char>) -> Seq<
    (Seq<char>, JsonView),
> {
    no_members()
        .push(("$schema"@, JsonView::Str("https://json-schema.org/draft/2020-12/schema"@)))
        .push(("title"@, JsonView::Str("Egregore MCP tool response: "@ + tool)))
        .push(("description"@, JsonView::Str(description)))
}

fn schema_head(tool: &str, description: &str) -> (r: Members)
    ensures
        r@ == schema_head_json(tool@, description@),
{
    Members::new()
        .with_text("$schema", "https://json-schema.org/draft/2020-12/schema")
        .with_text("title", cat("Egregore MCP tool response: ", tool).as_str())
        .with_text("description", description)
}

pub open spec fn inspect_store_properties_json() -> JsonView {
    JsonView::Obj(
        no_members()
            .push(("ok"@, JsonView::Obj(
                no_members()
                    .push(("const"@, JsonView::Bool(true))),
            )))
            .push(("snapshot_timestamp"@, str_or_null_json()))
            .push(("records"@, integer_schema_json()))
            .push(("nodes"@, integer_schema_json()))
            .push(("edges"@, integer_schema_json()))
            .push(("tombstones"@, integer_schema_json()))
            .push(("diagnostics"@, integer_schema_json()))
            .push(("domain_counts"@, JsonView::Obj(
                no_members()
                    .push(("type"@, JsonView::Str("object"@)))
                    .push(("additionalProperties"@, JsonView::Obj(
                        no_members()
                            .push(("type"@, JsonView::Str("object"@)))
                            .push(("additionalProperties"@, integer_schema_json())),
                    ))),
            )))
            .push(("schema_versions"@, JsonView::Obj(
                no_members()
                    .push(("type"@, JsonView::Str("object"@)))
                    .push(("additionalProperties"@, integer_schema_json())),
            )))
            .push(("unknown_schema_versions"@, JsonView::Obj(
                no_members()
                    .push(("type"@, JsonView::Str("object"@)))
                    .push(("additionalProperties"@, integer_schema_json())),
            )))
            .push(("repositories"@, JsonView::Obj(
                no_members()
                    .push(("type"@, JsonView::Str("array"@)))
                    .push(("items"@, JsonView::Obj(
                        no_members()
                            .push(("type"@, JsonView::Str("object"@)))
                            .push(("additionalProperties"@, JsonView::Bool(true)))
                            .push(("required"@, JsonView::Arr(
                                no_elements()
                                    .push(JsonView::Str("id"@))
                                    .push(JsonView::Str("identity_summary"@)),
                            )))
                            .push(("properties"@, JsonView::Obj(
                                no_members()
                                    .push(("id"@, string_schema_json()))
                                    .push(("identity_summary"@, string_schema_json())),
                            ))),
                    ))),
            )))
            .push(("freshness"@, freshness_schema_json())),
    )
}

fn inspect_store_properties() -> (r: Json)
    ensures
        r.deep_view() == inspect_store_properties_json(),
{
    Members::new()
        .with(
            "ok",
            Members::new()
                .with("const", flag(true))
                .object(),
        )
        .with("snapshot_timestamp", str_or_null())
        .with("records", integer_schema())
        .with("nodes", integer_schema())
        .with("edges", integer_schema())
        .with("tombstones", integer_schema())
        .with("diagnostics", integer_schema())
        .with(
            "domain_counts",
            Members::new()
                .with_text("type", "object")
                .with(
                    "additionalProperties",
                    Members::new()
                        .with_text("type", "object")
                        .with("additionalProperties", integer_schema())
                        .object(),
                )
                .object(),
        )
        .with(
            "schema_versions",
            Members::new()
                .with_text("type", "object")
                .with("additionalProperties", integer_schema())
                .object(),
        )
        .with(
            "unknown_schema_versions",
            Members::new()
                .with_text("type", "object")
                .with("additionalProperties", integer_schema())
                .object(),
        )
        .with(
            "repositories",
            Members::new()
                .with_text("type", "array")
                .with(
                    "items",
                    Members::new()
                        .with_text("type", "object")
                        .with("additionalProperties", flag(true))
                        .with(
                            "required",
                            Elements::new()
                                .with_text("id")
                                .with_text("identity_summary")
                                .array(),
                        )
                        .with(
                            "properties",
                            Members::new()
                                .with("id", string_schema())
                                .with("identity_summary", string_schema())
                                .object(),
                        )
                        .object(),
                )
                .object(),
        )
        .with("freshness", freshness_schema())
        .object()
}

/// The answer of `inspect_store`.
pub open spec fn inspect_store_schema_json() -> JsonView {
    JsonView::Obj(
        schema_head_json(
            "inspect_store"@,
            "Structured store-inspection summary (issue #194)."@,
        )
            .push(("type"@, JsonView::Str("object"@)))
            .push(("additionalProperties"@, JsonView::Bool(true)))
            .push(("required"@, JsonView::Arr(
                no_elements()
                    .push(JsonView::Str("ok"@))
                    .push(JsonView::Str("records"@))
                    .push(JsonView::Str("nodes"@))
                    .push(JsonView::Str("edges"@))
                    .push(JsonView::Str("tombstones"@))
                    .push(JsonView::Str("diagnostics"@))
                    .push(JsonView::Str("domain_counts"@))
                    .push(JsonView::Str("schema_versions"@))
                    .push(JsonView::Str("unknown_schema_versions"@))
                    .push(JsonView::Str("repositories"@))
                    .push(JsonView::Str("freshness"@)),
            )))
            .push(("properties"@, inspect_store_properties_json())),
    )
}

fn inspect_store_schema() -> (r: Json)
    ensures
        r.deep_view() == inspect_store_schema_json(),
{
    schema_head(
        "inspect_store",
        "Structured store-inspection summary (issue #194).",
    )
        .with_text("type", "object")
        .with("additionalProperties", flag(true))
        .with(
            "required",
            Elements::new()
                .with_text("ok")
                .with_text("records")
                .with_text("nodes")
                .with_text("edges")
                .with_text("tombstones")
                .with_text("diagnostics")
                .with_text("domain_counts")
                .with_text("schema_versions")
                .with_text("unknown_schema_versions")
                .with_text("repositories")
                .with_text("freshness")
                .array(),
        )
        .with("properties", inspect_store_properties())
        .object()
}

pub open spec fn symbol_context_properties_json() -> JsonView {
    JsonView::Obj(
        no_members()
            .push(("ok"@, JsonView::Obj(
                no_members()
                    .push(("const"@, JsonView::Bool(true))),
            )))
            .push(("symbol_name"@, string_schema_json()))
            .push(("source_facts"@, JsonView::Obj(
                no_members()
                    .push(("type"@, JsonView::Str("array"@)))
                    .push(("items"@, source_fact_schema_json())),
            )))
            .push(("topology_edges"@, JsonView::Obj(
                no_members()
                    .push(("type"@, JsonView::Str("array"@)))
                    .push(("items"@, topology_edge_schema_json())),
            )))
            .push(("observations"@, JsonView::Obj(
                no_members()
                    .push(("type"@, JsonView::Str("array"@)))
                    .push(("items"@, observation_schema_json())),
            )))
            .push(("decisions"@, JsonView::Obj(
                no_members()
                    .push(("type"@, JsonView::Str("array"@)))
                    .push(("items"@, decision_schema_json())),
            )))
            .push(("project_state"@, JsonView::Obj(
                no_members()
                    .push(("type"@, JsonView::Str("array"@)))
                    .push(("items"@, linked_item_schema_json())),
            )))
            .push(("artifacts"@, JsonView::Obj(
                no_members()
                    .push(("type"@, JsonView::Str("array"@)))
                    .push(("items"@, linked_item_schema_json())),
            )))
            .push(("verification_evidence"@, JsonView::Obj(
                no_members()
                    .push(("type"@, JsonView::Str("array"@)))
                    .push(("items"@, linked_item_schema_json())),
            )))
            .push(("drift_history"@, JsonView::Obj(
                no_members()
                    .push(("type"@, JsonView::Str("array"@)))
                    .push(("items"@, drift_row_schema_json())),
            )))
            .push(("unresolved"@, JsonView::Obj(
                no_members()
                    .push(("type"@, JsonView::Str("array"@)))
                    .push(("items"@, unresolved_schema_json())),
            )))
            .push(("store_coverage"@, store_coverage_schema_json()))
            .push(("freshness"@, freshness_schema_json())),
    )
}

fn symbol_context_properties() -> (r: Json)
    ensures
        r.deep_view() == symbol_context_properties_json(),
{
    Members::new()
        .with(
            "ok",
            Members::new()
                .with("const", flag(true))
                .object(),
        )
        .with("symbol_name", string_schema())
        .with(
            "source_facts",
            Members::new()
                .with_text("type", "array")
                .with("items", source_fact_schema())
                .object(),
        )
        .with(
            "topology_edges",
            Members::new()
                .with_text("type", "array")
                .with("items", topology_edge_schema())
                .object(),
        )
        .with(
            "observations",
            Members::new()
                .with_text("type", "array")
                .with("items", observation_schema())
                .object(),
        )
        .with(
            "decisions",
            Members::new()
                .with_text("type", "array")
                .with("items", decision_schema())
                .object(),
        )
        .with(
            "project_state",
            Members::new()
                .with_text("type", "array")
                .with("items", linked_item_schema())
                .object(),
        )
        .with(
            "artifacts",
            Members::new()
                .with_text("type", "array")
                .with("items", linked_item_schema())
                .object(),
        )
        .with(
            "verification_evidence",
            Members::new()
                .with_text("type", "array")
                .with("items", linked_item_schema())
                .object(),
        )
        .with(
            "drift_history",
            Members::new()
                .with_text("type", "array")
                .with("items", drift_row_schema())
                .object(),
        )
        .with(
            "unresolved",
            Members::new()
                .with_text("type", "array")
                .with("items", unresolved_schema())
                .object(),
        )
        .with("store_coverage", store_coverage_schema())
        .with("freshness", freshness_schema())
        .object()
}

/// The answer of `symbol_context`.
pub open spec fn symbol_context_schema_json() -> JsonView {
    JsonView::Obj(
        schema_head_json(
            "symbol_context"@,
            "Evidence-backed symbol context, trust-separated by domain (issue #194)."@,
        )
            .push(("type"@, JsonView::Str("object"@)))
            .push(("additionalProperties"@, JsonView::Bool(true)))
            .push(("required"@, JsonView::Arr(
                no_elements()
                    .push(JsonView::Str("ok"@))
                    .push(JsonView::Str("symbol_name"@))
                    .push(JsonView::Str("source_facts"@))
                    .push(JsonView::Str("topology_edges"@))
                    .push(JsonView::Str("observations"@))
                    .push(JsonView::Str("decisions"@))
                    .push(JsonView::Str("project_state"@))
                    .push(JsonView::Str("artifacts"@))
                    .push(JsonView::Str("verification_evidence"@))
                    .push(JsonView::Str("drift_history"@))
                    .push(JsonView::Str("unresolved"@))
                    .push(JsonView::Str("store_coverage"@))
                    .push(JsonView::Str("freshness"@)),
            )))
            .push(("properties"@, symbol_context_properties_json())),
    )
}

fn symbol_context_schema() -> (r: Json)
    ensures
        r.deep_view() == symbol_context_schema_json(),
{
    schema_head(
        "symbol_context",
        "Evidence-backed symbol context, trust-separated by domain (issue #194).",
    )
        .with_text("type", "object")
        .with("additionalProperties", flag(true))
        .with(
            "required",
            Elements::new()
                .with_text("ok")
                .with_text("symbol_name")
                .with_text("source_facts")
                .with_text("topology_edges")
                .with_text("observations")
                .with_text("decisions")
                .with_text("project_state")
                .with_text("artifacts")
                .with_text("verification_evidence")
                .with_text("drift_history")
                .with_text("unresolved")
                .with_text("store_coverage")
                .with_text("freshness")
                .array(),
        )
        .with("properties", symbol_context_properties())
        .object()
}

pub open spec fn task_evidence_properties_json() -> JsonView {
    JsonView::Obj(
        no_members()
            .push(("ok"@, JsonView::Obj(
                no_members()
                    .push(("const"@, JsonView::Bool(true))),
            )))
            .push(("task_id"@, string_schema_json()))
            .push(("tasks"@, JsonView::Obj(
                no_members()
                    .push(("type"@, JsonView::Str("array"@)))
                    .push(("items"@, linked_item_schema_json())),
            )))
            .push(("acceptance_criteria"@, JsonView::Obj(
                no_members()
                    .push(("type"@, JsonView::Str("array"@)))
                    .push(("items"@, acceptance_criterion_schema_json())),
            )))
            .push(("source_facts"@, JsonView::Obj(
                no_members()
                    .push(("type"@, JsonView::Str("array"@)))
                    .push(("items"@, source_fact_schema_json())),
            )))
            .push(("observations"@, JsonView::Obj(
                no_members()
                    .push(("type"@, JsonView::Str("array"@)))
                    .push(("items"@, observation_schema_json())),
            )))
            .push(("decisions"@, JsonView::Obj(
                no_members()
                    .push(("type"@, JsonView::Str("array"@)))
                    .push(("items"@, decision_schema_json())),
            )))
            .push(("artifacts"@, JsonView::Obj(
                no_members()
                    .push(("type"@, JsonView::Str("array"@)))
                    .push(("items"@, linked_item_schema_json())),
            )))
            .push(("verification_evidence"@, JsonView::Obj(
                no_members()
                    .push(("type"@, JsonView::Str("array"@)))
                    .push(("items"@, linked_item_schema_json())),
            )))
            .push(("reviews"@, JsonView::Obj(
                no_members()
                    .push(("type"@, JsonView::Str("array"@)))
                    .push(("items"@, linked_item_schema_json())),
            )))
            .push(("external_links"@, JsonView::Obj(
                no_members()
                    .push(("type"@, JsonView::Str("array"@)))
                    .push(("items"@, linked_item_schema_json())),
            )))
            .push(("unresolved"@, JsonView::Obj(
                no_members()
                    .push(("type"@, JsonView::Str("array"@)))
                    .push(("items"@, unresolved_schema_json())),
            )))
            .push(("store_coverage"@, store_coverage_schema_json()))
            .push(("freshness"@, freshness_schema_json())),
    )
}

fn task_evidence_properties() -> (r: Json)
    ensures
        r.deep_view() == task_evidence_properties_json(),
{
    Members::new()
        .with(
            "ok",
            Members::new()
                .with("const", flag(true))
                .object(),
        )
        .with("task_id", string_schema())
        .with(
            "tasks",
            Members::new()
                .with_text("type", "array")
                .with("items", linked_item_schema())
                .object(),
        )
        .with(
            "acceptance_criteria",
            Members::new()
                .with_text("type", "array")
                .with("items", acceptance_criterion_schema())
                .object(),
        )
        .with(
            "source_facts",
            Members::new()
                .with_text("type", "array")
                .with("items", source_fact_schema())
                .object(),
        )
        .with(
            "observations",
            Members::new()
                .with_text("type", "array")
                .with("items", observation_schema())
                .object(),
        )
        .with(
            "decisions",
            Members::new()
                .with_text("type", "array")
                .with("items", decision_schema())
                .object(),
        )
        .with(
            "artifacts",
            Members::new()
                .with_text("type", "array")
                .with("items", linked_item_schema())
                .object(),
        )
        .with(
            "verification_evidence",
            Members::new()
                .with_text("type", "array")
                .with("items", linked_item_schema())
                .object(),
        )
        .with(
            "reviews",
            Members::new()
                .with_text("type", "array")
                .with("items", linked_item_schema())
                .object(),
        )
        .with(
            "external_links",
            Members::new()
                .with_text("type", "array")
                .with("items", linked_item_schema())
                .object(),
        )
        .with(
            "unresolved",
            Members::new()
                .with_text("type", "array")
                .with("items", unresolved_schema())
                .object(),
        )
        .with("store_coverage", store_coverage_schema())
        .with("freshness", freshness_schema())
        .object()
}

/// The answer of `task_evidence`.
pub open spec fn task_evidence_schema_json() -> JsonView {
    JsonView::Obj(
        schema_head_json(
            "task_evidence"@,
            "Evidence-backed task context, trust-separated by domain (issue #194)."@,
        )
            .push(("type"@, JsonView::Str("object"@)))
            .push(("additionalProperties"@, JsonView::Bool(true)))
            .push(("required"@, JsonView::Arr(
                no_elements()
                    .push(JsonView::Str("ok"@))
                    .push(JsonView::Str("task_id"@))
                    .push(JsonView::Str("tasks"@))
                    .push(JsonView::Str("acceptance_criteria"@))
                    .push(JsonView::Str("source_facts"@))
                    .push(JsonView::Str("observations"@))
                    .push(JsonView::Str("decisions"@))
                    .push(JsonView::Str("artifacts"@))
                    .push(JsonView::Str("verification_evidence"@))
                    .push(JsonView::Str("reviews"@))
                    .push(JsonView::Str("external_links"@))
                    .push(JsonView::Str("unresolved"@))
                    .push(JsonView::Str("store_coverage"@))
                    .push(JsonView::Str("freshness"@)),
            )))
            .push(("properties"@, task_evidence_properties_json())),
    )
}

fn task_evidence_schema() -> (r: Json)
    ensures
        r.deep_view() == task_evidence_schema_json(),
{
    schema_head(
        "task_evidence",
        "Evidence-backed task context, trust-separated by domain (issue #194).",
    )
        .with_text("type", "object")
        .with("additionalProperties", flag(true))
        .with(
            "required",
            Elements::new()
                .with_text("ok")
                .with_text("task_id")
                .with_text("tasks")
                .with_text("acceptance_criteria")
                .with_text("source_facts")
                .with_text("observations")
                .with_text("decisions")
                .with_text("artifacts")
                .with_text("verification_evidence")
                .with_text("reviews")
                .with_text("external_links")
                .with_text("unresolved")
                .with_text("store_coverage")
                .with_text("freshness")
                .array(),
        )
        .with("properties", task_evidence_properties())
        .object()
}

pub open spec fn store_freshness_properties_json() -> JsonView {
    JsonView::Obj(
        no_members()
            .push(("ok"@, JsonView::Obj(
                no_members()
                    .push(("const"@, JsonView::Bool(true))),
            )))
            .push(("freshness"@, freshness_schema_json())),
    )
}

fn store_freshness_properties() -> (r: Json)
    ensures
        r.deep_view() == store_freshness_properties_json(),
{
    Members::new()
        .with(
            "ok",
            Members::new()
                .with("const", flag(true))
                .object(),
        )
        .with("freshness", freshness_schema())
        .object()
}

/// The answer of `store_freshness`.
pub open spec fn store_freshness_schema_json() -> JsonView {
    JsonView::Obj(
        schema_head_json(
            "store_freshness"@,
            "Store-freshness verdict for the whole store (issue #194)."@,
        )
            .push(("type"@, JsonView::Str("object"@)))
            .push(("additionalProperties"@, JsonView::Bool(true)))
            .push(("required"@, JsonView::Arr(
                no_elements()
                    .push(JsonView::Str("ok"@))
                    .push(JsonView::Str("freshness"@)),
            )))
            .push(("properties"@, store_freshness_properties_json())),
    )
}

fn store_freshness_schema() -> (r: Json)
    ensures
        r.deep_view() == store_freshness_schema_json(),
{
    schema_head(
        "store_freshness",
        "Store-freshness verdict for the whole store (issue #194).",
    )
        .with_text("type", "object")
        .with("additionalProperties", flag(true))
        .with(
            "required",
            Elements::new()
                .with_text("ok")
                .with_text("freshness")
                .array(),
        )
        .with("properties", store_freshness_properties())
        .object()
}

/// The trust classes of audit rows.
pub open spec fn audit_trust_class_schema_json() -> JsonView {
    JsonView::Obj(
        no_members()
            .push(("type"@, JsonView::Str("string"@)))
            .push(("enum"@, JsonView::Arr(
                no_elements()
                    .push(JsonView::Str("agent_authored"@))
                    .push(JsonView::Str("verification_evidence"@))
                    .push(JsonView::Str("source_fact"@))
                    .push(JsonView::Str("project_state"@))
                    .push(JsonView::Str("artifact"@))
                    .push(JsonView::Str("runtime_observation"@))
                    .push(JsonView::Str("other"@)),
            ))),
    )
}

fn audit_trust_class_schema() -> (r: Json)
    ensures
        r.deep_view() == audit_trust_class_schema_json(),
{
    Members::new()
        .with_text("type", "string")
        .with(
            "enum",
            Elements::new()
                .with_text("agent_authored")
                .with_text("verification_evidence")
                .with_text("source_fact")
                .with_text("project_state")
                .with_text("artifact")
                .with_text("runtime_observation")
                .with_text("other")
                .array(),
        )
        .object()
}

/// What every audit row begins with.
pub open spec fn audit_head_properties_json() -> Seq<(Seq<char>, JsonView)> {
    no_members()
        .push(("record_id"@, string_schema_json()))
        .push(("kind"@, string_schema_json()))
        .push(("trust_class"@, audit_trust_class_schema_json()))
        .push(("relation"@, string_schema_json()))
        .push(("citable_handle"@, string_schema_json()))
        .push(("summary"@, string_schema_json()))
        .push(("summary_hash"@, str_or_null_json()))
        .push(("name"@, str_or_null_json()))
        .push(("title"@, str_or_null_json()))
        .push(("repo_relative_path"@, str_or_null_json()))
        .push(("span"@, JsonView::Obj(
            no_members()
                .push(("type"@, JsonView::Arr(
                    no_elements()
                        .push(JsonView::Str("object"@))
                        .push(JsonView::Str("null"@)),
                )))
                .push(("additionalProperties"@, JsonView::Bool(true))),
        )))
        .push(("status"@, str_or_null_json()))
        .push(("verification_kind"@, str_or_null_json()))
}

fn audit_head_properties() -> (r: Members)
    ensures
        r@ == audit_head_properties_json(),
{
    Members::new()
        .with("record_id", string_schema())
        .with("kind", string_schema())
        .with("trust_class", audit_trust_class_schema())
        .with("relation", string_schema())
        .with("citable_handle", string_schema())
        .with("summary", string_schema())
        .with("summary_hash", str_or_null())
        .with("name", str_or_null())
        .with("title", str_or_null())
        .with("repo_relative_path", str_or_null())
        .with(
            "span",
            Members::new()
                .with(
                    "type",
                    Elements::new()
                        .with_text("object")
                        .with_text("null")
                        .array(),
                )
                .with("additionalProperties", flag(true))
                .object(),
        )
        .with("status", str_or_null())
        .with("verification_kind", str_or_null())
}

/// An audit row: citations, never payload bytes.
pub open spec fn audit_item_properties_json() -> Seq<(Seq<char>, JsonView)> {
    audit_head_properties_json()
        .push(("exit_code"@, int_or_null_json()))
        .push(("source_artifact_path"@, str_or_null_json()))
        .push(("source_artifact_hash"@, str_or_null_json()))
        .push(("stdout_hash"@, str_or_null_json()))
        .push(("stderr_hash"@, str_or_null_json()))
        .push(("patch_status"@, str_or_null_json()))
        .push(("patch_bytes_hash"@, str_or_null_json()))
        .push(("body_handle_hash"@, str_or_null_json()))
        .push(("diff_hunk_hash"@, str_or_null_json()))
        .push(("author"@, str_or_null_json()))
        .push(("agent_id"@, str_or_null_json()))
        .push(("session_id"@, str_or_null_json()))
        .push(("observed_at"@, str_or_null_json()))
        .push(("confidence"@, str_or_null_json()))
        .push(("protected"@, bool_schema_json()))
}

fn audit_item_properties() -> (r: Members)
    ensures
        r@ == audit_item_properties_json(),
{
    audit_head_properties()
        .with("exit_code", int_or_null())
        .with("source_artifact_path", str_or_null())
        .with("source_artifact_hash", str_or_null())
        .with("stdout_hash", str_or_null())
        .with("stderr_hash", str_or_null())
        .with("patch_status", str_or_null())
        .with("patch_bytes_hash", str_or_null())
        .with("body_handle_hash", str_or_null())
        .with("diff_hunk_hash", str_or_null())
        .with("author", str_or_null())
        .with("agent_id", str_or_null())
        .with("session_id", str_or_null())
        .with("observed_at", str_or_null())
        .with("confidence", str_or_null())
        .with("protected", bool_schema())
}

/// A row of successes or patches.
pub open spec fn audit_item_schema_json() -> JsonView {
    JsonView::Obj(
        no_members()
            .push(("type"@, JsonView::Str("object"@)))
            .push(("additionalProperties"@, JsonView::Bool(true)))
            .push(("required"@, JsonView::Arr(
                no_elements()
                    .push(JsonView::Str("record_id"@))
                    .push(JsonView::Str("kind"@))
                    .push(JsonView::Str("trust_class"@))
                    .push(JsonView::Str("relation"@))
                    .push(JsonView::Str("citable_handle"@))
                    .push(JsonView::Str("summary"@)),
            )))
            .push(("properties"@, JsonView::Obj(audit_item_properties_json()))),
    )
}

fn audit_item_schema() -> (r: Json)
    ensures
        r.deep_view() == audit_item_schema_json(),
{
    Members::new()
        .with_text("type", "object")
        .with("additionalProperties", flag(true))
        .with(
            "required",
            Elements::new()
                .with_text("record_id")
                .with_text("kind")
                .with_text("trust_class")
                .with_text("relation")
                .with_text("citable_handle")
                .with_text("summary")
                .array(),
        )
        .with("properties", audit_item_properties().object())
        .object()
}

/// An audit row with what became of the failure since.
pub open spec fn failure_attempt_properties_json() -> Seq<(Seq<char>, JsonView)> {
    audit_head_properties_json()
        .push(("failure_kind"@, str_or_null_json()))
        .push(("executed_at"@, str_or_null_json()))
        .push(("exit_code"@, int_or_null_json()))
        .push(("source_artifact_path"@, str_or_null_json()))
        .push(("source_artifact_hash"@, str_or_null_json()))
        .push(("stdout_hash"@, str_or_null_json()))
        .push(("stderr_hash"@, str_or_null_json()))
        .push(("patch_status"@, str_or_null_json()))
        .push(("patch_bytes_hash"@, str_or_null_json()))
        .push(("body_handle_hash"@, str_or_null_json()))
        .push(("diff_hunk_hash"@, str_or_null_json()))
        .push(("author"@, str_or_null_json()))
        .push(("agent_id"@, str_or_null_json()))
        .push(("session_id"@, str_or_null_json()))
        .push(("observed_at"@, str_or_null_json()))
        .push(("confidence"@, str_or_null_json()))
        .push(("protected"@, bool_schema_json()))
        .push(("resolution_status"@, JsonView::Obj(
            no_members()
                .push(("type"@, JsonView::Str("string"@)))
                .push(("enum"@, JsonView::Arr(
                    no_elements()
                        .push(JsonView::Str("still_failing"@))
                        .push(JsonView::Str("since_resolved"@)),
                ))),
        )))
        .push(("resolved_by"@, str_or_null_json()))
        .push(("matched_target"@, string_schema_json()))
}

fn failure_attempt_properties() -> (r: Members)
    ensures
        r@ == failure_attempt_properties_json(),
{
    audit_head_properties()
        .with("failure_kind", str_or_null())
        .with("executed_at", str_or_null())
        .with("exit_code", int_or_null())
        .with("source_artifact_path", str_or_null())
        .with("source_artifact_hash", str_or_null())
        .with("stdout_hash", str_or_null())
        .with("stderr_hash", str_or_null())
        .with("patch_status", str_or_null())
        .with("patch_bytes_hash", str_or_null())
        .with("body_handle_hash", str_or_null())
        .with("diff_hunk_hash", str_or_null())
        .with("author", str_or_null())
        .with("agent_id", str_or_null())
        .with("session_id", str_or_null())
        .with("observed_at", str_or_null())
        .with("confidence", str_or_null())
        .with("protected", bool_schema())
        .with(
            "resolution_status",
            Members::new()
                .with_text("type", "string")
                .with(
                    "enum",
                    Elements::new()
                        .with_text("still_failing")
                        .with_text("since_resolved")
                        .array(),
                )
                .object(),
        )
        .with("resolved_by", str_or_null())
        .with("matched_target", string_schema())
}

/// A row of failures.
pub open spec fn failure_attempt_schema_json() -> JsonView {
    JsonView::Obj(
        no_members()
            .push(("type"@, JsonView::Str("object"@)))
            .push(("additionalProperties"@, JsonView::Bool(true)))
            .push(("required"@, JsonView::Arr(
                no_elements()
                    .push(JsonView::Str("record_id"@))
                    .push(JsonView::Str("kind"@))
                    .push(JsonView::Str("trust_class"@))
                    .push(JsonView::Str("relation"@))
                    .push(JsonView::Str("citable_handle"@))
                    .push(JsonView::Str("summary"@))
                    .push(JsonView::Str("resolution_status"@)),
            )))
            .push(("properties"@, JsonView::Obj(failure_attempt_properties_json()))),
    )
}

fn failure_attempt_schema() -> (r: Json)
    ensures
        r.deep_view() == failure_attempt_schema_json(),
{
    Members::new()
        .with_text("type", "object")
        .with("additionalProperties", flag(true))
        .with(
            "required",
            Elements::new()
                .with_text("record_id")
                .with_text("kind")
                .with_text("trust_class")
                .with_text("relation")
                .with_text("citable_handle")
                .with_text("summary")
                .with_text("resolution_status")
                .array(),
        )
        .with("properties", failure_attempt_properties().object())
        .object()
}

/// A reference of a failure that did not resolve.
pub open spec fn failure_diagnostic_schema_json() -> JsonView {
    JsonView::Obj(
        no_members()
            .push(("type"@, JsonView::Str("object"@)))
            .push(("additionalProperties"@, JsonView::Bool(true)))
            .push(("required"@, JsonView::Arr(
                no_elements()
                    .push(JsonView::Str("code"@))
                    .push(JsonView::Str("source_record_id"@))
                    .push(JsonView::Str("target_handle"@)),
            )))
            .push(("properties"@, JsonView::Obj(
                no_members()
                    .push(("code"@, string_schema_json()))
                    .push(("source_record_id"@, string_schema_json()))
                    .push(("target_handle"@, string_schema_json()))
                    .push(("relation"@, string_schema_json()))
                    .push(("target_domain"@, string_schema_json())),
            ))),
    )
}

fn failure_diagnostic_schema() -> (r: Json)
    ensures
        r.deep_view() == failure_diagnostic_schema_json(),
{
    Members::new()
        .with_text("type", "object")
        .with("additionalProperties", flag(true))
        .with(
            "required",
            Elements::new()
                .with_text("code")
                .with_text("source_record_id")
                .with_text("target_handle")
                .array(),
        )
        .with(
            "properties",
            Members::new()
                .with("code", string_schema())
                .with("source_record_id", string_schema())
                .with("target_handle", string_schema())
                .with("relation", string_schema())
                .with("target_domain", string_schema())
                .object(),
        )
        .object()
}

pub open spec fn failure_history_properties_json() -> JsonView {
    JsonView::Obj(
        no_members()
            .push(("ok"@, JsonView::Obj(
                no_members()
                    .push(("const"@, JsonView::Bool(true))),
            )))
            .push(("handle"@, string_schema_json()))
            .push(("target_type"@, JsonView::Obj(
                no_members()
                    .push(("type"@, JsonView::Str("string"@)))
                    .push(("enum"@, JsonView::Arr(
                        no_elements()
                            .push(JsonView::Str("symbol"@))
                            .push(JsonView::Str("file"@))
                            .push(JsonView::Str("task"@))
                            .push(JsonView::Str("source"@)),
                    ))),
            )))
            .push(("target_ids"@, JsonView::Obj(
                no_members()
                    .push(("type"@, JsonView::Str("array"@)))
                    .push(("items"@, string_schema_json())),
            )))
            .push(("runtime_failures"@, JsonView::Obj(
                no_members()
                    .push(("type"@, JsonView::Str("array"@)))
                    .push(("items"@, failure_attempt_schema_json())),
            )))
            .push(("agent_failures"@, JsonView::Obj(
                no_members()
                    .push(("type"@, JsonView::Str("array"@)))
                    .push(("items"@, failure_attempt_schema_json())),
            )))
            .push(("superseding_successes"@, JsonView::Obj(
                no_members()
                    .push(("type"@, JsonView::Str("array"@)))
                    .push(("items"@, audit_item_schema_json())),
            )))
            .push(("patch_artifacts"@, JsonView::Obj(
                no_members()
                    .push(("type"@, JsonView::Str("array"@)))
                    .push(("items"@, audit_item_schema_json())),
            )))
            .push(("diagnostics"@, JsonView::Obj(
                no_members()
                    .push(("type"@, JsonView::Str("array"@)))
                    .push(("items"@, failure_diagnostic_schema_json())),
            )))
            .push(("safety_note"@, string_schema_json()))
            .push(("freshness"@, freshness_schema_json())),
    )
}

fn failure_history_properties() -> (r: Json)
    ensures
        r.deep_view() == failure_history_properties_json(),
{
    Members::new()
        .with(
            "ok",
            Members::new()
                .with("const", flag(true))
                .object(),
        )
        .with("handle", string_schema())
        .with(
            "target_type",
            Members::new()
                .with_text("type", "string")
                .with(
                    "enum",
                    Elements::new()
                        .with_text("symbol")
                        .with_text("file")
                        .with_text("task")
                        .with_text("source")
                        .array(),
                )
                .object(),
        )
        .with(
            "target_ids",
            Members::new()
                .with_text("type", "array")
                .with("items", string_schema())
                .object(),
        )
        .with(
            "runtime_failures",
            Members::new()
                .with_text("type", "array")
                .with("items", failure_attempt_schema())
                .object(),
        )
        .with(
            "agent_failures",
            Members::new()
                .with_text("type", "array")
                .with("items", failure_attempt_schema())
                .object(),
        )
        .with(
            "superseding_successes",
            Members::new()
                .with_text("type", "array")
                .with("items", audit_item_schema())
                .object(),
        )
        .with(
            "patch_artifacts",
            Members::new()
                .with_text("type", "array")
                .with("items", audit_item_schema())
                .object(),
        )
        .with(
            "diagnostics",
            Members::new()
                .with_text("type", "array")
                .with("items", failure_diagnostic_schema())
                .object(),
        )
        .with("safety_note", string_schema())
        .with("freshness", freshness_schema())
        .object()
}

/// The answer of `failure_history`.
pub open spec fn failure_history_schema_json() -> JsonView {
    JsonView::Obj(
        schema_head_json(
            "failure_history"@,
            "Prior failed attempts for a symbol, file, or task handle, trust-separated into runtime failures, agent failures, and superseding successes (issue #188)."@,
        )
            .push(("type"@, JsonView::Str("object"@)))
            .push(("additionalProperties"@, JsonView::Bool(true)))
            .push(("required"@, JsonView::Arr(
                no_elements()
                    .push(JsonView::Str("ok"@))
                    .push(JsonView::Str("handle"@))
                    .push(JsonView::Str("target_type"@))
                    .push(JsonView::Str("target_ids"@))
                    .push(JsonView::Str("runtime_failures"@))
                    .push(JsonView::Str("agent_failures"@))
                    .push(JsonView::Str("superseding_successes"@))
                    .push(JsonView::Str("patch_artifacts"@))
                    .push(JsonView::Str("diagnostics"@))
                    .push(JsonView::Str("safety_note"@))
                    .push(JsonView::Str("freshness"@)),
            )))
            .push(("properties"@, failure_history_properties_json())),
    )
}

fn failure_history_schema() -> (r: Json)
    ensures
        r.deep_view() == failure_history_schema_json(),
{
    schema_head(
        "failure_history",
        "Prior failed attempts for a symbol, file, or task handle, trust-separated into runtime failures, agent failures, and superseding successes (issue #188).",
    )
        .with_text("type", "object")
        .with("additionalProperties", flag(true))
        .with(
            "required",
            Elements::new()
                .with_text("ok")
                .with_text("handle")
                .with_text("target_type")
                .with_text("target_ids")
                .with_text("runtime_failures")
                .with_text("agent_failures")
                .with_text("superseding_successes")
                .with_text("patch_artifacts")
                .with_text("diagnostics")
                .with_text("safety_note")
                .with_text("freshness")
                .array(),
        )
        .with("properties", failure_history_properties())
        .object()
}

/// The schema of the error envelope (`ok: false`) that every tool shares. The code is stable; what goes with it stands beside it.
pub open spec fn error_schema_json() -> JsonView {
    JsonView::Obj(
        no_members()
            .push(("$schema"@, JsonView::Str("https://json-schema.org/draft/2020-12/schema"@)))
            .push(("title"@, JsonView::Str("Egregore MCP tool error envelope"@)))
            .push(("description"@, JsonView::Str("Stable error shape shared by every eg mcp tool (issue #194)."@)))
            .push(("type"@, JsonView::Str("object"@)))
            .push(("additionalProperties"@, JsonView::Bool(true)))
            .push(("required"@, JsonView::Arr(
                no_elements()
                    .push(JsonView::Str("ok"@))
                    .push(JsonView::Str("error"@)),
            )))
            .push(("properties"@, JsonView::Obj(
                no_members()
                    .push(("ok"@, JsonView::Obj(
                        no_members()
                            .push(("const"@, JsonView::Bool(false))),
                    )))
                    .push(("error"@, JsonView::Obj(
                        no_members()
                            .push(("type"@, JsonView::Str("object"@)))
                            .push(("additionalProperties"@, JsonView::Bool(true)))
                            .push(("required"@, JsonView::Arr(
                                no_elements()
                                    .push(JsonView::Str("code"@)),
                            )))
                            .push(("properties"@, JsonView::Obj(
                                no_members()
                                    .push(("code"@, string_schema_json()))
                                    .push(("message"@, string_schema_json()))
                                    .push(("field"@, string_schema_json()))
                                    .push(("symbol_name"@, string_schema_json()))
                                    .push(("id_or_handle"@, string_schema_json()))
                                    .push(("handle"@, string_schema_json()))
                                    .push(("candidates"@, JsonView::Obj(
                                        no_members()
                                            .push(("type"@, JsonView::Str("array"@)))
                                            .push(("items"@, JsonView::Obj(
                                                no_members()
                                                    .push(("type"@, JsonView::Arr(
                                                        no_elements()
                                                            .push(JsonView::Str("string"@))
                                                            .push(JsonView::Str("object"@)),
                                                    ))),
                                            ))),
                                    ))),
                            ))),
                    ))),
            ))),
    )
}

pub fn error_schema() -> (r: Json)
    ensures
        r.deep_view() == error_schema_json(),
{
    Members::new()
        .with_text("$schema", "https://json-schema.org/draft/2020-12/schema")
        .with_text("title", "Egregore MCP tool error envelope")
        .with_text("description", "Stable error shape shared by every eg mcp tool (issue #194).")
        .with_text("type", "object")
        .with("additionalProperties", flag(true))
        .with(
            "required",
            Elements::new()
                .with_text("ok")
                .with_text("error")
                .array(),
        )
        .with(
            "properties",
            Members::new()
                .with(
                    "ok",
                    Members::new()
                        .with("const", flag(false))
                        .object(),
                )
                .with(
                    "error",
                    Members::new()
                        .with_text("type", "object")
                        .with("additionalProperties", flag(true))
                        .with(
                            "required",
                            Elements::new()
                                .with_text("code")
                                .array(),
                        )
                        .with(
                            "properties",
                            Members::new()
                                .with("code", string_schema())
                                .with("message", string_schema())
                                .with("field", string_schema())
                                .with("symbol_name", string_schema())
                                .with("id_or_handle", string_schema())
                                .with("handle", string_schema())
                                .with(
                                    "candidates",
                                    Members::new()
                                        .with_text("type", "array")
                                        .with(
                                            "items",
                                            Members::new()
                                                .with(
                                                    "type",
                                                    Elements::new()
                                                        .with_text("string")
                                                        .with_text("object")
                                                        .array(),
                                                )
                                                .object(),
                                        )
                                        .object(),
                                )
                                .object(),
                        )
                        .object(),
                )
                .object(),
        )
        .object()
}

/// The schema of a tool's successful answer (`ok: true`); none for a tool that is not shipped.
pub open spec fn tool_schema(tool_name: Seq<char>) -> Option<JsonView> {
    if tool_name == "inspect_store"@ {
        Some(inspect_store_schema_json())
    } else if tool_name == "symbol_context"@ {
        Some(symbol_context_schema_json())
    } else if tool_name == "task_evidence"@ {
        Some(task_evidence_schema_json())
    } else if tool_name == "store_freshness"@ {
        Some(store_freshness_schema_json())
    } else if tool_name == "failure_history"@ {
        Some(failure_history_schema_json())
    } else {
        None
    }
}

pub fn response_schema(tool_name: &str) -> (r: Option<Json>)
    ensures
        r.deep_view() == tool_schema(tool_name@),
{
    if same(tool_name, "inspect_store") {
        Some(inspect_store_schema())
    } else if same(tool_name, "symbol_context") {
        Some(symbol_context_schema())
    } else if same(tool_name, "task_evidence") {
        Some(task_evidence_schema())
    } else if same(tool_name, "store_freshness") {
        Some(store_freshness_schema())
    } else if same(tool_name, "failure_history") {
        Some(failure_history_schema())
    } else {
        None
    }
}

// ── Laws ────────────────────────────────────────────────────────────────────

/// Exactly the tools of the contract have a schema.
pub proof fn law_contract_covers_tools(tool_name: Seq<char>)
    ensures
        tool_schema(tool_name) is Some <==> exists|i: int|
            0 <= i < MCP_CONTRACT_TOOLS.len() && (#[trigger] MCP_CONTRACT_TOOLS[i])@ == tool_name,
{
    assert(MCP_CONTRACT_TOOLS[0]@ == "inspect_store"@);
    assert(MCP_CONTRACT_TOOLS[1]@ == "symbol_context"@);
    assert(MCP_CONTRACT_TOOLS[2]@ == "task_evidence"@);
    assert(MCP_CONTRACT_TOOLS[3]@ == "store_freshness"@);
    assert(MCP_CONTRACT_TOOLS[4]@ == "failure_history"@);
}

pub open spec fn forbids(m: (Seq<char>, JsonView)) -> bool {
    m.0 == "additionalProperties"@ && m.1 == JsonView::Bool(false)
}

/// A schema that forbids additional fields nowhere: an answer with more fields still conforms.
pub open spec fn open_everywhere(schema: JsonView) -> bool
    decreases schema,
{
    match schema {
        JsonView::Obj(m) => forall|i: int|
            0 <= i < m.len() ==> !forbids(#[trigger] m[i]) && open_everywhere(m[i].1),
        JsonView::Arr(v) => forall|i: int| 0 <= i < v.len() ==> open_everywhere(#[trigger] v[i]),
        _ => true,
    }
}

broadcast proof fn lemma_open_member(m: Seq<(Seq<char>, JsonView)>, k: Seq<char>, v: JsonView)
    requires
        open_everywhere(JsonView::Obj(m)),
        open_everywhere(v),
        v == JsonView::Bool(false) ==> k != "additionalProperties"@,
    ensures
        #[trigger] open_everywhere(JsonView::Obj(m.push((k, v)))),
{
    reveal_with_fuel(open_everywhere, 2);
    let n = m.push((k, v));
    let old_schema = JsonView::Obj(m);
    let new_schema = JsonView::Obj(n);
    assert(old_schema->Obj_0 == m);
    assert(new_schema->Obj_0 == n);
    assert forall|i: int| 0 <= i < n.len() implies !forbids(#[trigger] n[i])
        && open_everywhere(n[i].1) by {
        if i < m.len() {
            assert(n[i] == m[i]);
            assert(open_everywhere(m[i].1));
        }
    }
}

broadcast proof fn lemma_open_element(s: Seq<JsonView>, v: JsonView)
    requires
        open_everywhere(JsonView::Arr(s)),
        open_everywhere(v),
    ensures
        #[trigger] open_everywhere(JsonView::Arr(s.push(v))),
{
    reveal_with_fuel(open_everywhere, 2);
    let n = s.push(v);
    let old_schema = JsonView::Arr(s);
    let new_schema = JsonView::Arr(n);
    assert(old_schema->Arr_0 == s);
    assert(new_schema->Arr_0 == n);
    assert forall|i: int| 0 <= i < n.len() implies open_everywhere(#[trigger] n[i]) by {
        if i < s.len() {
            assert(n[i] == s[i]);
            assert(open_everywhere(s[i]));
        } else {
            assert(n[i] == v);
        }
    }
}

broadcast proof fn lemma_open_leaf(s: Seq<char>)
    ensures
        #[trigger] open_everywhere(JsonView::Str(s)),
{
}

broadcast group group_open {
    lemma_open_member,
    lemma_open_element,
    lemma_open_leaf,
}

proof fn lemma_open_basics()
    ensures
        open_everywhere(JsonView::Obj(no_members())),
        open_everywhere(JsonView::Arr(no_elements())),
        open_everywhere(JsonView::Bool(true)),
        open_everywhere(JsonView::Bool(false)),
{
}

/// No schema forbids additional fields anywhere: new fields need no new contract version.
pub proof fn law_schemas_are_open(tool_name: Seq<char>)
    ensures
        tool_schema(tool_name) matches Some(schema) ==> open_everywhere(schema),
        open_everywhere(error_schema_json()),
{
    broadcast use group_open;

    lemma_open_basics();
    reveal_strlit("const");
    reveal_strlit("additionalProperties");
    assert("const"@.len() != "additionalProperties"@.len());
    assert(open_everywhere(string_schema_json()));
    assert(open_everywhere(integer_schema_json()));
    assert(open_everywhere(str_or_null_json()));
    assert(open_everywhere(int_or_null_json()));
    assert(open_everywhere(bool_schema_json()));
    assert(open_everywhere(trust_schema_json()));
    assert(open_everywhere(span_schema_json()));
    assert(open_everywhere(evidence_link_schema_json()));
    assert(open_everywhere(evidence_links_schema_json()));
    assert(open_everywhere(JsonView::Obj(record_header_properties_json())));
    assert(open_everywhere(JsonView::Obj(source_fact_properties_json())));
    assert(open_everywhere(source_fact_schema_json()));
    assert(open_everywhere(JsonView::Obj(observation_properties_json())));
    assert(open_everywhere(observation_schema_json()));
    assert(open_everywhere(JsonView::Obj(decision_properties_json())));
    assert(open_everywhere(decision_schema_json()));
    assert(open_everywhere(output_handle_citation_schema_json()));
    assert(open_everywhere(patch_handle_citation_schema_json()));
    assert(open_everywhere(JsonView::Obj(linked_item_properties_json())));
    assert(open_everywhere(linked_item_schema_json()));
    assert(open_everywhere(JsonView::Obj(acceptance_criterion_properties_json())));
    assert(open_everywhere(acceptance_criterion_schema_json()));
    assert(open_everywhere(topology_edge_schema_json()));
    assert(open_everywhere(drift_row_schema_json()));
    assert(open_everywhere(unresolved_schema_json()));
    assert(open_everywhere(store_coverage_schema_json()));
    assert(open_everywhere(snapshot_head_schema_json()));
    assert(open_everywhere(stored_snapshot_schema_json()));
    assert(open_everywhere(freshness_schema_json()));
    assert(open_everywhere(inspect_store_properties_json()));
    assert(open_everywhere(inspect_store_schema_json()));
    assert(open_everywhere(symbol_context_properties_json()));
    assert(open_everywhere(symbol_context_schema_json()));
    assert(open_everywhere(task_evidence_properties_json()));
    assert(open_everywhere(task_evidence_schema_json()));
    assert(open_everywhere(store_freshness_properties_json()));
    assert(open_everywhere(store_freshness_schema_json()));
    assert(open_everywhere(audit_trust_class_schema_json()));
    assert(open_everywhere(JsonView::Obj(audit_head_properties_json())));
    assert(open_everywhere(JsonView::Obj(audit_item_properties_json())));
    assert(open_everywhere(audit_item_schema_json()));
    assert(open_everywhere(JsonView::Obj(failure_attempt_properties_json())));
    assert(open_everywhere(failure_attempt_schema_json()));
    assert(open_everywhere(failure_diagnostic_schema_json()));
    assert(open_everywhere(failure_history_properties_json()));
    assert(open_everywhere(failure_history_schema_json()));
    assert(open_everywhere(error_schema_json()));
}

} // verus!
