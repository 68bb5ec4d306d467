//! What can be wrong with a task file: one constructor per finding.
use vstd::prelude::*;

use crate::text::{parts1, parts2, parts3};

verus! {

/// A finding: what its diagnostic is identified by, beside the file, and its message.
#[derive(Debug, PartialEq, Eq)]
pub struct Fault {
    pub parts: Vec<String>,
    pub message: String,
}

#[verifier::ext_equal]
pub struct FaultView {
    pub parts: Seq<Seq<char>>,
    pub message: Seq<char>,
}

impl DeepView for Fault {
    type V = FaultView;

    open spec fn deep_view(&self) -> FaultView {
        FaultView { parts: self.parts.deep_view(), message: self.message@ }
    }
}

pub open spec fn invalid_json_fault(
    index: Seq<char>,
    line: Seq<char>,
    file_rel: Seq<char>,
    error: Seq<char>,
) -> FaultView {
    FaultView {
        parts: seq!["invalid_json"@, index],
        message: "[invalid_json] line "@
            + line
            + " of '"@
            + file_rel
            + "' is not valid JSON: "@
            + error,
    }
}

pub fn invalid_json(
    index: &str,
    line: &str,
    file_rel: &str,
    error: &str,
) -> (r: Fault)
    ensures
        r.deep_view() == invalid_json_fault(index@, line@, file_rel@, error@),
{
    Fault {
        parts: parts2("invalid_json", index),
        message: "[invalid_json] line ".to_owned()
            .concat(line)
            .concat(" of '")
            .concat(file_rel)
            .concat("' is not valid JSON: ")
            .concat(error),
    }
}

pub open spec fn invalid_task_fields_fault(
    index: Seq<char>,
    line: Seq<char>,
    file_rel: Seq<char>,
    error: Seq<char>,
) -> FaultView {
    FaultView {
        parts: seq!["invalid_task_fields"@, index],
        message: "[invalid_json] task at line "@
            + line
            + " of '"@
            + file_rel
            + "' has invalid fields: "@
            + error,
    }
}

pub fn invalid_task_fields(
    index: &str,
    line: &str,
    file_rel: &str,
    error: &str,
) -> (r: Fault)
    ensures
        r.deep_view() == invalid_task_fields_fault(index@, line@, file_rel@, error@),
{
    Fault {
        parts: parts2("invalid_task_fields", index),
        message: "[invalid_json] task at line ".to_owned()
            .concat(line)
            .concat(" of '")
            .concat(file_rel)
            .concat("' has invalid fields: ")
            .concat(error),
    }
}

pub open spec fn invalid_ac_fields_fault(
    index: Seq<char>,
    line: Seq<char>,
    file_rel: Seq<char>,
    error: Seq<char>,
) -> FaultView {
    FaultView {
        parts: seq!["invalid_ac_fields"@, index],
        message: "[invalid_json] acceptance_criterion at line "@
            + line
            + " of '"@
            + file_rel
            + "' has invalid fields: "@
            + error,
    }
}

pub fn invalid_ac_fields(
    index: &str,
    line: &str,
    file_rel: &str,
    error: &str,
) -> (r: Fault)
    ensures
        r.deep_view() == invalid_ac_fields_fault(index@, line@, file_rel@, error@),
{
    Fault {
        parts: parts2("invalid_ac_fields", index),
        message: "[invalid_json] acceptance_criterion at line ".to_owned()
            .concat(line)
            .concat(" of '")
            .concat(file_rel)
            .concat("' has invalid fields: ")
            .concat(error),
    }
}

pub open spec fn invalid_link_fields_fault(
    index: Seq<char>,
    line: Seq<char>,
    file_rel: Seq<char>,
    error: Seq<char>,
) -> FaultView {
    FaultView {
        parts: seq!["invalid_link_fields"@, index],
        message: "[invalid_json] external_link at line "@
            + line
            + " of '"@
            + file_rel
            + "' has invalid fields: "@
            + error,
    }
}

pub fn invalid_link_fields(
    index: &str,
    line: &str,
    file_rel: &str,
    error: &str,
) -> (r: Fault)
    ensures
        r.deep_view() == invalid_link_fields_fault(index@, line@, file_rel@, error@),
{
    Fault {
        parts: parts2("invalid_link_fields", index),
        message: "[invalid_json] external_link at line ".to_owned()
            .concat(line)
            .concat(" of '")
            .concat(file_rel)
            .concat("' has invalid fields: ")
            .concat(error),
    }
}

pub open spec fn unknown_kind_fault(
    kind: Seq<char>,
    index: Seq<char>,
    line: Seq<char>,
    file_rel: Seq<char>,
) -> FaultView {
    FaultView {
        parts: seq!["unknown_kind"@, kind, index],
        message: "[unknown_kind] line "@
            + line
            + " of '"@
            + file_rel
            + "' has unknown kind='"@
            + kind
            + "', skipping"@,
    }
}

pub fn unknown_kind(
    kind: &str,
    index: &str,
    line: &str,
    file_rel: &str,
) -> (r: Fault)
    ensures
        r.deep_view() == unknown_kind_fault(kind@, index@, line@, file_rel@),
{
    Fault {
        parts: parts3("unknown_kind", kind, index),
        message: "[unknown_kind] line ".to_owned()
            .concat(line)
            .concat(" of '")
            .concat(file_rel)
            .concat("' has unknown kind='")
            .concat(kind)
            .concat("', skipping"),
    }
}

pub open spec fn kind_mismatch_fault(
    local_id: Seq<char>,
    line: Seq<char>,
    kind: Seq<char>,
    existing: Seq<char>,
) -> FaultView {
    FaultView {
        parts: seq!["duplicate_local_id_kind_mismatch"@, local_id],
        message: "[duplicate_local_id_kind_mismatch] local_id='"@
            + local_id
            + "' at line "@
            + line
            + " has kind='"@
            + kind
            + "' but was previously seen with kind='"@
            + existing
            + "'"@,
    }
}

pub fn kind_mismatch(
    local_id: &str,
    line: &str,
    kind: &str,
    existing: &str,
) -> (r: Fault)
    ensures
        r.deep_view() == kind_mismatch_fault(local_id@, line@, kind@, existing@),
{
    Fault {
        parts: parts2("duplicate_local_id_kind_mismatch", local_id),
        message: "[duplicate_local_id_kind_mismatch] local_id='".to_owned()
            .concat(local_id)
            .concat("' at line ")
            .concat(line)
            .concat(" has kind='")
            .concat(kind)
            .concat("' but was previously seen with kind='")
            .concat(existing)
            .concat("'"),
    }
}

pub open spec fn refinement_kind_mismatch_fault(
    local_id: Seq<char>,
    line: Seq<char>,
    existing: Seq<char>,
) -> FaultView {
    FaultView {
        parts: seq!["duplicate_local_id_kind_mismatch"@, local_id],
        message: "[duplicate_local_id_kind_mismatch] refinement local_id='"@
            + local_id
            + "' at line "@
            + line
            + " was previously seen with kind='"@
            + existing
            + "'"@,
    }
}

pub fn refinement_kind_mismatch(
    local_id: &str,
    line: &str,
    existing: &str,
) -> (r: Fault)
    ensures
        r.deep_view() == refinement_kind_mismatch_fault(local_id@, line@, existing@),
{
    Fault {
        parts: parts2("duplicate_local_id_kind_mismatch", local_id),
        message: "[duplicate_local_id_kind_mismatch] refinement local_id='".to_owned()
            .concat(local_id)
            .concat("' at line ")
            .concat(line)
            .concat(" was previously seen with kind='")
            .concat(existing)
            .concat("'"),
    }
}

pub open spec fn task_status_fault(
    local_id: Seq<char>,
    line: Seq<char>,
    value: Seq<char>,
) -> FaultView {
    FaultView {
        parts: seq!["task_invalid_field_value"@, local_id, "status"@],
        message: "[task_invalid_field_value] task '"@
            + local_id
            + "' at line "@
            + line
            + " has invalid status='"@
            + value
            + "'"@,
    }
}

pub fn task_status(
    local_id: &str,
    line: &str,
    value: &str,
) -> (r: Fault)
    ensures
        r.deep_view() == task_status_fault(local_id@, line@, value@),
{
    Fault {
        parts: parts3("task_invalid_field_value", local_id, "status"),
        message: "[task_invalid_field_value] task '".to_owned()
            .concat(local_id)
            .concat("' at line ")
            .concat(line)
            .concat(" has invalid status='")
            .concat(value)
            .concat("'"),
    }
}

pub open spec fn task_priority_fault(
    local_id: Seq<char>,
    line: Seq<char>,
    value: Seq<char>,
) -> FaultView {
    FaultView {
        parts: seq!["task_invalid_field_value"@, local_id, "priority"@],
        message: "[task_invalid_field_value] task '"@
            + local_id
            + "' at line "@
            + line
            + " has invalid priority='"@
            + value
            + "'"@,
    }
}

pub fn task_priority(
    local_id: &str,
    line: &str,
    value: &str,
) -> (r: Fault)
    ensures
        r.deep_view() == task_priority_fault(local_id@, line@, value@),
{
    Fault {
        parts: parts3("task_invalid_field_value", local_id, "priority"),
        message: "[task_invalid_field_value] task '".to_owned()
            .concat(local_id)
            .concat("' at line ")
            .concat(line)
            .concat(" has invalid priority='")
            .concat(value)
            .concat("'"),
    }
}

pub open spec fn task_timestamp_fault(
    local_id: Seq<char>,
    line: Seq<char>,
    value: Seq<char>,
) -> FaultView {
    FaultView {
        parts: seq!["task_invalid_timestamp"@, local_id],
        message: "[task_invalid_timestamp] task '"@
            + local_id
            + "' at line "@
            + line
            + " has invalid updated_at='"@
            + value
            + "'"@,
    }
}

pub fn task_timestamp(
    local_id: &str,
    line: &str,
    value: &str,
) -> (r: Fault)
    ensures
        r.deep_view() == task_timestamp_fault(local_id@, line@, value@),
{
    Fault {
        parts: parts2("task_invalid_timestamp", local_id),
        message: "[task_invalid_timestamp] task '".to_owned()
            .concat(local_id)
            .concat("' at line ")
            .concat(line)
            .concat(" has invalid updated_at='")
            .concat(value)
            .concat("'"),
    }
}

pub open spec fn body_field_fault(
    local_id: Seq<char>,
    line: Seq<char>,
    missing: Seq<char>,
) -> FaultView {
    FaultView {
        parts: seq!["missing_body_bytes"@, local_id],
        message: "[missing_body_bytes] task '"@
            + local_id
            + "' at line "@
            + line
            + " has a body object missing or empty required '"@
            + missing
            + "' field"@,
    }
}

pub fn body_field(
    local_id: &str,
    line: &str,
    missing: &str,
) -> (r: Fault)
    ensures
        r.deep_view() == body_field_fault(local_id@, line@, missing@),
{
    Fault {
        parts: parts2("missing_body_bytes", local_id),
        message: "[missing_body_bytes] task '".to_owned()
            .concat(local_id)
            .concat("' at line ")
            .concat(line)
            .concat(" has a body object missing or empty required '")
            .concat(missing)
            .concat("' field"),
    }
}

pub open spec fn body_inline_fault(
    local_id: Seq<char>,
    line: Seq<char>,
    declared: Seq<char>,
    actual: Seq<char>,
    ceiling: Seq<char>,
) -> FaultView {
    FaultView {
        parts: seq!["invalid_inline_body_handle"@, local_id],
        message: "[invalid_inline_body_handle] task '"@
            + local_id
            + "' at line "@
            + line
            + " has inconsistent inline body handle: declared bytes="@
            + declared
            + ", inline len="@
            + actual
            + ", ceiling="@
            + ceiling,
    }
}

pub fn body_inline(
    local_id: &str,
    line: &str,
    declared: &str,
    actual: &str,
    ceiling: &str,
) -> (r: Fault)
    ensures
        r.deep_view() == body_inline_fault(local_id@, line@, declared@, actual@, ceiling@),
{
    Fault {
        parts: parts2("invalid_inline_body_handle", local_id),
        message: "[invalid_inline_body_handle] task '".to_owned()
            .concat(local_id)
            .concat("' at line ")
            .concat(line)
            .concat(" has inconsistent inline body handle: declared bytes=")
            .concat(declared)
            .concat(", inline len=")
            .concat(actual)
            .concat(", ceiling=")
            .concat(ceiling),
    }
}

pub open spec fn body_type_fault(
    local_id: Seq<char>,
    line: Seq<char>,
) -> FaultView {
    FaultView {
        parts: seq!["invalid_body_type"@, local_id],
        message: "[invalid_body_type] task '"@
            + local_id
            + "' at line "@
            + line
            + " has a body that is not null, a string, or a handle object"@,
    }
}

pub fn body_type(
    local_id: &str,
    line: &str,
) -> (r: Fault)
    ensures
        r.deep_view() == body_type_fault(local_id@, line@),
{
    Fault {
        parts: parts2("invalid_body_type", local_id),
        message: "[invalid_body_type] task '".to_owned()
            .concat(local_id)
            .concat("' at line ")
            .concat(line)
            .concat(" has a body that is not null, a string, or a handle object"),
    }
}

pub open spec fn not_monotonic_fault(
    local_id: Seq<char>,
    kind: Seq<char>,
    line: Seq<char>,
    value: Seq<char>,
    previous: Seq<char>,
) -> FaultView {
    FaultView {
        parts: seq!["non_monotonic_updated_at"@, local_id],
        message: "[non_monotonic_updated_at] "@
            + kind
            + " '"@
            + local_id
            + "' at line "@
            + line
            + " has updated_at='"@
            + value
            + "' earlier than previous revision '"@
            + previous
            + "'"@,
    }
}

pub fn not_monotonic(
    local_id: &str,
    kind: &str,
    line: &str,
    value: &str,
    previous: &str,
) -> (r: Fault)
    ensures
        r.deep_view() == not_monotonic_fault(local_id@, kind@, line@, value@, previous@),
{
    Fault {
        parts: parts2("non_monotonic_updated_at", local_id),
        message: "[non_monotonic_updated_at] ".to_owned()
            .concat(kind)
            .concat(" '")
            .concat(local_id)
            .concat("' at line ")
            .concat(line)
            .concat(" has updated_at='")
            .concat(value)
            .concat("' earlier than previous revision '")
            .concat(previous)
            .concat("'"),
    }
}

pub open spec fn missing_verification_fault(
    local_id: Seq<char>,
    line: Seq<char>,
    reason: Seq<char>,
) -> FaultView {
    FaultView {
        parts: seq!["acceptance_criterion_missing_verification"@, local_id],
        message: "[acceptance_criterion_missing_verification] acceptance_criterion '"@
            + local_id
            + "' at line "@
            + line
            + " "@
            + reason
            + "; importing with status='unverified'"@,
    }
}

pub fn missing_verification(
    local_id: &str,
    line: &str,
    reason: &str,
) -> (r: Fault)
    ensures
        r.deep_view() == missing_verification_fault(local_id@, line@, reason@),
{
    Fault {
        parts: parts2("acceptance_criterion_missing_verification", local_id),
        message: "[acceptance_criterion_missing_verification] acceptance_criterion '".to_owned()
            .concat(local_id)
            .concat("' at line ")
            .concat(line)
            .concat(" ")
            .concat(reason)
            .concat("; importing with status='unverified'"),
    }
}

pub open spec fn unresolved_handle_fault(
    local_id: Seq<char>,
    line: Seq<char>,
    value: Seq<char>,
) -> FaultView {
    FaultView {
        parts: seq!["unresolved_verification_handle"@, local_id],
        message: "[unresolved_verification_handle] acceptance_criterion '"@
            + local_id
            + "' at line "@
            + line
            + " has status='"@
            + value
            + "' with a verification_handle that cannot be resolved"@,
    }
}

pub fn unresolved_handle(
    local_id: &str,
    line: &str,
    value: &str,
) -> (r: Fault)
    ensures
        r.deep_view() == unresolved_handle_fault(local_id@, line@, value@),
{
    Fault {
        parts: parts2("unresolved_verification_handle", local_id),
        message: "[unresolved_verification_handle] acceptance_criterion '".to_owned()
            .concat(local_id)
            .concat("' at line ")
            .concat(line)
            .concat(" has status='")
            .concat(value)
            .concat("' with a verification_handle that cannot be resolved"),
    }
}

pub open spec fn ac_status_fault(
    local_id: Seq<char>,
    line: Seq<char>,
    value: Seq<char>,
) -> FaultView {
    FaultView {
        parts: seq!["ac_invalid_field_value"@, local_id],
        message: "[ac_invalid_field_value] acceptance_criterion '"@
            + local_id
            + "' at line "@
            + line
            + " has invalid status='"@
            + value
            + "'"@,
    }
}

pub fn ac_status(
    local_id: &str,
    line: &str,
    value: &str,
) -> (r: Fault)
    ensures
        r.deep_view() == ac_status_fault(local_id@, line@, value@),
{
    Fault {
        parts: parts2("ac_invalid_field_value", local_id),
        message: "[ac_invalid_field_value] acceptance_criterion '".to_owned()
            .concat(local_id)
            .concat("' at line ")
            .concat(line)
            .concat(" has invalid status='")
            .concat(value)
            .concat("'"),
    }
}

pub open spec fn ac_timestamp_fault(
    local_id: Seq<char>,
    line: Seq<char>,
    value: Seq<char>,
) -> FaultView {
    FaultView {
        parts: seq!["ac_invalid_timestamp"@, local_id],
        message: "[ac_invalid_timestamp] acceptance_criterion '"@
            + local_id
            + "' at line "@
            + line
            + " has invalid updated_at='"@
            + value
            + "'"@,
    }
}

pub fn ac_timestamp(
    local_id: &str,
    line: &str,
    value: &str,
) -> (r: Fault)
    ensures
        r.deep_view() == ac_timestamp_fault(local_id@, line@, value@),
{
    Fault {
        parts: parts2("ac_invalid_timestamp", local_id),
        message: "[ac_invalid_timestamp] acceptance_criterion '".to_owned()
            .concat(local_id)
            .concat("' at line ")
            .concat(line)
            .concat(" has invalid updated_at='")
            .concat(value)
            .concat("'"),
    }
}

pub open spec fn ac_parent_fault(
    local_id: Seq<char>,
    line: Seq<char>,
    parent: Seq<char>,
) -> FaultView {
    FaultView {
        parts: seq!["unresolved_parent_task"@, local_id],
        message: "[unresolved_parent_task] acceptance_criterion '"@
            + local_id
            + "' at line "@
            + line
            + " references unknown task '"@
            + parent
            + "'"@,
    }
}

pub fn ac_parent(
    local_id: &str,
    line: &str,
    parent: &str,
) -> (r: Fault)
    ensures
        r.deep_view() == ac_parent_fault(local_id@, line@, parent@),
{
    Fault {
        parts: parts2("unresolved_parent_task", local_id),
        message: "[unresolved_parent_task] acceptance_criterion '".to_owned()
            .concat(local_id)
            .concat("' at line ")
            .concat(line)
            .concat(" references unknown task '")
            .concat(parent)
            .concat("'"),
    }
}

pub open spec fn ac_identity_fault(
    local_id: Seq<char>,
    line: Seq<char>,
) -> FaultView {
    FaultView {
        parts: seq!["revision_identity_mismatch"@, local_id],
        message: "[revision_identity_mismatch] acceptance_criterion '"@
            + local_id
            + "' at line "@
            + line
            + " changes identity fields (parent_task_local_id or ordinal)"@,
    }
}

pub fn ac_identity(
    local_id: &str,
    line: &str,
) -> (r: Fault)
    ensures
        r.deep_view() == ac_identity_fault(local_id@, line@),
{
    Fault {
        parts: parts2("revision_identity_mismatch", local_id),
        message: "[revision_identity_mismatch] acceptance_criterion '".to_owned()
            .concat(local_id)
            .concat("' at line ")
            .concat(line)
            .concat(" changes identity fields (parent_task_local_id or ordinal)"),
    }
}

pub open spec fn ac_collision_fault(
    local_id: Seq<char>,
    line: Seq<char>,
    parent: Seq<char>,
    ordinal: Seq<char>,
    prior: Seq<char>,
) -> FaultView {
    FaultView {
        parts: seq!["duplicate_ac_graph_identity"@, local_id],
        message: "[duplicate_ac_graph_identity] acceptance_criterion '"@
            + local_id
            + "' at line "@
            + line
            + " shares (parent_task_local_id='"@
            + parent
            + "', ordinal="@
            + ordinal
            + ") with '"@
            + prior
            + "'"@,
    }
}

pub fn ac_collision(
    local_id: &str,
    line: &str,
    parent: &str,
    ordinal: &str,
    prior: &str,
) -> (r: Fault)
    ensures
        r.deep_view() == ac_collision_fault(local_id@, line@, parent@, ordinal@, prior@),
{
    Fault {
        parts: parts2("duplicate_ac_graph_identity", local_id),
        message: "[duplicate_ac_graph_identity] acceptance_criterion '".to_owned()
            .concat(local_id)
            .concat("' at line ")
            .concat(line)
            .concat(" shares (parent_task_local_id='")
            .concat(parent)
            .concat("', ordinal=")
            .concat(ordinal)
            .concat(") with '")
            .concat(prior)
            .concat("'"),
    }
}

pub open spec fn refinement_identity_fault(
    local_id: Seq<char>,
    line: Seq<char>,
) -> FaultView {
    FaultView {
        parts: seq!["revision_identity_mismatch"@, local_id],
        message: "[revision_identity_mismatch] refinement local_id='"@
            + local_id
            + "' at line "@
            + line
            + " has different identity from prior external_link row"@,
    }
}

pub fn refinement_identity(
    local_id: &str,
    line: &str,
) -> (r: Fault)
    ensures
        r.deep_view() == refinement_identity_fault(local_id@, line@),
{
    Fault {
        parts: parts2("revision_identity_mismatch", local_id),
        message: "[revision_identity_mismatch] refinement local_id='".to_owned()
            .concat(local_id)
            .concat("' at line ")
            .concat(line)
            .concat(" has different identity from prior external_link row"),
    }
}

pub open spec fn link_timestamp_fault(
    local_id: Seq<char>,
    field: Seq<char>,
    what: Seq<char>,
    line: Seq<char>,
    value: Seq<char>,
) -> FaultView {
    FaultView {
        parts: seq!["external_link_invalid_timestamp"@, local_id, field],
        message: "[external_link_invalid_timestamp] "@
            + what
            + " '"@
            + local_id
            + "' at line "@
            + line
            + " has invalid "@
            + field
            + "='"@
            + value
            + "'"@,
    }
}

pub fn link_timestamp(
    local_id: &str,
    field: &str,
    what: &str,
    line: &str,
    value: &str,
) -> (r: Fault)
    ensures
        r.deep_view() == link_timestamp_fault(local_id@, field@, what@, line@, value@),
{
    Fault {
        parts: parts3("external_link_invalid_timestamp", local_id, field),
        message: "[external_link_invalid_timestamp] ".to_owned()
            .concat(what)
            .concat(" '")
            .concat(local_id)
            .concat("' at line ")
            .concat(line)
            .concat(" has invalid ")
            .concat(field)
            .concat("='")
            .concat(value)
            .concat("'"),
    }
}

pub open spec fn link_system_fault(
    local_id: Seq<char>,
    line: Seq<char>,
    value: Seq<char>,
) -> FaultView {
    FaultView {
        parts: seq!["external_link_invalid_system"@, local_id],
        message: "[external_link_invalid_system] external_link '"@
            + local_id
            + "' at line "@
            + line
            + " has invalid system='"@
            + value
            + "'"@,
    }
}

pub fn link_system(
    local_id: &str,
    line: &str,
    value: &str,
) -> (r: Fault)
    ensures
        r.deep_view() == link_system_fault(local_id@, line@, value@),
{
    Fault {
        parts: parts2("external_link_invalid_system", local_id),
        message: "[external_link_invalid_system] external_link '".to_owned()
            .concat(local_id)
            .concat("' at line ")
            .concat(line)
            .concat(" has invalid system='")
            .concat(value)
            .concat("'"),
    }
}

pub open spec fn link_parent_fault(
    local_id: Seq<char>,
    line: Seq<char>,
    parent: Seq<char>,
) -> FaultView {
    FaultView {
        parts: seq!["unresolved_parent_local_id"@, local_id],
        message: "[unresolved_parent_local_id] external_link '"@
            + local_id
            + "' at line "@
            + line
            + " references unknown parent '"@
            + parent
            + "'"@,
    }
}

pub fn link_parent(
    local_id: &str,
    line: &str,
    parent: &str,
) -> (r: Fault)
    ensures
        r.deep_view() == link_parent_fault(local_id@, line@, parent@),
{
    Fault {
        parts: parts2("unresolved_parent_local_id", local_id),
        message: "[unresolved_parent_local_id] external_link '".to_owned()
            .concat(local_id)
            .concat("' at line ")
            .concat(line)
            .concat(" references unknown parent '")
            .concat(parent)
            .concat("'"),
    }
}

pub open spec fn link_identity_fault(
    local_id: Seq<char>,
    line: Seq<char>,
) -> FaultView {
    FaultView {
        parts: seq!["revision_identity_mismatch"@, local_id],
        message: "[revision_identity_mismatch] external_link '"@
            + local_id
            + "' at line "@
            + line
            + " changes identity fields (system, system_native_id, or parent_local_id)"@,
    }
}

pub fn link_identity(
    local_id: &str,
    line: &str,
) -> (r: Fault)
    ensures
        r.deep_view() == link_identity_fault(local_id@, line@),
{
    Fault {
        parts: parts2("revision_identity_mismatch", local_id),
        message: "[revision_identity_mismatch] external_link '".to_owned()
            .concat(local_id)
            .concat("' at line ")
            .concat(line)
            .concat(" changes identity fields (system, system_native_id, or parent_local_id)"),
    }
}

pub open spec fn link_collision_fault(
    local_id: Seq<char>,
    line: Seq<char>,
    system: Seq<char>,
    native_id: Seq<char>,
    prior: Seq<char>,
) -> FaultView {
    FaultView {
        parts: seq!["duplicate_external_link_graph_identity"@, local_id],
        message: "[duplicate_external_link_graph_identity] external_link '"@
            + local_id
            + "' at line "@
            + line
            + " shares (system='"@
            + system
            + "', system_native_id='"@
            + native_id
            + "') with '"@
            + prior
            + "'"@,
    }
}

pub fn link_collision(
    local_id: &str,
    line: &str,
    system: &str,
    native_id: &str,
    prior: &str,
) -> (r: Fault)
    ensures
        r.deep_view() == link_collision_fault(local_id@, line@, system@, native_id@, prior@),
{
    Fault {
        parts: parts2("duplicate_external_link_graph_identity", local_id),
        message: "[duplicate_external_link_graph_identity] external_link '".to_owned()
            .concat(local_id)
            .concat("' at line ")
            .concat(line)
            .concat(" shares (system='")
            .concat(system)
            .concat("', system_native_id='")
            .concat(native_id)
            .concat("') with '")
            .concat(prior)
            .concat("'"),
    }
}

pub open spec fn empty_file_fault(
    file_rel: Seq<char>,
) -> FaultView {
    FaultView {
        parts: seq!["missing_header_empty"@],
        message: "[missing_header] '"@
            + file_rel
            + "' is empty — first line must be a header"@,
    }
}

pub fn empty_file(
    file_rel: &str,
) -> (r: Fault)
    ensures
        r.deep_view() == empty_file_fault(file_rel@),
{
    Fault {
        parts: parts1("missing_header_empty"),
        message: "[missing_header] '".to_owned()
            .concat(file_rel)
            .concat("' is empty — first line must be a header"),
    }
}

pub open spec fn header_not_json_fault(
    file_rel: Seq<char>,
    error: Seq<char>,
) -> FaultView {
    FaultView {
        parts: seq!["missing_header_parse_error"@],
        message: "[missing_header] first line of '"@
            + file_rel
            + "' is not valid JSON: "@
            + error,
    }
}

pub fn header_not_json(
    file_rel: &str,
    error: &str,
) -> (r: Fault)
    ensures
        r.deep_view() == header_not_json_fault(file_rel@, error@),
{
    Fault {
        parts: parts1("missing_header_parse_error"),
        message: "[missing_header] first line of '".to_owned()
            .concat(file_rel)
            .concat("' is not valid JSON: ")
            .concat(error),
    }
}

pub open spec fn header_kind_fault(
    file_rel: Seq<char>,
    kind: Seq<char>,
) -> FaultView {
    FaultView {
        parts: seq!["missing_header_wrong_kind"@],
        message: "[missing_header] first line of '"@
            + file_rel
            + "' has kind='"@
            + kind
            + "', expected 'header'"@,
    }
}

pub fn header_kind(
    file_rel: &str,
    kind: &str,
) -> (r: Fault)
    ensures
        r.deep_view() == header_kind_fault(file_rel@, kind@),
{
    Fault {
        parts: parts1("missing_header_wrong_kind"),
        message: "[missing_header] first line of '".to_owned()
            .concat(file_rel)
            .concat("' has kind='")
            .concat(kind)
            .concat("', expected 'header'"),
    }
}

pub open spec fn header_fields_fault(
    file_rel: Seq<char>,
    error: Seq<char>,
) -> FaultView {
    FaultView {
        parts: seq!["missing_header_fields"@],
        message: "[missing_header] header line of '"@
            + file_rel
            + "' has invalid fields: "@
            + error,
    }
}

pub fn header_fields(
    file_rel: &str,
    error: &str,
) -> (r: Fault)
    ensures
        r.deep_view() == header_fields_fault(file_rel@, error@),
{
    Fault {
        parts: parts1("missing_header_fields"),
        message: "[missing_header] header line of '".to_owned()
            .concat(file_rel)
            .concat("' has invalid fields: ")
            .concat(error),
    }
}

pub open spec fn schema_version_fault(
    file_rel: Seq<char>,
    version: Seq<char>,
) -> FaultView {
    FaultView {
        parts: seq!["unsupported_schema_version"@],
        message: "[unsupported_schema_version] '"@
            + file_rel
            + "' has schema_version="@
            + version
            + ", expected 1"@,
    }
}

pub fn schema_version(
    file_rel: &str,
    version: &str,
) -> (r: Fault)
    ensures
        r.deep_view() == schema_version_fault(file_rel@, version@),
{
    Fault {
        parts: parts1("unsupported_schema_version"),
        message: "[unsupported_schema_version] '".to_owned()
            .concat(file_rel)
            .concat("' has schema_version=")
            .concat(version)
            .concat(", expected 1"),
    }
}

pub open spec fn slug_mismatch_fault(
    slug: Seq<char>,
    stem: Seq<char>,
    file_rel: Seq<char>,
) -> FaultView {
    FaultView {
        parts: seq!["project_slug_mismatch"@],
        message: "[project_slug_mismatch] project_slug='"@
            + slug
            + "' does not match filename stem '"@
            + stem
            + "' in '"@
            + file_rel
            + "'"@,
    }
}

pub fn slug_mismatch(
    slug: &str,
    stem: &str,
    file_rel: &str,
) -> (r: Fault)
    ensures
        r.deep_view() == slug_mismatch_fault(slug@, stem@, file_rel@),
{
    Fault {
        parts: parts1("project_slug_mismatch"),
        message: "[project_slug_mismatch] project_slug='".to_owned()
            .concat(slug)
            .concat("' does not match filename stem '")
            .concat(stem)
            .concat("' in '")
            .concat(file_rel)
            .concat("'"),
    }
}

pub open spec fn duplicate_slug_fault(
    slug: Seq<char>,
    file_rel: Seq<char>,
    existing: Seq<char>,
) -> FaultView {
    FaultView {
        parts: seq!["duplicate_project_slug"@],
        message: "[duplicate_project_slug] slug '"@
            + slug
            + "' from '"@
            + file_rel
            + "' already seen in '"@
            + existing
            + "'"@,
    }
}

pub fn duplicate_slug(
    slug: &str,
    file_rel: &str,
    existing: &str,
) -> (r: Fault)
    ensures
        r.deep_view() == duplicate_slug_fault(slug@, file_rel@, existing@),
{
    Fault {
        parts: parts1("duplicate_project_slug"),
        message: "[duplicate_project_slug] slug '".to_owned()
            .concat(slug)
            .concat("' from '")
            .concat(file_rel)
            .concat("' already seen in '")
            .concat(existing)
            .concat("'"),
    }
}

} // verus!
