//! The first pass over a task file: every row is checked against the rows in front of it.
//!
//! A row that fails a check leaves a diagnostic and nothing else; rows behind it are checked as if
//! it were not there. Some findings are only warnings: the row is kept.
use vstd::prelude::*;

use crate::assoc::{find_value, lookup, put_new};
use crate::duplicate::{lemma_push, Duplicate};
use crate::ir::{
    project_id, project_stable_id, GraphRecord, NodeKind, NodeRecord, NodeRecordView,
    ProjectFieldsView, RecordView, PROJECT_SCHEMA_VERSION,
};
use crate::local_project::fault::{
    ac_collision, ac_collision_fault, ac_identity, ac_identity_fault, ac_parent, ac_parent_fault,
    ac_status, ac_status_fault, ac_timestamp, ac_timestamp_fault, body_field, body_field_fault,
    body_inline, body_inline_fault, body_type, body_type_fault, invalid_ac_fields,
    invalid_ac_fields_fault, invalid_json, invalid_json_fault, invalid_link_fields,
    invalid_link_fields_fault, invalid_task_fields, invalid_task_fields_fault, kind_mismatch,
    kind_mismatch_fault, link_collision, link_collision_fault, link_identity, link_identity_fault,
    link_parent, link_parent_fault, link_system, link_system_fault, link_timestamp,
    link_timestamp_fault, missing_verification, missing_verification_fault, not_monotonic,
    not_monotonic_fault, refinement_identity, refinement_identity_fault, refinement_kind_mismatch,
    refinement_kind_mismatch_fault, task_priority, task_priority_fault, task_status,
    task_status_fault, task_timestamp, task_timestamp_fault, unknown_kind, unknown_kind_fault,
    unresolved_handle, unresolved_handle_fault, Fault, FaultView,
};
use crate::local_project::handles::{
    identity_handle, source_identity_handle, INLINE_BODY_CEILING,
};
use crate::local_project::input::{
    AcLine, AcLineView, ExternalLinkLine, ExternalLinkLineView, InputLine, InputLineView, Row,
    RowView, TaskBody, TaskBodyView, TaskLine, TaskLineView,
};
use crate::text::{
    byte_len, decimal, decimal_of, parts5, parts6, same, text_bytes, trim, trimmed,
};
use crate::time::{before, instant_lt, parse_rfc3339, rfc3339_instant, Instant};

verus! {

/// The importer's name, on every record it emits.
pub const IMPORTER_ID: &'static str = "local-jsonl";

/// The version of its output.
pub const IMPORTER_VERSION: &'static str = "0.2.0";

/// The domain of every record it emits.
pub const DOMAIN: &'static str = "project";

/// Where its records come from.
pub const SOURCE_KIND: &'static str = "local_jsonl";

// ── Vocabularies ────────────────────────────────────────────────────────────

pub open spec fn valid_task_status(s: Seq<char>) -> bool {
    s == "open"@ || s == "in_progress"@ || s == "blocked"@ || s == "closed_completed"@ || s
        == "closed_dropped"@ || s == "unknown"@
}

pub fn is_valid_task_status(s: &str) -> (r: bool)
    ensures
        r == valid_task_status(s@),
{
    same(s, "open") || same(s, "in_progress") || same(s, "blocked") || same(s, "closed_completed")
        || same(s, "closed_dropped") || same(s, "unknown")
}

pub open spec fn valid_task_priority(s: Seq<char>) -> bool {
    s == "low"@ || s == "normal"@ || s == "high"@ || s == "urgent"@ || s == "unknown"@
}

fn is_valid_task_priority(s: &str) -> (r: bool)
    ensures
        r == valid_task_priority(s@),
{
    same(s, "low") || same(s, "normal") || same(s, "high") || same(s, "urgent") || same(
        s,
        "unknown",
    )
}

pub open spec fn valid_ac_status(s: Seq<char>) -> bool {
    s == "unverified"@ || s == "verified"@ || s == "failed"@ || s == "superseded"@ || s
        == "unknown"@
}

fn is_valid_ac_status(s: &str) -> (r: bool)
    ensures
        r == valid_ac_status(s@),
{
    same(s, "unverified") || same(s, "verified") || same(s, "failed") || same(s, "superseded")
        || same(s, "unknown")
}

pub open spec fn valid_link_system(s: Seq<char>) -> bool {
    s == "github"@ || s == "gitlab"@ || s == "local_file"@ || s == "harness_legacy"@ || s
        == "other"@
}

fn is_valid_link_system(s: &str) -> (r: bool)
    ensures
        r == valid_link_system(s@),
{
    same(s, "github") || same(s, "gitlab") || same(s, "local_file") || same(s, "harness_legacy")
        || same(s, "other")
}

pub open spec fn is_timestamp(s: Seq<char>) -> bool {
    rfc3339_instant(s) is Some
}

fn check_timestamp(s: &str) -> (r: bool)
    ensures
        r == is_timestamp(s@),
{
    parse_rfc3339(s).is_some()
}

// ── Diagnostics ─────────────────────────────────────────────────────────────

/// What every project record carries.
pub open spec fn base_fields(
    n: NodeRecordView,
    transaction_time: Seq<char>,
    valid_time: Seq<char>,
    source_handle: Option<Seq<char>>,
) -> NodeRecordView {
    NodeRecordView {
        schema_version: PROJECT_SCHEMA_VERSION,
        domain: Some(DOMAIN@),
        valid_time: Some(valid_time),
        valid_time_source: Some("local_jsonl_updated_at"@),
        project: ProjectFieldsView {
            entity_id: Some(n.id),
            transaction_time: Some(transaction_time),
            source_handle,
            importer_id: Some(IMPORTER_ID@),
            importer_version: Some(IMPORTER_VERSION@),
            ..n.project
        },
        ..n
    }
}

pub fn set_project_base_fields(
    n: &mut NodeRecord,
    transaction_time: &str,
    valid_time: &str,
    source_handle: Option<String>,
)
    ensures
        final(n).deep_view() == base_fields(
            old(n).deep_view(),
            transaction_time@,
            valid_time@,
            source_handle.deep_view(),
        ),
{
    n.schema_version = PROJECT_SCHEMA_VERSION;
    n.domain = Some(DOMAIN.to_owned());
    n.valid_time = Some(valid_time.to_owned());
    n.valid_time_source = Some("local_jsonl_updated_at".to_owned());
    n.project.entity_id = Some(n.id.clone());
    n.project.transaction_time = Some(transaction_time.to_owned());
    n.project.source_handle = source_handle;
    n.project.importer_id = Some(IMPORTER_ID.to_owned());
    n.project.importer_version = Some(IMPORTER_VERSION.to_owned());
}

/// The file that is imported, and when.
pub struct FileView {
    pub file_rel: Seq<char>,
    pub transaction_time: Seq<char>,
}

pub struct FileContext<'a> {
    pub file_rel: &'a str,
    pub transaction_time: &'a str,
}

impl<'a> DeepView for FileContext<'a> {
    type V = FileView;

    open spec fn deep_view(&self) -> FileView {
        FileView { file_rel: self.file_rel@, transaction_time: self.transaction_time@ }
    }
}

pub open spec fn diagnostic_id(file_rel: Seq<char>, parts: Seq<Seq<char>>) -> Seq<char> {
    project_id(seq!["project"@, "Diagnostic"@, SOURCE_KIND@, file_rel] + parts)
}

/// A diagnostic node.
pub open spec fn diagnostic(f: FileView, parts: Seq<Seq<char>>, message: Seq<char>) -> RecordView {
    RecordView::Node(
        base_fields(
            NodeRecordView::plain(
                diagnostic_id(f.file_rel, parts),
                NodeKind::Diagnostic,
                Some(f.file_rel),
                None,
                None,
                message,
            ),
            f.transaction_time,
            f.transaction_time,
            None,
        ),
    )
}

/// The one-based number of the line at `index`.
pub open spec fn line_no(index: int) -> Seq<char> {
    decimal_of((index + 1) as nat)
}

/// The diagnostic of a finding about the line at `index`: two lines never share one.
pub open spec fn line_diagnostic(f: FileView, fault: FaultView, index: int) -> RecordView {
    diagnostic(f, fault.parts.push(line_no(index)), fault.message)
}

pub fn build_diagnostic(f: &FileContext, parts: &Vec<String>, message: String) -> (r: GraphRecord)
    ensures
        r.deep_view() == diagnostic(f.deep_view(), parts.deep_view(), message@),
{
    let mut all: Vec<String> = crate::text::parts4("project", "Diagnostic", SOURCE_KIND, f.file_rel);
    crate::duplicate::extend_with(&mut all, parts);
    let mut n: NodeRecord = NodeRecord::plain(
        project_stable_id(&all),
        NodeKind::Diagnostic,
        Some(f.file_rel.to_owned()),
        None,
        None,
        message,
    );
    set_project_base_fields(&mut n, f.transaction_time, f.transaction_time, None);
    GraphRecord::Node(n)
}

fn build_line_diagnostic(f: &FileContext, fault: Fault, line: &str) -> (r: GraphRecord)
    ensures
        r.deep_view() == diagnostic(
            f.deep_view(),
            fault.deep_view().parts.push(line@),
            fault.deep_view().message,
        ),
{
    let mut parts: Vec<String> = fault.parts;
    let ghost before = parts;
    parts.push(line.to_owned());
    proof {
        lemma_push(before, parts);
    }
    build_diagnostic(f, &parts, fault.message)
}

// ── State ───────────────────────────────────────────────────────────────────

#[derive(Debug, Clone, Copy, PartialEq, Eq, Structural)]
pub enum RowKind {
    Task,
    Criterion,
    Link,
}

impl DeepView for RowKind {
    type V = RowKind;

    open spec fn deep_view(&self) -> RowKind {
        *self
    }
}

impl RowKind {
    pub open spec fn name(self) -> Seq<char> {
        match self {
            RowKind::Task => "task"@,
            RowKind::Criterion => "acceptance_criterion"@,
            RowKind::Link => "external_link"@,
        }
    }

    fn as_str(self) -> (r: &'static str)
        ensures
            r@ == self.name(),
    {
        match self {
            RowKind::Task => "task",
            RowKind::Criterion => "acceptance_criterion",
            RowKind::Link => "external_link",
        }
    }
}

/// A row that passed its checks.
#[allow(inconsistent_fields)]
#[derive(Debug, PartialEq, Eq)]
pub enum ParsedRecord {
    Task { line: TaskLine, raw: String },
    /// A criterion whose verification cannot be resolved is kept with another status.
    Criterion { line: AcLine, raw: String, effective_status: Option<String> },
    Link { line: ExternalLinkLine, raw: String },
}

#[allow(inconsistent_fields)]
#[verifier::ext_equal]
pub enum ParsedView {
    Task { line: TaskLineView, raw: Seq<char> },
    Criterion { line: AcLineView, raw: Seq<char>, effective_status: Option<Seq<char>> },
    Link { line: ExternalLinkLineView, raw: Seq<char> },
}

impl DeepView for ParsedRecord {
    type V = ParsedView;

    open spec fn deep_view(&self) -> ParsedView {
        match self {
            ParsedRecord::Task { line, raw } => ParsedView::Task {
                line: line.deep_view(),
                raw: raw@,
            },
            ParsedRecord::Criterion { line, raw, effective_status } => ParsedView::Criterion {
                line: line.deep_view(),
                raw: raw@,
                effective_status: effective_status.deep_view(),
            },
            ParsedRecord::Link { line, raw } => ParsedView::Link {
                line: line.deep_view(),
                raw: raw@,
            },
        }
    }
}

/// What a link row says of the source link of its task, and the row's own text.
#[derive(Debug, PartialEq, Eq)]
pub struct Refinement {
    pub link: ExternalLinkLine,
    pub raw: String,
}

#[verifier::ext_equal]
pub struct RefinementView {
    pub link: ExternalLinkLineView,
    pub raw: Seq<char>,
}

impl DeepView for Refinement {
    type V = RefinementView;

    open spec fn deep_view(&self) -> RefinementView {
        RefinementView { link: self.link.deep_view(), raw: self.raw@ }
    }
}

/// What the rows so far have established.
#[derive(Debug, PartialEq, Eq)]
pub struct State {
    /// The kind under which a local identity was first seen.
    pub seen: Vec<(String, RowKind)>,
    /// The records of tasks and criteria, by local identity.
    pub task_ids: Vec<(String, String)>,
    pub ac_ids: Vec<(String, String)>,
    /// When a task or criterion was last updated.
    pub task_updated: Vec<(String, String)>,
    pub ac_updated: Vec<(String, String)>,
    /// The parent and ordinal of a criterion.
    pub ac_identity: Vec<(String, (String, u32))>,
    /// The system, native identity and parent of a link.
    pub link_identity: Vec<(String, (String, String, String))>,
    /// Who owns a system and native identity.
    pub link_owner: Vec<(String, (String, String))>,
    /// What link rows say of the source links of tasks.
    pub refinements: Vec<(String, Refinement)>,
    pub parsed: Vec<ParsedRecord>,
    pub diagnostics: Vec<GraphRecord>,
}

#[verifier::ext_equal]
pub struct StateView {
    pub seen: Seq<(Seq<char>, RowKind)>,
    pub task_ids: Seq<(Seq<char>, Seq<char>)>,
    pub ac_ids: Seq<(Seq<char>, Seq<char>)>,
    pub task_updated: Seq<(Seq<char>, Seq<char>)>,
    pub ac_updated: Seq<(Seq<char>, Seq<char>)>,
    pub ac_identity: Seq<(Seq<char>, (Seq<char>, u32))>,
    pub link_identity: Seq<(Seq<char>, (Seq<char>, Seq<char>, Seq<char>))>,
    pub link_owner: Seq<(Seq<char>, (Seq<char>, Seq<char>))>,
    pub refinements: Seq<(Seq<char>, RefinementView)>,
    pub parsed: Seq<ParsedView>,
    pub diagnostics: Seq<RecordView>,
}

impl DeepView for State {
    type V = StateView;

    open spec fn deep_view(&self) -> StateView {
        StateView {
            seen: self.seen.deep_view(),
            task_ids: self.task_ids.deep_view(),
            ac_ids: self.ac_ids.deep_view(),
            task_updated: self.task_updated.deep_view(),
            ac_updated: self.ac_updated.deep_view(),
            ac_identity: self.ac_identity.deep_view(),
            link_identity: self.link_identity.deep_view(),
            link_owner: self.link_owner.deep_view(),
            refinements: self.refinements.deep_view(),
            parsed: self.parsed.deep_view(),
            diagnostics: self.diagnostics.deep_view(),
        }
    }
}

impl StateView {
    pub open spec fn start() -> StateView {
        StateView {
            seen: Seq::empty(),
            task_ids: Seq::empty(),
            ac_ids: Seq::empty(),
            task_updated: Seq::empty(),
            ac_updated: Seq::empty(),
            ac_identity: Seq::empty(),
            link_identity: Seq::empty(),
            link_owner: Seq::empty(),
            refinements: Seq::empty(),
            parsed: Seq::empty(),
            diagnostics: Seq::empty(),
        }
    }

    /// The state with one more diagnostic.
    pub open spec fn report(self, f: FileView, fault: FaultView, index: int) -> StateView {
        StateView { diagnostics: self.diagnostics.push(line_diagnostic(f, fault, index)), ..self }
    }
}

impl State {
    pub fn start() -> (r: State)
        ensures
            r.deep_view() == StateView::start(),
    {
        State {
            seen: Vec::new(),
            task_ids: Vec::new(),
            ac_ids: Vec::new(),
            task_updated: Vec::new(),
            ac_updated: Vec::new(),
            ac_identity: Vec::new(),
            link_identity: Vec::new(),
            link_owner: Vec::new(),
            refinements: Vec::new(),
            parsed: Vec::new(),
            diagnostics: Vec::new(),
        }
    }

    fn report(&mut self, f: &FileContext, fault: Fault, line: &str, index: Ghost<int>)
        requires
            line@ == line_no(index@),
        ensures
            final(self).deep_view() == old(self).deep_view().report(
                f.deep_view(),
                fault.deep_view(),
                index@,
            ),
    {
        let ghost before = self.diagnostics;
        self.diagnostics.push(build_line_diagnostic(f, fault, line));
        proof {
            lemma_push(before, self.diagnostics);
        }
    }
}

/// The local identity that owns a system and native identity.
pub open spec fn owner_of(
    m: Seq<(Seq<char>, (Seq<char>, Seq<char>))>,
    system: Seq<char>,
    native_id: Seq<char>,
) -> Option<Seq<char>>
    decreases m.len(),
{
    if m.len() == 0 {
        None
    } else if m.last().1 == (system, native_id) {
        Some(m.last().0)
    } else {
        owner_of(m.drop_last(), system, native_id)
    }
}

fn find_owner(m: &Vec<(String, (String, String))>, system: &str, native_id: &str) -> (r: Option<
    String,
>)
    ensures
        r.deep_view() == owner_of(m.deep_view(), system@, native_id@),
{
    let ghost all = m.deep_view();
    let mut i: usize = m.len();
    assert(all.take(i as int) =~= all);
    while i > 0
        invariant
            i <= m.len(),
            all == m.deep_view(),
            owner_of(all, system@, native_id@) == owner_of(
                all.take(i as int),
                system@,
                native_id@,
            ),
        decreases i,
    {
        i -= 1;
        proof {
            assert(all.take(i + 1).drop_last() =~= all.take(i as int));
            assert(all.take(i + 1).last() == m@[i as int].deep_view());
        }
        if same(m[i].1.0.as_str(), system) && same(m[i].1.1.as_str(), native_id) {
            return Some(m[i].0.clone());
        }
    }
    None
}

/// The criterion that was first seen with a parent and an ordinal.
pub open spec fn criterion_with(
    m: Seq<(Seq<char>, (Seq<char>, u32))>,
    parent: Seq<char>,
    ordinal: u32,
) -> Option<Seq<char>>
    decreases m.len(),
{
    if m.len() == 0 {
        None
    } else if m.last().1 == (parent, ordinal) {
        Some(m.last().0)
    } else {
        criterion_with(m.drop_last(), parent, ordinal)
    }
}

fn find_criterion_with(m: &Vec<(String, (String, u32))>, parent: &str, ordinal: u32) -> (r: Option<
    String,
>)
    ensures
        r.deep_view() == criterion_with(m.deep_view(), parent@, ordinal),
{
    let ghost all = m.deep_view();
    let mut i: usize = m.len();
    assert(all.take(i as int) =~= all);
    while i > 0
        invariant
            i <= m.len(),
            all == m.deep_view(),
            criterion_with(all, parent@, ordinal) == criterion_with(
                all.take(i as int),
                parent@,
                ordinal,
            ),
        decreases i,
    {
        i -= 1;
        proof {
            assert(all.take(i + 1).drop_last() =~= all.take(i as int));
            assert(all.take(i + 1).last() == m@[i as int].deep_view());
        }
        if same(m[i].1.0.as_str(), parent) && m[i].1.1 == ordinal {
            return Some(m[i].0.clone());
        }
    }
    None
}

// ── Tasks ───────────────────────────────────────────────────────────────────

pub open spec fn task_record_id(file_rel: Seq<char>, local_id: Seq<char>) -> Seq<char> {
    project_id(
        seq![
            "project"@,
            "Task"@,
            SOURCE_KIND@,
            file_rel,
            identity_handle(file_rel, local_id),
        ],
    )
}

pub fn task_id_for(file_rel: &str, local_id: &str) -> (r: String)
    ensures
        r@ == task_record_id(file_rel@, local_id@),
{
    project_stable_id(
        &parts5(
            "project",
            "Task",
            SOURCE_KIND,
            file_rel,
            source_identity_handle(file_rel, local_id).as_str(),
        ),
    )
}

/// What is wrong with the body of a task.
pub open spec fn body_fault(t: TaskLineView, line: Seq<char>) -> Option<FaultView> {
    match t.body {
        TaskBodyView::Absent => None,
        TaskBodyView::Text(_) => None,
        TaskBodyView::Other => Some(body_type_fault(t.local_id, line)),
        TaskBodyView::Handle { hash, bytes, inline } => if hash is None || hash->0.len() == 0 {
            Some(body_field_fault(t.local_id, line, "hash"@))
        } else if bytes is None {
            Some(body_field_fault(t.local_id, line, "bytes"@))
        } else if inline is Some && (bytes->0 != byte_len(inline->0) || bytes->0
            > INLINE_BODY_CEILING) {
            Some(
                body_inline_fault(
                    t.local_id,
                    line,
                    decimal_of(bytes->0 as nat),
                    decimal_of(byte_len(inline->0)),
                    decimal_of(INLINE_BODY_CEILING as nat),
                ),
            )
        } else {
            None
        },
    }
}

fn check_body(t: &TaskLine, line: &str) -> (r: Option<Fault>)
    ensures
        r.deep_view() == body_fault(t.deep_view(), line@),
{
    let id: &str = t.local_id.as_str();
    match &t.body {
        TaskBody::Absent => None,
        TaskBody::Text(_) => None,
        TaskBody::Other => Some(body_type(id, line)),
        TaskBody::Handle { hash, bytes, inline } => {
            let hashed: bool = match hash {
                Some(h) => !h.as_str().is_empty(),
                None => false,
            };
            if !hashed {
                return Some(body_field(id, line, "hash"));
            }
            let declared: u64 = match bytes {
                Some(b) => *b,
                None => {
                    return Some(body_field(id, line, "bytes"));
                },
            };
            if let Some(text) = inline {
                let actual: usize = text_bytes(text.as_str());
                if declared != actual as u64 || declared > INLINE_BODY_CEILING as u64 {
                    return Some(
                        body_inline(
                            id,
                            line,
                            decimal(declared).as_str(),
                            decimal(actual as u64).as_str(),
                            decimal(INLINE_BODY_CEILING as u64).as_str(),
                        ),
                    );
                }
            }
            None
        },
    }
}

/// The first check that a task row fails, where `timely` says whether its timestamp can be read.
pub open spec fn task_fault_given(
    st: StateView,
    t: TaskLineView,
    line: Seq<char>,
    timely: bool,
) -> Option<FaultView> {
    let earlier = lookup(st.seen, t.local_id);
    if earlier is Some && earlier->0 != RowKind::Task {
        Some(kind_mismatch_fault(t.local_id, line, "task"@, earlier->0.name()))
    } else if !valid_task_status(t.status) {
        Some(task_status_fault(t.local_id, line, t.status))
    } else if !valid_task_priority(t.priority) {
        Some(task_priority_fault(t.local_id, line, t.priority))
    } else if !timely {
        Some(task_timestamp_fault(t.local_id, line, t.updated_at))
    } else {
        body_fault(t, line)
    }
}

pub fn check_task_given(st: &State, t: &TaskLine, line: &str, timely: bool) -> (r: Option<Fault>)
    ensures
        r.deep_view() == task_fault_given(st.deep_view(), t.deep_view(), line@, timely),
{
    let id: &str = t.local_id.as_str();
    if let Some(kind) = find_value(&st.seen, id) {
        if *kind != RowKind::Task {
            return Some(kind_mismatch(id, line, "task", kind.as_str()));
        }
    }
    if !is_valid_task_status(t.status.as_str()) {
        return Some(task_status(id, line, t.status.as_str()));
    }
    if !is_valid_task_priority(t.priority.as_str()) {
        return Some(task_priority(id, line, t.priority.as_str()));
    }
    if !timely {
        return Some(task_timestamp(id, line, t.updated_at.as_str()));
    }
    check_body(t, line)
}

/// The first check that a task row fails.
pub open spec fn task_fault(st: StateView, t: TaskLineView, line: Seq<char>) -> Option<FaultView> {
    task_fault_given(st, t, line, is_timestamp(t.updated_at))
}

fn check_task(st: &State, t: &TaskLine, line: &str) -> (r: Option<Fault>)
    ensures
        r.deep_view() == task_fault(st.deep_view(), t.deep_view(), line@),
{
    check_task_given(st, t, line, check_timestamp(t.updated_at.as_str()))
}

/// The update at `updated` comes before the one at `previous`; a time that cannot be read comes
/// before nothing.
pub open spec fn goes_back(previous: Option<Instant>, updated: Option<Instant>) -> bool {
    match (previous, updated) {
        (Some(a), Some(b)) => instant_lt(b, a),
        _ => false,
    }
}

pub fn runs_backwards(previous: Option<Instant>, updated: Option<Instant>) -> (r: bool)
    ensures
        r == goes_back(previous, updated),
{
    match (previous, updated) {
        (Some(a), Some(b)) => before(b, a),
        _ => false,
    }
}

/// A revision that claims to be older than the one in front of it.
pub open spec fn monotony_fault(
    updated: Seq<(Seq<char>, Seq<char>)>,
    kind: Seq<char>,
    local_id: Seq<char>,
    updated_at: Seq<char>,
    line: Seq<char>,
) -> Option<FaultView> {
    match lookup(updated, local_id) {
        Some(previous) => if goes_back(rfc3339_instant(previous), rfc3339_instant(updated_at)) {
            Some(not_monotonic_fault(local_id, kind, line, updated_at, previous))
        } else {
            None
        },
        None => None,
    }
}

fn check_monotony(
    updated: &Vec<(String, String)>,
    kind: &str,
    local_id: &str,
    updated_at: &str,
    line: &str,
) -> (r: Option<Fault>)
    ensures
        r.deep_view() == monotony_fault(
            updated.deep_view(),
            kind@,
            local_id@,
            updated_at@,
            line@,
        ),
{
    match find_value(updated, local_id) {
        Some(previous) => if runs_backwards(
            parse_rfc3339(previous.as_str()),
            parse_rfc3339(updated_at),
        ) {
            Some(not_monotonic(local_id, kind, line, updated_at, previous.as_str()))
        } else {
            None
        },
        None => None,
    }
}

pub open spec fn warned(
    st: StateView,
    f: FileView,
    fault: Option<FaultView>,
    index: int,
) -> StateView {
    match fault {
        Some(x) => st.report(f, x, index),
        None => st,
    }
}

/// The state after a task that passed its checks.
pub open spec fn accept_task(
    st: StateView,
    f: FileView,
    t: TaskLineView,
    raw: Seq<char>,
    index: int,
) -> StateView {
    let handle = identity_handle(f.file_rel, t.local_id);
    let fault = monotony_fault(st.task_updated, "task"@, t.local_id, t.updated_at, line_no(index));
    let next = warned(st, f, fault, index);
    StateView {
        seen: put_new(st.seen, t.local_id, RowKind::Task),
        task_ids: st.task_ids.push((t.local_id, task_record_id(f.file_rel, t.local_id))),
        link_owner: if owner_of(st.link_owner, "local_file"@, handle) is Some {
            st.link_owner
        } else {
            st.link_owner.push((t.local_id, ("local_file"@, handle)))
        },
        task_updated: st.task_updated.push((t.local_id, t.updated_at)),
        parsed: st.parsed.push(ParsedView::Task { line: t, raw }),
        ..next
    }
}

/// The state after a task row.
pub open spec fn task_step(
    st: StateView,
    f: FileView,
    t: TaskLineView,
    raw: Seq<char>,
    index: int,
) -> StateView {
    match task_fault(st, t, line_no(index)) {
        Some(fault) => st.report(f, fault, index),
        None => accept_task(st, f, t, raw, index),
    }
}

fn step_task(
    st: &mut State,
    f: &FileContext,
    t: &TaskLine,
    raw: &str,
    line: &str,
    index: Ghost<int>,
)
    requires
        line@ == line_no(index@),
    ensures
        final(st).deep_view() == task_step(
            old(st).deep_view(),
            f.deep_view(),
            t.deep_view(),
            raw@,
            index@,
        ),
{
    if let Some(fault) = check_task(st, t, line) {
        st.report(f, fault, line, index);
        return;
    }
    let id: &str = t.local_id.as_str();
    let handle: String = source_identity_handle(f.file_rel, id);
    let fault: Option<Fault> = check_monotony(
        &st.task_updated,
        "task",
        id,
        t.updated_at.as_str(),
        line,
    );
    if let Some(x) = fault {
        st.report(f, x, line, index);
    }
    if find_value(&st.seen, id).is_none() {
        let ghost b = st.seen;
        st.seen.push((t.local_id.clone(), RowKind::Task));
        proof {
            lemma_push(b, st.seen);
        }
    }
    let ghost b1 = st.task_ids;
    st.task_ids.push((t.local_id.clone(), task_id_for(f.file_rel, id)));
    if find_owner(&st.link_owner, "local_file", handle.as_str()).is_none() {
        let ghost b = st.link_owner;
        st.link_owner.push((t.local_id.clone(), ("local_file".to_owned(), handle)));
        proof {
            lemma_push(b, st.link_owner);
        }
    }
    let ghost b2 = st.task_updated;
    st.task_updated.push((t.local_id.clone(), t.updated_at.clone()));
    let ghost b3 = st.parsed;
    st.parsed.push(ParsedRecord::Task { line: t.duplicate(), raw: raw.to_owned() });
    proof {
        lemma_push(b1, st.task_ids);
        lemma_push(b2, st.task_updated);
        lemma_push(b3, st.parsed);
    }
}

// ── Acceptance criteria ─────────────────────────────────────────────────────

pub open spec fn verification_reason(a: AcLineView) -> Seq<char> {
    if a.has_verification_handle {
        "has status='verified' with a verification_handle that cannot be resolved to verification_link_id"@
    } else {
        "has status='verified' but no verification_handle"@
    }
}

/// The warning that a criterion's verification cannot be resolved.
pub open spec fn verification_warning(a: AcLineView, line: Seq<char>) -> Option<FaultView> {
    if a.status == "verified"@ {
        Some(missing_verification_fault(a.local_id, line, verification_reason(a)))
    } else if a.has_verification_handle {
        Some(unresolved_handle_fault(a.local_id, line, a.status))
    } else {
        None
    }
}

fn warn_verification(a: &AcLine, line: &str) -> (r: Option<Fault>)
    ensures
        r.deep_view() == verification_warning(a.deep_view(), line@),
{
    let id: &str = a.local_id.as_str();
    if same(a.status.as_str(), "verified") {
        let reason: &str = if a.has_verification_handle {
            "has status='verified' with a verification_handle that cannot be resolved to verification_link_id"
        } else {
            "has status='verified' but no verification_handle"
        };
        Some(missing_verification(id, line, reason))
    } else if a.has_verification_handle {
        Some(unresolved_handle(id, line, a.status.as_str()))
    } else {
        None
    }
}

/// The status under which a criterion is kept, where it is not its own: it never counts as
/// verified.
pub open spec fn effective_status(a: AcLineView) -> Option<Seq<char>> {
    if a.status == "verified"@ {
        Some("unverified"@)
    } else {
        None
    }
}

/// The first check that a criterion row fails, where `timely` says whether its timestamp can be
/// read.
pub open spec fn ac_fault_given(
    st: StateView,
    a: AcLineView,
    line: Seq<char>,
    timely: bool,
) -> Option<FaultView> {
    let earlier = lookup(st.seen, a.local_id);
    let identity = lookup(st.ac_identity, a.local_id);
    let prior = criterion_with(st.ac_identity, a.parent_task_local_id, a.ordinal);
    if !valid_ac_status(a.status) {
        Some(ac_status_fault(a.local_id, line, a.status))
    } else if !timely {
        Some(ac_timestamp_fault(a.local_id, line, a.updated_at))
    } else if lookup(st.task_ids, a.parent_task_local_id) is None {
        Some(ac_parent_fault(a.local_id, line, a.parent_task_local_id))
    } else if earlier is Some {
        if earlier->0 != RowKind::Criterion {
            Some(
                kind_mismatch_fault(
                    a.local_id,
                    line,
                    "acceptance_criterion"@,
                    earlier->0.name(),
                ),
            )
        } else if identity is Some && identity->0 != (a.parent_task_local_id, a.ordinal) {
            Some(ac_identity_fault(a.local_id, line))
        } else {
            None
        }
    } else if prior is Some {
        Some(
            ac_collision_fault(
                a.local_id,
                line,
                a.parent_task_local_id,
                decimal_of(a.ordinal as nat),
                prior->0,
            ),
        )
    } else {
        None
    }
}

pub fn check_ac_given(st: &State, a: &AcLine, line: &str, timely: bool) -> (r: Option<Fault>)
    ensures
        r.deep_view() == ac_fault_given(st.deep_view(), a.deep_view(), line@, timely),
{
    let id: &str = a.local_id.as_str();
    let parent: &str = a.parent_task_local_id.as_str();
    if !is_valid_ac_status(a.status.as_str()) {
        return Some(ac_status(id, line, a.status.as_str()));
    }
    if !timely {
        return Some(ac_timestamp(id, line, a.updated_at.as_str()));
    }
    if find_value(&st.task_ids, parent).is_none() {
        return Some(ac_parent(id, line, parent));
    }
    match find_value(&st.seen, id) {
        Some(kind) => {
            if *kind != RowKind::Criterion {
                return Some(kind_mismatch(id, line, "acceptance_criterion", kind.as_str()));
            }
            if let Some(identity) = find_value(&st.ac_identity, id) {
                if !same(identity.0.as_str(), parent) || identity.1 != a.ordinal {
                    return Some(ac_identity(id, line));
                }
            }
            None
        },
        None => match find_criterion_with(&st.ac_identity, parent, a.ordinal) {
            Some(prior) => Some(
                ac_collision(
                    id,
                    line,
                    parent,
                    decimal(a.ordinal as u64).as_str(),
                    prior.as_str(),
                ),
            ),
            None => None,
        },
    }
}

/// The first check that a criterion row fails.
pub open spec fn ac_fault(st: StateView, a: AcLineView, line: Seq<char>) -> Option<FaultView> {
    ac_fault_given(st, a, line, is_timestamp(a.updated_at))
}

fn check_ac(st: &State, a: &AcLine, line: &str) -> (r: Option<Fault>)
    ensures
        r.deep_view() == ac_fault(st.deep_view(), a.deep_view(), line@),
{
    check_ac_given(st, a, line, check_timestamp(a.updated_at.as_str()))
}

pub open spec fn ac_record_id(
    file_rel: Seq<char>,
    parent_task_id: Seq<char>,
    ordinal: u32,
) -> Seq<char> {
    project_id(
        seq![
            "project"@,
            "AcceptanceCriterion"@,
            SOURCE_KIND@,
            file_rel,
            parent_task_id,
            decimal_of(ordinal as nat),
        ],
    )
}

pub fn ac_id_for(file_rel: &str, parent_task_id: &str, ordinal: u32) -> (r: String)
    ensures
        r@ == ac_record_id(file_rel@, parent_task_id@, ordinal),
{
    project_stable_id(
        &parts6(
            "project",
            "AcceptanceCriterion",
            SOURCE_KIND,
            file_rel,
            parent_task_id,
            decimal(ordinal as u64).as_str(),
        ),
    )
}

pub open spec fn or_empty(o: Option<Seq<char>>) -> Seq<char> {
    match o {
        Some(s) => s,
        None => Seq::empty(),
    }
}

/// The state after a criterion that passed its checks. A first occurrence claims its local
/// identity and its place under its task.
pub open spec fn accept_ac(
    st: StateView,
    f: FileView,
    a: AcLineView,
    raw: Seq<char>,
    index: int,
) -> StateView {
    let first = lookup(st.seen, a.local_id) is None;
    let task_id = or_empty(lookup(st.task_ids, a.parent_task_local_id));
    let fault = monotony_fault(
        st.ac_updated,
        "acceptance_criterion"@,
        a.local_id,
        a.updated_at,
        line_no(index),
    );
    let next = warned(st, f, fault, index);
    StateView {
        seen: if first {
            st.seen.push((a.local_id, RowKind::Criterion))
        } else {
            st.seen
        },
        ac_identity: if first {
            st.ac_identity.push((a.local_id, (a.parent_task_local_id, a.ordinal)))
        } else {
            st.ac_identity
        },
        ac_ids: if first {
            st.ac_ids.push((a.local_id, ac_record_id(f.file_rel, task_id, a.ordinal)))
        } else {
            st.ac_ids
        },
        ac_updated: st.ac_updated.push((a.local_id, a.updated_at)),
        parsed: st.parsed.push(
            ParsedView::Criterion { line: a, raw, effective_status: effective_status(a) },
        ),
        ..next
    }
}

/// The state after a criterion row: the warning about its verification comes first.
pub open spec fn ac_step(
    st: StateView,
    f: FileView,
    a: AcLineView,
    raw: Seq<char>,
    index: int,
) -> StateView {
    let next = warned(st, f, verification_warning(a, line_no(index)), index);
    match ac_fault(st, a, line_no(index)) {
        Some(fault) => next.report(f, fault, index),
        None => accept_ac(next, f, a, raw, index),
    }
}

fn step_ac(st: &mut State, f: &FileContext, a: &AcLine, raw: &str, line: &str, index: Ghost<int>)
    requires
        line@ == line_no(index@),
    ensures
        final(st).deep_view() == ac_step(
            old(st).deep_view(),
            f.deep_view(),
            a.deep_view(),
            raw@,
            index@,
        ),
{
    let fault: Option<Fault> = check_ac(st, a, line);
    if let Some(x) = warn_verification(a, line) {
        st.report(f, x, line, index);
    }
    if let Some(x) = fault {
        st.report(f, x, line, index);
        return;
    }
    let id: &str = a.local_id.as_str();
    let parent: &str = a.parent_task_local_id.as_str();
    let late: Option<Fault> = check_monotony(
        &st.ac_updated,
        "acceptance_criterion",
        id,
        a.updated_at.as_str(),
        line,
    );
    if let Some(x) = late {
        st.report(f, x, line, index);
    }
    if find_value(&st.seen, id).is_none() {
        let task_id: String = match find_value(&st.task_ids, parent) {
            Some(t) => t.clone(),
            None => String::new(),
        };
        let ghost b1 = st.seen;
        let ghost b2 = st.ac_identity;
        let ghost b3 = st.ac_ids;
        st.seen.push((a.local_id.clone(), RowKind::Criterion));
        st.ac_identity.push((a.local_id.clone(), (a.parent_task_local_id.clone(), a.ordinal)));
        st.ac_ids.push((a.local_id.clone(), ac_id_for(f.file_rel, task_id.as_str(), a.ordinal)));
        proof {
            lemma_push(b1, st.seen);
            lemma_push(b2, st.ac_identity);
            lemma_push(b3, st.ac_ids);
        }
    }
    let status: Option<String> = if same(a.status.as_str(), "verified") {
        Some("unverified".to_owned())
    } else {
        None
    };
    let ghost b4 = st.ac_updated;
    st.ac_updated.push((a.local_id.clone(), a.updated_at.clone()));
    let ghost b5 = st.parsed;
    st.parsed.push(
        ParsedRecord::Criterion {
            line: a.duplicate(),
            raw: raw.to_owned(),
            effective_status: status,
        },
    );
    proof {
        lemma_push(b4, st.ac_updated);
        lemma_push(b5, st.parsed);
    }
}

// ── External links ──────────────────────────────────────────────────────────

/// The row speaks of the source link of a known task.
pub open spec fn refines(st: StateView, f: FileView, l: ExternalLinkLineView) -> bool {
    l.system == "local_file"@ && lookup(st.task_ids, l.parent_local_id) is Some
        && l.system_native_id == identity_handle(f.file_rel, l.parent_local_id)
}

fn check_refines(st: &State, f: &FileContext, l: &ExternalLinkLine) -> (r: bool)
    ensures
        r == refines(st.deep_view(), f.deep_view(), l.deep_view()),
{
    same(l.system.as_str(), "local_file") && find_value(
        &st.task_ids,
        l.parent_local_id.as_str(),
    ).is_some() && same(
        l.system_native_id.as_str(),
        source_identity_handle(f.file_rel, l.parent_local_id.as_str()).as_str(),
    )
}

pub open spec fn link_key(l: ExternalLinkLineView) -> (Seq<char>, Seq<char>, Seq<char>) {
    (l.system, l.system_native_id, l.parent_local_id)
}

/// Which timestamps of a link row can be read.
#[derive(Debug, Clone, Copy, PartialEq, Eq, Structural)]
pub struct Timely {
    pub discovered_at: bool,
    pub updated_at: bool,
}

pub open spec fn timely(l: ExternalLinkLineView) -> Timely {
    Timely {
        discovered_at: is_timestamp(l.discovered_at),
        updated_at: is_timestamp(l.updated_at),
    }
}

fn check_timely(l: &ExternalLinkLine) -> (r: Timely)
    ensures
        r == timely(l.deep_view()),
{
    Timely {
        discovered_at: check_timestamp(l.discovered_at.as_str()),
        updated_at: check_timestamp(l.updated_at.as_str()),
    }
}

/// A timestamp of a link row that cannot be read.
pub open spec fn link_time_fault(
    l: ExternalLinkLineView,
    what: Seq<char>,
    line: Seq<char>,
    timely: Timely,
) -> Option<FaultView> {
    if !timely.discovered_at {
        Some(link_timestamp_fault(l.local_id, "discovered_at"@, what, line, l.discovered_at))
    } else if !timely.updated_at {
        Some(link_timestamp_fault(l.local_id, "updated_at"@, what, line, l.updated_at))
    } else {
        None
    }
}

fn check_link_time(l: &ExternalLinkLine, what: &str, line: &str, timely: Timely) -> (r: Option<Fault>)
    ensures
        r.deep_view() == link_time_fault(l.deep_view(), what@, line@, timely),
{
    let id: &str = l.local_id.as_str();
    if !timely.discovered_at {
        Some(link_timestamp(id, "discovered_at", what, line, l.discovered_at.as_str()))
    } else if !timely.updated_at {
        Some(link_timestamp(id, "updated_at", what, line, l.updated_at.as_str()))
    } else {
        None
    }
}

/// The first check that a row about a source link fails.
pub open spec fn refinement_fault_given(
    st: StateView,
    l: ExternalLinkLineView,
    line: Seq<char>,
    timely: Timely,
) -> Option<FaultView> {
    let earlier = lookup(st.seen, l.local_id);
    let identity = lookup(st.link_identity, l.local_id);
    if earlier is Some && earlier->0 != RowKind::Link {
        Some(refinement_kind_mismatch_fault(l.local_id, line, earlier->0.name()))
    } else if identity is Some && identity->0 != link_key(l) {
        Some(refinement_identity_fault(l.local_id, line))
    } else {
        link_time_fault(l, "refinement"@, line, timely)
    }
}

fn same_key(identity: &(String, String, String), l: &ExternalLinkLine) -> (r: bool)
    ensures
        r == (identity.deep_view() == link_key(l.deep_view())),
{
    same(identity.0.as_str(), l.system.as_str()) && same(
        identity.1.as_str(),
        l.system_native_id.as_str(),
    ) && same(identity.2.as_str(), l.parent_local_id.as_str())
}

pub fn check_refinement_given(
    st: &State,
    l: &ExternalLinkLine,
    line: &str,
    timely: Timely,
) -> (r: Option<Fault>)
    ensures
        r.deep_view() == refinement_fault_given(st.deep_view(), l.deep_view(), line@, timely),
{
    let id: &str = l.local_id.as_str();
    if let Some(kind) = find_value(&st.seen, id) {
        if *kind != RowKind::Link {
            return Some(refinement_kind_mismatch(id, line, kind.as_str()));
        }
    }
    if let Some(identity) = find_value(&st.link_identity, id) {
        if !same_key(identity, l) {
            return Some(refinement_identity(id, line));
        }
    }
    check_link_time(l, "refinement", line, timely)
}

/// The first check that a row about a source link fails, its timestamps read.
pub open spec fn refinement_fault(
    st: StateView,
    l: ExternalLinkLineView,
    line: Seq<char>,
) -> Option<FaultView> {
    refinement_fault_given(st, l, line, timely(l))
}

fn check_refinement(st: &State, l: &ExternalLinkLine, line: &str) -> (r: Option<Fault>)
    ensures
        r.deep_view() == refinement_fault(st.deep_view(), l.deep_view(), line@),
{
    check_refinement_given(st, l, line, check_timely(l))
}

/// The first check that any other link row fails.
pub open spec fn link_fault_given(
    st: StateView,
    l: ExternalLinkLineView,
    line: Seq<char>,
    timely: Timely,
) -> Option<FaultView> {
    let earlier = lookup(st.seen, l.local_id);
    let identity = lookup(st.link_identity, l.local_id);
    let prior = owner_of(st.link_owner, l.system, l.system_native_id);
    if !valid_link_system(l.system) {
        Some(link_system_fault(l.local_id, line, l.system))
    } else if link_time_fault(l, "external_link"@, line, timely) is Some {
        link_time_fault(l, "external_link"@, line, timely)
    } else if lookup(st.task_ids, l.parent_local_id) is None && lookup(
        st.ac_ids,
        l.parent_local_id,
    ) is None {
        Some(link_parent_fault(l.local_id, line, l.parent_local_id))
    } else if earlier is Some {
        if earlier->0 != RowKind::Link {
            Some(kind_mismatch_fault(l.local_id, line, "external_link"@, earlier->0.name()))
        } else if identity is Some && identity->0 != link_key(l) {
            Some(link_identity_fault(l.local_id, line))
        } else {
            None
        }
    } else if prior is Some {
        Some(link_collision_fault(l.local_id, line, l.system, l.system_native_id, prior->0))
    } else {
        None
    }
}

pub fn check_link_given(
    st: &State,
    l: &ExternalLinkLine,
    line: &str,
    timely: Timely,
) -> (r: Option<Fault>)
    ensures
        r.deep_view() == link_fault_given(st.deep_view(), l.deep_view(), line@, timely),
{
    let id: &str = l.local_id.as_str();
    if !is_valid_link_system(l.system.as_str()) {
        return Some(link_system(id, line, l.system.as_str()));
    }
    let late: Option<Fault> = check_link_time(l, "external_link", line, timely);
    if late.is_some() {
        return late;
    }
    let parent: &str = l.parent_local_id.as_str();
    if find_value(&st.task_ids, parent).is_none() && find_value(&st.ac_ids, parent).is_none() {
        return Some(link_parent(id, line, parent));
    }
    match find_value(&st.seen, id) {
        Some(kind) => {
            if *kind != RowKind::Link {
                return Some(kind_mismatch(id, line, "external_link", kind.as_str()));
            }
            if let Some(identity) = find_value(&st.link_identity, id) {
                if !same_key(identity, l) {
                    return Some(link_identity(id, line));
                }
            }
            None
        },
        None => match find_owner(
            &st.link_owner,
            l.system.as_str(),
            l.system_native_id.as_str(),
        ) {
            Some(prior) => Some(
                link_collision(
                    id,
                    line,
                    l.system.as_str(),
                    l.system_native_id.as_str(),
                    prior.as_str(),
                ),
            ),
            None => None,
        },
    }
}

/// The first check that any other link row fails, its timestamps read.
pub open spec fn link_fault(st: StateView, l: ExternalLinkLineView, line: Seq<char>) -> Option<
    FaultView,
> {
    link_fault_given(st, l, line, timely(l))
}

fn check_link(st: &State, l: &ExternalLinkLine, line: &str) -> (r: Option<Fault>)
    ensures
        r.deep_view() == link_fault(st.deep_view(), l.deep_view(), line@),
{
    check_link_given(st, l, line, check_timely(l))
}

/// The state after a row about a source link that passed its checks. It yields no record of its
/// own.
pub open spec fn accept_refinement(
    st: StateView,
    l: ExternalLinkLineView,
    raw: Seq<char>,
) -> StateView {
    StateView {
        refinements: st.refinements.push((l.parent_local_id, RefinementView { link: l, raw })),
        seen: st.seen.push((l.local_id, RowKind::Link)),
        link_identity: put_new(st.link_identity, l.local_id, link_key(l)),
        ..st
    }
}

/// The state after any other link that passed its checks.
pub open spec fn accept_link(st: StateView, l: ExternalLinkLineView, raw: Seq<char>) -> StateView {
    let first = lookup(st.seen, l.local_id) is None;
    StateView {
        seen: if first {
            st.seen.push((l.local_id, RowKind::Link))
        } else {
            st.seen
        },
        link_owner: if first {
            st.link_owner.push((l.local_id, (l.system, l.system_native_id)))
        } else {
            st.link_owner
        },
        link_identity: if first {
            st.link_identity.push((l.local_id, link_key(l)))
        } else {
            st.link_identity
        },
        parsed: st.parsed.push(ParsedView::Link { line: l, raw }),
        ..st
    }
}

/// The state after a link row.
pub open spec fn link_step(
    st: StateView,
    f: FileView,
    l: ExternalLinkLineView,
    raw: Seq<char>,
    index: int,
) -> StateView {
    let line = line_no(index);
    if refines(st, f, l) {
        match refinement_fault(st, l, line) {
            Some(fault) => st.report(f, fault, index),
            None => accept_refinement(st, l, raw),
        }
    } else {
        match link_fault(st, l, line) {
            Some(fault) => st.report(f, fault, index),
            None => accept_link(st, l, raw),
        }
    }
}

fn key_of(l: &ExternalLinkLine) -> (r: (String, String, String))
    ensures
        r.deep_view() == link_key(l.deep_view()),
{
    (l.system.clone(), l.system_native_id.clone(), l.parent_local_id.clone())
}

fn step_link(
    st: &mut State,
    f: &FileContext,
    l: &ExternalLinkLine,
    raw: &str,
    line: &str,
    index: Ghost<int>,
)
    requires
        line@ == line_no(index@),
    ensures
        final(st).deep_view() == link_step(
            old(st).deep_view(),
            f.deep_view(),
            l.deep_view(),
            raw@,
            index@,
        ),
{
    let id: &str = l.local_id.as_str();
    if check_refines(st, f, l) {
        if let Some(x) = check_refinement(st, l, line) {
            st.report(f, x, line, index);
            return;
        }
        let ghost b1 = st.refinements;
        let ghost b2 = st.seen;
        let ghost b3 = st.link_identity;
        st.refinements.push(
            (
                l.parent_local_id.clone(),
                Refinement { link: l.duplicate(), raw: raw.to_owned() },
            ),
        );
        st.seen.push((l.local_id.clone(), RowKind::Link));
        if find_value(&st.link_identity, id).is_none() {
            st.link_identity.push((l.local_id.clone(), key_of(l)));
            proof {
                lemma_push(b3, st.link_identity);
            }
        }
        proof {
            lemma_push(b1, st.refinements);
            lemma_push(b2, st.seen);
        }
    } else {
        if let Some(x) = check_link(st, l, line) {
            st.report(f, x, line, index);
            return;
        }
        if find_value(&st.seen, id).is_none() {
            let ghost b1 = st.seen;
            let ghost b2 = st.link_owner;
            let ghost b3 = st.link_identity;
            st.seen.push((l.local_id.clone(), RowKind::Link));
            st.link_owner.push(
                (l.local_id.clone(), (l.system.clone(), l.system_native_id.clone())),
            );
            st.link_identity.push((l.local_id.clone(), key_of(l)));
            proof {
                lemma_push(b1, st.seen);
                lemma_push(b2, st.link_owner);
                lemma_push(b3, st.link_identity);
            }
        }
        let ghost b4 = st.parsed;
        st.parsed.push(ParsedRecord::Link { line: l.duplicate(), raw: raw.to_owned() });
        proof {
            lemma_push(b4, st.parsed);
        }
    }
}

// ── Rows ────────────────────────────────────────────────────────────────────

/// The state after one line. A blank line changes nothing.
pub open spec fn row_step(st: StateView, f: FileView, l: InputLineView, index: int) -> StateView {
    let line = line_no(index);
    let at = decimal_of(index as nat);
    if trimmed(l.text).len() == 0 {
        st
    } else {
        match l.row {
            RowView::Invalid { error } => st.report(
                f,
                invalid_json_fault(at, line, f.file_rel, error),
                index,
            ),
            RowView::Task(Ok(t)) => task_step(st, f, t, l.text, index),
            RowView::Task(Err(e)) => st.report(
                f,
                invalid_task_fields_fault(at, line, f.file_rel, e),
                index,
            ),
            RowView::Criterion(Ok(a)) => ac_step(st, f, a, l.text, index),
            RowView::Criterion(Err(e)) => st.report(
                f,
                invalid_ac_fields_fault(at, line, f.file_rel, e),
                index,
            ),
            RowView::Link(Ok(x)) => link_step(st, f, x, l.text, index),
            RowView::Link(Err(e)) => st.report(
                f,
                invalid_link_fields_fault(at, line, f.file_rel, e),
                index,
            ),
            RowView::Header(_) => st.report(
                f,
                unknown_kind_fault("header"@, at, line, f.file_rel),
                index,
            ),
            RowView::Unknown { kind } => st.report(
                f,
                unknown_kind_fault(kind, at, line, f.file_rel),
                index,
            ),
        }
    }
}

fn step_row(st: &mut State, f: &FileContext, l: &InputLine, index: usize)
    requires
        index < usize::MAX,
    ensures
        final(st).deep_view() == row_step(
            old(st).deep_view(),
            f.deep_view(),
            l.deep_view(),
            index as int,
        ),
{
    if trim(l.text.as_str()).as_str().is_empty() {
        return;
    }
    let number: String = decimal((index + 1) as u64);
    let line: &str = number.as_str();
    let position: String = decimal(index as u64);
    let at: &str = position.as_str();
    let raw: &str = l.text.as_str();
    let ghost i = index as int;
    match &l.row {
        Row::Invalid { error } => st.report(
            f,
            invalid_json(at, line, f.file_rel, error.as_str()),
            line,
            Ghost(i),
        ),
        Row::Task(Ok(t)) => step_task(st, f, t, raw, line, Ghost(i)),
        Row::Task(Err(e)) => st.report(
            f,
            invalid_task_fields(at, line, f.file_rel, e.as_str()),
            line,
            Ghost(i),
        ),
        Row::Criterion(Ok(a)) => step_ac(st, f, a, raw, line, Ghost(i)),
        Row::Criterion(Err(e)) => st.report(
            f,
            invalid_ac_fields(at, line, f.file_rel, e.as_str()),
            line,
            Ghost(i),
        ),
        Row::Link(Ok(x)) => step_link(st, f, x, raw, line, Ghost(i)),
        Row::Link(Err(e)) => st.report(
            f,
            invalid_link_fields(at, line, f.file_rel, e.as_str()),
            line,
            Ghost(i),
        ),
        Row::Header(_) => st.report(
            f,
            unknown_kind("header", at, line, f.file_rel),
            line,
            Ghost(i),
        ),
        Row::Unknown { kind } => st.report(
            f,
            unknown_kind(kind.as_str(), at, line, f.file_rel),
            line,
            Ghost(i),
        ),
    }
}

/// The state after the first `n` lines; the first line is the header and no row.
pub open spec fn checked(f: FileView, lines: Seq<InputLineView>, n: nat) -> StateView
    decreases n,
{
    if n <= 1 {
        StateView::start()
    } else {
        row_step(checked(f, lines, (n - 1) as nat), f, lines[n - 1], n - 1)
    }
}

pub fn check_rows(f: &FileContext, lines: &Vec<InputLine>) -> (r: State)
    ensures
        r.deep_view() == checked(f.deep_view(), lines.deep_view(), lines.deep_view().len()),
{
    let ghost all = lines.deep_view();
    let mut st: State = State::start();
    let mut i: usize = 1;
    while i < lines.len()
        invariant
            1 <= i,
            i <= lines.len() || i == 1,
            all == lines.deep_view(),
            st.deep_view() == checked(f.deep_view(), all, i as nat),
        decreases lines.len() - i,
    {
        assert(all[i as int] == lines@[i as int].deep_view());
        step_row(&mut st, f, &lines[i], i);
        i += 1;
    }
    st
}

} // verus!
