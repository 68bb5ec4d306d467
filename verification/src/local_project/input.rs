//! The rows of a task file.
use vstd::prelude::*;

use crate::duplicate::{duplicate_all, duplicate_opt, Duplicate};

verus! {

/// The body of a task as its row gives it.
#[derive(Debug, PartialEq, Eq)]
pub enum TaskBody {
    /// Missing, or null.
    Absent,
    /// The text itself.
    Text(String),
    /// A handle; each of its fields where it is there with the right type.
    Handle { hash: Option<String>, bytes: Option<u64>, inline: Option<String> },
    /// Anything else.
    Other,
}

#[verifier::ext_equal]
pub enum TaskBodyView {
    Absent,
    Text(Seq<char>),
    Handle { hash: Option<Seq<char>>, bytes: Option<u64>, inline: Option<Seq<char>> },
    Other,
}

impl DeepView for TaskBody {
    type V = TaskBodyView;

    open spec fn deep_view(&self) -> TaskBodyView {
        match self {
            TaskBody::Absent => TaskBodyView::Absent,
            TaskBody::Text(s) => TaskBodyView::Text(s@),
            TaskBody::Handle { hash, bytes, inline } => TaskBodyView::Handle {
                hash: hash.deep_view(),
                bytes: *bytes,
                inline: inline.deep_view(),
            },
            TaskBody::Other => TaskBodyView::Other,
        }
    }
}

impl Duplicate for TaskBody {
    fn duplicate(&self) -> (r: TaskBody) {
        match self {
            TaskBody::Absent => TaskBody::Absent,
            TaskBody::Text(s) => TaskBody::Text(s.clone()),
            TaskBody::Handle { hash, bytes, inline } => TaskBody::Handle {
                hash: duplicate_opt(hash),
                bytes: *bytes,
                inline: duplicate_opt(inline),
            },
            TaskBody::Other => TaskBody::Other,
        }
    }
}

/// The first row of a file.
#[derive(Debug, PartialEq, Eq)]
pub struct HeaderLine {
    pub schema_version: u32,
    pub project_slug: String,
    pub created_at: String,
}

#[verifier::ext_equal]
pub struct HeaderLineView {
    pub schema_version: u32,
    pub project_slug: Seq<char>,
    pub created_at: Seq<char>,
}

impl DeepView for HeaderLine {
    type V = HeaderLineView;

    open spec fn deep_view(&self) -> HeaderLineView {
        HeaderLineView {
            schema_version: self.schema_version,
            project_slug: self.project_slug@,
            created_at: self.created_at@,
        }
    }
}

impl Duplicate for HeaderLine {
    fn duplicate(&self) -> (r: HeaderLine) {
        HeaderLine {
            schema_version: self.schema_version,
            project_slug: self.project_slug.clone(),
            created_at: self.created_at.clone(),
        }
    }
}

/// A task, or a later revision of it.
#[derive(Debug, PartialEq, Eq)]
pub struct TaskLine {
    pub local_id: String,
    pub title: String,
    pub body: TaskBody,
    pub status: String,
    pub priority: String,
    pub assignees: Vec<String>,
    pub labels: Vec<String>,
    pub created_at: String,
    pub updated_at: String,
}

#[verifier::ext_equal]
pub struct TaskLineView {
    pub local_id: Seq<char>,
    pub title: Seq<char>,
    pub body: TaskBodyView,
    pub status: Seq<char>,
    pub priority: Seq<char>,
    pub assignees: Seq<Seq<char>>,
    pub labels: Seq<Seq<char>>,
    pub created_at: Seq<char>,
    pub updated_at: Seq<char>,
}

impl DeepView for TaskLine {
    type V = TaskLineView;

    open spec fn deep_view(&self) -> TaskLineView {
        TaskLineView {
            local_id: self.local_id@,
            title: self.title@,
            body: self.body.deep_view(),
            status: self.status@,
            priority: self.priority@,
            assignees: self.assignees.deep_view(),
            labels: self.labels.deep_view(),
            created_at: self.created_at@,
            updated_at: self.updated_at@,
        }
    }
}

impl Duplicate for TaskLine {
    fn duplicate(&self) -> (r: TaskLine) {
        TaskLine {
            local_id: self.local_id.clone(),
            title: self.title.clone(),
            body: self.body.duplicate(),
            status: self.status.clone(),
            priority: self.priority.clone(),
            assignees: duplicate_all(&self.assignees),
            labels: duplicate_all(&self.labels),
            created_at: self.created_at.clone(),
            updated_at: self.updated_at.clone(),
        }
    }
}

/// An acceptance criterion of a task.
#[derive(Debug, PartialEq, Eq)]
pub struct AcLine {
    pub local_id: String,
    pub parent_task_local_id: String,
    pub ordinal: u32,
    pub text: String,
    pub status: String,
    /// The row carries a verification handle.
    pub has_verification_handle: bool,
    pub updated_at: String,
}

#[verifier::ext_equal]
pub struct AcLineView {
    pub local_id: Seq<char>,
    pub parent_task_local_id: Seq<char>,
    pub ordinal: u32,
    pub text: Seq<char>,
    pub status: Seq<char>,
    pub has_verification_handle: bool,
    pub updated_at: Seq<char>,
}

impl DeepView for AcLine {
    type V = AcLineView;

    open spec fn deep_view(&self) -> AcLineView {
        AcLineView {
            local_id: self.local_id@,
            parent_task_local_id: self.parent_task_local_id@,
            ordinal: self.ordinal,
            text: self.text@,
            status: self.status@,
            has_verification_handle: self.has_verification_handle,
            updated_at: self.updated_at@,
        }
    }
}

impl Duplicate for AcLine {
    fn duplicate(&self) -> (r: AcLine) {
        AcLine {
            local_id: self.local_id.clone(),
            parent_task_local_id: self.parent_task_local_id.clone(),
            ordinal: self.ordinal,
            text: self.text.clone(),
            status: self.status.clone(),
            has_verification_handle: self.has_verification_handle,
            updated_at: self.updated_at.clone(),
        }
    }
}

/// A link from a task or criterion to another system.
#[derive(Debug, PartialEq, Eq)]
pub struct ExternalLinkLine {
    pub local_id: String,
    pub parent_local_id: String,
    pub system: String,
    pub url: String,
    pub system_native_id: String,
    pub discovered_at: String,
    pub updated_at: String,
}

#[verifier::ext_equal]
pub struct ExternalLinkLineView {
    pub local_id: Seq<char>,
    pub parent_local_id: Seq<char>,
    pub system: Seq<char>,
    pub url: Seq<char>,
    pub system_native_id: Seq<char>,
    pub discovered_at: Seq<char>,
    pub updated_at: Seq<char>,
}

impl DeepView for ExternalLinkLine {
    type V = ExternalLinkLineView;

    open spec fn deep_view(&self) -> ExternalLinkLineView {
        ExternalLinkLineView {
            local_id: self.local_id@,
            parent_local_id: self.parent_local_id@,
            system: self.system@,
            url: self.url@,
            system_native_id: self.system_native_id@,
            discovered_at: self.discovered_at@,
            updated_at: self.updated_at@,
        }
    }
}

impl Duplicate for ExternalLinkLine {
    fn duplicate(&self) -> (r: ExternalLinkLine) {
        ExternalLinkLine {
            local_id: self.local_id.clone(),
            parent_local_id: self.parent_local_id.clone(),
            system: self.system.clone(),
            url: self.url.clone(),
            system_native_id: self.system_native_id.clone(),
            discovered_at: self.discovered_at.clone(),
            updated_at: self.updated_at.clone(),
        }
    }
}

/// One row: what its kind field says, and its fields or the reason why they cannot be read.
#[derive(Debug, PartialEq, Eq)]
pub enum Row {
    /// No JSON object with a kind.
    Invalid { error: String },
    Header(Result<HeaderLine, String>),
    Task(Result<TaskLine, String>),
    Criterion(Result<AcLine, String>),
    Link(Result<ExternalLinkLine, String>),
    /// A kind that is not known.
    Unknown { kind: String },
}

#[verifier::ext_equal]
pub enum RowView {
    Invalid { error: Seq<char> },
    Header(Result<HeaderLineView, Seq<char>>),
    Task(Result<TaskLineView, Seq<char>>),
    Criterion(Result<AcLineView, Seq<char>>),
    Link(Result<ExternalLinkLineView, Seq<char>>),
    Unknown { kind: Seq<char> },
}

impl DeepView for Row {
    type V = RowView;

    open spec fn deep_view(&self) -> RowView {
        match self {
            Row::Invalid { error } => RowView::Invalid { error: error@ },
            Row::Header(Ok(x)) => RowView::Header(Ok(x.deep_view())),
            Row::Header(Err(e)) => RowView::Header(Err(e@)),
            Row::Task(Ok(x)) => RowView::Task(Ok(x.deep_view())),
            Row::Task(Err(e)) => RowView::Task(Err(e@)),
            Row::Criterion(Ok(x)) => RowView::Criterion(Ok(x.deep_view())),
            Row::Criterion(Err(e)) => RowView::Criterion(Err(e@)),
            Row::Link(Ok(x)) => RowView::Link(Ok(x.deep_view())),
            Row::Link(Err(e)) => RowView::Link(Err(e@)),
            Row::Unknown { kind } => RowView::Unknown { kind: kind@ },
        }
    }
}

/// One line of a file: its text and the row it writes.
#[derive(Debug, PartialEq, Eq)]
pub struct InputLine {
    pub text: String,
    pub row: Row,
}

#[verifier::ext_equal]
pub struct InputLineView {
    pub text: Seq<char>,
    pub row: RowView,
}

impl DeepView for InputLine {
    type V = InputLineView;

    open spec fn deep_view(&self) -> InputLineView {
        InputLineView {
            text: self.text@,
            row: self.row.deep_view(),
        }
    }
}

/// A task file, read and split into lines.
#[derive(Debug, PartialEq, Eq)]
pub struct TaskFile {
    /// The path as the caller knows it.
    pub path: String,
    /// The path in the repository, with forward slashes.
    pub file_rel: String,
    /// The file name without its extension.
    pub file_stem: String,
    pub lines: Vec<InputLine>,
}

#[verifier::ext_equal]
pub struct TaskFileView {
    pub path: Seq<char>,
    pub file_rel: Seq<char>,
    pub file_stem: Seq<char>,
    pub lines: Seq<InputLineView>,
}

impl DeepView for TaskFile {
    type V = TaskFileView;

    open spec fn deep_view(&self) -> TaskFileView {
        TaskFileView {
            path: self.path@,
            file_rel: self.file_rel@,
            file_stem: self.file_stem@,
            lines: self.lines.deep_view(),
        }
    }
}

} // verus!
