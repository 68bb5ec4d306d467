//! Scanning a repository: from what was found on disk to its code graph.
use vstd::prelude::*;

use crate::duplicate::{duplicate_all, lemma_push, Duplicate};
use crate::ir::{
    code_edge, code_id, produced, stable_id, valid_time_inferred, CodeFieldsView, EdgeLabel,
    ExtensionCount, ExtensionCountView, Graph, GraphRecord, IdentitySource, NodeKind, NodeRecord,
    NodeRecordView, Producer, ProducerComponent, ProducerComponentView, ProducerKind, ProducerView,
    RecordView, RepositoryFieldsView, RepositoryIdentityPayload, RepositoryIdentityPayloadView,
    ScanCoveragePayload, ScanCoveragePayloadView, SnapshotHead, SnapshotHeadView,
    SourceSnapshotPayload, SourceSnapshotPayloadView, SourceSpan, SymbolRole, EGREGORE_VERSION,
};
use crate::languages::common::with_references;
use crate::languages::facts::{FileFacts, FileFactsView};
use crate::languages::paths::{path_segments, segments};
use crate::languages::rust::extract::{FileSource, FileSourceView};
use crate::languages::syntax::{
    plus, saturating_plus, syntax_of, Grammar, ParseError, ParseErrorView,
};
use crate::languages::{rust, typescript};
use crate::log_graph::decode_text;
use crate::order::{
    count_text, distinct, distinct_texts, law_occurrences_add_up, occurrences, occurrences_of,
};
use crate::policy::CodePolicy;
use crate::text::{
    byte_len, cat, cat3, cat4, contains_text, decimal, decimal_of, ends_with, ends, joined,
    law_line_feeds_only, law_line_feeds_only_idempotent, line_feeds_only, lines, lines_of,
    normalize_line_endings, parts3, parts4, parts5, same, split_first, split_once, strip_prefix,
    text_bytes, truncate_chars, truncated, without_prefix,
};

verus! {

// ── Languages ───────────────────────────────────────────────────────────────

/// The languages whose syntax is extracted, in the order of their tags.
#[derive(Debug, Clone, Copy, PartialEq, Eq, Structural)]
pub enum Language {
    Rust,
    TypeScript,
}

impl Language {
    /// What records of the language are marked with.
    pub open spec fn tag(self) -> Seq<char> {
        match self {
            Language::Rust => "rust"@,
            Language::TypeScript => "typescript"@,
        }
    }

    pub open spec fn display(self) -> Seq<char> {
        match self {
            Language::Rust => "Rust"@,
            Language::TypeScript => "TypeScript"@,
        }
    }

    pub fn display_name(self) -> (r: &'static str)
        ensures
            r@ == self.display(),
    {
        match self {
            Language::Rust => "Rust",
            Language::TypeScript => "TypeScript",
        }
    }
}

/// The language of a file, by its extension; a file of no known language is taken for Rust.
pub open spec fn language_of(path: Seq<char>) -> Language {
    if ends(path, ".ts"@) || ends(path, ".tsx"@) {
        Language::TypeScript
    } else {
        Language::Rust
    }
}

pub fn detect_language(path: &str) -> (r: Language)
    ensures
        r == language_of(path@),
{
    if ends_with(path, ".ts") || ends_with(path, ".tsx") {
        Language::TypeScript
    } else {
        Language::Rust
    }
}

/// The versions of the parser and of its grammars.
#[derive(Debug, PartialEq, Eq)]
pub struct GrammarVersions {
    pub tree_sitter: String,
    pub rust: String,
    pub typescript: String,
}

#[verifier::ext_equal]
pub struct GrammarVersionsView {
    pub tree_sitter: Seq<char>,
    pub rust: Seq<char>,
    pub typescript: Seq<char>,
}

impl DeepView for GrammarVersions {
    type V = GrammarVersionsView;

    open spec fn deep_view(&self) -> GrammarVersionsView {
        GrammarVersionsView {
            tree_sitter: self.tree_sitter@,
            rust: self.rust@,
            typescript: self.typescript@,
        }
    }
}

/// What a repository is known by.
#[derive(Debug, PartialEq, Eq)]
pub struct RepositoryIdentity {
    pub id: String,
    pub payload: RepositoryIdentityPayload,
}

#[verifier::ext_equal]
pub struct RepositoryIdentityView {
    pub id: Seq<char>,
    pub payload: RepositoryIdentityPayloadView,
}

impl DeepView for RepositoryIdentity {
    type V = RepositoryIdentityView;

    open spec fn deep_view(&self) -> RepositoryIdentityView {
        RepositoryIdentityView {
            id: self.id@,
            payload: self.payload.deep_view(),
        }
    }
}

/// What reading a file gave.
#[derive(Debug, PartialEq, Eq)]
pub enum FileContent {
    Unreadable,
    Bytes(Vec<u8>),
}

#[verifier::ext_equal]
pub enum FileContentView {
    Unreadable,
    Bytes(Seq<u8>),
}

impl DeepView for FileContent {
    type V = FileContentView;

    open spec fn deep_view(&self) -> FileContentView {
        match self {
            FileContent::Unreadable => FileContentView::Unreadable,
            FileContent::Bytes(b) => FileContentView::Bytes(b@),
        }
    }
}

/// A source file that was found.
#[derive(Debug, PartialEq, Eq)]
pub struct SourceFile {
    pub repo_relative_path: String,
    /// Its extension in lower case; empty where it has none.
    pub extension: String,
    /// The root of the crate that it belongs to.
    pub crate_root: String,
    pub content: FileContent,
}

#[verifier::ext_equal]
pub struct SourceFileView {
    pub repo_relative_path: Seq<char>,
    pub extension: Seq<char>,
    pub crate_root: Seq<char>,
    pub content: FileContentView,
}

impl DeepView for SourceFile {
    type V = SourceFileView;

    open spec fn deep_view(&self) -> SourceFileView {
        SourceFileView {
            repo_relative_path: self.repo_relative_path@,
            extension: self.extension@,
            crate_root: self.crate_root@,
            content: self.content.deep_view(),
        }
    }
}

/// Which files a walk saw.
#[derive(Debug, PartialEq, Eq)]
pub struct ScanCoverageTally {
    pub files_walked: usize,
    pub files_indexed: usize,
    pub skipped_by_extension: Vec<ExtensionCount>,
    /// The files that were walked but not indexed, each with its extension.
    pub skipped_paths: Vec<(String, String)>,
    /// Whether the walk saw every file, and not only those of a known language.
    pub coverage_complete: bool,
}

#[verifier::ext_equal]
pub struct ScanCoverageTallyView {
    pub files_walked: usize,
    pub files_indexed: usize,
    pub skipped_by_extension: Seq<ExtensionCountView>,
    pub skipped_paths: Seq<(Seq<char>, Seq<char>)>,
    pub coverage_complete: bool,
}

impl DeepView for ScanCoverageTally {
    type V = ScanCoverageTallyView;

    open spec fn deep_view(&self) -> ScanCoverageTallyView {
        ScanCoverageTallyView {
            files_walked: self.files_walked,
            files_indexed: self.files_indexed,
            skipped_by_extension: self.skipped_by_extension.deep_view(),
            skipped_paths: self.skipped_paths.deep_view(),
            coverage_complete: self.coverage_complete,
        }
    }
}

// ── The repository ──────────────────────────────────────────────────────────

/// What a remote address names behind its host.
pub open spec fn remote_path(url: Seq<char>) -> Option<Seq<char>> {
    let rest = match (without_prefix(url, "https://"@), without_prefix(url, "http://"@)) {
        (Some(x), _) => Some(x),
        (None, x) => x,
    };
    match rest {
        Some(r) => match split_first(r, "/"@) {
            Some((_, path)) => if path.len() > 0 {
                Some(path)
            } else {
                None
            },
            None => None,
        },
        None => None,
    }
}

fn find_remote_path(url: &str) -> (r: Option<String>)
    ensures
        r.deep_view() == remote_path(url@),
{
    let rest: Option<String> = match strip_prefix(url, "https://") {
        Some(x) => Some(x),
        None => strip_prefix(url, "http://"),
    };
    match rest {
        Some(r) => match split_once(r.as_str(), "/") {
            Some((_, path)) => if path.as_str().is_empty() {
                None
            } else {
                Some(path)
            },
            None => None,
        },
        None => None,
    }
}

/// The name of a repository. It depends on the local directory only where nothing better is known.
pub open spec fn display_of(p: RepositoryIdentityPayloadView) -> Seq<char> {
    match p.identity_source {
        IdentitySource::Remote => match p.remote_url {
            Some(url) => match remote_path(url) {
                Some(path) => path,
                None => p.basename,
            },
            None => p.basename,
        },
        IdentitySource::LocalRootCommit => match p.root_commit_sha {
            Some(sha) => "commit-"@ + truncated(sha, 12),
            None => p.basename,
        },
        _ => p.basename,
    }
}

pub fn stable_display_name(payload: &RepositoryIdentityPayload) -> (r: String)
    ensures
        r@ == display_of(payload.deep_view()),
{
    match payload.identity_source {
        IdentitySource::Remote => match &payload.remote_url {
            Some(url) => match find_remote_path(url.as_str()) {
                Some(path) => path,
                None => payload.basename.clone(),
            },
            None => payload.basename.clone(),
        },
        IdentitySource::LocalRootCommit => match &payload.root_commit_sha {
            Some(sha) => cat("commit-", truncate_chars(sha.as_str(), 12).as_str()),
            None => payload.basename.clone(),
        },
        _ => payload.basename.clone(),
    }
}

/// The record of a repository.
pub open spec fn repository_node(identity: RepositoryIdentityView) -> NodeRecordView {
    let name = display_of(identity.payload);
    let base = NodeRecordView::plain(
        identity.id,
        NodeKind::Repository,
        None,
        None,
        Some(name),
        "Repository "@ + name,
    );
    NodeRecordView {
        repository: RepositoryFieldsView {
            repository_identity: Some(identity.payload),
            ..base.repository
        },
        ..base
    }
}

pub fn repository_record_from_identity(identity: &RepositoryIdentity) -> (r: NodeRecord)
    ensures
        r.deep_view() == repository_node(identity.deep_view()),
{
    let name: String = stable_display_name(&identity.payload);
    let summary: String = cat("Repository ", name.as_str());
    let mut n: NodeRecord = NodeRecord::plain(
        identity.id.clone(),
        NodeKind::Repository,
        None,
        None,
        Some(name),
        summary,
    );
    n.repository.repository_identity = Some(identity.payload.duplicate());
    n
}

// ── Files ───────────────────────────────────────────────────────────────────

/// Test code by its place: below `tests` or `benches` at the root.
pub open spec fn role_of(path: Seq<char>) -> SymbolRole {
    if segments(path).len() > 0 && (segments(path)[0] == "tests"@ || segments(path)[0]
        == "benches"@) {
        SymbolRole::Test
    } else {
        SymbolRole::Production
    }
}

pub fn file_role_for_path(repo_relative_path: &str) -> (r: SymbolRole)
    ensures
        r == role_of(repo_relative_path@),
{
    let parts: Vec<String> = path_segments(repo_relative_path);
    assert(parts.deep_view().len() == parts@.len());
    if parts.len() == 0 {
        return SymbolRole::Production;
    }
    assert(parts.deep_view()[0] == parts@[0].deep_view());
    if same(parts[0].as_str(), "tests") || same(parts[0].as_str(), "benches") {
        SymbolRole::Test
    } else {
        SymbolRole::Production
    }
}

/// The place of a whole file: its last line is its last, and an empty file has none.
pub open spec fn whole_span(source: Seq<char>) -> SourceSpan {
    let ls = lines_of(source);
    SourceSpan {
        start_byte: 0,
        end_byte: byte_len(source) as usize,
        start_line: 1,
        end_line: ls.len() as usize,
        start_column: Some(0),
        end_column: Some(
            if ls.len() == 0 {
                0
            } else {
                byte_len(ls.last()) as usize
            },
        ),
    }
}

pub fn whole_file_span(source: &str) -> (r: SourceSpan)
    ensures
        r == whole_span(source@),
{
    let ls: Vec<String> = lines(source);
    let n: usize = ls.len();
    assert(ls.deep_view().len() == ls@.len());
    let last: usize = if n == 0 {
        0
    } else {
        assert(ls.deep_view().last() == ls@[n - 1].deep_view());
        text_bytes(ls[n - 1].as_str())
    };
    SourceSpan {
        start_byte: 0,
        end_byte: text_bytes(source),
        start_line: 1,
        end_line: n,
        start_column: Some(0),
        end_column: Some(last),
    }
}

pub open spec fn file_id_of(repository_id: Seq<char>, path: Seq<char>) -> Seq<char> {
    code_id(seq!["node"@, "file"@, repository_id, path])
}

/// The source of a whole file, normalized after the manner of its language.
pub open spec fn normalized_source(path: Seq<char>, source: Seq<char>) -> Seq<char> {
    match language_of(path) {
        Language::Rust => rust::normalize::normalized_file(source),
        Language::TypeScript => typescript::normalized(source),
    }
}

/// The record of a file, and the edge to it from its repository.
pub open spec fn file_records(repository_id: Seq<char>, path: Seq<char>, source: Seq<char>) -> Seq<
    RecordView,
> {
    let base = NodeRecordView::plain(
        file_id_of(repository_id, path),
        NodeKind::File,
        Some(path),
        Some(whole_span(source)),
        Some(path),
        language_of(path).display() + " source file "@ + path + "\nSource:\n"@ + normalized_source(
            path,
            source,
        ),
    );
    seq![
        RecordView::Node(
            NodeRecordView {
                code: CodeFieldsView { role: Some(role_of(path)), ..base.code },
                ..base
            },
        ),
        RecordView::Edge(
            code_edge(
                EdgeLabel::Contains,
                repository_id,
                file_id_of(repository_id, path),
                Some("1.0"@),
                "Repository contains file "@ + path,
            ),
        ),
    ]
}

fn push_file_records(repository_id: &str, path: &str, source: &str, graph: &mut Graph)
    ensures
        final(graph)@ == old(graph)@ + file_records(repository_id@, path@, source@),
{
    let ghost start = graph@;
    let id: String = stable_id(&parts4("node", "file", repository_id, path));
    let language: Language = detect_language(path);
    let normalized: String = match language {
        Language::Rust => rust::normalize_file_code(source),
        Language::TypeScript => typescript::normalize_file_code(source),
    };
    let summary: String = cat3(language.display_name(), " source file ", path).concat(
        "\nSource:\n",
    ).concat(normalized.as_str());
    let mut n: NodeRecord = NodeRecord::plain(
        id.clone(),
        NodeKind::File,
        Some(path.to_owned()),
        Some(whole_file_span(source)),
        Some(path.to_owned()),
        summary,
    );
    n.code.role = Some(file_role_for_path(path));
    graph.push(GraphRecord::Node(n));
    graph.push(
        GraphRecord::edge(
            EdgeLabel::Contains,
            repository_id.to_owned(),
            id,
            Some("1.0".to_owned()),
            cat("Repository contains file ", path),
        ),
    );
    assert(graph@ =~= start + file_records(repository_id@, path@, source@));
}

/// What a file is read as.
pub open spec fn grammar_for(path: Seq<char>) -> Grammar {
    match language_of(path) {
        Language::Rust => Grammar::Rust,
        Language::TypeScript => typescript::grammar_of(path),
    }
}

pub open spec fn file_source<R: CodePolicy>(
    policy: R,
    repository_id: Seq<char>,
    path: Seq<char>,
    crate_root: Seq<char>,
    source: Seq<char>,
) -> FileSourceView<R> {
    FileSourceView {
        source,
        path,
        file_id: file_id_of(repository_id, path),
        repository_id,
        crate_root,
        redact: policy,
    }
}

/// The records and facts of a source text. Line endings do not matter: they are made line feeds
/// before anything else.
pub open spec fn text_scan<R: CodePolicy>(
    policy: R,
    repository_id: Seq<char>,
    path: Seq<char>,
    crate_root: Seq<char>,
    text: Seq<char>,
) -> Result<(Seq<RecordView>, FileFactsView), ParseErrorView> {
    let source = line_feeds_only(text);
    let head = file_records(repository_id, path, source);
    match syntax_of(grammar_for(path), source) {
        Err(e) => Err(e),
        Ok(t) => match language_of(path) {
            Language::Rust => {
                let e = file_source(policy, repository_id, path, crate_root, source);
                let found = rust::file::tree_findings(e, t);
                Ok(
                    (
                        with_references(
                            policy,
                            head + found.records,
                            found.definitions,
                            found.bodies,
                        ),
                        found.facts,
                    ),
                )
            },
            Language::TypeScript => {
                let f = typescript::TsFileView {
                    path,
                    file_id: file_id_of(repository_id, path),
                    repository_id,
                };
                let found = typescript::tree_findings(f, t);
                Ok(
                    (
                        with_references(
                            policy,
                            head + found.records,
                            found.definitions,
                            found.bodies,
                        ),
                        FileFactsView::none(),
                    ),
                )
            },
        },
    }
}

/// A checkout with other line endings yields the same records and facts.
pub proof fn law_line_endings_do_not_matter<R: CodePolicy>(
    policy: R,
    repository_id: Seq<char>,
    path: Seq<char>,
    crate_root: Seq<char>,
    text: Seq<char>,
)
    ensures
        text_scan(policy, repository_id, path, crate_root, text) == text_scan(
            policy,
            repository_id,
            path,
            crate_root,
            line_feeds_only(text),
        ),
{
    law_line_feeds_only_idempotent(text);
}

pub fn scan_source_text_records<R: CodePolicy>(
    policy: &R,
    repository_id: &str,
    path: &str,
    crate_root: &str,
    text: &str,
) -> (r: Result<(Vec<GraphRecord>, FileFacts), ParseError>)
    requires
        byte_len(text@) <= u32::MAX,
    ensures
        (match (r, text_scan(*policy, repository_id@, path@, crate_root@, text@)) {
            (Ok(x), Ok(y)) => x.0.deep_view() == y.0 && x.1.deep_view() == y.1,
            (Err(x), Err(y)) => x.deep_view() == y,
            _ => false,
        }),
{
    let source: String = normalize_line_endings(text);
    proof {
        law_line_feeds_only(text@);
    }
    let mut graph: Graph = Graph::new();
    push_file_records(repository_id, path, source.as_str(), &mut graph);
    let ghost head = file_records(repository_id@, path@, source@);
    assert(graph@ =~= head);
    let id: String = stable_id(&parts4("node", "file", repository_id, path));
    match detect_language(path) {
        Language::Rust => {
            let e: FileSource<R> = FileSource {
                source: source.as_str(),
                path,
                file_id: id.as_str(),
                repository_id,
                crate_root,
                redact: policy,
            };
            match rust::extract_file_source(&e, &mut graph) {
                Ok(x) => Ok((graph.records, x)),
                Err(x) => Err(x),
            }
        },
        Language::TypeScript => {
            let f: typescript::TsFile = typescript::TsFile {
                path,
                file_id: id.as_str(),
                repository_id,
            };
            match typescript::extract_file_source(policy, &f, source.as_str(), &mut graph) {
                Ok(_) => Ok((graph.records, FileFacts::none())),
                Err(x) => Err(x),
            }
        },
    }
}

// ── Outcomes ────────────────────────────────────────────────────────────────

/// What became of a file: its records and facts, or why it was passed over. A file that cannot be
/// read or decoded does not end the scan.
#[derive(Debug, PartialEq, Eq)]
pub enum SourceFileScanOutcome {
    Extracted { records: Vec<GraphRecord>, facts: FileFacts },
    Skipped { diagnostic: GraphRecord, repo_relative_path: String, extension: String },
}

#[verifier::ext_equal]
pub enum OutcomeView {
    Extracted { records: Seq<RecordView>, facts: FileFactsView },
    Skipped { diagnostic: RecordView, repo_relative_path: Seq<char>, extension: Seq<char> },
}

impl DeepView for SourceFileScanOutcome {
    type V = OutcomeView;

    open spec fn deep_view(&self) -> OutcomeView {
        match self {
            SourceFileScanOutcome::Extracted { records, facts } => OutcomeView::Extracted {
                records: records.deep_view(),
                facts: facts.deep_view(),
            },
            SourceFileScanOutcome::Skipped {
                diagnostic,
                repo_relative_path,
                extension,
            } => OutcomeView::Skipped {
                diagnostic: diagnostic.deep_view(),
                repo_relative_path: repo_relative_path@,
                extension: extension@,
            },
        }
    }
}

/// The diagnostic of a file that was passed over. It is the same on every machine.
pub open spec fn skip_diagnostic(
    repository_id: Seq<char>,
    path: Seq<char>,
    class: Seq<char>,
    summary: Seq<char>,
) -> RecordView {
    RecordView::Node(
        NodeRecordView::plain(
            code_id(seq!["node"@, "diagnostic"@, class, repository_id, path]),
            NodeKind::Diagnostic,
            Some(path),
            None,
            Some(class),
            summary,
        ),
    )
}

fn skipped_source_diagnostic(repository_id: &str, path: &str, class: &str, summary: &str) -> (r:
    GraphRecord)
    ensures
        r.deep_view() == skip_diagnostic(repository_id@, path@, class@, summary@),
{
    GraphRecord::Node(
        NodeRecord::plain(
            stable_id(&parts5("node", "diagnostic", class, repository_id, path)),
            NodeKind::Diagnostic,
            Some(path.to_owned()),
            None,
            Some(class.to_owned()),
            summary.to_owned(),
        ),
    )
}

/// A file that could not be read.
pub open spec fn unreadable(
    repository_id: Seq<char>,
    path: Seq<char>,
    extension: Seq<char>,
) -> OutcomeView {
    OutcomeView::Skipped {
        diagnostic: skip_diagnostic(
            repository_id,
            path,
            "unreadable_source"@,
            "skipped source file: unreadable"@,
        ),
        repo_relative_path: path,
        extension,
    }
}

pub fn unreadable_skip_outcome(repository_id: &str, path: &str, extension: &str) -> (r:
    SourceFileScanOutcome)
    ensures
        r.deep_view() == unreadable(repository_id@, path@, extension@),
{
    SourceFileScanOutcome::Skipped {
        diagnostic: skipped_source_diagnostic(
            repository_id,
            path,
            "unreadable_source",
            "skipped source file: unreadable",
        ),
        repo_relative_path: path.to_owned(),
        extension: extension.to_owned(),
    }
}

/// What becomes of a file. Only a failure of the parser ends the scan.
pub open spec fn outcome_of<R: CodePolicy>(
    policy: R,
    repository_id: Seq<char>,
    f: SourceFileView,
) -> Result<
    OutcomeView,
    ParseErrorView,
> {
    match f.content {
        FileContentView::Unreadable => Ok(
            unreadable(repository_id, f.repo_relative_path, f.extension),
        ),
        FileContentView::Bytes(b) => if vstd::utf8::valid_utf8(b) {
            match text_scan(
                policy,
                repository_id,
                f.repo_relative_path,
                f.crate_root,
                vstd::utf8::decode_utf8(b),
            ) {
                Ok((records, facts)) => Ok(OutcomeView::Extracted { records, facts }),
                Err(e) => Err(e),
            }
        } else {
            Ok(
                OutcomeView::Skipped {
                    diagnostic: skip_diagnostic(
                        repository_id,
                        f.repo_relative_path,
                        "non_utf8_source"@,
                        "skipped source file: not valid UTF-8"@,
                    ),
                    repo_relative_path: f.repo_relative_path,
                    extension: f.extension,
                },
            )
        },
    }
}

/// The parser's limit on a file. What is no text never gets there.
pub open spec fn within_limit(f: SourceFileView) -> bool {
    match f.content {
        FileContentView::Bytes(b) => vstd::utf8::valid_utf8(b) ==> b.len() <= u32::MAX,
        FileContentView::Unreadable => true,
    }
}

pub fn scan_source_file_records<R: CodePolicy>(policy: &R, repository_id: &str, f: &SourceFile) -> (r:
    Result<SourceFileScanOutcome, ParseError>)
    requires
        within_limit(f.deep_view()),
    ensures
        (match (r, outcome_of(*policy, repository_id@, f.deep_view())) {
            (Ok(x), Ok(y)) => x.deep_view() == y,
            (Err(x), Err(y)) => x.deep_view() == y,
            _ => false,
        }),
{
    let path: &str = f.repo_relative_path.as_str();
    match &f.content {
        FileContent::Unreadable => Ok(
            unreadable_skip_outcome(repository_id, path, f.extension.as_str()),
        ),
        FileContent::Bytes(b) => match decode_text(b.as_slice()) {
            Ok(text) => {
                proof {
                    vstd::utf8::decode_utf8_encode_utf8(b@);
                }
                match scan_source_text_records(
                    policy,
                    repository_id,
                    path,
                    f.crate_root.as_str(),
                    text.as_str(),
                ) {
                    Ok((records, facts)) => Ok(
                        SourceFileScanOutcome::Extracted { records, facts },
                    ),
                    Err(e) => Err(e),
                }
            },
            Err(_) => Ok(
                SourceFileScanOutcome::Skipped {
                    diagnostic: skipped_source_diagnostic(
                        repository_id,
                        path,
                        "non_utf8_source",
                        "skipped source file: not valid UTF-8",
                    ),
                    repo_relative_path: f.repo_relative_path.clone(),
                    extension: f.extension.clone(),
                },
            ),
        },
    }
}

// ── Coverage ────────────────────────────────────────────────────────────────

/// The paths of the file records.
pub open spec fn file_paths(records: Seq<RecordView>) -> Seq<Seq<char>>
    decreases records.len(),
{
    if records.len() == 0 {
        Seq::empty()
    } else {
        let rest = file_paths(records.drop_last());
        match records.last() {
            RecordView::Node(n) => match n.repo_relative_path {
                Some(path) => if n.kind == NodeKind::File {
                    rest.push(path)
                } else {
                    rest
                },
                None => rest,
            },
            _ => rest,
        }
    }
}

fn collect_file_paths(records: &Vec<GraphRecord>) -> (r: Vec<String>)
    ensures
        r.deep_view() == file_paths(records.deep_view()),
{
    let ghost all = records.deep_view();
    let mut out: Vec<String> = Vec::new();
    let mut i: usize = 0;
    assert(out.deep_view() =~= file_paths(all.take(0)));
    while i < records.len()
        invariant
            i <= records.len(),
            all == records.deep_view(),
            out.deep_view() == file_paths(all.take(i as int)),
        decreases records.len() - i,
    {
        proof {
            assert(all.take(i + 1).drop_last() =~= all.take(i as int));
            assert(all.take(i + 1).last() == records@[i as int].deep_view());
        }
        if let GraphRecord::Node(n) = &records[i] {
            if n.kind == NodeKind::File {
                if let Some(path) = &n.repo_relative_path {
                    let ghost before = out;
                    out.push(path.clone());
                    proof {
                        lemma_push(before, out);
                    }
                }
            }
        }
        i += 1;
    }
    assert(all.take(records.len() as int) =~= all);
    out
}

/// The extensions of the walked files that have no record.
pub open spec fn still_skipped(
    skipped: Seq<(Seq<char>, Seq<char>)>,
    indexed: Seq<Seq<char>>,
) -> Seq<Seq<char>>
    decreases skipped.len(),
{
    if skipped.len() == 0 {
        Seq::empty()
    } else if indexed.contains(skipped.last().0) {
        still_skipped(skipped.drop_last(), indexed)
    } else {
        still_skipped(skipped.drop_last(), indexed).push(skipped.last().1)
    }
}

fn collect_still_skipped(skipped: &Vec<(String, String)>, indexed: &Vec<String>) -> (r: Vec<String>)
    ensures
        r.deep_view() == still_skipped(skipped.deep_view(), indexed.deep_view()),
        r.len() <= skipped.len(),
{
    let ghost iv = indexed.deep_view();
    let ghost all = skipped.deep_view();
    let mut out: Vec<String> = Vec::new();
    let mut i: usize = 0;
    assert(out.deep_view() =~= still_skipped(all.take(0), iv));
    while i < skipped.len()
        invariant
            i <= skipped.len(),
            out.len() <= i,
            iv == indexed.deep_view(),
            all == skipped.deep_view(),
            out.deep_view() == still_skipped(all.take(i as int), iv),
        decreases skipped.len() - i,
    {
        proof {
            assert(all.take(i + 1).drop_last() =~= all.take(i as int));
            assert(all.take(i + 1).last() == skipped@[i as int].deep_view());
        }
        if !contains_text(indexed, skipped[i].0.as_str()) {
            let ghost before = out;
            out.push(skipped[i].1.clone());
            proof {
                lemma_push(before, out);
            }
        }
        i += 1;
    }
    assert(all.take(skipped.len() as int) =~= all);
    out
}

/// How often each extension occurs, in the order of the extensions.
pub open spec fn extension_counts(extensions: Seq<Seq<char>>) -> Seq<ExtensionCountView> {
    distinct(extensions).map_values(
        |x: Seq<char>|
            ExtensionCountView { extension: x, count: occurrences(extensions, x) as usize },
    )
}

fn count_extensions(extensions: &Vec<String>) -> (r: Vec<ExtensionCount>)
    ensures
        r.deep_view() == extension_counts(extensions.deep_view()),
{
    let ghost ev = extensions.deep_view();
    let ghost all = extension_counts(ev);
    let ks: Vec<String> = distinct_texts(extensions);
    let ghost kv = ks.deep_view();
    let mut out: Vec<ExtensionCount> = Vec::new();
    let mut i: usize = 0;
    assert(out.deep_view() =~= all.take(0));
    while i < ks.len()
        invariant
            i <= ks.len(),
            ev == extensions.deep_view(),
            kv == ks.deep_view(),
            kv == distinct(ev),
            all == extension_counts(ev),
            out.deep_view() == all.take(i as int),
        decreases ks.len() - i,
    {
        let n: usize = count_text(extensions, ks[i].as_str());
        let ghost before = out;
        out.push(ExtensionCount { extension: ks[i].clone(), count: n });
        proof {
            lemma_push(before, out);
            assert(kv[i as int] == ks@[i as int].deep_view());
            assert(all.take(i + 1) =~= all.take(i as int).push(all[i as int]));
        }
        i += 1;
    }
    assert(all.take(ks.len() as int) =~= all);
    out
}

/// The tally after every record of a scan is there: a walked file is indexed exactly if it has a
/// file record. Where the walk did not see every file, the files with a record are those that were
/// indexed, and the others it met are counted as skipped.
pub open spec fn reconciled(
    records: Seq<RecordView>,
    tally: ScanCoverageTallyView,
) -> ScanCoverageTallyView {
    let indexed = distinct(file_paths(records));
    let skipped = still_skipped(tally.skipped_paths, indexed);
    let counted = ScanCoverageTallyView {
        skipped_by_extension: extension_counts(skipped),
        ..tally
    };
    if tally.coverage_complete {
        ScanCoverageTallyView {
            files_indexed: (tally.files_walked - skipped.len()) as usize,
            ..counted
        }
    } else {
        ScanCoverageTallyView {
            files_indexed: indexed.len() as usize,
            files_walked: plus(indexed.len() as usize, skipped.len() as usize),
            ..counted
        }
    }
}

/// Where the walk saw every file, it saw at least those that are still without a record.
pub open spec fn reconcilable(records: Seq<RecordView>, tally: ScanCoverageTallyView) -> bool {
    tally.coverage_complete ==> still_skipped(
        tally.skipped_paths,
        distinct(file_paths(records)),
    ).len() <= tally.files_walked
}

/// A walk that saw every file saw at least those that it passed over.
pub open spec fn consistent(tally: ScanCoverageTallyView) -> bool {
    tally.coverage_complete ==> tally.skipped_paths.len() <= tally.files_walked
}

pub fn reconcile_scan_coverage(records: &Vec<GraphRecord>, tally: &mut ScanCoverageTally)
    requires
        reconcilable(records.deep_view(), old(tally).deep_view()),
    ensures
        final(tally).deep_view() == reconciled(records.deep_view(), old(tally).deep_view()),
{
    let indexed: Vec<String> = distinct_texts(&collect_file_paths(records));
    assert(indexed.deep_view().len() == indexed@.len());
    assert(tally.skipped_paths.deep_view().len() == tally.skipped_paths@.len());
    let skipped: Vec<String> = collect_still_skipped(&tally.skipped_paths, &indexed);
    assert(skipped.deep_view().len() == skipped@.len());
    tally.skipped_by_extension = count_extensions(&skipped);
    if tally.coverage_complete {
        tally.files_indexed = tally.files_walked - skipped.len();
    } else {
        tally.files_indexed = indexed.len();
        tally.files_walked = saturating_plus(indexed.len(), skipped.len());
    }
}

/// All counts together.
pub open spec fn total(counts: Seq<ExtensionCountView>) -> nat
    decreases counts.len(),
{
    if counts.len() == 0 {
        0
    } else {
        total(counts.drop_last()) + counts.last().count as nat
    }
}

proof fn lemma_occurrences_bound(s: Seq<Seq<char>>, x: Seq<char>)
    ensures
        occurrences(s, x) <= s.len(),
    decreases s.len(),
{
    if s.len() > 0 {
        lemma_occurrences_bound(s.drop_last(), x);
    }
}

proof fn lemma_total(keys: Seq<Seq<char>>, s: Seq<Seq<char>>)
    requires
        s.len() <= usize::MAX,
    ensures
        total(
            keys.map_values(
                |x: Seq<char>|
                    ExtensionCountView { extension: x, count: occurrences(s, x) as usize },
            ),
        ) == occurrences_of(keys, s),
    decreases keys.len(),
{
    let f = |x: Seq<char>|
        ExtensionCountView { extension: x, count: occurrences(s, x) as usize };
    if keys.len() > 0 {
        lemma_total(keys.drop_last(), s);
        lemma_occurrences_bound(s, keys.last());
        assert(keys.map_values(f).drop_last() =~= keys.drop_last().map_values(f));
    }
}

/// Every walked file is either indexed or skipped, and counted once.
pub proof fn law_coverage_adds_up(records: Seq<RecordView>, tally: ScanCoverageTallyView)
    requires
        reconcilable(records, tally),
        distinct(file_paths(records)).len() + tally.skipped_paths.len() <= usize::MAX,
    ensures
        ({
            let done = reconciled(records, tally);
            done.files_indexed + total(done.skipped_by_extension) == done.files_walked
        }),
{
    let indexed = distinct(file_paths(records));
    let skipped = still_skipped(tally.skipped_paths, indexed);
    lemma_still_skipped_len(tally.skipped_paths, indexed);
    law_occurrences_add_up(skipped);
    lemma_total(distinct(skipped), skipped);
}

proof fn lemma_still_skipped_len(skipped: Seq<(Seq<char>, Seq<char>)>, indexed: Seq<Seq<char>>)
    ensures
        still_skipped(skipped, indexed).len() <= skipped.len(),
    decreases skipped.len(),
{
    if skipped.len() > 0 {
        lemma_still_skipped_len(skipped.drop_last(), indexed);
    }
}

/// The names of the languages that are indexed.
pub open spec fn indexed_languages() -> Seq<Seq<char>> {
    seq![Language::Rust.display(), Language::TypeScript.display()]
}

/// The record of a scan's coverage, and the edge to it from the repository. Each repository has
/// one.
pub open spec fn coverage_records(
    repository_id: Seq<char>,
    tally: ScanCoverageTallyView,
    generation: Seq<char>,
) -> Seq<RecordView> {
    let id = code_id(seq!["node"@, "scan_coverage"@, repository_id]);
    let base = NodeRecordView::plain(
        id,
        NodeKind::ScanCoverage,
        None,
        None,
        None,
        "Scan coverage: "@ + decimal_of(tally.files_walked as nat) + " files walked, "@
            + decimal_of(tally.files_indexed as nat) + " indexed"@,
    );
    seq![
        RecordView::Node(
            NodeRecordView {
                repository: RepositoryFieldsView {
                    scan_coverage: Some(
                        ScanCoveragePayloadView {
                            files_walked: tally.files_walked,
                            files_indexed: tally.files_indexed,
                            skipped_by_extension: tally.skipped_by_extension,
                            indexed_languages: indexed_languages(),
                            coverage_complete: tally.coverage_complete,
                            coverage_generation: Some(generation),
                        },
                    ),
                    ..base.repository
                },
                ..base
            },
        ),
        RecordView::Edge(
            code_edge(
                EdgeLabel::Contains,
                repository_id,
                id,
                Some("1.0"@),
                "Repository contains scan coverage summary"@,
            ),
        ),
    ]
}

pub fn scan_coverage_records(
    repository_id: &str,
    tally: &ScanCoverageTally,
    coverage_generation: &str,
) -> (r: Vec<GraphRecord>)
    ensures
        r.deep_view() == coverage_records(
            repository_id@,
            tally.deep_view(),
            coverage_generation@,
        ),
{
    let id: String = stable_id(&parts3("node", "scan_coverage", repository_id));
    let summary: String = cat4(
        "Scan coverage: ",
        decimal(tally.files_walked as u64).as_str(),
        " files walked, ",
        decimal(tally.files_indexed as u64).as_str(),
    ).concat(" indexed");
    let mut n: NodeRecord = NodeRecord::plain(
        id.clone(),
        NodeKind::ScanCoverage,
        None,
        None,
        None,
        summary,
    );
    let names: Vec<String> = vec!["Rust".to_owned(), "TypeScript".to_owned()];
    assert(names.deep_view() =~= indexed_languages());
    n.repository.scan_coverage = Some(
        ScanCoveragePayload {
            files_walked: tally.files_walked,
            files_indexed: tally.files_indexed,
            skipped_by_extension: duplicate_all(&tally.skipped_by_extension),
            indexed_languages: names,
            coverage_complete: tally.coverage_complete,
            coverage_generation: Some(coverage_generation.to_owned()),
        },
    );
    let edge: GraphRecord = GraphRecord::edge(
        EdgeLabel::Contains,
        repository_id.to_owned(),
        id,
        Some("1.0".to_owned()),
        "Repository contains scan coverage summary".to_owned(),
    );
    let out: Vec<GraphRecord> = vec![GraphRecord::Node(n), edge];
    assert(out.deep_view() =~= coverage_records(
        repository_id@,
        tally.deep_view(),
        coverage_generation@,
    ));
    out
}

// ── The producer ────────────────────────────────────────────────────────────

/// A record of a language is in the graph.
pub open spec fn speaks(records: Seq<RecordView>, tag: Seq<char>) -> bool {
    exists|i: int| 0 <= i < records.len() && has_tag(#[trigger] records[i], tag)
}

pub open spec fn has_tag(r: RecordView, tag: Seq<char>) -> bool {
    match r {
        RecordView::Node(n) => n.code.language == Some(tag),
        _ => false,
    }
}

fn check_speaks(records: &Vec<GraphRecord>, tag: &str) -> (r: bool)
    ensures
        r == speaks(records.deep_view(), tag@),
{
    let ghost all = records.deep_view();
    let mut i: usize = 0;
    while i < records.len()
        invariant
            i <= records.len(),
            all == records.deep_view(),
            forall|k: int| 0 <= k < i ==> !has_tag(#[trigger] all[k], tag@),
        decreases records.len() - i,
    {
        assert(all[i as int] == records@[i as int].deep_view());
        if let GraphRecord::Node(n) = &records[i] {
            if let Some(l) = &n.code.language {
                if same(l.as_str(), tag) {
                    return true;
                }
            }
        }
        i += 1;
    }
    false
}

/// The languages whose records are in the graph, in the order of their tags.
pub open spec fn languages_of(records: Seq<RecordView>) -> Seq<Language> {
    let of_rust = speaks(records, Language::Rust.tag());
    let of_ts = speaks(records, Language::TypeScript.tag());
    if of_rust && of_ts {
        seq![Language::Rust, Language::TypeScript]
    } else if of_rust {
        seq![Language::Rust]
    } else if of_ts {
        seq![Language::TypeScript]
    } else {
        Seq::empty()
    }
}

pub fn languages_in_graph(records: &Vec<GraphRecord>) -> (r: Vec<Language>)
    ensures
        r@ == languages_of(records.deep_view()),
{
    let mut out: Vec<Language> = Vec::new();
    if check_speaks(records, "rust") {
        out.push(Language::Rust);
    }
    if check_speaks(records, "typescript") {
        out.push(Language::TypeScript);
    }
    assert(out@ =~= languages_of(records.deep_view()));
    out
}

pub open spec fn grammar_component(l: Language, v: GrammarVersionsView) -> ProducerComponentView {
    match l {
        Language::Rust => ProducerComponentView { name: "tree_sitter_rust"@, version: v.rust },
        Language::TypeScript => ProducerComponentView {
            name: "tree_sitter_typescript"@,
            version: v.typescript,
        },
    }
}

/// The components of a graph's producer: the parser, and the grammars of the languages in the
/// graph; without any, that of Rust.
pub open spec fn components(languages: Seq<Language>, v: GrammarVersionsView) -> Seq<
    ProducerComponentView,
> {
    seq![ProducerComponentView { name: "tree_sitter"@, version: v.tree_sitter }] + (
    if languages.len() == 0 {
        seq![Language::Rust]
    } else {
        languages
    }).map_values(|l: Language| grammar_component(l, v))
}

pub open spec fn graph_producer(
    languages: Seq<Language>,
    v: GrammarVersionsView,
    started_at: Seq<char>,
) -> ProducerView {
    ProducerView {
        egregore_version: EGREGORE_VERSION@,
        egregore_git: None,
        producer_kind: ProducerKind::CodeGraphExtractor,
        producer_components: components(languages, v),
        producer_started_at: started_at,
    }
}

fn build_component(l: Language, v: &GrammarVersions) -> (r: ProducerComponent)
    ensures
        r.deep_view() == grammar_component(l, v.deep_view()),
{
    match l {
        Language::Rust => ProducerComponent {
            name: "tree_sitter_rust".to_owned(),
            version: v.rust.clone(),
        },
        Language::TypeScript => ProducerComponent {
            name: "tree_sitter_typescript".to_owned(),
            version: v.typescript.clone(),
        },
    }
}

pub fn code_graph_producer(languages: &Vec<Language>, v: &GrammarVersions, started_at: &str) -> (r:
    Producer)
    ensures
        r.deep_view() == graph_producer(languages@, v.deep_view(), started_at@),
{
    let ghost vv = v.deep_view();
    let ghost first = ProducerComponentView { name: "tree_sitter"@, version: vv.tree_sitter };
    let mut out: Vec<ProducerComponent> = Vec::new();
    out.push(
        ProducerComponent { name: "tree_sitter".to_owned(), version: v.tree_sitter.clone() },
    );
    if languages.len() == 0 {
        out.push(build_component(Language::Rust, v));
        assert(out.deep_view() =~= components(languages@, vv));
    } else {
        let ghost all = languages@.map_values(|l: Language| grammar_component(l, vv));
        let mut i: usize = 0;
        assert(out.deep_view() =~= seq![first] + all.take(0));
        while i < languages.len()
            invariant
                i <= languages.len(),
                vv == v.deep_view(),
                all == languages@.map_values(|l: Language| grammar_component(l, vv)),
                out.deep_view() == seq![first] + all.take(i as int),
            decreases languages.len() - i,
        {
            let ghost before = out;
            out.push(build_component(languages[i], v));
            proof {
                lemma_push(before, out);
                assert(seq![first] + all.take(i + 1) =~= (seq![first] + all.take(i as int)).push(
                    all[i as int],
                ));
            }
            i += 1;
        }
        assert(all.take(languages.len() as int) =~= all);
        assert(out.deep_view() =~= components(languages@, vv));
    }
    Producer {
        egregore_version: EGREGORE_VERSION.to_owned(),
        egregore_git: None,
        producer_kind: ProducerKind::CodeGraphExtractor,
        producer_components: out,
        producer_started_at: started_at.to_owned(),
    }
}

// ── Scans ───────────────────────────────────────────────────────────────────

/// What was found of a repository: what it is, where its working tree stands, its source files,
/// and what the walk over its files saw.
pub struct RepositoryInput {
    pub exists: bool,
    pub is_dir: bool,
    pub identity: RepositoryIdentity,
    pub head: SnapshotHead,
    pub dirty: bool,
    pub files: Vec<SourceFile>,
    pub tally: ScanCoverageTally,
}

pub struct RepositoryInputView {
    pub exists: bool,
    pub is_dir: bool,
    pub identity: RepositoryIdentityView,
    pub head: SnapshotHeadView,
    pub dirty: bool,
    pub files: Seq<SourceFileView>,
    pub tally: ScanCoverageTallyView,
}

impl DeepView for RepositoryInput {
    type V = RepositoryInputView;

    open spec fn deep_view(&self) -> RepositoryInputView {
        RepositoryInputView {
            exists: self.exists,
            is_dir: self.is_dir,
            identity: self.identity.deep_view(),
            head: self.head.deep_view(),
            dirty: self.dirty,
            files: self.files.deep_view(),
            tally: self.tally.deep_view(),
        }
    }
}

/// Why a repository cannot be scanned.
#[derive(Debug, PartialEq, Eq)]
pub enum ScanError {
    RepositoryMissing,
    RepositoryNotDirectory,
    /// A file that the parser gave up on.
    Parse { repo_relative_path: String, error: ParseError },
    /// A manifest that cannot be read.
    Manifest { message: String },
}

#[verifier::ext_equal]
pub enum ScanErrorView {
    RepositoryMissing,
    RepositoryNotDirectory,
    Parse { repo_relative_path: Seq<char>, error: ParseErrorView },
    Manifest { message: Seq<char> },
}

impl DeepView for ScanError {
    type V = ScanErrorView;

    open spec fn deep_view(&self) -> ScanErrorView {
        match self {
            ScanError::RepositoryMissing => ScanErrorView::RepositoryMissing,
            ScanError::RepositoryNotDirectory => ScanErrorView::RepositoryNotDirectory,
            ScanError::Parse { repo_relative_path, error } => ScanErrorView::Parse {
                repo_relative_path: repo_relative_path@,
                error: error.deep_view(),
            },
            ScanError::Manifest { message } => ScanErrorView::Manifest { message: message@ },
        }
    }
}

/// Why a path is no repository.
pub open spec fn repository_fault(input: RepositoryInputView) -> Option<ScanErrorView> {
    if !input.exists {
        Some(ScanErrorView::RepositoryMissing)
    } else if !input.is_dir {
        Some(ScanErrorView::RepositoryNotDirectory)
    } else {
        None
    }
}

fn validate_repository(input: &RepositoryInput) -> (r: Option<ScanError>)
    ensures
        r.deep_view() == repository_fault(input.deep_view()),
{
    if !input.exists {
        Some(ScanError::RepositoryMissing)
    } else if !input.is_dir {
        Some(ScanError::RepositoryNotDirectory)
    } else {
        None
    }
}

/// A scan on its way: the node of the repository, the records of its files so far, what the walk
/// saw, and the facts of each file, for the resolution across files.
pub struct ScanProgress {
    pub repository: GraphRecord,
    pub graph: Graph,
    pub tally: ScanCoverageTally,
    pub facts_by_file: Vec<(String, FileFacts)>,
}

#[verifier::ext_equal]
pub struct ScanProgressView {
    pub repository: RecordView,
    pub records: Seq<RecordView>,
    pub tally: ScanCoverageTallyView,
    pub facts_by_file: Seq<(Seq<char>, FileFactsView)>,
}

impl DeepView for ScanProgress {
    type V = ScanProgressView;

    open spec fn deep_view(&self) -> ScanProgressView {
        ScanProgressView {
            repository: self.repository.deep_view(),
            records: self.graph@,
            tally: self.tally.deep_view(),
            facts_by_file: self.facts_by_file.deep_view(),
        }
    }
}

/// Every record with its valid time.
pub open spec fn timed(records: Seq<RecordView>, time: Seq<char>) -> Seq<RecordView> {
    records.map_values(|r: RecordView| valid_time_inferred(r, time))
}

fn push_timed(records: &Vec<GraphRecord>, time: &str, graph: &mut Graph)
    ensures
        final(graph)@ == old(graph)@ + timed(records.deep_view(), time@),
{
    let ghost start = graph@;
    let ghost all = timed(records.deep_view(), time@);
    let mut i: usize = 0;
    assert(start + all.take(0) =~= start);
    while i < records.len()
        invariant
            i <= records.len(),
            all == timed(records.deep_view(), time@),
            graph@ == start + all.take(i as int),
        decreases records.len() - i,
    {
        graph.push(records[i].duplicate().with_valid_time_inferred(time));
        proof {
            assert(records.deep_view()[i as int] == records@[i as int].deep_view());
            assert(start + all.take(i + 1) =~= (start + all.take(i as int)).push(all[i as int]));
        }
        i += 1;
    }
    assert(all.take(records.len() as int) =~= all);
}

/// The record with which a scan starts: the repository, with where its working tree stands.
pub open spec fn snapshot_node(input: RepositoryInputView, time: Seq<char>) -> RecordView {
    let base = repository_node(input.identity);
    valid_time_inferred(
        RecordView::Node(
            NodeRecordView {
                repository: RepositoryFieldsView {
                    source_snapshot: Some(
                        SourceSnapshotPayloadView {
                            head: input.head,
                            dirty: input.dirty,
                            repository_id: input.identity.id,
                            scanned_at: time,
                        },
                    ),
                    ..base.repository
                },
                ..base
            },
        ),
        time,
    )
}

/// The scan after the outcome of one file.
pub open spec fn after_file(
    p: ScanProgressView,
    path: Seq<char>,
    outcome: OutcomeView,
    time: Seq<char>,
) -> ScanProgressView {
    match outcome {
        OutcomeView::Extracted { records, facts } => ScanProgressView {
            records: p.records + timed(records, time),
            facts_by_file: if facts == FileFactsView::none() {
                p.facts_by_file
            } else {
                p.facts_by_file.push((path, facts))
            },
            ..p
        },
        OutcomeView::Skipped { diagnostic, repo_relative_path, extension } => ScanProgressView {
            records: p.records.push(valid_time_inferred(diagnostic, time)),
            tally: ScanCoverageTallyView {
                skipped_paths: p.tally.skipped_paths.push((repo_relative_path, extension)),
                ..p.tally
            },
            ..p
        },
    }
}

/// The scan before the first file.
pub open spec fn scan_start(input: RepositoryInputView, time: Seq<char>) -> ScanProgressView {
    ScanProgressView {
        repository: snapshot_node(input, time),
        records: Seq::empty(),
        tally: input.tally,
        facts_by_file: Seq::empty(),
    }
}

/// The scan after the first `n` files.
pub open spec fn files_scanned<R: CodePolicy>(
    policy: R,
    input: RepositoryInputView,
    time: Seq<char>,
    n: nat,
) -> Result<ScanProgressView, ScanErrorView>
    decreases n,
{
    if n == 0 {
        Ok(scan_start(input, time))
    } else {
        let f = input.files[n - 1];
        match files_scanned(policy, input, time, (n - 1) as nat) {
            Err(e) => Err(e),
            Ok(p) => match outcome_of(policy, input.identity.id, f) {
                Ok(outcome) => Ok(after_file(p, f.repo_relative_path, outcome, time)),
                Err(error) => Err(
                    ScanErrorView::Parse { repo_relative_path: f.repo_relative_path, error },
                ),
            },
        }
    }
}

/// What a scan of all files of a repository gives.
pub open spec fn repository_scanned<R: CodePolicy>(
    policy: R,
    input: RepositoryInputView,
    time: Seq<char>,
) -> Result<ScanProgressView, ScanErrorView> {
    match repository_fault(input) {
        Some(e) => Err(e),
        None => files_scanned(policy, input, time, input.files.len()),
    }
}

fn no_facts(f: &FileFacts) -> (r: bool)
    ensures
        r == (f.deep_view() == FileFactsView::none()),
{
    let r: bool = f.definitions.len() == 0 && f.call_sites.len() == 0 && f.construct_sites.len()
        == 0 && f.route_registration_sites.len() == 0 && f.impl_targets.len() == 0
        && f.impl_trait_relations.len() == 0 && f.pending_impls.len() == 0
        && f.use_trait_imports.len() == 0 && f.out_of_line_mods.len() == 0;
    proof {
        let v = f.deep_view();
        assert(v.definitions.len() == f.definitions@.len());
        assert(v.call_sites.len() == f.call_sites@.len());
        assert(v.construct_sites.len() == f.construct_sites@.len());
        assert(v.route_registration_sites.len() == f.route_registration_sites@.len());
        assert(v.impl_targets.len() == f.impl_targets@.len());
        assert(v.impl_trait_relations.len() == f.impl_trait_relations@.len());
        assert(v.pending_impls.len() == f.pending_impls@.len());
        assert(v.use_trait_imports.len() == f.use_trait_imports@.len());
        assert(v.out_of_line_mods.len() == f.out_of_line_mods@.len());
        if r {
            assert(v =~= FileFactsView::none());
        }
    }
    r
}

fn add_outcome(p: &mut ScanProgress, path: &str, outcome: SourceFileScanOutcome, time: &str)
    ensures
        final(p).deep_view() == after_file(
            old(p).deep_view(),
            path@,
            outcome.deep_view(),
            time@,
        ),
{
    match outcome {
        SourceFileScanOutcome::Extracted { records, facts } => {
            push_timed(&records, time, &mut p.graph);
            if !no_facts(&facts) {
                let ghost before = p.facts_by_file;
                p.facts_by_file.push((path.to_owned(), facts));
                proof {
                    lemma_push(before, p.facts_by_file);
                }
            }
        },
        SourceFileScanOutcome::Skipped { diagnostic, repo_relative_path, extension } => {
            p.graph.push(diagnostic.with_valid_time_inferred(time));
            let ghost before = p.tally.skipped_paths;
            p.tally.skipped_paths.push((repo_relative_path, extension));
            proof {
                lemma_push(before, p.tally.skipped_paths);
            }
        },
    }
}

fn build_snapshot_node(input: &RepositoryInput, time: &str) -> (r: GraphRecord)
    ensures
        r.deep_view() == snapshot_node(input.deep_view(), time@),
{
    let mut n: NodeRecord = repository_record_from_identity(&input.identity);
    n.repository.source_snapshot = Some(
        SourceSnapshotPayload {
            head: input.head.duplicate(),
            dirty: input.dirty,
            repository_id: input.identity.id.clone(),
            scanned_at: time.to_owned(),
        },
    );
    GraphRecord::Node(n).with_valid_time_inferred(time)
}

fn copy_tally(t: &ScanCoverageTally) -> (r: ScanCoverageTally)
    ensures
        r.deep_view() == t.deep_view(),
{
    let mut paths: Vec<(String, String)> = Vec::new();
    let ghost all = t.skipped_paths.deep_view();
    let mut i: usize = 0;
    assert(paths.deep_view() =~= all.take(0));
    while i < t.skipped_paths.len()
        invariant
            i <= t.skipped_paths.len(),
            all == t.skipped_paths.deep_view(),
            paths.deep_view() == all.take(i as int),
        decreases t.skipped_paths.len() - i,
    {
        let ghost before = paths;
        paths.push((t.skipped_paths[i].0.clone(), t.skipped_paths[i].1.clone()));
        proof {
            lemma_push(before, paths);
            assert(all[i as int] == t.skipped_paths@[i as int].deep_view());
            assert(all.take(i + 1) =~= all.take(i as int).push(all[i as int]));
        }
        i += 1;
    }
    assert(all.take(t.skipped_paths.len() as int) =~= all);
    ScanCoverageTally {
        files_walked: t.files_walked,
        files_indexed: t.files_indexed,
        skipped_by_extension: duplicate_all(&t.skipped_by_extension),
        skipped_paths: paths,
        coverage_complete: t.coverage_complete,
    }
}

fn start_scan(input: &RepositoryInput, time: &str) -> (p: ScanProgress)
    ensures
        p.deep_view() == scan_start(input.deep_view(), time@),
{
    let p: ScanProgress = ScanProgress {
        repository: build_snapshot_node(input, time),
        graph: Graph::new(),
        tally: copy_tally(&input.tally),
        facts_by_file: Vec::new(),
    };
    assert(p.facts_by_file.deep_view() =~= Seq::empty());
    p
}

/// Scans the files of a repository. What they say about one another is still to be resolved.
pub fn scan_files<R: CodePolicy>(policy: &R, input: &RepositoryInput, transaction_time: &str) -> (r:
    Result<ScanProgress, ScanError>)
    requires
        forall|i: int|
            0 <= i < input.files@.len() ==> within_limit(
                (#[trigger] input.files@[i]).deep_view(),
            ),
    ensures
        (match (r, repository_scanned(*policy, input.deep_view(), transaction_time@)) {
            (Ok(x), Ok(y)) => x.deep_view() == y,
            (Err(x), Err(y)) => x.deep_view() == y,
            _ => false,
        }),
{
    if let Some(e) = validate_repository(input) {
        return Err(e);
    }
    let ghost iv = input.deep_view();
    let mut p: ScanProgress = start_scan(input, transaction_time);
    let mut i: usize = 0;
    while i < input.files.len()
        invariant
            i <= input.files.len(),
            iv == input.deep_view(),
            repository_fault(iv) is None,
            forall|i: int|
                0 <= i < input.files@.len() ==> within_limit(
                    (#[trigger] input.files@[i]).deep_view(),
                ),
            files_scanned(*policy, iv, transaction_time@, i as nat) == Ok::<
                ScanProgressView,
                ScanErrorView,
            >(p.deep_view()),
        decreases input.files.len() - i,
    {
        let f: &SourceFile = &input.files[i];
        assert(iv.files[i as int] == f.deep_view());
        match scan_source_file_records(policy, input.identity.id.as_str(), f) {
            Ok(outcome) => {
                add_outcome(&mut p, f.repo_relative_path.as_str(), outcome, transaction_time);
            },
            Err(error) => {
                proof {
                    lemma_failed(*policy, iv, transaction_time@, i as nat + 1, iv.files.len());
                }
                return Err(
                    ScanError::Parse {
                        repo_relative_path: f.repo_relative_path.clone(),
                        error,
                    },
                );
            },
        }
        i += 1;
    }
    Ok(p)
}

proof fn lemma_failed<R: CodePolicy>(
    policy: R,
    input: RepositoryInputView,
    time: Seq<char>,
    n: nat,
    m: nat,
)
    requires
        n <= m,
        files_scanned(policy, input, time, n) is Err,
    ensures
        files_scanned(policy, input, time, m) == files_scanned(policy, input, time, n),
    decreases m,
{
    if n < m {
        lemma_failed(policy, input, time, n, (m - 1) as nat);
    }
}

/// When a scan takes place. A pinned scan never shows the clock.
pub struct ScanTimes<'a> {
    pub transaction_time: &'a str,
    pub coverage_generation: Option<&'a str>,
    pub producer_started_at: Option<&'a str>,
    pub process_started_at: &'a str,
}

pub struct ScanTimesView {
    pub transaction_time: Seq<char>,
    pub coverage_generation: Option<Seq<char>>,
    pub producer_started_at: Option<Seq<char>>,
    pub process_started_at: Seq<char>,
}

impl<'a> DeepView for ScanTimes<'a> {
    type V = ScanTimesView;

    open spec fn deep_view(&self) -> ScanTimesView {
        ScanTimesView {
            transaction_time: self.transaction_time@,
            coverage_generation: match self.coverage_generation {
                Some(s) => Some(s@),
                None => None,
            },
            producer_started_at: match self.producer_started_at {
                Some(s) => Some(s@),
                None => None,
            },
            process_started_at: self.process_started_at@,
        }
    }
}

pub open spec fn or_else(o: Option<Seq<char>>, otherwise: Seq<char>) -> Seq<char> {
    match o {
        Some(s) => s,
        None => otherwise,
    }
}

// ── Resolution across files ─────────────────────────────────────────────────

/// The records of all files after the passes that look at them together. First come the calls,
/// the implementations and the imports that lead from file to file, then the labels and marks on
/// what is there, then what the manifests declare, and last the package of each record.
pub open spec fn resolved<R: CodePolicy>(
    policy: R,
    repository_id: Seq<char>,
    records: Seq<RecordView>,
    facts: Seq<(Seq<char>, FileFactsView)>,
    time: Seq<char>,
) -> Result<Seq<RecordView>, Seq<char>> {
    let called = records + timed(policy.calls(repository_id, facts), time);
    let implemented = called + timed(policy.implementations(repository_id, facts), time);
    let imported = implemented + timed(policy.imports(repository_id, implemented, facts), time);
    let marked = policy.roled(policy.scoped(policy.labeled(imported, facts), facts), facts);
    match policy.dependencies(repository_id) {
        Ok(declared) => Ok(policy.attributed(marked + timed(declared, time))),
        Err(message) => Err(message),
    }
}

/// A scan after its files were resolved together; only a manifest that cannot be read ends it here.
pub open spec fn linked<R: CodePolicy>(
    policy: R,
    p: ScanProgressView,
    repository_id: Seq<char>,
    time: Seq<char>,
) -> Result<ScanProgressView, ScanErrorView> {
    match resolved(policy, repository_id, p.records, p.facts_by_file, time) {
        Ok(records) => Ok(ScanProgressView { records, ..p }),
        Err(message) => Err(ScanErrorView::Manifest { message }),
    }
}

/// Resolves what the files of a scan say about one another.
pub fn link_files<R: CodePolicy>(
    policy: &R,
    p: ScanProgress,
    repository_id: &str,
    transaction_time: &str,
) -> (r: Result<ScanProgress, ScanError>)
    ensures
        (match (r, linked(*policy, p.deep_view(), repository_id@, transaction_time@)) {
            (Ok(x), Ok(y)) => x.deep_view() == y,
            (Err(x), Err(y)) => x.deep_view() == y,
            _ => false,
        }),
{
    let facts: Vec<(String, FileFacts)> = p.facts_by_file;
    let mut graph: Graph = p.graph;
    push_timed(&policy.call_records(repository_id, &facts), transaction_time, &mut graph);
    push_timed(&policy.implements_records(repository_id, &facts), transaction_time, &mut graph);
    let imports: Vec<GraphRecord> = policy.import_records(repository_id, &graph.records, &facts);
    push_timed(&imports, transaction_time, &mut graph);
    let labeled: Vec<GraphRecord> = policy.label_calls(&graph.records, &facts);
    let scoped: Vec<GraphRecord> = policy.mark_test_scope(&labeled, &facts);
    let mut marked: Graph = Graph { records: policy.mark_test_roles(&scoped, &facts) };
    match policy.dependency_records(repository_id) {
        Ok(declared) => {
            push_timed(&declared, transaction_time, &mut marked);
            Ok(
                ScanProgress {
                    repository: p.repository,
                    graph: Graph { records: policy.attribute_packages(&marked.records) },
                    tally: p.tally,
                    facts_by_file: facts,
                },
            )
        },
        Err(message) => Err(ScanError::Manifest { message }),
    }
}

// ── The whole graph ─────────────────────────────────────────────────────────

/// The records of a scan without their producer: the repository, its files, and how much of it was
/// covered.
pub open spec fn covered(
    p: ScanProgressView,
    repository_id: Seq<char>,
    times: ScanTimesView,
) -> Seq<RecordView> {
    let time = times.transaction_time;
    let all = seq![p.repository] + p.records;
    all + timed(
        coverage_records(
            repository_id,
            reconciled(all, p.tally),
            or_else(times.coverage_generation, time),
        ),
        time,
    )
}

/// A finished graph: every record with its producer.
pub open spec fn finished(
    p: ScanProgressView,
    repository_id: Seq<char>,
    times: ScanTimesView,
    versions: GrammarVersionsView,
) -> Seq<RecordView> {
    let all = covered(p, repository_id, times);
    let producer = graph_producer(
        languages_of(all),
        versions,
        or_else(times.producer_started_at, times.process_started_at),
    );
    all.map_values(|r: RecordView| produced(r, producer))
}

pub fn finish_scan(
    p: ScanProgress,
    repository_id: &str,
    times: &ScanTimes,
    versions: &GrammarVersions,
) -> (r: Graph)
    requires
        consistent(p.tally.deep_view()),
    ensures
        r@ == finished(
            p.deep_view(),
            repository_id@,
            times.deep_view(),
            versions.deep_view(),
        ),
{
    let ghost pv = p.deep_view();
    let time: &str = times.transaction_time;
    let mut graph: Graph = Graph::new();
    graph.push(p.repository);
    let mut records: Vec<GraphRecord> = p.graph.records;
    graph.records.append(&mut records);
    assert(graph@ =~= seq![pv.repository] + pv.records);
    let mut tally: ScanCoverageTally = p.tally;
    proof {
        lemma_still_skipped_len(
            tally.deep_view().skipped_paths,
            distinct(file_paths(graph.records.deep_view())),
        );
    }
    reconcile_scan_coverage(&graph.records, &mut tally);
    let generation: &str = match times.coverage_generation {
        Some(g) => g,
        None => time,
    };
    let coverage: Vec<GraphRecord> = scan_coverage_records(repository_id, &tally, generation);
    push_timed(&coverage, time, &mut graph);
    let languages: Vec<Language> = languages_in_graph(&graph.records);
    let started: &str = match times.producer_started_at {
        Some(s) => s,
        None => times.process_started_at,
    };
    let producer: Producer = code_graph_producer(&languages, versions, started);
    graph.stamp_producer(&producer)
}

/// The walk saw every source file and every file that it passed over.
pub open spec fn walk_is_consistent(input: RepositoryInputView) -> bool {
    input.tally.coverage_complete ==> input.tally.skipped_paths.len() + input.files.len()
        <= input.tally.files_walked
}

proof fn lemma_stays_consistent<R: CodePolicy>(
    policy: R,
    input: RepositoryInputView,
    time: Seq<char>,
    n: nat,
)
    requires
        n <= input.files.len(),
    ensures
        files_scanned(policy, input, time, n) matches Ok(p) ==> {
            &&& p.tally.coverage_complete == input.tally.coverage_complete
            &&& p.tally.files_walked == input.tally.files_walked
            &&& p.tally.skipped_paths.len() <= input.tally.skipped_paths.len() + n
        },
    decreases n,
{
    if n > 0 {
        lemma_stays_consistent(policy, input, time, (n - 1) as nat);
    }
}

/// What a scan of a repository yields: its files one by one, then together, then the whole graph.
pub open spec fn scanned<R: CodePolicy>(
    policy: R,
    input: RepositoryInputView,
    times: ScanTimesView,
    versions: GrammarVersionsView,
) -> Result<Seq<RecordView>, ScanErrorView> {
    match repository_scanned(policy, input, times.transaction_time) {
        Ok(p) => match linked(policy, p, input.identity.id, times.transaction_time) {
            Ok(q) => Ok(finished(q, input.identity.id, times, versions)),
            Err(e) => Err(e),
        },
        Err(e) => Err(e),
    }
}

fn scan_repository_at_with_override_inner<R: CodePolicy>(
    policy: &R,
    input: &RepositoryInput,
    times: &ScanTimes,
    versions: &GrammarVersions,
) -> (r: Result<Graph, ScanError>)
    requires
        can_be_scanned(input.deep_view()),
    ensures
        agrees(
            r,
            scanned(
                *policy,
                input.deep_view(),
                times.deep_view(),
                versions.deep_view(),
            ),
        ),
{
    assert forall|i: int| 0 <= i < input.files@.len() implies within_limit(
        (#[trigger] input.files@[i]).deep_view(),
    ) by {
        assert(input.deep_view().files[i] == input.files@[i].deep_view());
    }
    match scan_files(policy, input, times.transaction_time) {
        Ok(p) => {
            proof {
                lemma_stays_consistent(
                    *policy,
                    input.deep_view(),
                    times.transaction_time@,
                    input.deep_view().files.len(),
                );
            }
            let id: &str = input.identity.id.as_str();
            match link_files(policy, p, id, times.transaction_time) {
                Ok(q) => Ok(finish_scan(q, id, times, versions)),
                Err(e) => Err(e),
            }
        },
        Err(e) => Err(e),
    }
}

/// The scan and what it should yield agree.
pub open spec fn agrees(
    r: Result<Graph, ScanError>,
    expected: Result<Seq<RecordView>, ScanErrorView>,
) -> bool {
    match (r, expected) {
        (Ok(x), Ok(y)) => x@ == y,
        (Err(x), Err(y)) => x.deep_view() == y,
        _ => false,
    }
}

/// The walk's counts fit what it found, and no file is larger than the parser takes.
pub open spec fn can_be_scanned(input: RepositoryInputView) -> bool {
    &&& walk_is_consistent(input)
    &&& forall|i: int| 0 <= i < input.files.len() ==> within_limit(#[trigger] input.files[i])
}

/// A repository under another identity, where one is given, with the dirty flag of its own probe.
pub open spec fn effective_input(
    input: RepositoryInputView,
    override_identity: Option<RepositoryIdentityView>,
    dirty: bool,
) -> RepositoryInputView {
    RepositoryInputView {
        identity: match override_identity {
            Some(id) => id,
            None => input.identity,
        },
        dirty,
        ..input
    }
}

fn identified(
    input: RepositoryInput,
    override_identity: Option<RepositoryIdentity>,
    dirty: bool,
) -> (r: RepositoryInput)
    ensures
        r.deep_view() == effective_input(
            input.deep_view(),
            override_identity.deep_view(),
            dirty,
        ),
{
    RepositoryInput {
        exists: input.exists,
        is_dir: input.is_dir,
        identity: match override_identity {
            Some(id) => id,
            None => input.identity,
        },
        head: input.head,
        dirty,
        files: input.files,
        tally: input.tally,
    }
}

/// The times of a scan that runs now.
pub open spec fn started_now(
    now: Seq<char>,
    generation: Seq<char>,
    process_started_at: Seq<char>,
) -> ScanTimesView {
    ScanTimesView {
        transaction_time: now,
        coverage_generation: Some(generation),
        producer_started_at: None,
        process_started_at,
    }
}

/// The times of a scan that is pinned to one.
pub open spec fn pinned(time: Seq<char>) -> ScanTimesView {
    ScanTimesView {
        transaction_time: time,
        coverage_generation: None,
        producer_started_at: Some(time),
        process_started_at: time,
    }
}

/// Scans a repository now: `now` has whole seconds, `generation` names the same instant exactly,
/// so that two scans in one second can be told apart.
pub fn scan_repository<R: CodePolicy>(
    policy: &R,
    input: &RepositoryInput,
    versions: &GrammarVersions,
    now: &str,
    generation: &str,
    process_started_at: &str,
) -> (r: Result<Graph, ScanError>)
    requires
        can_be_scanned(input.deep_view()),
    ensures
        agrees(
            r,
            scanned(
                *policy,
                input.deep_view(),
                started_now(now@, generation@, process_started_at@),
                versions.deep_view(),
            ),
        ),
{
    let times: ScanTimes = ScanTimes {
        transaction_time: now,
        coverage_generation: Some(generation),
        producer_started_at: None,
        process_started_at,
    };
    scan_repository_at_with_override_inner(policy, input, &times, versions)
}

/// Scans a repository at a fixed time. Everything in the graph is then fixed.
pub fn scan_repository_at<R: CodePolicy>(
    policy: &R,
    input: &RepositoryInput,
    versions: &GrammarVersions,
    transaction_time: &str,
) -> (r: Result<Graph, ScanError>)
    requires
        can_be_scanned(input.deep_view()),
    ensures
        agrees(
            r,
            scanned(
                *policy,
                input.deep_view(),
                pinned(transaction_time@),
                versions.deep_view(),
            ),
        ),
{
    let times: ScanTimes = ScanTimes {
        transaction_time,
        coverage_generation: None,
        producer_started_at: Some(transaction_time),
        process_started_at: transaction_time,
    };
    scan_repository_at_with_override_inner(policy, input, &times, versions)
}

/// Scans a repository now, under the given identity where there is one.
pub fn scan_repository_with_override<R: CodePolicy>(
    policy: &R,
    input: RepositoryInput,
    override_identity: Option<RepositoryIdentity>,
    versions: &GrammarVersions,
    now: &str,
    generation: &str,
    process_started_at: &str,
) -> (r: Result<Graph, ScanError>)
    requires
        can_be_scanned(input.deep_view()),
    ensures
        agrees(
            r,
            scanned(
                *policy,
                effective_input(
                    input.deep_view(),
                    override_identity.deep_view(),
                    input.dirty,
                ),
                started_now(now@, generation@, process_started_at@),
                versions.deep_view(),
            ),
        ),
{
    let times: ScanTimes = ScanTimes {
        transaction_time: now,
        coverage_generation: Some(generation),
        producer_started_at: None,
        process_started_at,
    };
    let dirty: bool = input.dirty;
    let effective: RepositoryInput = identified(input, override_identity, dirty);
    scan_repository_at_with_override_inner(policy, &effective, &times, versions)
}

/// Scans a repository at a fixed time, under the given identity where there is one.
pub fn scan_repository_at_with_override<R: CodePolicy>(
    policy: &R,
    input: RepositoryInput,
    override_identity: Option<RepositoryIdentity>,
    versions: &GrammarVersions,
    transaction_time: &str,
) -> (r: Result<Graph, ScanError>)
    requires
        can_be_scanned(input.deep_view()),
    ensures
        agrees(
            r,
            scanned(
                *policy,
                effective_input(
                    input.deep_view(),
                    override_identity.deep_view(),
                    input.dirty,
                ),
                pinned(transaction_time@),
                versions.deep_view(),
            ),
        ),
{
    let times: ScanTimes = ScanTimes {
        transaction_time,
        coverage_generation: None,
        producer_started_at: Some(transaction_time),
        process_started_at: transaction_time,
    };
    let dirty: bool = input.dirty;
    let effective: RepositoryInput = identified(input, override_identity, dirty);
    scan_repository_at_with_override_inner(policy, &effective, &times, versions)
}

/// Scans a repository now. `dirty` is what a probe said that left some paths out, such as the file
/// that the graph is written to.
pub fn scan_repository_with_exclusions<R: CodePolicy>(
    policy: &R,
    input: RepositoryInput,
    override_identity: Option<RepositoryIdentity>,
    dirty: bool,
    versions: &GrammarVersions,
    now: &str,
    generation: &str,
    process_started_at: &str,
) -> (r: Result<Graph, ScanError>)
    requires
        can_be_scanned(input.deep_view()),
    ensures
        agrees(
            r,
            scanned(
                *policy,
                effective_input(
                    input.deep_view(),
                    override_identity.deep_view(),
                    dirty,
                ),
                started_now(now@, generation@, process_started_at@),
                versions.deep_view(),
            ),
        ),
{
    let times: ScanTimes = ScanTimes {
        transaction_time: now,
        coverage_generation: Some(generation),
        producer_started_at: None,
        process_started_at,
    };
    let effective: RepositoryInput = identified(input, override_identity, dirty);
    scan_repository_at_with_override_inner(policy, &effective, &times, versions)
}

/// Scans a repository at a fixed time. `dirty` is what a probe said that left some paths out.
pub fn scan_repository_at_with_exclusions<R: CodePolicy>(
    policy: &R,
    input: RepositoryInput,
    override_identity: Option<RepositoryIdentity>,
    dirty: bool,
    versions: &GrammarVersions,
    transaction_time: &str,
) -> (r: Result<Graph, ScanError>)
    requires
        can_be_scanned(input.deep_view()),
    ensures
        agrees(
            r,
            scanned(
                *policy,
                effective_input(
                    input.deep_view(),
                    override_identity.deep_view(),
                    dirty,
                ),
                pinned(transaction_time@),
                versions.deep_view(),
            ),
        ),
{
    let times: ScanTimes = ScanTimes {
        transaction_time,
        coverage_generation: None,
        producer_started_at: Some(transaction_time),
        process_started_at: transaction_time,
    };
    let effective: RepositoryInput = identified(input, override_identity, dirty);
    scan_repository_at_with_override_inner(policy, &effective, &times, versions)
}

// ── Paths ───────────────────────────────────────────────────────────────────

/// A part of a path that names something: neither empty nor one of the two dots.
pub open spec fn names_something(part: Seq<char>) -> bool {
    part.len() > 0 && part != "."@ && part != ".."@
}

/// A path without the parts that name nothing.
pub open spec fn plain_path(path: Seq<char>) -> Seq<char> {
    joined(
        crate::text::split_on(path, "/"@).filter(|p: Seq<char>| names_something(p)),
        "/"@,
    )
}

pub fn normalize_path(path: &str) -> (r: String)
    ensures
        r@ == plain_path(path@),
{
    proof {
        reveal_strlit("/");
    }
    let parts: Vec<String> = crate::text::split(path, "/");
    let ghost all = parts.deep_view();
    let ghost keep = |p: Seq<char>| names_something(p);
    let mut out: Vec<String> = Vec::new();
    let mut i: usize = 0;
    proof {
        reveal(Seq::filter);
        assert(out.deep_view() =~= all.take(0).filter(keep));
    }
    while i < parts.len()
        invariant
            i <= parts.len(),
            all == parts.deep_view(),
            keep == (|p: Seq<char>| names_something(p)),
            out.deep_view() == all.take(i as int).filter(keep),
        decreases parts.len() - i,
    {
        proof {
            reveal(Seq::filter);
            assert(all.take(i + 1).drop_last() =~= all.take(i as int));
            assert(all.take(i + 1).last() == parts@[i as int].deep_view());
        }
        let part: &str = parts[i].as_str();
        if !part.is_empty() && !same(part, ".") && !same(part, "..") {
            let ghost before = out;
            out.push(parts[i].clone());
            proof {
                lemma_push(before, out);
            }
        }
        i += 1;
    }
    assert(all.take(parts.len() as int) =~= all);
    crate::text::join(&out, "/")
}

} // verus!
