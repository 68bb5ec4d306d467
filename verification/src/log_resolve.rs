//! Binds the backtrace frames of error signatures to the code graph.
//!
//! A frame of the standard library or of a dependency is external and binds to nothing. A frame
//! with a file and a line binds to the smallest symbol around it, or else to the file. A frame with
//! a name alone binds to every symbol of that name. What binds to nothing gets a diagnostic marker,
//! never an invented target. Each edge is mirrored by a citation on its signature.
use vstd::prelude::*;

use crate::duplicate::{duplicate_opt, extend_with, lemma_push, Duplicate};
use crate::ir::{
    domain_from_record_id, id_domain, log_id, log_stable_id, EdgeLabel, EdgeRecord, EdgeRecordView,
    EvidenceLink, EvidenceLinkView, FrameResolution, GraphRecord, LogPayload, LogPayloadView,
    NodeKind, NodeRecord, NodeRecordView, RecordView, SourceSpan, StackFrame, StackFrameView,
    LOG_SCHEMA_VERSION,
};
use crate::log_link::{collect_ids, id_key, id_keys, ids_of_kind, in_log_domain, is_in_log_domain};
use crate::order::{distinct, distinct_texts, sort_by_keys, sorted_by, KeyPart, KeyPartView};
use crate::query::{
    collect_view, enclosing_symbol, file_at, find_enclosing_symbol, find_file, view_of,
};
use crate::text::{
    after, after_last, before, before_first, cat, cat3, cat5, cat6, chars_of, contains, decimal,
    decimal_of, has, parts3, parts6, rsplit_once, same, split_last, starts, starts_with,
};

verus! {

/// How the frames of one signature were bound.
#[derive(Debug, PartialEq, Eq)]
pub struct SignatureTally {
    pub signature_id: String,
    pub resolved: u64,
    pub ambiguous: u64,
    pub path_only: u64,
    pub unresolved: u64,
    pub external: u64,
}

#[verifier::ext_equal]
pub struct TallyView {
    pub signature_id: Seq<char>,
    pub resolved: int,
    pub ambiguous: int,
    pub path_only: int,
    pub unresolved: int,
    pub external: int,
}

impl DeepView for SignatureTally {
    type V = TallyView;

    open spec fn deep_view(&self) -> TallyView {
        TallyView {
            signature_id: self.signature_id@,
            resolved: self.resolved as int,
            ambiguous: self.ambiguous as int,
            path_only: self.path_only as int,
            unresolved: self.unresolved as int,
            external: self.external as int,
        }
    }
}

/// How all frames were bound.
#[derive(Debug, PartialEq, Eq)]
pub struct ResolveTotals {
    pub signatures_with_frames: u64,
    pub resolved: u64,
    pub ambiguous: u64,
    pub path_only: u64,
    pub unresolved: u64,
    pub external: u64,
}

#[verifier::ext_equal]
pub struct TotalsView {
    pub signatures_with_frames: int,
    pub resolved: int,
    pub ambiguous: int,
    pub path_only: int,
    pub unresolved: int,
    pub external: int,
}

impl DeepView for ResolveTotals {
    type V = TotalsView;

    open spec fn deep_view(&self) -> TotalsView {
        TotalsView {
            signatures_with_frames: self.signatures_with_frames as int,
            resolved: self.resolved as int,
            ambiguous: self.ambiguous as int,
            path_only: self.path_only as int,
            unresolved: self.unresolved as int,
            external: self.external as int,
        }
    }
}

/// Result of a frame-resolution pass.
#[derive(Debug, PartialEq, Eq)]
pub struct ResolveFramesResult {
    /// The log-domain records, signatures with their citations, diagnostic markers, then the new
    /// edges. Code-graph records are never emitted again.
    pub records: Vec<GraphRecord>,
    /// By signature; signatures without frames have no tally.
    pub signatures: Vec<SignatureTally>,
    pub totals: ResolveTotals,
}

// ── Single frames ───────────────────────────────────────────────────────────

/// Module roots of the standard library and the compiler.
pub open spec fn is_stdlib_root(root: Seq<char>) -> bool {
    root == "std"@ || root == "core"@ || root == "alloc"@ || root == "proc_macro"@ || root
        == "test"@ || root == "backtrace"@
}

/// Paths below a toolchain, a registry or a checkout of a dependency.
pub open spec fn is_external_path(path: Seq<char>) -> bool {
    starts(path, "rustc/"@) || starts(path, "registry/"@) || starts(path, ".cargo/"@) || starts(
        path,
        ".rustup/"@,
    ) || starts(path, "git/"@) || has(path, "/registry/"@) || has(path, "/rustc/"@)
}

/// A frame of the standard library or of a dependency.
pub open spec fn external(f: StackFrameView) -> bool {
    (f.module matches Some(m) && is_stdlib_root(before_first(m, "::"@))) || (
    f.file_path matches Some(p) && is_external_path(p))
}

pub fn is_external(frame: &StackFrame) -> (r: bool)
    ensures
        r == external(frame.deep_view()),
{
    if let Some(module) = &frame.module {
        let root: String = before(module.as_str(), "::");
        let r: &str = root.as_str();
        if same(r, "std") || same(r, "core") || same(r, "alloc") || same(r, "proc_macro") || same(
            r,
            "test",
        ) || same(r, "backtrace") {
            return true;
        }
    }
    if let Some(path) = &frame.file_path {
        let p: &str = path.as_str();
        return starts_with(p, "rustc/") || starts_with(p, "registry/") || starts_with(p, ".cargo/")
            || starts_with(p, ".rustup/") || starts_with(p, "git/") || contains(p, "/registry/")
            || contains(p, "/rustc/");
    }
    false
}

pub open spec fn is_hex_digit(c: char) -> bool {
    ('0' <= c && c <= '9') || ('a' <= c && c <= 'f') || ('A' <= c && c <= 'F')
}

/// A hash that the compiler adds to tell like paths apart: an `h` and six hexadecimal digits or
/// more. Names such as `head` and `h1` are shorter, and are names.
pub open spec fn is_disambiguator(segment: Seq<char>) -> bool {
    segment.len() > 6 && segment[0] == 'h' && forall|i: int|
        1 <= i < segment.len() ==> is_hex_digit(#[trigger] segment[i])
}

fn check_disambiguator(segment: &str) -> (r: bool)
    ensures
        r == is_disambiguator(segment@),
{
    let cs: Vec<char> = chars_of(segment);
    if cs.len() <= 6 || cs[0] != 'h' {
        return false;
    }
    let mut i: usize = 1;
    while i < cs.len()
        invariant
            1 <= i <= cs.len(),
            cs@ == segment@,
            forall|k: int| 1 <= k < i ==> is_hex_digit(#[trigger] cs@[k]),
        decreases cs.len() - i,
    {
        let c: char = cs[i];
        let hex: bool = ('0' <= c && c <= '9') || ('a' <= c && c <= 'f') || ('A' <= c && c <= 'F');
        if !hex {
            assert(!is_hex_digit(segment@[i as int]));
            return false;
        }
        i += 1;
    }
    true
}

/// A module path without the disambiguator at its end.
pub open spec fn undisambiguated(module: Seq<char>) -> Seq<char> {
    match split_last(module, "::"@) {
        Some((path, segment)) => if is_disambiguator(segment) {
            path
        } else {
            module
        },
        None => module,
    }
}

/// The last segment of a frame's module path, the disambiguator left off.
pub open spec fn simple_name_of(f: StackFrameView) -> Option<Seq<char>> {
    match f.module {
        Some(m) => {
            let last = after_last(undisambiguated(m), "::"@);
            if last.len() > 0 {
                Some(last)
            } else {
                None
            }
        },
        None => None,
    }
}

pub fn simple_name(frame: &StackFrame) -> (r: Option<String>)
    ensures
        r.deep_view() == simple_name_of(frame.deep_view()),
{
    match &frame.module {
        Some(m) => {
            let path: String = match rsplit_once(m.as_str(), "::") {
                Some((path, segment)) => if check_disambiguator(segment.as_str()) {
                    path
                } else {
                    m.clone()
                },
                None => m.clone(),
            };
            let last: String = after(path.as_str(), "::");
            if last.as_str().is_empty() {
                None
            } else {
                Some(last)
            }
        },
        None => None,
    }
}

/// A frame in one line, for a diagnostic marker.
pub open spec fn frame_text(f: StackFrameView) -> Seq<char> {
    match (f.module, f.file_path) {
        (Some(m), Some(p)) => match f.line {
            Some(l) => m + " at "@ + p + ":"@ + decimal_of(l as nat),
            None => m + " at "@ + p,
        },
        (Some(m), None) => m,
        (None, Some(p)) => match f.line {
            Some(l) => p + ":"@ + decimal_of(l as nat),
            None => p,
        },
        (None, None) => "frame#"@ + decimal_of(f.frame_index as nat),
    }
}

pub fn frame_display(frame: &StackFrame) -> (r: String)
    ensures
        r@ == frame_text(frame.deep_view()),
{
    match (&frame.module, &frame.file_path) {
        (Some(m), Some(p)) => match frame.line {
            Some(l) => cat5(
                m.as_str(),
                " at ",
                p.as_str(),
                ":",
                decimal(l as u64).as_str(),
            ),
            None => cat3(m.as_str(), " at ", p.as_str()),
        },
        (Some(m), None) => m.clone(),
        (None, Some(p)) => match frame.line {
            Some(l) => cat3(p.as_str(), ":", decimal(l as u64).as_str()),
            None => p.clone(),
        },
        (None, None) => cat("frame#", decimal(frame.frame_index as u64).as_str()),
    }
}

/// A target that a frame binds to.
#[verifier::ext_equal]
pub struct CandidateView {
    pub target: Seq<char>,
    pub path: Option<Seq<char>>,
    pub span: Option<SourceSpan>,
    pub commit: Option<Seq<char>>,
}

pub struct Candidate {
    pub target: String,
    pub path: Option<String>,
    pub span: Option<SourceSpan>,
    pub commit: Option<String>,
}

impl DeepView for Candidate {
    type V = CandidateView;

    open spec fn deep_view(&self) -> CandidateView {
        CandidateView {
            target: self.target@,
            path: self.path.deep_view(),
            span: self.span,
            commit: self.commit.deep_view(),
        }
    }
}

/// Where a frame binds.
#[verifier::ext_equal]
pub enum OutcomeView {
    External,
    Resolved(CandidateView),
    PathOnly(CandidateView),
    Ambiguous(Seq<CandidateView>),
    Unresolved,
}

pub enum FrameOutcome {
    /// No edge.
    External,
    /// Exactly one symbol.
    Resolved(Candidate),
    /// A file, no symbol.
    PathOnly(Candidate),
    /// Two or more symbols.
    Ambiguous(Vec<Candidate>),
    /// Nothing in the view.
    Unresolved,
}

impl DeepView for FrameOutcome {
    type V = OutcomeView;

    open spec fn deep_view(&self) -> OutcomeView {
        match self {
            FrameOutcome::External => OutcomeView::External,
            FrameOutcome::Resolved(c) => OutcomeView::Resolved(c.deep_view()),
            FrameOutcome::PathOnly(c) => OutcomeView::PathOnly(c.deep_view()),
            FrameOutcome::Ambiguous(cs) => OutcomeView::Ambiguous(cs.deep_view()),
            FrameOutcome::Unresolved => OutcomeView::Unresolved,
        }
    }
}

pub open spec fn commit_of(n: NodeRecordView) -> Option<Seq<char>> {
    match n.temporal {
        Some(t) => Some(t.git_commit),
        None => None,
    }
}

fn read_commit(n: &NodeRecord) -> (r: Option<String>)
    ensures
        r.deep_view() == commit_of(n.deep_view()),
{
    match &n.temporal {
        Some(t) => Some(t.git_commit.clone()),
        None => None,
    }
}

pub open spec fn symbol_candidate(n: NodeRecordView) -> CandidateView {
    CandidateView {
        target: n.id,
        path: n.repo_relative_path,
        span: n.span,
        commit: commit_of(n),
    }
}

/// The symbols with a name.
pub open spec fn named(symbols: Seq<NodeRecordView>, name: Seq<char>) -> Seq<CandidateView>
    decreases symbols.len(),
{
    if symbols.len() == 0 {
        Seq::empty()
    } else if symbols.last().name == Some(name) {
        named(symbols.drop_last(), name).push(symbol_candidate(symbols.last()))
    } else {
        named(symbols.drop_last(), name)
    }
}

/// Where a frame with a file and a line binds.
pub open spec fn placed(
    symbols: Seq<NodeRecordView>,
    files: Seq<NodeRecordView>,
    path: Seq<char>,
    line: int,
) -> OutcomeView {
    match enclosing_symbol(symbols, path, line) {
        Some(n) => OutcomeView::Resolved(
            CandidateView { target: n.id, path: Some(path), span: n.span, commit: commit_of(n) },
        ),
        None => match file_at(files, path, 0) {
            Some(n) => OutcomeView::PathOnly(
                CandidateView { target: n.id, path: Some(path), span: None, commit: commit_of(n) },
            ),
            None => OutcomeView::Unresolved,
        },
    }
}

/// Where a frame binds in a view of the code graph.
pub open spec fn classified(
    symbols: Seq<NodeRecordView>,
    files: Seq<NodeRecordView>,
    f: StackFrameView,
) -> OutcomeView {
    if external(f) {
        OutcomeView::External
    } else if f.file_path is Some && f.line is Some {
        placed(symbols, files, f.file_path->0, f.line->0 as int)
    } else {
        match simple_name_of(f) {
            Some(name) => {
                let found = named(symbols, name);
                if found.len() == 0 {
                    OutcomeView::Unresolved
                } else if found.len() == 1 {
                    OutcomeView::Resolved(found[0])
                } else {
                    OutcomeView::Ambiguous(found)
                }
            },
            None => OutcomeView::Unresolved,
        }
    }
}

fn collect_named(symbols: &Vec<&NodeRecord>, name: &str) -> (r: Vec<Candidate>)
    ensures
        r.deep_view() == named(symbols.deep_view(), name@),
{
    let ghost all = symbols.deep_view();
    let mut out: Vec<Candidate> = Vec::new();
    let mut i: usize = 0;
    assert(out.deep_view() =~= named(all.take(0), name@));
    while i < symbols.len()
        invariant
            i <= symbols.len(),
            all == symbols.deep_view(),
            out.deep_view() == named(all.take(i as int), name@),
        decreases symbols.len() - i,
    {
        proof {
            assert(all.take(i + 1).drop_last() =~= all.take(i as int));
            assert(all.take(i + 1).last() == symbols@[i as int].deep_view());
        }
        let n: &NodeRecord = symbols[i];
        let hit: bool = match &n.name {
            Some(x) => same(x.as_str(), name),
            None => false,
        };
        if hit {
            let ghost before = out;
            out.push(
                Candidate {
                    target: n.id.clone(),
                    path: duplicate_opt(&n.repo_relative_path),
                    span: n.span,
                    commit: read_commit(n),
                },
            );
            proof {
                lemma_push(before, out);
            }
        }
        i += 1;
    }
    assert(all.take(all.len() as int) =~= all);
    out
}

pub fn classify_frame(
    symbols: &Vec<&NodeRecord>,
    files: &Vec<&NodeRecord>,
    frame: &StackFrame,
) -> (r: FrameOutcome)
    ensures
        r.deep_view() == classified(symbols.deep_view(), files.deep_view(), frame.deep_view()),
{
    if is_external(frame) {
        return FrameOutcome::External;
    }
    if let Some(path) = &frame.file_path {
        if let Some(line) = frame.line {
            return match find_enclosing_symbol(symbols, path.as_str(), line as usize) {
                Some(n) => FrameOutcome::Resolved(
                    Candidate {
                        target: n.id.clone(),
                        path: Some(path.clone()),
                        span: n.span,
                        commit: read_commit(n),
                    },
                ),
                None => match find_file(files, path.as_str()) {
                    Some(n) => FrameOutcome::PathOnly(
                        Candidate {
                            target: n.id.clone(),
                            path: Some(path.clone()),
                            span: None,
                            commit: read_commit(n),
                        },
                    ),
                    None => FrameOutcome::Unresolved,
                },
            };
        }
    }
    match simple_name(frame) {
        Some(name) => {
            let mut found: Vec<Candidate> = collect_named(symbols, name.as_str());
            assert(found.deep_view().len() == found@.len());
            if found.len() == 0 {
                FrameOutcome::Unresolved
            } else if found.len() == 1 {
                assert(found.deep_view()[0] == found@[0].deep_view());
                let only: Candidate = found.remove(0);
                FrameOutcome::Resolved(only)
            } else {
                FrameOutcome::Ambiguous(found)
            }
        },
        None => FrameOutcome::Unresolved,
    }
}

// ── Frames of signatures ────────────────────────────────────────────────────

pub open spec fn signature_frames(r: RecordView) -> Option<Option<Seq<StackFrameView>>> {
    match r {
        RecordView::Node(n) => match n.log {
            Some(LogPayloadView::ErrorSignature(p)) => Some(p.frames),
            _ => None,
        },
        _ => None,
    }
}

/// The frames of the first record of a signature, from position `i` on.
pub open spec fn frames_from(s: Seq<RecordView>, id: Seq<char>, i: int) -> Seq<StackFrameView>
    decreases s.len() - i,
{
    if i < 0 || i >= s.len() {
        Seq::empty()
    } else if s[i].id() == id && signature_frames(s[i]) is Some {
        match signature_frames(s[i])->0 {
            Some(frames) => frames,
            None => Seq::empty(),
        }
    } else {
        frames_from(s, id, i + 1)
    }
}

pub open spec fn frames_of(s: Seq<RecordView>, id: Seq<char>) -> Seq<StackFrameView> {
    frames_from(s, id, 0)
}

fn find_frames<'a>(records: &'a [GraphRecord], id: &str) -> (r: Option<&'a Vec<StackFrame>>)
    ensures
        (match r {
            Some(v) => frames_of(records.deep_view(), id@) == v.deep_view(),
            None => frames_of(records.deep_view(), id@) == Seq::<StackFrameView>::empty(),
        }),
{
    let ghost s = records.deep_view();
    let mut i: usize = 0;
    while i < records.len()
        invariant
            i <= records@.len(),
            s == records.deep_view(),
            frames_from(s, id@, 0) == frames_from(s, id@, i as int),
        decreases records.len() - i,
    {
        assert(s[i as int] == records@[i as int].deep_view());
        if same(records[i].id(), id) {
            if let GraphRecord::Node(n) = &records[i] {
                if let Some(LogPayload::ErrorSignature(p)) = &n.log {
                    return match &p.frames {
                        Some(v) => Some(v),
                        None => None,
                    };
                }
            }
        }
        i += 1;
    }
    None
}

pub open spec fn signature_ids(s: Seq<RecordView>) -> Seq<Seq<char>> {
    distinct(ids_of_kind(s, NodeKind::ErrorSignature))
}

/// The view of the code graph that frames are bound in.
pub struct CodeView {
    pub symbols: Seq<NodeRecordView>,
    pub files: Seq<NodeRecordView>,
}

pub open spec fn code_view(s: Seq<RecordView>, at_commit: Option<Seq<char>>) -> CodeView {
    CodeView {
        symbols: view_of(s, at_commit, NodeKind::Symbol),
        files: view_of(s, at_commit, NodeKind::File),
    }
}

/// One edge on its way, with what its citation says.
#[verifier::ext_equal]
pub struct PendingView {
    pub signature_id: Seq<char>,
    pub target_id: Seq<char>,
    pub frame_index: u32,
    pub resolution: FrameResolution,
    pub confidence: Seq<char>,
    pub target_domain: Seq<char>,
    pub target_path: Option<Seq<char>>,
    pub target_span: Option<SourceSpan>,
    pub target_commit: Option<Seq<char>>,
}

pub struct PendingEdge {
    pub signature_id: String,
    pub target_id: String,
    pub frame_index: u32,
    pub resolution: FrameResolution,
    pub confidence: String,
    pub target_domain: String,
    pub target_path: Option<String>,
    pub target_span: Option<SourceSpan>,
    pub target_commit: Option<String>,
}

impl DeepView for PendingEdge {
    type V = PendingView;

    open spec fn deep_view(&self) -> PendingView {
        PendingView {
            signature_id: self.signature_id@,
            target_id: self.target_id@,
            frame_index: self.frame_index,
            resolution: self.resolution,
            confidence: self.confidence@,
            target_domain: self.target_domain@,
            target_path: self.target_path.deep_view(),
            target_span: self.target_span,
            target_commit: self.target_commit.deep_view(),
        }
    }
}

pub open spec fn cited_domain(id: Seq<char>) -> Seq<char> {
    match id_domain(id) {
        Some(d) => d,
        None => "codegraph"@,
    }
}

fn domain_of(id: &str) -> (r: String)
    ensures
        r@ == cited_domain(id@),
{
    match domain_from_record_id(id) {
        Some(d) => d,
        None => "codegraph".to_owned(),
    }
}

pub open spec fn confidence_of(resolution: FrameResolution) -> Seq<char> {
    match resolution {
        FrameResolution::Resolved => "1.0"@,
        FrameResolution::Ambiguous => "0.5"@,
        FrameResolution::PathOnly => "0.5"@,
        FrameResolution::Unresolved => "0.0"@,
    }
}

fn confidence(resolution: FrameResolution) -> (r: &'static str)
    ensures
        r@ == confidence_of(resolution),
{
    match resolution {
        FrameResolution::Resolved => "1.0",
        FrameResolution::Ambiguous => "0.5",
        FrameResolution::PathOnly => "0.5",
        FrameResolution::Unresolved => "0.0",
    }
}

pub open spec fn bound_to(
    sig: Seq<char>,
    f: StackFrameView,
    resolution: FrameResolution,
    c: CandidateView,
) -> PendingView {
    PendingView {
        signature_id: sig,
        target_id: c.target,
        frame_index: f.frame_index,
        resolution,
        confidence: confidence_of(resolution),
        target_domain: cited_domain(c.target),
        target_path: c.path,
        target_span: c.span,
        target_commit: c.commit,
    }
}

pub open spec fn marker_id(f: StackFrameView) -> Seq<char> {
    log_id(seq!["diagnostic"@, "unresolved-frame"@, frame_text(f)])
}

/// The marker of a frame that binds to nothing. Frames with the same text share one.
pub open spec fn marker(f: StackFrameView) -> NodeRecordView {
    NodeRecordView {
        domain: Some("log"@),
        schema_version: LOG_SCHEMA_VERSION,
        ..NodeRecordView::plain(
            marker_id(f),
            NodeKind::Diagnostic,
            f.file_path,
            None,
            Some(frame_text(f)),
            "unresolved backtrace frame ("@ + frame_text(f) + "): no in-repo definition"@,
        )
    }
}

/// The edges of one frame.
pub open spec fn frame_edges(
    sig: Seq<char>,
    f: StackFrameView,
    o: OutcomeView,
) -> Seq<PendingView> {
    match o {
        OutcomeView::External => Seq::empty(),
        OutcomeView::Resolved(c) => seq![bound_to(sig, f, FrameResolution::Resolved, c)],
        OutcomeView::PathOnly(c) => seq![bound_to(sig, f, FrameResolution::PathOnly, c)],
        OutcomeView::Ambiguous(cs) => cs.map_values(
            |c: CandidateView| bound_to(sig, f, FrameResolution::Ambiguous, c),
        ),
        OutcomeView::Unresolved => seq![
            PendingView {
                signature_id: sig,
                target_id: marker_id(f),
                frame_index: f.frame_index,
                resolution: FrameResolution::Unresolved,
                confidence: confidence_of(FrameResolution::Unresolved),
                target_domain: "log"@,
                target_path: f.file_path,
                target_span: None,
                target_commit: None,
            },
        ],
    }
}

/// The edges of the given frames of a signature.
pub open spec fn edges_of_frames(v: CodeView, sig: Seq<char>, frames: Seq<StackFrameView>) -> Seq<
    PendingView,
>
    decreases frames.len(),
{
    if frames.len() == 0 {
        Seq::empty()
    } else {
        edges_of_frames(v, sig, frames.drop_last()) + frame_edges(
            sig,
            frames.last(),
            classified(v.symbols, v.files, frames.last()),
        )
    }
}

/// The edges of the given signatures.
pub open spec fn pending_edges(s: Seq<RecordView>, v: CodeView, sigs: Seq<Seq<char>>) -> Seq<
    PendingView,
>
    decreases sigs.len(),
{
    if sigs.len() == 0 {
        Seq::empty()
    } else {
        pending_edges(s, v, sigs.drop_last()) + edges_of_frames(
            v,
            sigs.last(),
            frames_of(s, sigs.last()),
        )
    }
}

pub open spec fn has_marker(markers: Seq<RecordView>, id: Seq<char>) -> bool {
    exists|i: int| 0 <= i < markers.len() && (#[trigger] markers[i]).id() == id
}

/// `markers` with the marker of a frame, unless one with its identity is there.
pub open spec fn add_marker(markers: Seq<RecordView>, f: StackFrameView) -> Seq<RecordView> {
    if has_marker(markers, marker_id(f)) {
        markers
    } else {
        markers.push(RecordView::Node(marker(f)))
    }
}

pub open spec fn with_markers(
    v: CodeView,
    markers: Seq<RecordView>,
    frames: Seq<StackFrameView>,
) -> Seq<RecordView>
    decreases frames.len(),
{
    if frames.len() == 0 {
        markers
    } else {
        let before = with_markers(v, markers, frames.drop_last());
        if classified(v.symbols, v.files, frames.last()) is Unresolved {
            add_marker(before, frames.last())
        } else {
            before
        }
    }
}

/// The markers of the given signatures, in the order in which they come up.
pub open spec fn markers_of(
    s: Seq<RecordView>,
    v: CodeView,
    sigs: Seq<Seq<char>>,
) -> Seq<RecordView>
    decreases sigs.len(),
{
    if sigs.len() == 0 {
        Seq::empty()
    } else {
        with_markers(v, markers_of(s, v, sigs.drop_last()), frames_of(s, sigs.last()))
    }
}

// ── Records ─────────────────────────────────────────────────────────────────

pub open spec fn resolution_edge(p: PendingView) -> EdgeRecordView {
    EdgeRecordView {
        frame_resolution: Some(p.resolution),
        frame_index: Some(p.frame_index),
        ..EdgeRecordView::plain(
            log_id(
                seq![
                    "edge"@,
                    EdgeLabel::FrameResolvesTo.name(),
                    p.signature_id,
                    decimal_of(p.frame_index as nat),
                    p.target_id,
                    p.resolution.name(),
                ],
            ),
            LOG_SCHEMA_VERSION,
            EdgeLabel::FrameResolvesTo,
            p.signature_id,
            p.target_id,
            Some(p.confidence),
            "backtrace frame "@ + decimal_of(p.frame_index as nat) + " of "@ + p.signature_id
                + " resolves ("@ + p.resolution.name() + ") to "@ + p.target_id,
        )
    }
}

pub open spec fn frame_citation(p: PendingView, at_commit: Option<Seq<char>>) -> EvidenceLinkView {
    EvidenceLinkView {
        target_record_id: Some(p.target_id),
        target_domain: p.target_domain,
        relation: EdgeLabel::FrameResolvesTo.name(),
        confidence: p.confidence,
        as_of_commit: at_commit,
        target_repo_relative_path: p.target_path,
        target_span: p.target_span,
        target_git_commit: p.target_commit,
    }
}

pub open spec fn edge_key(r: RecordView) -> Seq<KeyPartView> {
    match r {
        RecordView::Edge(e) => seq![
            KeyPartView::Text(e.source),
            KeyPartView::Num(
                match e.frame_index {
                    Some(i) => i as u64,
                    None => 0,
                },
            ),
            KeyPartView::Text(e.target),
            KeyPartView::Text(e.id),
        ],
        other => seq![
            KeyPartView::Text(Seq::empty()),
            KeyPartView::Num(0),
            KeyPartView::Text(Seq::empty()),
            KeyPartView::Text(other.id()),
        ],
    }
}

/// The new edges, by source, frame, target and identity.
pub open spec fn new_edges(s: Seq<RecordView>, at_commit: Option<Seq<char>>) -> Seq<RecordView> {
    let all = pending_edges(s, code_view(s, at_commit), signature_ids(s)).map_values(
        |p: PendingView| RecordView::Edge(resolution_edge(p)),
    );
    sorted_by(all, all.map_values(|r: RecordView| edge_key(r)))
}

pub open spec fn citation_key(l: EvidenceLinkView) -> Seq<KeyPartView> {
    seq![
        KeyPartView::Num(
            if l.target_record_id is Some {
                1
            } else {
                0
            },
        ),
        KeyPartView::Text(
            match l.target_record_id {
                Some(t) => t,
                None => Seq::empty(),
            },
        ),
        KeyPartView::Text(l.relation),
    ]
}

/// The citations that a signature gains, by target and relation.
pub open spec fn citations(s: Seq<RecordView>, at_commit: Option<Seq<char>>, sig: Seq<char>) -> Seq<
    EvidenceLinkView,
> {
    let all = edges_of_frames(code_view(s, at_commit), sig, frames_of(s, sig)).map_values(
        |p: PendingView| frame_citation(p, at_commit),
    );
    sorted_by(all, all.map_values(|l: EvidenceLinkView| citation_key(l)))
}

/// A log-domain record as it is emitted: a signature with bound frames carries its citations.
pub open spec fn enriched(
    s: Seq<RecordView>,
    at_commit: Option<Seq<char>>,
    r: RecordView,
) -> RecordView {
    match r {
        RecordView::Node(n) => if n.kind == NodeKind::ErrorSignature && edges_of_frames(
            code_view(s, at_commit),
            n.id,
            frames_of(s, n.id),
        ).len() > 0 {
            RecordView::Node(
                NodeRecordView { evidence_links: Some(citations(s, at_commit, n.id)), ..n },
            )
        } else {
            r
        },
        other => other,
    }
}

/// The log-domain records among the first `n`, as they are emitted.
pub open spec fn emitted_nodes(s: Seq<RecordView>, at_commit: Option<Seq<char>>, n: nat) -> Seq<
    RecordView,
>
    decreases n,
{
    if n == 0 {
        Seq::empty()
    } else {
        let before = emitted_nodes(s, at_commit, (n - 1) as nat);
        if in_log_domain(s[n - 1]) {
            before.push(enriched(s, at_commit, s[n - 1]))
        } else {
            before
        }
    }
}

/// The diagnostic markers of the store, by identity.
pub open spec fn markers(s: Seq<RecordView>, at_commit: Option<Seq<char>>) -> Seq<RecordView> {
    let all = markers_of(s, code_view(s, at_commit), signature_ids(s));
    sorted_by(all, all.map_values(|r: RecordView| id_key(r)))
}

/// The log-domain records and the markers, by identity.
pub open spec fn resolved_nodes(
    s: Seq<RecordView>,
    at_commit: Option<Seq<char>>,
) -> Seq<RecordView> {
    let all = emitted_nodes(s, at_commit, s.len()) + markers(s, at_commit);
    sorted_by(all, all.map_values(|r: RecordView| id_key(r)))
}

// ── Tallies ─────────────────────────────────────────────────────────────────

pub open spec fn has_resolution(o: OutcomeView, resolution: Option<FrameResolution>) -> bool {
    match o {
        OutcomeView::External => resolution is None,
        OutcomeView::Resolved(_) => resolution == Some(FrameResolution::Resolved),
        OutcomeView::PathOnly(_) => resolution == Some(FrameResolution::PathOnly),
        OutcomeView::Ambiguous(_) => resolution == Some(FrameResolution::Ambiguous),
        OutcomeView::Unresolved => resolution == Some(FrameResolution::Unresolved),
    }
}

/// How many of the given frames bind in one way; no way stands for external frames.
pub open spec fn frame_count(
    v: CodeView,
    frames: Seq<StackFrameView>,
    resolution: Option<FrameResolution>,
) -> int
    decreases frames.len(),
{
    if frames.len() == 0 {
        0
    } else {
        frame_count(v, frames.drop_last(), resolution) + if has_resolution(
            classified(v.symbols, v.files, frames.last()),
            resolution,
        ) {
            1int
        } else {
            0
        }
    }
}

pub open spec fn tally(s: Seq<RecordView>, v: CodeView, sig: Seq<char>) -> TallyView {
    let frames = frames_of(s, sig);
    TallyView {
        signature_id: sig,
        resolved: frame_count(v, frames, Some(FrameResolution::Resolved)),
        ambiguous: frame_count(v, frames, Some(FrameResolution::Ambiguous)),
        path_only: frame_count(v, frames, Some(FrameResolution::PathOnly)),
        unresolved: frame_count(v, frames, Some(FrameResolution::Unresolved)),
        external: frame_count(v, frames, None),
    }
}

/// The tallies of those of the given signatures that have frames.
pub open spec fn tallies(s: Seq<RecordView>, v: CodeView, sigs: Seq<Seq<char>>) -> Seq<TallyView>
    decreases sigs.len(),
{
    if sigs.len() == 0 {
        Seq::empty()
    } else if frames_of(s, sigs.last()).len() > 0 {
        tallies(s, v, sigs.drop_last()).push(tally(s, v, sigs.last()))
    } else {
        tallies(s, v, sigs.drop_last())
    }
}

/// The sum of some tallies.
pub open spec fn totals(ts: Seq<TallyView>) -> TotalsView
    decreases ts.len(),
{
    if ts.len() == 0 {
        TotalsView {
            signatures_with_frames: 0,
            resolved: 0,
            ambiguous: 0,
            path_only: 0,
            unresolved: 0,
            external: 0,
        }
    } else {
        let before = totals(ts.drop_last());
        let t = ts.last();
        TotalsView {
            signatures_with_frames: before.signatures_with_frames + 1,
            resolved: before.resolved + t.resolved,
            ambiguous: before.ambiguous + t.ambiguous,
            path_only: before.path_only + t.path_only,
            unresolved: before.unresolved + t.unresolved,
            external: before.external + t.external,
        }
    }
}

// ── The pass ────────────────────────────────────────────────────────────────

fn pend(
    sig: &str,
    frame: &StackFrame,
    resolution: FrameResolution,
    c: Candidate,
) -> (r: PendingEdge)
    ensures
        r.deep_view() == bound_to(sig@, frame.deep_view(), resolution, c.deep_view()),
{
    PendingEdge {
        signature_id: sig.to_owned(),
        target_domain: domain_of(c.target.as_str()),
        target_id: c.target,
        frame_index: frame.frame_index,
        resolution,
        confidence: confidence(resolution).to_owned(),
        target_path: c.path,
        target_span: c.span,
        target_commit: c.commit,
    }
}

fn pend_all(sig: &str, frame: &StackFrame, cs: Vec<Candidate>, out: &mut Vec<PendingEdge>)
    ensures
        final(out).deep_view() == old(out).deep_view() + cs.deep_view().map_values(
            |c: CandidateView|
                bound_to(sig@, frame.deep_view(), FrameResolution::Ambiguous, c),
        ),
{
    let ghost start = out.deep_view();
    let ghost all = cs.deep_view().map_values(
        |c: CandidateView| bound_to(sig@, frame.deep_view(), FrameResolution::Ambiguous, c),
    );
    let mut i: usize = 0;
    assert(start + all.take(0) =~= start);
    while i < cs.len()
        invariant
            i <= cs.len(),
            all == cs.deep_view().map_values(
                |c: CandidateView|
                    bound_to(sig@, frame.deep_view(), FrameResolution::Ambiguous, c),
            ),
            out.deep_view() == start + all.take(i as int),
        decreases cs.len() - i,
    {
        let ghost before = *out;
        let c: Candidate = Candidate {
            target: cs[i].target.clone(),
            path: duplicate_opt(&cs[i].path),
            span: cs[i].span,
            commit: duplicate_opt(&cs[i].commit),
        };
        out.push(pend(sig, frame, FrameResolution::Ambiguous, c));
        proof {
            lemma_push(before, *out);
            assert(cs.deep_view()[i as int] == cs@[i as int].deep_view());
            assert(start + all.take(i + 1) =~= (start + all.take(i as int)).push(all[i as int]));
        }
        i += 1;
    }
    assert(all.take(cs.len() as int) =~= all);
}

/// The marker node of a frame that binds to nothing.
pub fn unresolved_diagnostic(frame: &StackFrame) -> (r: GraphRecord)
    ensures
        r.deep_view() == RecordView::Node(marker(frame.deep_view())),
{
    let text: String = frame_display(frame);
    let id: String = log_stable_id(&parts3("diagnostic", "unresolved-frame", text.as_str()));
    let summary: String = cat3(
        "unresolved backtrace frame (",
        text.as_str(),
        "): no in-repo definition",
    );
    GraphRecord::node(
        id,
        NodeKind::Diagnostic,
        duplicate_opt(&frame.file_path),
        None,
        Some(text),
        summary,
    ).with_domain("log", LOG_SCHEMA_VERSION)
}

fn marker_present(markers: &Vec<GraphRecord>, id: &str) -> (r: bool)
    ensures
        r == has_marker(markers.deep_view(), id@),
{
    let ghost all = markers.deep_view();
    let mut i: usize = 0;
    while i < markers.len()
        invariant
            i <= markers.len(),
            all == markers.deep_view(),
            forall|k: int| 0 <= k < i ==> (#[trigger] all[k]).id() != id@,
        decreases markers.len() - i,
    {
        assert(all[i as int] == markers@[i as int].deep_view());
        if same(markers[i].id(), id) {
            assert(all[i as int].id() == id@);
            return true;
        }
        i += 1;
    }
    false
}

fn push_marker(markers: &mut Vec<GraphRecord>, frame: &StackFrame)
    ensures
        final(markers).deep_view() == add_marker(old(markers).deep_view(), frame.deep_view()),
{
    let diagnostic: GraphRecord = unresolved_diagnostic(frame);
    if !marker_present(markers, diagnostic.id()) {
        let ghost before = *markers;
        markers.push(diagnostic);
        proof {
            lemma_push(before, *markers);
        }
    }
}

/// The edges of one frame; how it binds is returned.
fn push_frame_edges(
    sig: &str,
    frame: &StackFrame,
    outcome: FrameOutcome,
    out: &mut Vec<PendingEdge>,
) -> (r: Option<FrameResolution>)
    ensures
        final(out).deep_view() == old(out).deep_view() + frame_edges(
            sig@,
            frame.deep_view(),
            outcome.deep_view(),
        ),
        has_resolution(outcome.deep_view(), r),
{
    let ghost start = out.deep_view();
    let ghost before = *out;
    match outcome {
        FrameOutcome::External => {
            assert(start + Seq::<PendingView>::empty() =~= start);
            None
        },
        FrameOutcome::Resolved(c) => {
            out.push(pend(sig, frame, FrameResolution::Resolved, c));
            proof {
                lemma_push(before, *out);
                assert(out.deep_view() =~= start + seq![out@.last().deep_view()]);
            }
            Some(FrameResolution::Resolved)
        },
        FrameOutcome::PathOnly(c) => {
            out.push(pend(sig, frame, FrameResolution::PathOnly, c));
            proof {
                lemma_push(before, *out);
                assert(out.deep_view() =~= start + seq![out@.last().deep_view()]);
            }
            Some(FrameResolution::PathOnly)
        },
        FrameOutcome::Ambiguous(cs) => {
            pend_all(sig, frame, cs, out);
            Some(FrameResolution::Ambiguous)
        },
        FrameOutcome::Unresolved => {
            out.push(
                PendingEdge {
                    signature_id: sig.to_owned(),
                    target_id: log_stable_id(
                        &parts3("diagnostic", "unresolved-frame", frame_display(frame).as_str()),
                    ),
                    frame_index: frame.frame_index,
                    resolution: FrameResolution::Unresolved,
                    confidence: confidence(FrameResolution::Unresolved).to_owned(),
                    target_domain: "log".to_owned(),
                    target_path: duplicate_opt(&frame.file_path),
                    target_span: None,
                    target_commit: None,
                },
            );
            proof {
                lemma_push(before, *out);
                assert(out.deep_view() =~= start + seq![out@.last().deep_view()]);
            }
            Some(FrameResolution::Unresolved)
        },
    }
}

/// The code graph in the view that frames are bound in.
struct Code<'a> {
    symbols: Vec<&'a NodeRecord>,
    files: Vec<&'a NodeRecord>,
}

impl<'a> Code<'a> {
    spec fn view_is(self, v: CodeView) -> bool {
        self.symbols.deep_view() == v.symbols && self.files.deep_view() == v.files
    }
}

/// What a pass over signatures has gathered so far.
struct Pass {
    edges: Vec<PendingEdge>,
    markers: Vec<GraphRecord>,
    tallies: Vec<SignatureTally>,
    totals: ResolveTotals,
    /// How each frame bound, one entry per frame.
    outcomes: Vec<Option<FrameResolution>>,
}

spec fn total_frames(t: TotalsView) -> int {
    t.resolved + t.ambiguous + t.path_only + t.unresolved + t.external
}

impl Pass {
    /// The pass has gone over exactly the signatures `ids`.
    spec fn covers(self, s: Seq<RecordView>, v: CodeView, ids: Seq<Seq<char>>) -> bool {
        &&& self.edges.deep_view() == pending_edges(s, v, ids)
        &&& self.markers.deep_view() == markers_of(s, v, ids)
        &&& self.tallies.deep_view() == tallies(s, v, ids)
        &&& self.totals.deep_view() == totals(tallies(s, v, ids))
        &&& total_frames(self.totals.deep_view()) == self.outcomes.len()
        &&& self.totals.signatures_with_frames <= ids.len()
    }
}

fn add_one(t: &mut SignatureTally, how: Option<FrameResolution>)
    requires
        old(t).resolved < u64::MAX,
        old(t).ambiguous < u64::MAX,
        old(t).path_only < u64::MAX,
        old(t).unresolved < u64::MAX,
        old(t).external < u64::MAX,
    ensures
        final(t).signature_id == old(t).signature_id,
        final(t).resolved == old(t).resolved + if how == Some(FrameResolution::Resolved) {
            1int
        } else {
            0
        },
        final(t).ambiguous == old(t).ambiguous + if how == Some(FrameResolution::Ambiguous) {
            1int
        } else {
            0
        },
        final(t).path_only == old(t).path_only + if how == Some(FrameResolution::PathOnly) {
            1int
        } else {
            0
        },
        final(t).unresolved == old(t).unresolved + if how == Some(FrameResolution::Unresolved) {
            1int
        } else {
            0
        },
        final(t).external == old(t).external + if how is None {
            1int
        } else {
            0
        },
{
    match how {
        None => {
            t.external = t.external + 1;
        },
        Some(FrameResolution::Resolved) => {
            t.resolved = t.resolved + 1;
        },
        Some(FrameResolution::Ambiguous) => {
            t.ambiguous = t.ambiguous + 1;
        },
        Some(FrameResolution::PathOnly) => {
            t.path_only = t.path_only + 1;
        },
        Some(FrameResolution::Unresolved) => {
            t.unresolved = t.unresolved + 1;
        },
    }
}

spec fn tally_total(t: TallyView) -> int {
    t.resolved + t.ambiguous + t.path_only + t.unresolved + t.external
}

fn tally_frames(
    code: &Code,
    v: Ghost<CodeView>,
    sig: &str,
    frames: &Vec<StackFrame>,
    pass: &mut Pass,
) -> (t: SignatureTally)
    requires
        code.view_is(v@),
    ensures
        final(pass).edges.deep_view() == old(pass).edges.deep_view() + edges_of_frames(
            v@,
            sig@,
            frames.deep_view(),
        ),
        final(pass).markers.deep_view() == with_markers(
            v@,
            old(pass).markers.deep_view(),
            frames.deep_view(),
        ),
        final(pass).tallies == old(pass).tallies,
        final(pass).totals == old(pass).totals,
        final(pass).outcomes.len() == old(pass).outcomes.len() + frames.len(),
        t.signature_id@ == sig@,
        t.resolved == frame_count(v@, frames.deep_view(), Some(FrameResolution::Resolved)),
        t.ambiguous == frame_count(v@, frames.deep_view(), Some(FrameResolution::Ambiguous)),
        t.path_only == frame_count(v@, frames.deep_view(), Some(FrameResolution::PathOnly)),
        t.unresolved == frame_count(v@, frames.deep_view(), Some(FrameResolution::Unresolved)),
        t.external == frame_count(v@, frames.deep_view(), None),
        tally_total(t.deep_view()) == frames.len(),
{
    let ghost all = frames.deep_view();
    let ghost start = *pass;
    let mut t: SignatureTally = SignatureTally {
        signature_id: sig.to_owned(),
        resolved: 0,
        ambiguous: 0,
        path_only: 0,
        unresolved: 0,
        external: 0,
    };
    let mut i: usize = 0;
    assert(all.take(0) =~= Seq::empty());
    assert(start.edges.deep_view() + Seq::<PendingView>::empty() =~= start.edges.deep_view());
    while i < frames.len()
        invariant
            i <= frames.len(),
            code.view_is(v@),
            all == frames.deep_view(),
            pass.edges.deep_view() == start.edges.deep_view() + edges_of_frames(
                v@,
                sig@,
                all.take(i as int),
            ),
            pass.markers.deep_view() == with_markers(
                v@,
                start.markers.deep_view(),
                all.take(i as int),
            ),
            pass.tallies == start.tallies,
            pass.totals == start.totals,
            pass.outcomes.len() == start.outcomes.len() + i,
            t.signature_id@ == sig@,
            t.resolved == frame_count(v@, all.take(i as int), Some(FrameResolution::Resolved)),
            t.ambiguous == frame_count(v@, all.take(i as int), Some(FrameResolution::Ambiguous)),
            t.path_only == frame_count(v@, all.take(i as int), Some(FrameResolution::PathOnly)),
            t.unresolved == frame_count(v@, all.take(i as int), Some(FrameResolution::Unresolved)),
            t.external == frame_count(v@, all.take(i as int), None),
            t.resolved + t.ambiguous + t.path_only + t.unresolved + t.external == i,
        decreases frames.len() - i,
    {
        let frame: &StackFrame = &frames[i];
        let ghost here = all.take(i + 1);
        let ghost done = edges_of_frames(v@, sig@, all.take(i as int));
        proof {
            assert(here.drop_last() =~= all.take(i as int));
            assert(here.last() == frame.deep_view());
        }
        let outcome: FrameOutcome = classify_frame(&code.symbols, &code.files, frame);
        let ghost o = outcome.deep_view();
        assert(o == classified(v@.symbols, v@.files, frame.deep_view()));
        let how: Option<FrameResolution> = push_frame_edges(sig, frame, outcome, &mut pass.edges);
        assert((start.edges.deep_view() + done) + frame_edges(sig@, frame.deep_view(), o)
            =~= start.edges.deep_view() + edges_of_frames(v@, sig@, here));
        if how == Some(FrameResolution::Unresolved) {
            push_marker(&mut pass.markers, frame);
        }
        assert(pass.markers.deep_view() == with_markers(v@, start.markers.deep_view(), here));
        pass.outcomes.push(how);
        add_one(&mut t, how);
        i += 1;
    }
    assert(all.take(all.len() as int) =~= all);
    t
}

fn resolve_signature(
    records: &[GraphRecord],
    code: &Code,
    v: Ghost<CodeView>,
    sig: &str,
    pass: &mut Pass,
    ids: Ghost<Seq<Seq<char>>>,
)
    requires
        code.view_is(v@),
        old(pass).covers(records.deep_view(), v@, ids@),
        ids@.len() < usize::MAX,
    ensures
        final(pass).covers(records.deep_view(), v@, ids@.push(sig@)),
{
    let ghost s = records.deep_view();
    let ghost next = ids@.push(sig@);
    assert(next.drop_last() =~= ids@);
    match find_frames(records, sig) {
        Some(frames) => {
            assert(frames.deep_view().len() == frames@.len());
            if frames.len() > 0 {
                let t: SignatureTally = tally_frames(code, v, sig, frames, pass);
                let n: usize = pass.outcomes.len();
                assert(total_frames(pass.totals.deep_view()) + tally_total(t.deep_view()) == n);
                pass.totals.signatures_with_frames = pass.totals.signatures_with_frames + 1;
                pass.totals.resolved = pass.totals.resolved + t.resolved;
                pass.totals.ambiguous = pass.totals.ambiguous + t.ambiguous;
                pass.totals.path_only = pass.totals.path_only + t.path_only;
                pass.totals.unresolved = pass.totals.unresolved + t.unresolved;
                pass.totals.external = pass.totals.external + t.external;
                let ghost before = pass.tallies;
                pass.tallies.push(t);
                proof {
                    lemma_push(before, pass.tallies);
                    let ts = tallies(s, v@, next);
                    assert(ts.drop_last() =~= tallies(s, v@, ids@));
                    assert(ts.last() == tally(s, v@, sig@));
                }
                return;
            }
        },
        None => {},
    }
    proof {
        assert(frames_of(s, sig@).len() == 0);
        assert(pass.edges.deep_view() + edges_of_frames(v@, sig@, frames_of(s, sig@))
            =~= pass.edges.deep_view());
    }
}

fn build_edges(pending: &Vec<PendingEdge>) -> (r: Vec<GraphRecord>)
    ensures
        r.deep_view() == pending.deep_view().map_values(
            |p: PendingView| RecordView::Edge(resolution_edge(p)),
        ),
{
    let ghost all = pending.deep_view().map_values(
        |p: PendingView| RecordView::Edge(resolution_edge(p)),
    );
    let mut out: Vec<GraphRecord> = Vec::new();
    let mut i: usize = 0;
    assert(out.deep_view() =~= all.take(0));
    while i < pending.len()
        invariant
            i <= pending.len(),
            all == pending.deep_view().map_values(
                |p: PendingView| RecordView::Edge(resolution_edge(p)),
            ),
            out.deep_view() == all.take(i as int),
        decreases pending.len() - i,
    {
        let ghost before = out;
        out.push(GraphRecord::Edge(build_edge(&pending[i])));
        proof {
            lemma_push(before, out);
            assert(pending.deep_view()[i as int] == pending@[i as int].deep_view());
            assert(all.take(i + 1) =~= all.take(i as int).push(all[i as int]));
        }
        i += 1;
    }
    assert(all.take(pending.len() as int) =~= all);
    out
}

fn build_edge(p: &PendingEdge) -> (e: EdgeRecord)
    ensures
        e.deep_view() == resolution_edge(p.deep_view()),
{
    let label: EdgeLabel = EdgeLabel::FrameResolvesTo;
    let index: String = decimal(p.frame_index as u64);
    let id: String = log_stable_id(
        &parts6(
            "edge",
            label.as_str(),
            p.signature_id.as_str(),
            index.as_str(),
            p.target_id.as_str(),
            p.resolution.as_str(),
        ),
    );
    let summary: String = cat6(
        "backtrace frame ",
        index.as_str(),
        " of ",
        p.signature_id.as_str(),
        " resolves (",
        p.resolution.as_str(),
    ).concat(") to ").concat(p.target_id.as_str());
    let mut e: EdgeRecord = EdgeRecord::plain(
        id,
        LOG_SCHEMA_VERSION,
        label,
        p.signature_id.clone(),
        p.target_id.clone(),
        Some(p.confidence.clone()),
        summary,
    );
    e.frame_resolution = Some(p.resolution);
    e.frame_index = Some(p.frame_index);
    e
}

fn edge_keys(edges: &Vec<GraphRecord>) -> (r: Vec<Vec<KeyPart>>)
    ensures
        r.deep_view() == edges.deep_view().map_values(|r: RecordView| edge_key(r)),
        r.len() == edges.len(),
{
    let mut out: Vec<Vec<KeyPart>> = Vec::new();
    let ghost all = edges.deep_view().map_values(|r: RecordView| edge_key(r));
    let mut i: usize = 0;
    assert(out.deep_view() =~= all.take(0));
    while i < edges.len()
        invariant
            i <= edges.len(),
            out.len() == i,
            all == edges.deep_view().map_values(|r: RecordView| edge_key(r)),
            out.deep_view() == all.take(i as int),
        decreases edges.len() - i,
    {
        let ghost before = out;
        let key: Vec<KeyPart> = match &edges[i] {
            GraphRecord::Edge(e) => {
                let index: u64 = match e.frame_index {
                    Some(x) => x as u64,
                    None => 0,
                };
                vec![
                    KeyPart::Text(e.source.clone()),
                    KeyPart::Num(index),
                    KeyPart::Text(e.target.clone()),
                    KeyPart::Text(e.id.clone()),
                ]
            },
            other => vec![
                KeyPart::Text(String::new()),
                KeyPart::Num(0),
                KeyPart::Text(String::new()),
                KeyPart::Text(other.id().to_owned()),
            ],
        };
        out.push(key);
        proof {
            lemma_push(before, out);
            assert(edges.deep_view()[i as int] == edges@[i as int].deep_view());
            assert(key.deep_view() =~= edge_key(edges@[i as int].deep_view()));
            assert(all.take(i + 1) =~= all.take(i as int).push(all[i as int]));
        }
        i += 1;
    }
    assert(all.take(edges.len() as int) =~= all);
    out
}

fn citation_keys(links: &Vec<EvidenceLink>) -> (r: Vec<Vec<KeyPart>>)
    ensures
        r.deep_view() == links.deep_view().map_values(|l: EvidenceLinkView| citation_key(l)),
        r.len() == links.len(),
{
    let mut out: Vec<Vec<KeyPart>> = Vec::new();
    let ghost all = links.deep_view().map_values(|l: EvidenceLinkView| citation_key(l));
    let mut i: usize = 0;
    assert(out.deep_view() =~= all.take(0));
    while i < links.len()
        invariant
            i <= links.len(),
            out.len() == i,
            all == links.deep_view().map_values(|l: EvidenceLinkView| citation_key(l)),
            out.deep_view() == all.take(i as int),
        decreases links.len() - i,
    {
        let ghost before = out;
        let key: Vec<KeyPart> = match &links[i].target_record_id {
            Some(t) => vec![
                KeyPart::Num(1),
                KeyPart::Text(t.clone()),
                KeyPart::Text(links[i].relation.clone()),
            ],
            None => vec![
                KeyPart::Num(0),
                KeyPart::Text(String::new()),
                KeyPart::Text(links[i].relation.clone()),
            ],
        };
        out.push(key);
        proof {
            lemma_push(before, out);
            assert(links.deep_view()[i as int] == links@[i as int].deep_view());
            assert(key.deep_view() =~= citation_key(links@[i as int].deep_view()));
            assert(all.take(i + 1) =~= all.take(i as int).push(all[i as int]));
        }
        i += 1;
    }
    assert(all.take(links.len() as int) =~= all);
    out
}

fn build_citations(pending: &Vec<PendingEdge>, at_commit: Option<&str>) -> (r: Vec<EvidenceLink>)
    ensures
        ({
            let all = pending.deep_view().map_values(
                |p: PendingView| frame_citation(p, at_commit.deep_view()),
            );
            r.deep_view() == sorted_by(all, all.map_values(|l: EvidenceLinkView| citation_key(l)))
        }),
{
    let ghost all = pending.deep_view().map_values(
        |p: PendingView| frame_citation(p, at_commit.deep_view()),
    );
    let mut out: Vec<EvidenceLink> = Vec::new();
    let mut i: usize = 0;
    assert(out.deep_view() =~= all.take(0));
    while i < pending.len()
        invariant
            i <= pending.len(),
            all == pending.deep_view().map_values(
                |p: PendingView| frame_citation(p, at_commit.deep_view()),
            ),
            out.deep_view() == all.take(i as int),
        decreases pending.len() - i,
    {
        let ghost before = out;
        let p: &PendingEdge = &pending[i];
        let as_of: Option<String> = match at_commit {
            Some(c) => Some(c.to_owned()),
            None => None,
        };
        out.push(
            EvidenceLink {
                target_record_id: Some(p.target_id.clone()),
                target_domain: p.target_domain.clone(),
                relation: EdgeLabel::FrameResolvesTo.as_str().to_owned(),
                confidence: p.confidence.clone(),
                as_of_commit: as_of,
                target_repo_relative_path: duplicate_opt(&p.target_path),
                target_span: p.target_span,
                target_git_commit: duplicate_opt(&p.target_commit),
            },
        );
        proof {
            lemma_push(before, out);
            assert(pending.deep_view()[i as int] == pending@[i as int].deep_view());
            assert(all.take(i + 1) =~= all.take(i as int).push(all[i as int]));
        }
        i += 1;
    }
    assert(all.take(pending.len() as int) =~= all);
    sort_by_keys(&out, &citation_keys(&out))
}

fn collect_frame_edges(
    code: &Code,
    v: Ghost<CodeView>,
    sig: &str,
    frames: &Vec<StackFrame>,
) -> (r: Vec<PendingEdge>)
    requires
        code.view_is(v@),
    ensures
        r.deep_view() == edges_of_frames(v@, sig@, frames.deep_view()),
{
    let ghost all = frames.deep_view();
    let mut out: Vec<PendingEdge> = Vec::new();
    let mut i: usize = 0;
    assert(out.deep_view() =~= edges_of_frames(v@, sig@, all.take(0)));
    while i < frames.len()
        invariant
            i <= frames.len(),
            code.view_is(v@),
            all == frames.deep_view(),
            out.deep_view() == edges_of_frames(v@, sig@, all.take(i as int)),
        decreases frames.len() - i,
    {
        proof {
            assert(all.take(i + 1).drop_last() =~= all.take(i as int));
            assert(all.take(i + 1).last() == frames@[i as int].deep_view());
        }
        let outcome: FrameOutcome = classify_frame(&code.symbols, &code.files, &frames[i]);
        let _how: Option<FrameResolution> = push_frame_edges(sig, &frames[i], outcome, &mut out);
        i += 1;
    }
    assert(all.take(all.len() as int) =~= all);
    out
}

fn enrich(
    records: &[GraphRecord],
    code: &Code,
    at_commit: Option<&str>,
    record: &GraphRecord,
) -> (r: GraphRecord)
    requires
        code.view_is(code_view(records.deep_view(), at_commit.deep_view())),
    ensures
        r.deep_view() == enriched(records.deep_view(), at_commit.deep_view(), record.deep_view()),
{
    let ghost s = records.deep_view();
    let ghost v = code_view(s, at_commit.deep_view());
    let copy: GraphRecord = record.duplicate();
    if let GraphRecord::Node(n) = record {
        if n.kind == NodeKind::ErrorSignature {
            match find_frames(records, n.id.as_str()) {
                Some(frames) => {
                    let pending: Vec<PendingEdge> = collect_frame_edges(
                        code,
                        Ghost(v),
                        n.id.as_str(),
                        frames,
                    );
                    assert(pending.deep_view().len() == pending@.len());
                    if pending.len() > 0 {
                        return copy.with_evidence_links(build_citations(&pending, at_commit));
                    }
                },
                None => {},
            }
        }
    }
    copy
}

fn collect_nodes(records: &[GraphRecord], code: &Code, at_commit: Option<&str>) -> (r: Vec<
    GraphRecord,
>)
    requires
        code.view_is(code_view(records.deep_view(), at_commit.deep_view())),
    ensures
        r.deep_view() == emitted_nodes(
            records.deep_view(),
            at_commit.deep_view(),
            records.deep_view().len(),
        ),
{
    let ghost s = records.deep_view();
    let mut out: Vec<GraphRecord> = Vec::new();
    let mut i: usize = 0;
    assert(out.deep_view() =~= emitted_nodes(s, at_commit.deep_view(), 0));
    while i < records.len()
        invariant
            i <= records@.len(),
            s == records.deep_view(),
            code.view_is(code_view(s, at_commit.deep_view())),
            out.deep_view() == emitted_nodes(s, at_commit.deep_view(), i as nat),
        decreases records.len() - i,
    {
        assert(s[i as int] == records@[i as int].deep_view());
        if is_in_log_domain(&records[i]) {
            let ghost before = out;
            out.push(enrich(records, code, at_commit, &records[i]));
            proof {
                lemma_push(before, out);
            }
        }
        i += 1;
    }
    out
}

fn finish_edges(pending: &Vec<PendingEdge>) -> (r: Vec<GraphRecord>)
    ensures
        ({
            let all = pending.deep_view().map_values(
                |p: PendingView| RecordView::Edge(resolution_edge(p)),
            );
            r.deep_view() == sorted_by(all, all.map_values(|r: RecordView| edge_key(r)))
        }),
{
    let edges: Vec<GraphRecord> = build_edges(pending);
    sort_by_keys(&edges, &edge_keys(&edges))
}

fn finish_nodes(nodes: Vec<GraphRecord>, markers: &Vec<GraphRecord>) -> (r: Vec<GraphRecord>)
    ensures
        ({
            let found = markers.deep_view();
            let all = nodes.deep_view() + sorted_by(
                found,
                found.map_values(|r: RecordView| id_key(r)),
            );
            r.deep_view() == sorted_by(all, all.map_values(|r: RecordView| id_key(r)))
        }),
{
    let mut all: Vec<GraphRecord> = nodes;
    let sorted: Vec<GraphRecord> = sort_by_keys(markers, &id_keys(markers));
    extend_with(&mut all, &sorted);
    sort_by_keys(&all, &id_keys(&all))
}

fn run_pass(records: &[GraphRecord], code: &Code, v: Ghost<CodeView>, sigs: &Vec<String>) -> (pass:
    Pass)
    requires
        code.view_is(v@),
    ensures
        pass.covers(records.deep_view(), v@, sigs.deep_view()),
{
    let ghost s = records.deep_view();
    let ghost ids = sigs.deep_view();
    let mut pass: Pass = Pass {
        edges: Vec::new(),
        markers: Vec::new(),
        tallies: Vec::new(),
        totals: ResolveTotals {
            signatures_with_frames: 0,
            resolved: 0,
            ambiguous: 0,
            path_only: 0,
            unresolved: 0,
            external: 0,
        },
        outcomes: Vec::new(),
    };
    let mut i: usize = 0;
    proof {
        assert(ids.take(0) =~= Seq::empty());
        assert(pass.edges.deep_view() =~= pending_edges(s, v@, ids.take(0)));
        assert(pass.markers.deep_view() =~= markers_of(s, v@, ids.take(0)));
        assert(pass.tallies.deep_view() =~= tallies(s, v@, ids.take(0)));
    }
    while i < sigs.len()
        invariant
            i <= sigs.len(),
            s == records.deep_view(),
            ids == sigs.deep_view(),
            code.view_is(v@),
            pass.covers(s, v@, ids.take(i as int)),
        decreases sigs.len() - i,
    {
        assert(ids.take(i + 1) =~= ids.take(i as int).push(sigs@[i as int]@));
        resolve_signature(
            records,
            code,
            v,
            sigs[i].as_str(),
            &mut pass,
            Ghost(ids.take(i as int)),
        );
        i += 1;
    }
    assert(ids.take(ids.len() as int) =~= ids);
    pass
}

fn finish(records: &[GraphRecord], code: &Code, at_commit: Option<&str>, pass: &Pass) -> (r: Vec<
    GraphRecord,
>)
    requires
        code.view_is(code_view(records.deep_view(), at_commit.deep_view())),
        pass.edges.deep_view() == pending_edges(
            records.deep_view(),
            code_view(records.deep_view(), at_commit.deep_view()),
            signature_ids(records.deep_view()),
        ),
        pass.markers.deep_view() == markers_of(
            records.deep_view(),
            code_view(records.deep_view(), at_commit.deep_view()),
            signature_ids(records.deep_view()),
        ),
    ensures
        r.deep_view() == resolved_nodes(records.deep_view(), at_commit.deep_view()) + new_edges(
            records.deep_view(),
            at_commit.deep_view(),
        ),
{
    let nodes: Vec<GraphRecord> = collect_nodes(records, code, at_commit);
    let mut out: Vec<GraphRecord> = finish_nodes(nodes, &pass.markers);
    let edges: Vec<GraphRecord> = finish_edges(&pass.edges);
    extend_with(&mut out, &edges);
    out
}

/// Binds every backtrace frame of every signature to the code graph in the same records, in the
/// view of a commit or in the current view.
pub fn resolve_frames(records: &[GraphRecord], at_commit: Option<&str>) -> (r: ResolveFramesResult)
    ensures
        r.records.deep_view() == resolved_nodes(records.deep_view(), at_commit.deep_view())
            + new_edges(records.deep_view(), at_commit.deep_view()),
        r.signatures.deep_view() == tallies(
            records.deep_view(),
            code_view(records.deep_view(), at_commit.deep_view()),
            signature_ids(records.deep_view()),
        ),
        r.totals.deep_view() == totals(r.signatures.deep_view()),
{
    let ghost v = code_view(records.deep_view(), at_commit.deep_view());
    let code: Code = Code {
        symbols: collect_view(records, at_commit, NodeKind::Symbol),
        files: collect_view(records, at_commit, NodeKind::File),
    };
    let sigs: Vec<String> = distinct_texts(&collect_ids(records, NodeKind::ErrorSignature));
    let pass: Pass = run_pass(records, &code, Ghost(v), &sigs);
    let out: Vec<GraphRecord> = finish(records, &code, at_commit, &pass);
    ResolveFramesResult { records: out, signatures: pass.tallies, totals: pass.totals }
}

} // verus!
