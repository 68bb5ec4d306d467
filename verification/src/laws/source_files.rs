//! What a scan makes of each source file.
use vstd::prelude::*;

use crate::ir::{EdgeLabel, NodeKind, NodeRecordView, RecordView, SymbolRole};
use crate::languages::paths::segments;
use crate::languages::rust::file::tree_findings;
use crate::languages::syntax::{syntax_of, Grammar, SyntaxNodeView};
use crate::languages::typescript;
use crate::laws::rust_walk::{grows, lemma_grows};
use crate::path::extension;
use crate::policy::CodePolicy;
use crate::scan::{
    after_file, file_id_of, file_records, file_source, files_scanned, outcome_of, text_scan,
    FileContentView, RepositoryInputView, ScanProgressView, SourceFileView,
};
use crate::text::{ends, line_feeds_only, lowered};

verus! {

// ── Progress ────────────────────────────────────────────────────────────────

/// What was found stays.
pub open spec fn goes_on(a: ScanProgressView, b: ScanProgressView) -> bool {
    &&& grows(a.records, b.records)
    &&& grows(a.tally.skipped_paths, b.tally.skipped_paths)
    &&& grows(a.facts_by_file, b.facts_by_file)
}

proof fn lemma_goes_on<R: CodePolicy>(
    policy: R,
    input: RepositoryInputView,
    time: Seq<char>,
    m: nat,
    n: nat,
)
    requires
        m <= n,
        files_scanned(policy, input, time, n) is Ok,
    ensures
        files_scanned(policy, input, time, m) is Ok,
        goes_on(
            files_scanned(policy, input, time, m)->Ok_0,
            files_scanned(policy, input, time, n)->Ok_0,
        ),
    decreases n,
{
    if m < n {
        lemma_goes_on(policy, input, time, m, (n - 1) as nat);
        let first = files_scanned(policy, input, time, m)->Ok_0;
        let before = files_scanned(policy, input, time, (n - 1) as nat)->Ok_0;
        let all = files_scanned(policy, input, time, n)->Ok_0;
        lemma_grows(first.records, before.records, all.records);
        lemma_grows(
            first.tally.skipped_paths,
            before.tally.skipped_paths,
            all.tally.skipped_paths,
        );
        lemma_grows(first.facts_by_file, before.facts_by_file, all.facts_by_file);
    }
}

/// The file at `i` was scanned with this outcome, and `p` holds what came of it.
proof fn lemma_outcome<R: CodePolicy>(
    policy: R,
    input: RepositoryInputView,
    time: Seq<char>,
    i: int,
) -> (before: ScanProgressView)
    requires
        0 <= i < input.files.len(),
        files_scanned(policy, input, time, input.files.len()) is Ok,
    ensures
        outcome_of(policy, input.identity.id, input.files[i]) is Ok,
        goes_on(
            after_file(
                before,
                input.files[i].repo_relative_path,
                outcome_of(policy, input.identity.id, input.files[i])->Ok_0,
                time,
            ),
            files_scanned(policy, input, time, input.files.len())->Ok_0,
        ),
{
    lemma_goes_on(policy, input, time, (i + 1) as nat, input.files.len());
    files_scanned(policy, input, time, i as nat)->Ok_0
}

// ── Files ───────────────────────────────────────────────────────────────────

/// The file's bytes are text.
pub open spec fn is_text(f: SourceFileView) -> bool {
    f.content matches FileContentView::Bytes(b) && vstd::utf8::valid_utf8(b)
}

pub open spec fn text_of(f: SourceFileView) -> Seq<char> {
    vstd::utf8::decode_utf8(f.content->Bytes_0)
}

/// A file of TypeScript, by its name; every other file is one of Rust.
pub open spec fn is_typescript(path: Seq<char>) -> bool {
    ends(path, ".ts"@) || ends(path, ".tsx"@)
}

/// The grammar that a TypeScript file is read by.
pub open spec fn dialect(path: Seq<char>) -> Grammar {
    if extension(path) matches Some(e) && lowered(e) == "tsx"@ {
        Grammar::Tsx
    } else {
        Grammar::TypeScript
    }
}

/// The role of a file, by the directory that it stands under.
pub open spec fn plays(path: Seq<char>, role: SymbolRole) -> bool {
    let testing = segments(path).len() > 0 && (segments(path)[0] == "tests"@ || segments(path)[0]
        == "benches"@);
    if testing {
        role == SymbolRole::Test
    } else {
        role == SymbolRole::Production
    }
}

/// The node of a file.
pub open spec fn is_file_node(n: NodeRecordView, path: Seq<char>) -> bool {
    &&& n.kind == NodeKind::File
    &&& n.repo_relative_path == Some(path)
    &&& n.name == Some(path)
    &&& n.code.role matches Some(role) && plays(path, role)
}

/// The repository contains what has the identity.
pub open spec fn contains_file(
    records: Seq<RecordView>,
    repository_id: Seq<char>,
    id: Seq<char>,
) -> bool {
    exists|k: int|
        0 <= k < records.len() && (#[trigger] records[k] matches RecordView::Edge(e) && e.label
            == EdgeLabel::Contains && e.source == repository_id && e.target == id)
}

proof fn lemma_extracted<R: CodePolicy>(
    policy: R,
    input: RepositoryInputView,
    time: Seq<char>,
    i: int,
    k: int,
)
    requires
        0 <= i < input.files.len(),
        files_scanned(policy, input, time, input.files.len()) is Ok,
        is_text(input.files[i]),
    ensures
        ({
            let f = input.files[i];
            let scan = text_scan(
                policy,
                input.identity.id,
                f.repo_relative_path,
                f.crate_root,
                text_of(f),
            );
            let p = files_scanned(policy, input, time, input.files.len())->Ok_0;
            scan is Ok && (0 <= k < scan->Ok_0.0.len() ==> p.records.contains(
                crate::ir::valid_time_inferred(scan->Ok_0.0[k], time),
            ))
        }),
{
    let f = input.files[i];
    let before = lemma_outcome(policy, input, time, i);
    let scan = text_scan(
        policy,
        input.identity.id,
        f.repo_relative_path,
        f.crate_root,
        text_of(f),
    );
    let all = files_scanned(policy, input, time, input.files.len())->Ok_0;
    let outcome = outcome_of(policy, input.identity.id, f)->Ok_0;
    let after = after_file(before, f.repo_relative_path, outcome, time);
    if 0 <= k < scan->Ok_0.0.len() {
        let m = before.records.len() + k;
        assert(after.records[m] == crate::ir::valid_time_inferred(scan->Ok_0.0[k], time));
        assert(all.records[m] == after.records[m]);
    }
}

/// Every source file that is text has a node, and the repository contains it.
pub proof fn law_text_files_are_recorded<R: CodePolicy>(
    policy: R,
    input: RepositoryInputView,
    time: Seq<char>,
    i: int,
)
    requires
        0 <= i < input.files.len(),
        files_scanned(policy, input, time, input.files.len()) is Ok,
        is_text(input.files[i]),
    ensures
        ({
            let p = files_scanned(policy, input, time, input.files.len())->Ok_0;
            exists|n: NodeRecordView|
                p.records.contains(RecordView::Node(n)) && #[trigger] is_file_node(
                    n,
                    input.files[i].repo_relative_path,
                ) && contains_file(p.records, input.identity.id, n.id)
        }),
{
    let f = input.files[i];
    let path = f.repo_relative_path;
    let all = files_scanned(policy, input, time, input.files.len())->Ok_0;
    lemma_extracted(policy, input, time, i, 0);
    lemma_extracted(policy, input, time, i, 1);
    let (n, edge) = lemma_text_head(
        policy,
        input.identity.id,
        path,
        f.crate_root,
        text_of(f),
        time,
    );
    let k = choose|k: int| 0 <= k < all.records.len() && all.records[k] == edge;
    assert(all.records[k] is Edge);
}

proof fn lemma_text_head<R: CodePolicy>(
    policy: R,
    repository_id: Seq<char>,
    path: Seq<char>,
    crate_root: Seq<char>,
    text: Seq<char>,
    time: Seq<char>,
) -> (r: (NodeRecordView, RecordView))
    requires
        text_scan(policy, repository_id, path, crate_root, text) is Ok,
    ensures
        ({
            let scan = text_scan(policy, repository_id, path, crate_root, text)->Ok_0.0;
            &&& scan.len() >= 2
            &&& crate::ir::valid_time_inferred(scan[0], time) == RecordView::Node(r.0)
            &&& crate::ir::valid_time_inferred(scan[1], time) == r.1
            &&& is_file_node(r.0, path)
            &&& r.1 matches RecordView::Edge(e) && e.label == EdgeLabel::Contains && e.source
                == repository_id && e.target == r.0.id
        }),
{
    let head = file_records(repository_id, path, line_feeds_only(text));
    let scan = text_scan(policy, repository_id, path, crate_root, text)->Ok_0.0;
    assert(scan[0] == head[0]);
    assert(scan[1] == head[1]);
    (
        crate::ir::valid_time_inferred(head[0], time)->Node_0,
        crate::ir::valid_time_inferred(head[1], time),
    )
}

proof fn lemma_rust_text<R: CodePolicy>(
    policy: R,
    repository_id: Seq<char>,
    path: Seq<char>,
    crate_root: Seq<char>,
    text: Seq<char>,
    t: Seq<SyntaxNodeView>,
    k: int,
)
    requires
        !is_typescript(path),
        syntax_of(Grammar::Rust, line_feeds_only(text)) == Ok::<
            Seq<SyntaxNodeView>,
            crate::languages::syntax::ParseErrorView,
        >(t),
    ensures
        ({
            let e = file_source(policy, repository_id, path, crate_root, line_feeds_only(text));
            let scan = text_scan(policy, repository_id, path, crate_root, text)->Ok_0.0;
            0 <= k < tree_findings(e, t).records.len() ==> 2 + k < scan.len() && scan[2 + k]
                == tree_findings(e, t).records[k]
        }),
{
    let source = line_feeds_only(text);
    let e = file_source(policy, repository_id, path, crate_root, source);
    let head = file_records(repository_id, path, source);
    let found = tree_findings(e, t);
    let both = head + found.records;
    let scan = text_scan(policy, repository_id, path, crate_root, text)->Ok_0.0;
    assert(scan == both + policy.references(both, found.definitions, found.bodies));
    if 0 <= k < found.records.len() {
        assert(both[2 + k] == found.records[k]);
    }
}

proof fn lemma_typescript_text<R: CodePolicy>(
    policy: R,
    repository_id: Seq<char>,
    path: Seq<char>,
    crate_root: Seq<char>,
    text: Seq<char>,
    t: Seq<SyntaxNodeView>,
    k: int,
)
    requires
        is_typescript(path),
        syntax_of(dialect(path), line_feeds_only(text)) == Ok::<
            Seq<SyntaxNodeView>,
            crate::languages::syntax::ParseErrorView,
        >(t),
    ensures
        ({
            let f = ts_file(repository_id, path);
            let scan = text_scan(policy, repository_id, path, crate_root, text)->Ok_0.0;
            0 <= k < typescript::tree_findings(f, t).records.len() ==> 2 + k < scan.len() && scan[2
                + k] == typescript::tree_findings(f, t).records[k]
        }),
{
    let source = line_feeds_only(text);
    let f = ts_file(repository_id, path);
    let head = file_records(repository_id, path, source);
    let found = typescript::tree_findings(f, t);
    let both = head + found.records;
    let scan = text_scan(policy, repository_id, path, crate_root, text)->Ok_0.0;
    assert(scan == both + policy.references(both, found.definitions, found.bodies));
    if 0 <= k < found.records.len() {
        assert(both[2 + k] == found.records[k]);
    }
}

/// A TypeScript file as extraction takes it.
pub open spec fn ts_file(repository_id: Seq<char>, path: Seq<char>) -> typescript::TsFileView {
    typescript::TsFileView { path, file_id: file_id_of(repository_id, path), repository_id }
}

/// Everything that a Rust file's tree yields is among the records of the scan.
pub proof fn law_rust_files_are_scanned<R: CodePolicy>(
    policy: R,
    input: RepositoryInputView,
    time: Seq<char>,
    i: int,
    t: Seq<SyntaxNodeView>,
    k: int,
)
    requires
        0 <= i < input.files.len(),
        files_scanned(policy, input, time, input.files.len()) is Ok,
        is_text(input.files[i]),
        !is_typescript(input.files[i].repo_relative_path),
        syntax_of(Grammar::Rust, line_feeds_only(text_of(input.files[i]))) == Ok::<
            Seq<SyntaxNodeView>,
            crate::languages::syntax::ParseErrorView,
        >(t),
    ensures
        ({
            let f = input.files[i];
            let e = file_source(
                policy,
                input.identity.id,
                f.repo_relative_path,
                f.crate_root,
                line_feeds_only(text_of(f)),
            );
            let p = files_scanned(policy, input, time, input.files.len())->Ok_0;
            0 <= k < tree_findings(e, t).records.len() ==> p.records.contains(
                crate::ir::valid_time_inferred(tree_findings(e, t).records[k], time),
            )
        }),
{
    let f = input.files[i];
    lemma_extracted(policy, input, time, i, 2 + k);
    lemma_rust_text(
        policy,
        input.identity.id,
        f.repo_relative_path,
        f.crate_root,
        text_of(f),
        t,
        k,
    );
}

/// Everything that a TypeScript file's tree yields is among the records of the scan.
pub proof fn law_typescript_files_are_scanned<R: CodePolicy>(
    policy: R,
    input: RepositoryInputView,
    time: Seq<char>,
    i: int,
    t: Seq<SyntaxNodeView>,
    k: int,
)
    requires
        0 <= i < input.files.len(),
        files_scanned(policy, input, time, input.files.len()) is Ok,
        is_text(input.files[i]),
        is_typescript(input.files[i].repo_relative_path),
        syntax_of(
            dialect(input.files[i].repo_relative_path),
            line_feeds_only(text_of(input.files[i])),
        ) == Ok::<Seq<SyntaxNodeView>, crate::languages::syntax::ParseErrorView>(t),
    ensures
        ({
            let f = ts_file(input.identity.id, input.files[i].repo_relative_path);
            let p = files_scanned(policy, input, time, input.files.len())->Ok_0;
            0 <= k < typescript::tree_findings(f, t).records.len() ==> p.records.contains(
                crate::ir::valid_time_inferred(typescript::tree_findings(f, t).records[k], time),
            )
        }),
{
    let f = input.files[i];
    lemma_extracted(policy, input, time, i, 2 + k);
    lemma_typescript_text(
        policy,
        input.identity.id,
        f.repo_relative_path,
        f.crate_root,
        text_of(f),
        t,
        k,
    );
}

/// The diagnostic of a file that was passed over.
pub open spec fn is_skip_of(n: NodeRecordView, f: SourceFileView) -> bool {
    &&& n.kind == NodeKind::Diagnostic
    &&& n.repo_relative_path == Some(f.repo_relative_path)
    &&& f.content is Unreadable ==> n.name == Some("unreadable_source"@)
    &&& !(f.content is Unreadable) ==> n.name == Some("non_utf8_source"@)
}

/// A file that cannot be read, or is no text, is passed over and not forgotten: a diagnostic says
/// why, and the file counts as skipped.
pub proof fn law_unfit_files_are_skipped<R: CodePolicy>(
    policy: R,
    input: RepositoryInputView,
    time: Seq<char>,
    i: int,
)
    requires
        0 <= i < input.files.len(),
        files_scanned(policy, input, time, input.files.len()) is Ok,
        !is_text(input.files[i]),
    ensures
        ({
            let f = input.files[i];
            let p = files_scanned(policy, input, time, input.files.len())->Ok_0;
            &&& p.tally.skipped_paths.contains((f.repo_relative_path, f.extension))
            &&& exists|n: NodeRecordView|
                p.records.contains(RecordView::Node(n)) && #[trigger] is_skip_of(
                    n,
                    f,
                )
        }),
{
    let f = input.files[i];
    let before = lemma_outcome(policy, input, time, i);
    let all = files_scanned(policy, input, time, input.files.len())->Ok_0;
    let outcome = outcome_of(policy, input.identity.id, f)->Ok_0;
    let after = after_file(before, f.repo_relative_path, outcome, time);
    let m = before.records.len() as int;
    let n = after.records[m]->Node_0;
    assert(all.records[m] == after.records[m]);
    let s = before.tally.skipped_paths.len() as int;
    assert(after.tally.skipped_paths[s] == (f.repo_relative_path, f.extension));
    assert(all.tally.skipped_paths[s] == after.tally.skipped_paths[s]);
    assert(is_skip_of(n, f));
    assert(all.records[m] == RecordView::Node(n));
}

} // verus!
