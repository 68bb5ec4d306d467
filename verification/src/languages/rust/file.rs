//! Extraction from one Rust file.
use vstd::prelude::*;

use crate::ir::Graph;
use crate::languages::common::{emit_reference_edges, with_references};
use crate::languages::facts::{FileFacts, FileFactsView};
use crate::languages::paths::{path_segments, segments};
use crate::languages::rust::extract::{
    walk, walked, FileSource, FileSourceView, Findings, FindingsView, PendingImplEdge,
};
use crate::languages::rust::paths::{file_module_path, modules_of};
use crate::languages::rust::resolve::{
    finalize_use_imports, resolve_pending_impl_edges, resolved, use_imports,
};
use crate::languages::rust::scope::{Scope, ScopeView};
use crate::languages::syntax::{
    parse, syntax_of, Grammar, ParseError, SyntaxNode, SyntaxNodeView,
};
use crate::policy::{CodePolicy, Redactor};
use crate::text::{byte_len, same};

verus! {

/// Files below a `tests` directory at the root are test code throughout.
pub open spec fn in_tests_dir(path: Seq<char>) -> bool {
    segments(path).len() > 0 && segments(path)[0] == "tests"@
}

/// What surrounds the items of a file.
pub open spec fn file_scope<R: Redactor>(e: FileSourceView<R>) -> ScopeView {
    ScopeView {
        modules: modules_of(e.path),
        owner_id: e.file_id,
        impl_context: None,
        trait_context: None,
        inline_modules: Seq::empty(),
        under_path_override: false,
        in_test: in_tests_dir(e.path),
    }
}

fn build_file_scope<R: Redactor>(e: &FileSource<R>) -> (r: Scope)
    ensures
        r.deep_view() == file_scope(e.deep_view()),
{
    let parts: Vec<String> = path_segments(e.path);
    proof {
        assert(parts.deep_view().len() == parts@.len());
        if parts@.len() > 0 {
            assert(parts.deep_view()[0] == parts@[0].deep_view());
        }
    }
    Scope {
        modules: file_module_path(e.path),
        owner_id: e.file_id.to_owned(),
        impl_context: None,
        trait_context: None,
        inline_modules: Vec::new(),
        under_path_override: false,
        in_test: parts.len() > 0 && same(parts[0].as_str(), "tests"),
    }
}

/// What a syntax tree yields: the walk, then the impl blocks, then the imports that are left open.
pub open spec fn tree_findings<R: Redactor>(
    e: FileSourceView<R>,
    t: Seq<SyntaxNodeView>,
) -> FindingsView {
    let walked_all = if t.len() == 0 {
        FindingsView::none()
    } else {
        walked(e, t, 0, file_scope(e), FindingsView::none())
    };
    let done = resolved(e.crate_root, walked_all.pending, FindingsView {
        pending: Seq::empty(),
        ..walked_all
    });
    FindingsView {
        facts: FileFactsView { use_trait_imports: use_imports(done), ..done.facts },
        ..done
    }
}

/// Everything that a syntax tree yields.
pub fn extract_tree<R: Redactor>(e: &FileSource<R>, t: &Vec<SyntaxNode>) -> (r: Findings)
    ensures
        r.deep_view() == tree_findings(e.deep_view(), t.deep_view()),
{
    let mut out: Findings = Findings::none();
    let sc: Scope = build_file_scope(e);
    if t.len() > 0 {
        walk(e, t, 0, &sc, &mut out);
    }
    let mut pending: Vec<PendingImplEdge> = Vec::new();
    pending.append(&mut out.pending);
    assert(out.pending.deep_view() =~= Seq::empty());
    resolve_pending_impl_edges(e.crate_root, &pending, &mut out);
    finalize_use_imports(&mut out);
    out
}

/// Extracts the records of a source text into a graph, the references inside it last, and hands out
/// what is needed across files. The reasons to fail are those of the parser; the graph then stays as
/// it is.
pub fn extract_file_source<R: CodePolicy>(e: &FileSource<R>, graph: &mut Graph) -> (r: Result<
    FileFacts,
    ParseError,
>)
    requires
        byte_len(e.source@) <= u32::MAX,
    ensures
        (match (r, syntax_of(Grammar::Rust, e.source@)) {
            (Ok(x), Ok(t)) => {
                let found = tree_findings(e.deep_view(), t);
                &&& final(graph)@ == with_references(
                    *e.redact,
                    old(graph)@ + found.records,
                    found.definitions,
                    found.bodies,
                )
                &&& x.deep_view() == found.facts
            },
            (Err(x), Err(reason)) => x.deep_view() == reason && final(graph)@ == old(graph)@,
            _ => false,
        }),
{
    match parse(Grammar::Rust, e.source) {
        Ok(t) => {
            let mut found: Findings = extract_tree(e, &t);
            let ghost records = found.records.deep_view();
            let ghost before = graph@;
            graph.records.append(&mut found.records);
            assert(graph@ =~= before + records);
            emit_reference_edges(e.redact, graph, &found.definitions, &found.bodies);
            Ok(found.facts)
        },
        Err(x) => Err(x),
    }
}

} // verus!
