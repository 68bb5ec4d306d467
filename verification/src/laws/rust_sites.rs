//! Every import, impl, unsafe block and panic risk of a Rust file is in its graph.
use vstd::prelude::*;

use crate::ir::{EdgeLabel, NodeKind, NodeRecordView, RecordView};
use crate::languages::rust::extract::{
    enter, panic_risk, with_impl, with_import, with_macro, with_panic_risk, with_symbol,
    with_unsafe_item, with_unsafe_site, FileSourceView, FindingsView,
};
use crate::languages::rust::file::tree_findings;
use crate::languages::rust::impls::header_of;
use crate::languages::rust::items::import_text;
use crate::languages::rust::scope::ScopeView;
use crate::languages::syntax::{field_child, is_a, text_at, SyntaxNodeView};
use crate::laws::rust_calls::within;
use crate::laws::rust_items::{
    has_site, lemma_kinds_differ, lemma_pair_stays, lemma_stays, recorded,
};
use crate::laws::rust_walk::{in_the_open, lemma_visit, lemma_visited};
use crate::policy::Redactor;

verus! {

proof fn lemma_enter_unsafe<R: Redactor>(
    e: FileSourceView<R>,
    t: Seq<SyntaxNodeView>,
    j: int,
    sc: ScopeView,
    out: FindingsView,
)
    requires
        is_a(t, j, "unsafe_block"@),
    ensures
        enter(e, t, j, sc, out).out == with_unsafe_site(e, t, j, "block"@, out),
{
    reveal(enter);
    lemma_kinds_differ();
}

/// Every unsafe block is recorded at its place.
pub proof fn law_unsafe_blocks_are_recorded<R: Redactor>(
    e: FileSourceView<R>,
    t: Seq<SyntaxNodeView>,
    j: int,
)
    requires
        in_the_open(t, j),
        is_a(t, j, "unsafe_block"@),
    ensures
        has_site(
            tree_findings(e, t).records,
            NodeKind::UnsafeSite,
            t[j],
            EdgeLabel::Contains,
            "block"@,
        ),
{
    let found = tree_findings(e, t);
    let (sc, out) = lemma_visited(e, t, j);
    lemma_visit(e, t, j, sc, out, found);
    lemma_enter_unsafe(e, t, j, sc, out);
    let step = enter(e, t, j, sc, out).out;
    lemma_pair_stays(step, found);
    let n = step.records[out.records.len() as int]->Node_0;
    let edge = step.records[out.records.len() as int + 1]->Edge_0;
    assert(recorded(found.records, NodeKind::UnsafeSite, t[j], EdgeLabel::Contains, n, edge));
}

proof fn lemma_enter_import<R: Redactor>(
    e: FileSourceView<R>,
    t: Seq<SyntaxNodeView>,
    j: int,
    sc: ScopeView,
    out: FindingsView,
)
    requires
        is_a(t, j, "use_declaration"@),
    ensures
        enter(e, t, j, sc, out).out == with_import(e, t, j, sc, out),
{
    reveal(enter);
    lemma_kinds_differ();
}

proof fn lemma_with_import<R: Redactor>(
    e: FileSourceView<R>,
    t: Seq<SyntaxNodeView>,
    j: int,
    sc: ScopeView,
    out: FindingsView,
)
    requires
        0 <= j < t.len(),
    ensures
        ({
            let all = with_import(e, t, j, sc, out).records;
            let k = out.records.len() as int;
            &&& all.len() == k + 2
            &&& all[k] matches RecordView::Node(n) && n.kind == NodeKind::Import && (
            n.span matches Some(s) && crate::laws::rust_items::covers(s, t[j])) && n.name == Some(
                import_text(text_at(t, j)),
            ) && (all[k + 1] matches RecordView::Edge(x) && x.label == EdgeLabel::Imports
                && x.target == n.id)
        }),
{
}

/// Every import is recorded at its place, with the edge of what imports.
pub proof fn law_imports_are_recorded<R: Redactor>(
    e: FileSourceView<R>,
    t: Seq<SyntaxNodeView>,
    j: int,
)
    requires
        in_the_open(t, j),
        is_a(t, j, "use_declaration"@),
    ensures
        has_site(
            tree_findings(e, t).records,
            NodeKind::Import,
            t[j],
            EdgeLabel::Imports,
            import_text(text_at(t, j)),
        ),
{
    let found = tree_findings(e, t);
    let (sc, out) = lemma_visited(e, t, j);
    lemma_visit(e, t, j, sc, out, found);
    lemma_enter_import(e, t, j, sc, out);
    lemma_with_import(e, t, j, sc, out);
    let step = enter(e, t, j, sc, out).out;
    lemma_pair_stays(step, found);
    let n = step.records[out.records.len() as int]->Node_0;
    let edge = step.records[out.records.len() as int + 1]->Edge_0;
    assert(recorded(found.records, NodeKind::Import, t[j], EdgeLabel::Imports, n, edge));
}

proof fn lemma_enter_call<R: Redactor>(
    e: FileSourceView<R>,
    t: Seq<SyntaxNodeView>,
    j: int,
    category: Seq<char>,
    sc: ScopeView,
    out: FindingsView,
)
    requires
        is_a(t, j, "call_expression"@),
        panic_risk(t, j) == Some(category),
    ensures
        enter(e, t, j, sc, out).out == with_panic_risk(e, t, j, category, sc, out),
{
    reveal(enter);
    lemma_kinds_differ();
}

/// Every call of `unwrap` or `expect` is recorded as a panic risk at its place.
pub proof fn law_panic_risks_are_recorded<R: Redactor>(
    e: FileSourceView<R>,
    t: Seq<SyntaxNodeView>,
    j: int,
    f: int,
    x: int,
)
    requires
        in_the_open(t, j),
        is_a(t, j, "call_expression"@),
        field_child(t, j, "function"@) == Some(f),
        is_a(t, f, "field_expression"@),
        field_child(t, f, "field"@) == Some(x),
        is_a(t, x, "field_identifier"@),
        text_at(t, x) == "unwrap"@ || text_at(t, x) == "expect"@,
    ensures
        has_site(
            tree_findings(e, t).records,
            NodeKind::PanicRiskSite,
            t[j],
            EdgeLabel::Contains,
            text_at(t, x),
        ),
{
    let found = tree_findings(e, t);
    let (sc, out) = lemma_visited(e, t, j);
    lemma_visit(e, t, j, sc, out, found);
    lemma_enter_call(e, t, j, text_at(t, x), sc, out);
    let step = enter(e, t, j, sc, out).out;
    lemma_pair_stays(step, found);
    let n = step.records[out.records.len() as int]->Node_0;
    let edge = step.records[out.records.len() as int + 1]->Edge_0;
    assert(recorded(found.records, NodeKind::PanicRiskSite, t[j], EdgeLabel::Contains, n, edge));
}

/// A panic risk within a test is marked as one, and another as production code.
pub proof fn law_panic_risks_know_their_context<R: Redactor>(
    e: FileSourceView<R>,
    t: Seq<SyntaxNodeView>,
    j: int,
    category: Seq<char>,
    sc: ScopeView,
    out: FindingsView,
)
    requires
        is_a(t, j, "call_expression"@),
        panic_risk(t, j) == Some(category),
    ensures
        enter(e, t, j, sc, out).out.records[out.records.len() as int] matches RecordView::Node(n)
            && n.code.call_context == Some(
            if sc.in_test {
                "test"@
            } else {
                "production"@
            },
        ),
{
    lemma_enter_call(e, t, j, category, sc, out);
}

proof fn lemma_enter_macro<R: Redactor>(
    e: FileSourceView<R>,
    t: Seq<SyntaxNodeView>,
    j: int,
    sc: ScopeView,
    out: FindingsView,
)
    requires
        is_a(t, j, "macro_invocation"@),
    ensures
        enter(e, t, j, sc, out).out == with_macro(e, t, j, out),
{
    reveal(enter);
    lemma_kinds_differ();
}

/// A diagnostic of the records at the place of a node.
pub open spec fn is_diagnostic_at(
    records: Seq<RecordView>,
    n: NodeRecordView,
    at: SyntaxNodeView,
) -> bool {
    records.contains(RecordView::Node(n)) && n.kind == NodeKind::Diagnostic && (
    n.span matches Some(s) && crate::laws::rust_items::covers(s, at))
}

/// Every macro that is called leaves a diagnostic at its place.
pub proof fn law_macros_leave_a_diagnostic<R: Redactor>(
    e: FileSourceView<R>,
    t: Seq<SyntaxNodeView>,
    j: int,
)
    requires
        in_the_open(t, j),
        is_a(t, j, "macro_invocation"@),
    ensures
        exists|n: NodeRecordView| #[trigger]
            is_diagnostic_at(tree_findings(e, t).records, n, t[j]),
{
    let found = tree_findings(e, t);
    let (sc, out) = lemma_visited(e, t, j);
    lemma_visit(e, t, j, sc, out, found);
    lemma_enter_macro(e, t, j, sc, out);
    let step = enter(e, t, j, sc, out).out;
    lemma_stays(step.records, found.records, out.records.len() as int);
    let n = step.records[out.records.len() as int]->Node_0;
    assert(is_diagnostic_at(found.records, n, t[j]));
}

pub proof fn lemma_enter_impl<R: Redactor>(
    e: FileSourceView<R>,
    t: Seq<SyntaxNodeView>,
    j: int,
    sc: ScopeView,
    out: FindingsView,
)
    requires
        is_a(t, j, "impl_item"@),
    ensures
        enter(e, t, j, sc, out).out == with_impl(
            e,
            t,
            j,
            sc,
            with_unsafe_item(e, t, j, "impl"@, out),
        ),
{
    reveal(enter);
    lemma_kinds_differ();
}

/// Every impl is a symbol at its place, under its header.
pub proof fn law_impls_are_recorded<R: Redactor>(
    e: FileSourceView<R>,
    t: Seq<SyntaxNodeView>,
    j: int,
)
    requires
        in_the_open(t, j),
        is_a(t, j, "impl_item"@),
    ensures
        crate::laws::rust_items::has_symbol(
            tree_findings(e, t).records,
            t[j],
            "impl"@,
            header_of(text_at(t, j)),
        ),
{
    let found = tree_findings(e, t);
    let (sc, out) = lemma_visited(e, t, j);
    lemma_visit(e, t, j, sc, out, found);
    lemma_enter_impl(e, t, j, sc, out);
    let step = enter(e, t, j, sc, out).out;
    let next = with_unsafe_item(e, t, j, "impl"@, out);
    let k = next.records.len() as int;
    let display = header_of(text_at(t, j));
    let name = crate::languages::rust::scope::qualified(sc.modules, display);
    assert(step.records == with_symbol(e, t, j, "impl"@, name, sc, next).records);
    lemma_pair_stays(step, found);
    crate::laws::rust_items::lemma_qualified(sc.modules, display);
    let n = step.records[k]->Node_0;
    let edge = step.records[k + 1]->Edge_0;
    assert(recorded(found.records, NodeKind::Symbol, t[j], EdgeLabel::Defines, n, edge));
}

} // verus!
