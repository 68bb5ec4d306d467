//! Every record of a Rust file stands for something in its tree.
use vstd::prelude::*;

use crate::ir::{NodeKind, NodeRecordView, RecordView};
use crate::languages::common::item_name;
use crate::languages::rust::extract::{
    enter, enter_item, function_kind, function_name, named_kind, panic_risk, walk_over,
    with_function, with_impl, with_import, with_macro, with_markers, with_module, with_named,
    with_panic_risk, with_signature, with_symbol, with_unsafe_item, with_unsafe_site,
    FileSourceView, FindingsView, PendingImplEdgeView,
};
use crate::languages::rust::file::{file_scope, tree_findings};
use crate::languages::rust::impls::header_of;
use crate::languages::rust::markers::{markers_from, CommentMarkerView};
use crate::languages::rust::resolve::resolved;
use crate::languages::rust::scope::{qualified, ScopeView};
use crate::languages::syntax::{is_a, named_children, text_at, SyntaxNodeView};
use crate::laws::rust_items::{becomes, covers, lemma_kinds_differ};
use crate::policy::Redactor;

verus! {

/// The kind of symbol that a node of the tree can become.
pub open spec fn may_become(item: Seq<char>, kind: Seq<char>) -> bool {
    ||| becomes(item, kind)
    ||| item == "impl_item"@ && kind == "impl"@
    ||| item == "function_item"@ && (kind == "function"@ || kind == "method"@ || kind == "test"@)
    ||| item == "function_signature_item"@ && kind == "function"@
}

/// The record stands for the node of the tree at `j`.
pub open spec fn stands_for(t: Seq<SyntaxNodeView>, j: int, n: NodeRecordView) -> bool {
    0 <= j < t.len() && {
        let item = t[j].kind;
        let placed = n.span matches Some(s) && covers(s, t[j]);
        match n.kind {
            NodeKind::Symbol => placed && (n.code.symbol_kind matches Some(kind) && may_become(
                item,
                kind,
            )),
            NodeKind::Module => placed && item == "mod_item"@,
            NodeKind::Import => placed && item == "use_declaration"@,
            NodeKind::UnsafeSite => placed && {
                ||| n.name == Some("block"@) && item == "unsafe_block"@
                ||| n.name == Some("impl"@) && item == "impl_item"@
                ||| n.name == Some("fn"@) && (item == "function_item"@ || item
                    == "function_signature_item"@)
            },
            NodeKind::PanicRiskSite => placed && item == "call_expression"@,
            NodeKind::Diagnostic => placed && item == "macro_invocation"@,
            NodeKind::DebtMarker => item == "line_comment"@ || item == "block_comment"@,
            _ => false,
        }
    }
}

/// The record is an edge, or stands for a node of the tree.
pub open spec fn has_origin(t: Seq<SyntaxNodeView>, r: RecordView) -> bool {
    r matches RecordView::Node(n) ==> exists|j: int| #[trigger] stands_for(t, j, n)
}

pub open spec fn all_have_origin(t: Seq<SyntaxNodeView>, s: Seq<RecordView>) -> bool {
    forall|k: int| 0 <= k < s.len() ==> has_origin(t, #[trigger] s[k])
}

/// One node more that stands for the node at `j`, and edges.
proof fn lemma_more(t: Seq<SyntaxNodeView>, a: Seq<RecordView>, b: Seq<RecordView>, j: int)
    requires
        all_have_origin(t, a),
        a.len() < b.len(),
        forall|k: int| 0 <= k < a.len() ==> #[trigger] b[k] == a[k],
        b[a.len() as int] matches RecordView::Node(n) && stands_for(t, j, n),
        forall|k: int| a.len() < k < b.len() ==> #[trigger] b[k] is Edge,
    ensures
        all_have_origin(t, b),
{
    assert forall|k: int| 0 <= k < b.len() implies has_origin(t, #[trigger] b[k]) by {
        if k < a.len() {
            assert(has_origin(t, a[k]));
        }
    }
}

proof fn lemma_symbol<R: Redactor>(
    e: FileSourceView<R>,
    t: Seq<SyntaxNodeView>,
    i: int,
    kind: Seq<char>,
    name: Seq<char>,
    sc: ScopeView,
    out: FindingsView,
)
    requires
        0 <= i < t.len(),
        may_become(t[i].kind, kind),
        all_have_origin(t, out.records),
    ensures
        all_have_origin(t, with_symbol(e, t, i, kind, name, sc, out).records),
{
    lemma_more(t, out.records, with_symbol(e, t, i, kind, name, sc, out).records, i);
}

proof fn lemma_unsafe<R: Redactor>(
    e: FileSourceView<R>,
    t: Seq<SyntaxNodeView>,
    i: int,
    site: Seq<char>,
    out: FindingsView,
)
    requires
        0 <= i < t.len(),
        ({
            ||| site == "block"@ && t[i].kind == "unsafe_block"@
            ||| site == "impl"@ && t[i].kind == "impl_item"@
            ||| site == "fn"@ && (t[i].kind == "function_item"@ || t[i].kind
                == "function_signature_item"@)
        }),
        all_have_origin(t, out.records),
    ensures
        all_have_origin(t, with_unsafe_site(e, t, i, site, out).records),
        all_have_origin(t, with_unsafe_item(e, t, i, site, out).records),
{
    lemma_more(t, out.records, with_unsafe_site(e, t, i, site, out).records, i);
}

proof fn lemma_function<R: Redactor>(
    e: FileSourceView<R>,
    t: Seq<SyntaxNodeView>,
    i: int,
    local: Seq<char>,
    sc: ScopeView,
    out: FindingsView,
)
    requires
        0 <= i < t.len(),
        is_a(t, i, "function_item"@),
        all_have_origin(t, out.records),
    ensures
        all_have_origin(t, with_function(e, t, i, local, sc, out).records),
{
    let kind = function_kind(t, i, sc);
    let name = function_name(t, i, local, sc);
    lemma_symbol(e, t, i, kind, name, sc, out);
    assert(with_function(e, t, i, local, sc, out).records == with_symbol(
        e,
        t,
        i,
        kind,
        name,
        sc,
        out,
    ).records);
}

proof fn lemma_signature<R: Redactor>(
    e: FileSourceView<R>,
    t: Seq<SyntaxNodeView>,
    i: int,
    local: Seq<char>,
    sc: ScopeView,
    out: FindingsView,
)
    requires
        0 <= i < t.len(),
        is_a(t, i, "function_signature_item"@),
        all_have_origin(t, out.records),
    ensures
        all_have_origin(t, with_signature(e, t, i, local, sc, out).records),
{
    let name = qualified(sc.modules, local);
    lemma_symbol(e, t, i, "function"@, name, sc, out);
    assert(with_signature(e, t, i, local, sc, out).records == with_symbol(
        e,
        t,
        i,
        "function"@,
        name,
        sc,
        out,
    ).records);
}

proof fn lemma_named<R: Redactor>(
    e: FileSourceView<R>,
    t: Seq<SyntaxNodeView>,
    i: int,
    kind: Seq<char>,
    local: Seq<char>,
    sc: ScopeView,
    out: FindingsView,
)
    requires
        0 <= i < t.len(),
        becomes(t[i].kind, kind),
        all_have_origin(t, out.records),
    ensures
        all_have_origin(t, with_named(e, t, i, kind, local, sc, out).records),
{
    let name = qualified(sc.modules, local);
    lemma_symbol(e, t, i, kind, name, sc, out);
    assert(with_named(e, t, i, kind, local, sc, out).records == with_symbol(
        e,
        t,
        i,
        kind,
        name,
        sc,
        out,
    ).records);
}

proof fn lemma_impl<R: Redactor>(
    e: FileSourceView<R>,
    t: Seq<SyntaxNodeView>,
    i: int,
    sc: ScopeView,
    out: FindingsView,
)
    requires
        0 <= i < t.len(),
        is_a(t, i, "impl_item"@),
        all_have_origin(t, out.records),
    ensures
        all_have_origin(t, with_impl(e, t, i, sc, out).records),
{
    let name = qualified(sc.modules, header_of(text_at(t, i)));
    lemma_symbol(e, t, i, "impl"@, name, sc, out);
    assert(with_impl(e, t, i, sc, out).records == with_symbol(
        e,
        t,
        i,
        "impl"@,
        name,
        sc,
        out,
    ).records);
}

proof fn lemma_module<R: Redactor>(
    e: FileSourceView<R>,
    t: Seq<SyntaxNodeView>,
    i: int,
    local: Seq<char>,
    sc: ScopeView,
    out: FindingsView,
)
    requires
        0 <= i < t.len(),
        is_a(t, i, "mod_item"@),
        all_have_origin(t, out.records),
    ensures
        all_have_origin(t, with_module(e, t, i, local, sc, out).records),
{
    lemma_more(t, out.records, with_module(e, t, i, local, sc, out).records, i);
}

proof fn lemma_import<R: Redactor>(
    e: FileSourceView<R>,
    t: Seq<SyntaxNodeView>,
    i: int,
    sc: ScopeView,
    out: FindingsView,
)
    requires
        0 <= i < t.len(),
        is_a(t, i, "use_declaration"@),
        all_have_origin(t, out.records),
    ensures
        all_have_origin(t, with_import(e, t, i, sc, out).records),
{
    lemma_more(t, out.records, with_import(e, t, i, sc, out).records, i);
}

proof fn lemma_risk<R: Redactor>(
    e: FileSourceView<R>,
    t: Seq<SyntaxNodeView>,
    i: int,
    category: Seq<char>,
    sc: ScopeView,
    out: FindingsView,
)
    requires
        0 <= i < t.len(),
        is_a(t, i, "call_expression"@),
        all_have_origin(t, out.records),
    ensures
        all_have_origin(t, with_panic_risk(e, t, i, category, sc, out).records),
{
    lemma_more(t, out.records, with_panic_risk(e, t, i, category, sc, out).records, i);
}

proof fn lemma_macro<R: Redactor>(
    e: FileSourceView<R>,
    t: Seq<SyntaxNodeView>,
    i: int,
    out: FindingsView,
)
    requires
        0 <= i < t.len(),
        is_a(t, i, "macro_invocation"@),
        all_have_origin(t, out.records),
    ensures
        all_have_origin(t, with_macro(e, t, i, out).records),
{
    lemma_more(t, out.records, with_macro(e, t, i, out).records, i);
}

proof fn lemma_markers<R: Redactor>(
    e: FileSourceView<R>,
    t: Seq<SyntaxNodeView>,
    i: int,
    ms: Seq<CommentMarkerView>,
    out: FindingsView,
)
    requires
        0 <= i < t.len(),
        is_a(t, i, "line_comment"@) || is_a(t, i, "block_comment"@),
        all_have_origin(t, out.records),
    ensures
        all_have_origin(t, with_markers(e, t[i], ms, out).records),
    decreases ms.len(),
{
    if ms.len() > 0 {
        lemma_markers(e, t, i, ms.drop_last(), out);
        let before = with_markers(e, t[i], ms.drop_last(), out);
        lemma_more(t, before.records, with_markers(e, t[i], ms, out).records, i);
    }
}

proof fn lemma_item<R: Redactor>(
    e: FileSourceView<R>,
    t: Seq<SyntaxNodeView>,
    i: int,
    sc: ScopeView,
    out: FindingsView,
)
    requires
        0 <= i < t.len(),
        all_have_origin(t, out.records),
    ensures
        all_have_origin(t, enter_item(e, t, i, sc, out).out.records),
{
    reveal(enter_item);
    if let Some(local) = item_name(t, i) {
        if is_a(t, i, "mod_item"@) {
            lemma_module(e, t, i, local, sc, out);
        } else if is_a(t, i, "function_item"@) {
            lemma_function(e, t, i, local, sc, out);
        } else if is_a(t, i, "function_signature_item"@) {
            lemma_signature(e, t, i, local, sc, out);
        } else if let Some(kind) = named_kind(t, i) {
            lemma_named(e, t, i, kind, local, sc, out);
        }
    }
}

proof fn lemma_entered<R: Redactor>(
    e: FileSourceView<R>,
    t: Seq<SyntaxNodeView>,
    i: int,
    sc: ScopeView,
    out: FindingsView,
)
    requires
        0 <= i < t.len(),
        all_have_origin(t, out.records),
    ensures
        all_have_origin(t, enter(e, t, i, sc, out).out.records),
{
    reveal(enter);
    lemma_item(e, t, i, sc, out);
    if is_a(t, i, "use_declaration"@) {
        lemma_import(e, t, i, sc, out);
    } else if is_a(t, i, "function_item"@) || is_a(t, i, "function_signature_item"@) {
        lemma_unsafe(e, t, i, "fn"@, out);
        lemma_item(e, t, i, sc, with_unsafe_item(e, t, i, "fn"@, out));
    } else if is_a(t, i, "impl_item"@) {
        lemma_unsafe(e, t, i, "impl"@, out);
        lemma_impl(e, t, i, sc, with_unsafe_item(e, t, i, "impl"@, out));
    } else if is_a(t, i, "macro_invocation"@) {
        lemma_macro(e, t, i, out);
    } else if is_a(t, i, "call_expression"@) {
        if let Some(category) = panic_risk(t, i) {
            lemma_risk(e, t, i, category, sc, out);
        }
    } else if is_a(t, i, "line_comment"@) || is_a(t, i, "block_comment"@) {
        lemma_markers(e, t, i, markers_from(text_at(t, i), 0), out);
    } else if is_a(t, i, "unsafe_block"@) {
        lemma_unsafe(e, t, i, "block"@, out);
    }
    lemma_kinds_differ();
}

proof fn lemma_walked<R: Redactor>(
    e: FileSourceView<R>,
    t: Seq<SyntaxNodeView>,
    i: int,
    kids: Seq<int>,
    sc: ScopeView,
    out: FindingsView,
)
    requires
        all_have_origin(t, out.records),
    ensures
        all_have_origin(t, walk_over(e, t, i, kids, sc, out).records),
    decreases t.len() - i, kids.len(),
{
    if kids.len() > 0 && 0 <= i < t.len() {
        let k = kids.last();
        lemma_walked(e, t, i, kids.drop_last(), sc, out);
        let next = walk_over(e, t, i, kids.drop_last(), sc, out);
        if i < k < t.len() {
            lemma_entered(e, t, k, sc, next);
            let step = enter(e, t, k, sc, next);
            if step.descend {
                lemma_walked(e, t, k, named_children(t, k), step.scope, step.out);
            }
        }
    }
}

proof fn lemma_resolved(
    t: Seq<SyntaxNodeView>,
    crate_root: Seq<char>,
    ps: Seq<PendingImplEdgeView>,
    out: FindingsView,
)
    requires
        all_have_origin(t, out.records),
    ensures
        all_have_origin(t, resolved(crate_root, ps, out).records),
    decreases ps.len(),
{
    if ps.len() > 0 {
        lemma_resolved(t, crate_root, ps.drop_last(), out);
        let before = resolved(crate_root, ps.drop_last(), out).records;
        let all = resolved(crate_root, ps, out).records;
        assert forall|m: int| 0 <= m < all.len() implies has_origin(t, #[trigger] all[m]) by {
            if m < before.len() {
                assert(all[m] == before[m]);
            }
        }
    }
}

/// Nothing is made up: every record that is no edge stands for a node of the tree, of a kind that
/// becomes it.
pub proof fn law_records_have_their_origin<R: Redactor>(
    e: FileSourceView<R>,
    t: Seq<SyntaxNodeView>,
)
    ensures
        all_have_origin(t, tree_findings(e, t).records),
{
    let sc = file_scope(e);
    let none = FindingsView::none();
    if t.len() > 0 {
        lemma_entered(e, t, 0, sc, none);
        let step = enter(e, t, 0, sc, none);
        lemma_walked(e, t, 0, named_children(t, 0), step.scope, step.out);
    }
    let all = if t.len() == 0 {
        none
    } else {
        crate::languages::rust::extract::walked(e, t, 0, sc, none)
    };
    lemma_resolved(
        t,
        e.crate_root,
        all.pending,
        FindingsView { pending: Seq::empty(), ..all },
    );
}

} // verus!
