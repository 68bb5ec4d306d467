//! Every item of a Rust file is in its graph.
use vstd::prelude::*;

use crate::ir::{EdgeLabel, EdgeRecordView, NodeKind, NodeRecordView, RecordView, SourceSpan};
use crate::languages::common::item_name;
use crate::languages::rust::extract::{
    direct_impl_method, enter, enter_item, function_kind, function_name, module_node, module_scope,
    named_kind, with_function, with_module, with_named, with_symbol, with_unsafe_item,
    FileSourceView, FindingsView,
};
use crate::languages::rust::file::tree_findings;
use crate::languages::rust::scope::{qualified, ScopeView};
use crate::languages::rust::tree::member_of;
use crate::languages::syntax::{
    field_child, field_from, is_a, parent, parent_from, prev_named_sibling, text_at, SyntaxNodeView,
};
use crate::laws::rust_walk::{child_of, extends, grows, in_the_open, lemma_visit, lemma_visited};
use crate::policy::Redactor;
use crate::text::{has, joined};

verus! {

// ── The tree ────────────────────────────────────────────────────────────────

/// The first child of a node in a field, and none where there is none.
pub proof fn law_field_child(t: Seq<SyntaxNodeView>, p: int, field: Seq<char>)
    requires
        0 <= p < t.len(),
    ensures
        (match field_child(t, p, field) {
            Some(j) => {
                &&& p < j < t.len()
                &&& t[j].depth == t[p].depth + 1
                &&& t[j].field == Some(field)
                &&& forall|m: int|
                    p < m < j ==> (#[trigger] t[m]).depth > t[p].depth && !(t[m].depth
                        == t[p].depth + 1 && t[m].field == Some(field))
            },
            None => forall|j: int|
                p < j < t.len() && (forall|m: int|
                    p < m <= j ==> (#[trigger] t[m]).depth > t[p].depth) ==> !((
                #[trigger] t[j]).depth == t[p].depth + 1 && t[j].field == Some(field)),
        }),
{
    lemma_field_from(t, p, p + 1, field);
}

proof fn lemma_field_from(t: Seq<SyntaxNodeView>, p: int, from: int, field: Seq<char>)
    requires
        0 <= p < from,
        p < t.len(),
    ensures
        (match field_from(t, p, from, field) {
            Some(j) => {
                &&& from <= j < t.len()
                &&& t[j].depth == t[p].depth + 1
                &&& t[j].field == Some(field)
                &&& forall|m: int|
                    from <= m < j ==> (#[trigger] t[m]).depth > t[p].depth && !(t[m].depth
                        == t[p].depth + 1 && t[m].field == Some(field))
            },
            None => forall|j: int|
                from <= j < t.len() && (forall|m: int|
                    from <= m <= j ==> (#[trigger] t[m]).depth > t[p].depth) ==> !((
                #[trigger] t[j]).depth == t[p].depth + 1 && t[j].field == Some(field)),
        }),
    decreases t.len() - from,
{
    if from < t.len() && t[from].depth > t[p].depth {
        lemma_field_from(t, p, from + 1, field);
    }
}

/// A child knows its parent.
pub proof fn law_parent(t: Seq<SyntaxNodeView>, p: int, j: int)
    requires
        child_of(t, p, j),
    ensures
        parent(t, j) == Some(p),
{
    lemma_parent_from(t, p, j, j);
}

proof fn lemma_parent_from(t: Seq<SyntaxNodeView>, p: int, j: int, from: int)
    requires
        child_of(t, p, j),
        p < from <= j,
    ensures
        parent_from(t, j, from) == Some(p),
    decreases from,
{
    if from > p + 1 {
        assert(t[from - 1].depth > t[p].depth);
        lemma_parent_from(t, p, j, from - 1);
    }
}

// ── Kinds ───────────────────────────────────────────────────────────────────

/// The kinds of nodes that matter differ in their length, or else in a letter.
pub open spec fn kinds_differ() -> bool {
    &&& "mod_item"@.len() == 8
    &&& "struct_item"@.len() == 11 && "struct_item"@[3] == 'u'
    &&& "static_item"@.len() == 11 && "static_item"@[3] == 't'
    &&& "enum_item"@.len() == 9 && "enum_item"@[0] == 'e'
    &&& "type_item"@.len() == 9 && "type_item"@[0] == 't'
    &&& "impl_item"@.len() == 9 && "impl_item"@[0] == 'i'
    &&& "trait_item"@.len() == 10 && "trait_item"@[0] == 't'
    &&& "const_item"@.len() == 10 && "const_item"@[0] == 'c'
    &&& "use_declaration"@.len() == 15 && "use_declaration"@[0] == 'u'
    &&& "call_expression"@.len() == 15 && "call_expression"@[0] == 'c'
    &&& "function_item"@.len() == 13 && "function_item"@[0] == 'f'
    &&& "block_comment"@.len() == 13 && "block_comment"@[0] == 'b'
    &&& "line_comment"@.len() == 12 && "line_comment"@[0] == 'l'
    &&& "unsafe_block"@.len() == 12 && "unsafe_block"@[0] == 'u'
    &&& "macro_invocation"@.len() == 16
    &&& "function_signature_item"@.len() == 23
    &&& "declaration_list"@.len() == 16 && "declaration_list"@[0] == 'd' && "macro_invocation"@[0]
        == 'm'
}

pub proof fn lemma_kinds_differ()
    ensures
        kinds_differ(),
{
    reveal_strlit("mod_item");
    reveal_strlit("struct_item");
    reveal_strlit("static_item");
    reveal_strlit("enum_item");
    reveal_strlit("type_item");
    reveal_strlit("impl_item");
    reveal_strlit("trait_item");
    reveal_strlit("const_item");
    reveal_strlit("use_declaration");
    reveal_strlit("call_expression");
    reveal_strlit("function_item");
    reveal_strlit("block_comment");
    reveal_strlit("line_comment");
    reveal_strlit("unsafe_block");
    reveal_strlit("macro_invocation");
    reveal_strlit("function_signature_item");
    reveal_strlit("declaration_list");
}

// ── Items ───────────────────────────────────────────────────────────────────

/// The span covers the node: its bytes, and its lines counted from one.
pub open spec fn covers(s: SourceSpan, n: SyntaxNodeView) -> bool {
    &&& s.start_byte == n.start_byte
    &&& s.end_byte == n.end_byte
    &&& n.start_row < usize::MAX ==> s.start_line == n.start_row + 1
    &&& n.end_row < usize::MAX ==> s.end_line == n.end_row + 1
    &&& s.start_column == Some(n.start_column)
    &&& s.end_column == Some(n.end_column)
}

/// The qualified name ends in the local one.
pub open spec fn ends_in(name: Seq<char>, local: Seq<char>) -> bool {
    name == local || exists|front: Seq<char>| name == #[trigger] (front + "::"@ + local)
}

/// A node of the graph for a node of the tree, and the edge that leads to it.
pub open spec fn recorded(
    records: Seq<RecordView>,
    kind: NodeKind,
    at: SyntaxNodeView,
    label: EdgeLabel,
    n: NodeRecordView,
    edge: EdgeRecordView,
) -> bool {
    &&& records.contains(RecordView::Node(n))
    &&& records.contains(RecordView::Edge(edge))
    &&& n.kind == kind
    &&& n.span matches Some(s) && covers(s, at)
    &&& edge.label == label
    &&& edge.target == n.id
}

/// A symbol of this kind, with the edge that defines it.
pub open spec fn has_symbol(
    records: Seq<RecordView>,
    at: SyntaxNodeView,
    kind: Seq<char>,
    local: Seq<char>,
) -> bool {
    exists|n: NodeRecordView, edge: EdgeRecordView| #[trigger]
        recorded(records, NodeKind::Symbol, at, EdgeLabel::Defines, n, edge) && n.code.symbol_kind
            == Some(kind) && (n.name matches Some(name) && ends_in(name, local))
}

pub open spec fn has_module(
    records: Seq<RecordView>,
    at: SyntaxNodeView,
    local: Seq<char>,
) -> bool {
    exists|n: NodeRecordView, edge: EdgeRecordView| #[trigger]
        recorded(records, NodeKind::Module, at, EdgeLabel::Contains, n, edge) && (
        n.name matches Some(name) && ends_in(name, local))
}

/// A node of another kind, under this name.
pub open spec fn has_site(
    records: Seq<RecordView>,
    kind: NodeKind,
    at: SyntaxNodeView,
    label: EdgeLabel,
    name: Seq<char>,
) -> bool {
    exists|n: NodeRecordView, edge: EdgeRecordView| #[trigger]
        recorded(records, kind, at, label, n, edge) && n.name == Some(name)
}

pub proof fn lemma_qualified(modules: Seq<Seq<char>>, local: Seq<char>)
    ensures
        ends_in(qualified(modules, local), local),
{
    if modules.len() > 0 {
        let front = joined(modules, "::"@);
        assert(qualified(modules, local) == front + "::"@ + local);
    }
}

pub proof fn lemma_stays<A>(a: Seq<A>, b: Seq<A>, i: int)
    requires
        grows(a, b),
        0 <= i < a.len(),
    ensures
        b.contains(a[i]),
{
    assert(b[i] == a[i]);
}

/// The last two records that were found stay.
pub proof fn lemma_pair_stays(a: FindingsView, b: FindingsView)
    requires
        extends(a, b),
        a.records.len() >= 2,
    ensures
        b.records.contains(a.records[a.records.len() - 2]),
        b.records.contains(a.records[a.records.len() - 1]),
{
    lemma_stays(a.records, b.records, a.records.len() - 2);
    lemma_stays(a.records, b.records, a.records.len() - 1);
}

/// Every named item becomes a record of its own kind, under its name and at its place, with the
/// edge of the scope that it stands in.
pub proof fn law_every_item_is_recorded<R: Redactor>(
    e: FileSourceView<R>,
    t: Seq<SyntaxNodeView>,
    j: int,
    local: Seq<char>,
)
    requires
        in_the_open(t, j),
        field_child(t, j, "name"@) matches Some(x) && text_at(t, x) == local,
    ensures
        ({
            let records = tree_findings(e, t).records;
            let at = t[j];
            &&& is_a(t, j, "struct_item"@) ==> has_symbol(records, at, "struct"@, local)
            &&& is_a(t, j, "enum_item"@) ==> has_symbol(records, at, "enum"@, local)
            &&& is_a(t, j, "trait_item"@) ==> has_symbol(records, at, "trait"@, local)
            &&& is_a(t, j, "const_item"@) ==> has_symbol(records, at, "const"@, local)
            &&& is_a(t, j, "static_item"@) ==> has_symbol(records, at, "static"@, local)
            &&& is_a(t, j, "type_item"@) ==> has_symbol(records, at, "type_alias"@, local)
            &&& is_a(t, j, "mod_item"@) ==> has_module(records, at, local)
        }),
{
    let (sc, out) = lemma_visited(e, t, j);
    let found = tree_findings(e, t);
    lemma_visit(e, t, j, sc, out, found);
    if is_a(t, j, "mod_item"@) {
        lemma_enter_module(e, t, j, local, sc, out);
        lemma_module_recorded(e, t, j, local, sc, out, found);
    } else if is_a(t, j, "struct_item"@) {
        lemma_enter_named(e, t, j, local, sc, out);
        lemma_named_recorded(e, t, j, "struct"@, local, sc, out, found);
    } else if is_a(t, j, "enum_item"@) {
        lemma_enter_named(e, t, j, local, sc, out);
        lemma_named_recorded(e, t, j, "enum"@, local, sc, out, found);
    } else if is_a(t, j, "trait_item"@) {
        lemma_enter_named(e, t, j, local, sc, out);
        lemma_named_recorded(e, t, j, "trait"@, local, sc, out, found);
    } else if is_a(t, j, "const_item"@) {
        lemma_enter_named(e, t, j, local, sc, out);
        lemma_named_recorded(e, t, j, "const"@, local, sc, out, found);
    } else if is_a(t, j, "static_item"@) {
        lemma_enter_named(e, t, j, local, sc, out);
        lemma_named_recorded(e, t, j, "static"@, local, sc, out, found);
    } else if is_a(t, j, "type_item"@) {
        lemma_enter_named(e, t, j, local, sc, out);
        lemma_named_recorded(e, t, j, "type_alias"@, local, sc, out, found);
    }
    lemma_kinds_differ();
}

pub proof fn lemma_enter_module<R: Redactor>(
    e: FileSourceView<R>,
    t: Seq<SyntaxNodeView>,
    j: int,
    local: Seq<char>,
    sc: ScopeView,
    out: FindingsView,
)
    requires
        item_name(t, j) == Some(local),
        is_a(t, j, "mod_item"@),
    ensures
        enter(e, t, j, sc, out).out == with_module(e, t, j, local, sc, out),
        enter(e, t, j, sc, out).scope == module_scope(e, t, j, local, sc),
{
    reveal(enter);
    reveal(enter_item);
}

/// The kind of symbol that a kind of item becomes.
pub open spec fn becomes(item: Seq<char>, kind: Seq<char>) -> bool {
    ||| item == "struct_item"@ && kind == "struct"@
    ||| item == "enum_item"@ && kind == "enum"@
    ||| item == "trait_item"@ && kind == "trait"@
    ||| item == "const_item"@ && kind == "const"@
    ||| item == "static_item"@ && kind == "static"@
    ||| item == "type_item"@ && kind == "type_alias"@
}

proof fn lemma_enter_named<R: Redactor>(
    e: FileSourceView<R>,
    t: Seq<SyntaxNodeView>,
    j: int,
    local: Seq<char>,
    sc: ScopeView,
    out: FindingsView,
)
    requires
        item_name(t, j) == Some(local),
        0 <= j < t.len(),
    ensures
        forall|kind: Seq<char>|
            becomes(t[j].kind, kind) ==> enter(e, t, j, sc, out).out == #[trigger] with_named(
                e,
                t,
                j,
                kind,
                local,
                sc,
                out,
            ),
{
    lemma_kinds_differ();
    assert forall|kind: Seq<char>| becomes(t[j].kind, kind) implies enter(e, t, j, sc, out).out
        == #[trigger] with_named(e, t, j, kind, local, sc, out) by {
        lemma_named_kind(t, j, kind);
        reveal(enter);
        reveal(enter_item);
    }
}

proof fn lemma_named_kind(t: Seq<SyntaxNodeView>, j: int, kind: Seq<char>)
    requires
        0 <= j < t.len(),
        becomes(t[j].kind, kind),
    ensures
        named_kind(t, j) == Some(kind),
        !is_a(t, j, "mod_item"@),
        !is_a(t, j, "function_item"@),
        !is_a(t, j, "function_signature_item"@),
{
    lemma_kinds_differ();
}

proof fn lemma_module_recorded<R: Redactor>(
    e: FileSourceView<R>,
    t: Seq<SyntaxNodeView>,
    j: int,
    local: Seq<char>,
    sc: ScopeView,
    out: FindingsView,
    found: FindingsView,
)
    requires
        0 <= j < t.len(),
        extends(with_module(e, t, j, local, sc, out), found),
    ensures
        has_module(found.records, t[j], local),
{
    let next = with_module(e, t, j, local, sc, out);
    lemma_qualified(sc.modules, local);
    lemma_pair_stays(next, found);
    let n = next.records[next.records.len() - 2]->Node_0;
    let edge = next.records[next.records.len() - 1]->Edge_0;
    assert(recorded(found.records, NodeKind::Module, t[j], EdgeLabel::Contains, n, edge));
}

proof fn lemma_named_recorded<R: Redactor>(
    e: FileSourceView<R>,
    t: Seq<SyntaxNodeView>,
    j: int,
    kind: Seq<char>,
    local: Seq<char>,
    sc: ScopeView,
    out: FindingsView,
    found: FindingsView,
)
    ensures
        0 <= j < t.len() && extends(with_named(e, t, j, kind, local, sc, out), found)
            ==> has_symbol(found.records, t[j], kind, local),
{
    let next = with_named(e, t, j, kind, local, sc, out);
    if 0 <= j < t.len() && extends(next, found) {
        lemma_qualified(sc.modules, local);
        lemma_pair_stays(next, found);
        let n = next.records[next.records.len() - 2]->Node_0;
        let edge = next.records[next.records.len() - 1]->Edge_0;
        assert(recorded(found.records, NodeKind::Symbol, t[j], EdgeLabel::Defines, n, edge));
    }
}

// ── Functions ───────────────────────────────────────────────────────────────

/// The step at a function: its unsafe site where it has one, and then the function itself.
pub proof fn lemma_enter_function<R: Redactor>(
    e: FileSourceView<R>,
    t: Seq<SyntaxNodeView>,
    j: int,
    local: Seq<char>,
    sc: ScopeView,
    out: FindingsView,
)
    requires
        item_name(t, j) == Some(local),
        is_a(t, j, "function_item"@),
    ensures
        ({
            let next = with_unsafe_item(e, t, j, "fn"@, out);
            enter(e, t, j, sc, out).out == with_function(e, t, j, local, sc, next)
        }),
{
    lemma_kinds_differ();
    reveal(enter);
    reveal(enter_item);
}

proof fn lemma_function_records<R: Redactor>(
    e: FileSourceView<R>,
    t: Seq<SyntaxNodeView>,
    j: int,
    local: Seq<char>,
    sc: ScopeView,
    out: FindingsView,
)
    ensures
        with_function(e, t, j, local, sc, out).records == with_symbol(
            e,
            t,
            j,
            function_kind(t, j, sc),
            function_name(t, j, local, sc),
            sc,
            out,
        ).records,
{
}

proof fn lemma_function_name(t: Seq<SyntaxNodeView>, j: int, local: Seq<char>, sc: ScopeView)
    ensures
        ends_in(function_name(t, j, local, sc), local),
{
    lemma_qualified(sc.modules, local);
    if direct_impl_method(t, j, sc) {
        let owner = sc.impl_context->0.method_owner;
        let name = function_name(t, j, local, sc);
        if sc.modules.len() > 0 {
            let front = joined(sc.modules, "::"@) + "::"@ + owner;
            assert(name =~= front + "::"@ + local);
        } else {
            assert(name =~= owner + "::"@ + local);
        }
    }
}

/// Every function, wherever it stands, is a symbol under its name: a method, a test or a plain
/// function.
pub proof fn law_every_function_is_recorded<R: Redactor>(
    e: FileSourceView<R>,
    t: Seq<SyntaxNodeView>,
    j: int,
    local: Seq<char>,
)
    requires
        in_the_open(t, j),
        is_a(t, j, "function_item"@),
        field_child(t, j, "name"@) matches Some(x) && text_at(t, x) == local,
    ensures
        ({
            let records = tree_findings(e, t).records;
            ||| has_symbol(records, t[j], "method"@, local)
            ||| has_symbol(records, t[j], "test"@, local)
            ||| has_symbol(records, t[j], "function"@, local)
        }),
{
    let (sc, out) = lemma_visited(e, t, j);
    let found = tree_findings(e, t);
    lemma_visit(e, t, j, sc, out, found);
    lemma_enter_function(e, t, j, local, sc, out);
    let before = with_unsafe_item(e, t, j, "fn"@, out);
    let next = with_function(e, t, j, local, sc, before);
    lemma_function_records(e, t, j, local, sc, before);
    lemma_function_name(t, j, local, sc);
    lemma_pair_stays(next, found);
    let n = next.records[next.records.len() - 2]->Node_0;
    let edge = next.records[next.records.len() - 1]->Edge_0;
    assert(recorded(found.records, NodeKind::Symbol, t[j], EdgeLabel::Defines, n, edge));
}

/// A function that stands at the top of a file, or in a module there, is a function or a test, and
/// it is a test where its attribute says so.
pub proof fn law_kind_of_function(t: Seq<SyntaxNodeView>, j: int, sc: ScopeView)
    ensures
        sc.impl_context is None ==> function_kind(t, j, sc) == (if marked_test(t, j) {
            "test"@
        } else {
            "function"@
        }),
        sc.impl_context is Some && member_of(t, j, "impl_item"@) ==> function_kind(t, j, sc)
            == "method"@,
{
}

/// The text of the function, or the attribute right in front of it, says that it is a test.
pub open spec fn marked_test(t: Seq<SyntaxNodeView>, j: int) -> bool {
    has(text_at(t, j), "#[test]"@) || (prev_named_sibling(t, j) matches Some(s) && is_a(
        t,
        s,
        "attribute_item"@,
    ) && has(text_at(t, s), "test"@))
}

// ── What stands in a module ─────────────────────────────────────────────────

/// What stands in a module has the name of the module in front of its own, and the module defines
/// it.
pub proof fn law_items_stand_in_their_module<R: Redactor>(
    e: FileSourceView<R>,
    t: Seq<SyntaxNodeView>,
    m: int,
    module: Seq<char>,
    j: int,
    kind: Seq<char>,
    local: Seq<char>,
    sc: ScopeView,
    out: FindingsView,
    next: FindingsView,
)
    requires
        is_a(t, m, "mod_item"@),
        item_name(t, m) == Some(module),
        0 <= j < t.len(),
        becomes(t[j].kind, kind),
        item_name(t, j) == Some(local),
        sc.impl_context is None,
    ensures
        ({
            let first = enter(e, t, m, sc, out);
            let last = enter(e, t, j, first.scope, next).out.records;
            first.out.records[out.records.len() as int] matches RecordView::Node(outer) && (
            last[next.records.len() as int] matches RecordView::Node(item) && item.name == Some(
                outer.name->0 + "::"@ + local,
            ) && (last[next.records.len() as int + 1] matches RecordView::Edge(x) && x.source
                == outer.id && x.target == item.id))
        }),
{
    lemma_enter_module(e, t, m, module, sc, out);
    lemma_enter_named(e, t, j, local, module_scope(e, t, m, module, sc), next);
    lemma_nested_name(sc.modules, module, local);
    lemma_with_named(e, t, j, kind, local, module_scope(e, t, m, module, sc), next);
    assert(with_module(e, t, m, module, sc, out).records[out.records.len() as int]
        == RecordView::Node(module_node(e, t, m, qualified(sc.modules, module))));
}

proof fn lemma_with_named<R: Redactor>(
    e: FileSourceView<R>,
    t: Seq<SyntaxNodeView>,
    j: int,
    kind: Seq<char>,
    local: Seq<char>,
    sc: ScopeView,
    out: FindingsView,
)
    ensures
        ({
            let last = with_named(e, t, j, kind, local, sc, out).records;
            let k = out.records.len() as int;
            &&& last.len() == k + 2
            &&& last[k] matches RecordView::Node(item) && item.name == Some(
                qualified(sc.modules, local),
            ) && (last[k + 1] matches RecordView::Edge(x) && x.source == sc.owner() && x.target
                == item.id)
        }),
{
}

proof fn lemma_nested_name(modules: Seq<Seq<char>>, module: Seq<char>, local: Seq<char>)
    ensures
        qualified(modules.push(module), local) == qualified(modules, module) + "::"@ + local,
{
    let all = modules.push(module);
    assert(all.drop_last() =~= modules);
    assert(all.last() == module);
    if modules.len() == 0 {
        assert(all =~= seq![module]);
    }
}

} // verus!
