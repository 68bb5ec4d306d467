//! What a TypeScript syntax tree declares, extraction finds.
use vstd::prelude::*;

use crate::assoc::lookup;
use crate::ir::{EdgeLabel, EdgeRecordView, NodeKind, NodeRecordView, RecordView};
use crate::languages::common::item_name;
use crate::languages::paths::segments;
use crate::languages::syntax::{field_child, is_a, named_children, text_at, SyntaxNodeView};
use crate::languages::typescript::{
    bases_of, class_bases, clauses_of, enter, enter_named, function_kind, heritages_of, in_class,
    in_function, inherited, interface_bases, is_declaration, owner, qualified, scope_names,
    tree_findings, ts_modules, walk_over, walked, with_declaration, with_declarator,
    with_declarators, with_import, PendingHeritageView, ScopeKind, TsFileView, TsFindingsView,
    TsScopeView,
};
use crate::laws::rust_items::{covers, lemma_stays};
use crate::laws::rust_walk::{child_of, grows, law_named_children, lemma_grows};
use crate::text::{collapsed, ends, joined};

verus! {

// ── Kinds ───────────────────────────────────────────────────────────────────

/// The kinds of nodes that matter differ in their length, or else in their first letter.
pub open spec fn kinds_differ() -> bool {
    &&& "class_declaration"@.len() == 17 && "class_declaration"@[0] == 'c'
    &&& "method_definition"@.len() == 17 && "method_definition"@[0] == 'm'
    &&& "abstract_class_declaration"@.len() == 26
    &&& "interface_declaration"@.len() == 21
    &&& "type_alias_declaration"@.len() == 22
    &&& "enum_declaration"@.len() == 16 && "enum_declaration"@[0] == 'e'
    &&& "import_statement"@.len() == 16 && "import_statement"@[0] == 'i'
    &&& "function_declaration"@.len() == 20 && "function_declaration"@[0] == 'f'
    &&& "variable_declaration"@.len() == 20 && "variable_declaration"@[0] == 'v'
    &&& "generator_function_declaration"@.len() == 30
    &&& "internal_module"@.len() == 15
    &&& "lexical_declaration"@.len() == 19
}

pub proof fn lemma_kinds_differ()
    ensures
        kinds_differ(),
{
    reveal_strlit("class_declaration");
    reveal_strlit("method_definition");
    reveal_strlit("abstract_class_declaration");
    reveal_strlit("interface_declaration");
    reveal_strlit("type_alias_declaration");
    reveal_strlit("enum_declaration");
    reveal_strlit("import_statement");
    reveal_strlit("function_declaration");
    reveal_strlit("variable_declaration");
    reveal_strlit("generator_function_declaration");
    reveal_strlit("internal_module");
    reveal_strlit("lexical_declaration");
}

/// A file of tests, by its name.
pub open spec fn holds_tests(path: Seq<char>) -> bool {
    ends(path, ".test.ts"@) || ends(path, ".spec.ts"@) || ends(path, ".test.tsx"@) || ends(
        path,
        ".spec.tsx"@,
    )
}

/// The kind of symbol that a kind of declaration becomes in a file.
pub open spec fn becomes(path: Seq<char>, item: Seq<char>, kind: Seq<char>) -> bool {
    ||| item == "class_declaration"@ && kind == "class"@
    ||| item == "abstract_class_declaration"@ && kind == "class"@
    ||| item == "interface_declaration"@ && kind == "interface"@
    ||| item == "type_alias_declaration"@ && kind == "type"@
    ||| item == "enum_declaration"@ && kind == "enum"@
    ||| item == "internal_module"@ && kind == "namespace"@
    ||| (item == "function_declaration"@ || item == "generator_function_declaration"@) && kind
        == if holds_tests(path) {
        "test"@
    } else {
        "function"@
    }
}

/// The kind of symbol that a method becomes in a file.
pub open spec fn becomes_method(path: Seq<char>, item: Seq<char>, kind: Seq<char>) -> bool {
    item == "method_definition"@ && kind == if holds_tests(path) {
        "test"@
    } else {
        "method"@
    }
}

/// A declaration that what it holds is named after.
pub open spec fn opens_scope(item: Seq<char>) -> bool {
    item == "class_declaration"@ || item == "abstract_class_declaration"@ || item
        == "function_declaration"@ || item == "generator_function_declaration"@ || item
        == "internal_module"@
}

pub open spec fn is_class_kind(item: Seq<char>) -> bool {
    item == "class_declaration"@ || item == "abstract_class_declaration"@
}

/// A node whose inside is not looked at.
pub open spec fn is_sealed(t: Seq<SyntaxNodeView>, i: int) -> bool {
    is_a(t, i, "import_statement"@) || is_a(t, i, "interface_declaration"@) || is_a(
        t,
        i,
        "type_alias_declaration"@,
    ) || is_a(t, i, "enum_declaration"@) || is_a(t, i, "lexical_declaration"@) || is_a(
        t,
        i,
        "variable_declaration"@,
    )
}

/// A node that declares nothing itself.
pub open spec fn is_plain(t: Seq<SyntaxNodeView>, i: int) -> bool {
    &&& !is_sealed(t, i)
    &&& !opens_scope(t[i].kind)
    &&& !is_a(t, i, "method_definition"@)
}

// ── Growth ──────────────────────────────────────────────────────────────────

/// What was found stays.
pub open spec fn extends(a: TsFindingsView, b: TsFindingsView) -> bool {
    &&& grows(a.records, b.records)
    &&& grows(a.definitions, b.definitions)
    &&& grows(a.bodies, b.bodies)
    &&& grows(a.pending, b.pending)
}

proof fn lemma_extends(a: TsFindingsView, b: TsFindingsView, c: TsFindingsView)
    requires
        extends(a, b),
        extends(b, c),
    ensures
        extends(a, c),
{
    lemma_grows(a.records, b.records, c.records);
    lemma_grows(a.definitions, b.definitions, c.definitions);
    lemma_grows(a.bodies, b.bodies, c.bodies);
    lemma_grows(a.pending, b.pending, c.pending);
}

proof fn lemma_named_extends(
    f: TsFileView,
    t: Seq<SyntaxNodeView>,
    i: int,
    local: Seq<char>,
    stack: Seq<TsScopeView>,
    out: TsFindingsView,
)
    ensures
        extends(out, enter_named(f, t, i, local, stack, out).out),
        is_sealed(t, i) || enter_named(f, t, i, local, stack, out).descend,
{
    reveal(enter_named);
}

proof fn lemma_declarators_extend(
    f: TsFileView,
    t: Seq<SyntaxNodeView>,
    kids: Seq<int>,
    stack: Seq<TsScopeView>,
    out: TsFindingsView,
)
    ensures
        extends(out, with_declarators(f, t, kids, stack, out)),
    decreases kids.len(),
{
    if kids.len() > 0 {
        lemma_declarators_extend(f, t, kids.drop_last(), stack, out);
        let before = with_declarators(f, t, kids.drop_last(), stack, out);
        assert(extends(before, with_declarator(f, t, kids.last(), stack, before)));
        lemma_extends(out, before, with_declarators(f, t, kids, stack, out));
    }
}

proof fn lemma_enter_extends(
    f: TsFileView,
    t: Seq<SyntaxNodeView>,
    i: int,
    stack: Seq<TsScopeView>,
    out: TsFindingsView,
)
    ensures
        extends(out, enter(f, t, i, stack, out).out),
        is_sealed(t, i) || enter(f, t, i, stack, out).descend,
{
    reveal(enter);
    if let Some(local) = item_name(t, i) {
        lemma_named_extends(f, t, i, local, stack, out);
    }
    lemma_declarators_extend(f, t, named_children(t, i), stack, out);
    assert(extends(out, with_import(f, t, i, stack, out)));
    assert(extends(out, out));
}

proof fn lemma_walk_extends(
    f: TsFileView,
    t: Seq<SyntaxNodeView>,
    i: int,
    kids: Seq<int>,
    stack: Seq<TsScopeView>,
    out: TsFindingsView,
)
    ensures
        extends(out, walk_over(f, t, i, kids, stack, out)),
    decreases t.len() - i, kids.len(),
{
    if kids.len() > 0 && 0 <= i < t.len() {
        let k = kids.last();
        lemma_walk_extends(f, t, i, kids.drop_last(), stack, out);
        let next = walk_over(f, t, i, kids.drop_last(), stack, out);
        if i < k < t.len() {
            lemma_enter_extends(f, t, k, stack, next);
            let step = enter(f, t, k, stack, next);
            lemma_extends(out, next, step.out);
            if step.descend {
                lemma_walk_extends(f, t, k, named_children(t, k), step.stack, step.out);
                lemma_extends(
                    out,
                    step.out,
                    walk_over(f, t, k, named_children(t, k), step.stack, step.out),
                );
            }
        }
    }
}

// ── Visits ──────────────────────────────────────────────────────────────────

/// The walk came by the node at `j` with these scopes around it and `out` found before, and `found`
/// holds what it found there.
pub open spec fn visited(
    f: TsFileView,
    t: Seq<SyntaxNodeView>,
    j: int,
    stack: Seq<TsScopeView>,
    out: TsFindingsView,
    found: TsFindingsView,
) -> bool {
    0 <= j < t.len() && extends(walked(f, t, j, stack, out), found)
}

proof fn lemma_visit(
    f: TsFileView,
    t: Seq<SyntaxNodeView>,
    j: int,
    stack: Seq<TsScopeView>,
    out: TsFindingsView,
    found: TsFindingsView,
)
    requires
        visited(f, t, j, stack, out, found),
    ensures
        extends(enter(f, t, j, stack, out).out, found),
{
    let step = enter(f, t, j, stack, out);
    lemma_walk_extends(f, t, j, named_children(t, j), step.stack, step.out);
    lemma_extends(step.out, walked(f, t, j, stack, out), found);
}

proof fn lemma_walk_visits(
    f: TsFileView,
    t: Seq<SyntaxNodeView>,
    i: int,
    kids: Seq<int>,
    stack: Seq<TsScopeView>,
    out: TsFindingsView,
    found: TsFindingsView,
    k: int,
) -> (mid: TsFindingsView)
    requires
        0 <= i < k < t.len(),
        kids.contains(k),
        extends(walk_over(f, t, i, kids, stack, out), found),
    ensures
        visited(f, t, k, stack, mid, found),
    decreases kids.len(),
{
    let last = kids.last();
    let rest = kids.drop_last();
    let next = walk_over(f, t, i, rest, stack, out);
    if last == k {
        next
    } else {
        let n = choose|n: int| 0 <= n < kids.len() && kids[n] == k;
        assert(rest[n] == k);
        if i < last < t.len() {
            lemma_enter_extends(f, t, last, stack, next);
            let step = enter(f, t, last, stack, next);
            lemma_walk_extends(f, t, last, named_children(t, last), step.stack, step.out);
            if step.descend {
                lemma_extends(
                    next,
                    step.out,
                    walk_over(f, t, last, named_children(t, last), step.stack, step.out),
                );
            }
        } else {
            lemma_walk_extends(f, t, i, Seq::empty(), stack, next);
        }
        lemma_extends(next, walk_over(f, t, i, kids, stack, out), found);
        lemma_walk_visits(f, t, i, rest, stack, out, found, k)
    }
}

proof fn lemma_visit_child(
    f: TsFileView,
    t: Seq<SyntaxNodeView>,
    j: int,
    stack: Seq<TsScopeView>,
    out: TsFindingsView,
    found: TsFindingsView,
    k: int,
) -> (mid: TsFindingsView)
    requires
        visited(f, t, j, stack, out, found),
        !is_sealed(t, j),
        child_of(t, j, k),
    ensures
        visited(f, t, k, enter(f, t, j, stack, out).stack, mid, found),
{
    law_named_children(t, j);
    let step = enter(f, t, j, stack, out);
    lemma_enter_extends(f, t, j, stack, out);
    assert(named_children(t, j).contains(k));
    lemma_walk_visits(f, t, j, named_children(t, j), step.stack, step.out, found, k)
}

/// What the walk over the whole tree finds, before bases are looked up.
pub open spec fn walk_of(f: TsFileView, t: Seq<SyntaxNodeView>) -> TsFindingsView {
    walked(f, t, 0, Seq::empty(), TsFindingsView::none())
}

proof fn lemma_inherited_keeps(ps: Seq<PendingHeritageView>, out: TsFindingsView)
    ensures
        grows(out.records, inherited(ps, out).records),
        inherited(ps, out).definitions == out.definitions,
        inherited(ps, out).bodies == out.bodies,
    decreases ps.len(),
{
    if ps.len() > 0 {
        lemma_inherited_keeps(ps.drop_last(), out);
        lemma_grows(
            out.records,
            inherited(ps.drop_last(), out).records,
            inherited(ps, out).records,
        );
    }
}

proof fn lemma_tree_keeps(f: TsFileView, t: Seq<SyntaxNodeView>)
    requires
        t.len() > 0,
    ensures
        grows(walk_of(f, t).records, tree_findings(f, t).records),
        tree_findings(f, t).definitions == walk_of(f, t).definitions,
        tree_findings(f, t).bodies == walk_of(f, t).bodies,
{
    let all = walk_of(f, t);
    lemma_inherited_keeps(all.pending, TsFindingsView { pending: Seq::empty(), ..all });
}

/// The node at `j` stands in the tree with nothing sealed around it.
pub open spec fn in_the_open(t: Seq<SyntaxNodeView>, j: int) -> bool
    decreases j,
{
    0 <= j < t.len() && (j == 0 || exists|p: int|
        0 <= p < j && #[trigger] child_of(t, p, j) && !is_sealed(t, p) && in_the_open(t, p))
}

proof fn lemma_visited(f: TsFileView, t: Seq<SyntaxNodeView>, j: int) -> (r: (
    Seq<TsScopeView>,
    TsFindingsView,
))
    requires
        in_the_open(t, j),
    ensures
        visited(f, t, j, r.0, r.1, walk_of(f, t)),
        j == 0 ==> r.0 == Seq::<TsScopeView>::empty(),
    decreases j,
{
    if j == 0 {
        (Seq::empty(), TsFindingsView::none())
    } else {
        let p = choose|p: int|
            0 <= p < j && #[trigger] child_of(t, p, j) && !is_sealed(t, p) && in_the_open(t, p);
        let (stack, out) = lemma_visited(f, t, p);
        let mid = lemma_visit_child(f, t, p, stack, out, walk_of(f, t), j);
        (enter(f, t, p, stack, out).stack, mid)
    }
}

/// The node at `j` stands within the node at `s`, and what is between them declares nothing.
pub open spec fn directly_in(t: Seq<SyntaxNodeView>, s: int, j: int) -> bool
    decreases j,
{
    0 <= s < j < t.len() && exists|p: int|
        s <= p < j && #[trigger] child_of(t, p, j) && (p == s || is_plain(t, p) && directly_in(
            t,
            s,
            p,
        ))
}

proof fn lemma_enter_plain(
    f: TsFileView,
    t: Seq<SyntaxNodeView>,
    i: int,
    stack: Seq<TsScopeView>,
    out: TsFindingsView,
)
    requires
        0 <= i < t.len(),
        is_plain(t, i),
    ensures
        enter(f, t, i, stack, out).stack == stack,
        enter(f, t, i, stack, out).out == out,
{
    reveal(enter);
}

proof fn lemma_reach(
    f: TsFileView,
    t: Seq<SyntaxNodeView>,
    s: int,
    stack: Seq<TsScopeView>,
    out: TsFindingsView,
    found: TsFindingsView,
    j: int,
) -> (mid: TsFindingsView)
    requires
        visited(f, t, s, stack, out, found),
        !is_sealed(t, s),
        directly_in(t, s, j),
    ensures
        visited(f, t, j, enter(f, t, s, stack, out).stack, mid, found),
    decreases j,
{
    let p = choose|p: int|
        s <= p < j && #[trigger] child_of(t, p, j) && (p == s || is_plain(t, p) && directly_in(
            t,
            s,
            p,
        ));
    let inner = enter(f, t, s, stack, out).stack;
    if p == s {
        lemma_visit_child(f, t, s, stack, out, found, j)
    } else {
        let before = lemma_reach(f, t, s, stack, out, found, p);
        lemma_enter_plain(f, t, p, inner, before);
        lemma_visit_child(f, t, p, inner, before, found, j)
    }
}

// ── Declarations ────────────────────────────────────────────────────────────

/// The symbol of a declaration and the edge that leads to it.
pub open spec fn is_symbol_of(
    n: NodeRecordView,
    edge: EdgeRecordView,
    at: SyntaxNodeView,
    kind: Seq<char>,
    name: Seq<char>,
    from: Seq<char>,
) -> bool {
    &&& n.kind == NodeKind::Symbol
    &&& n.name == Some(name)
    &&& n.code.symbol_kind == Some(kind)
    &&& n.span matches Some(s) && covers(s, at)
    &&& edge.label == EdgeLabel::Defines
    &&& edge.source == from
    &&& edge.target == n.id
}

proof fn lemma_enter_declared(
    f: TsFileView,
    t: Seq<SyntaxNodeView>,
    j: int,
    kind: Seq<char>,
    local: Seq<char>,
    stack: Seq<TsScopeView>,
    out: TsFindingsView,
)
    requires
        0 <= j < t.len(),
        item_name(t, j) == Some(local),
        becomes(f.path, t[j].kind, kind) || becomes_method(f.path, t[j].kind, kind) && stack.len()
            > 0 && stack.last().kind == ScopeKind::Class,
    ensures
        enter(f, t, j, stack, out) == enter_named(f, t, j, local, stack, out),
{
    reveal(enter);
    lemma_kinds_differ();
}

proof fn lemma_enter_named(
    f: TsFileView,
    t: Seq<SyntaxNodeView>,
    j: int,
    kind: Seq<char>,
    local: Seq<char>,
    stack: Seq<TsScopeView>,
    out: TsFindingsView,
) -> (r: (NodeRecordView, EdgeRecordView))
    requires
        0 <= j < t.len(),
        becomes(f.path, t[j].kind, kind) || becomes_method(f.path, t[j].kind, kind),
    ensures
        ({
            let step = enter_named(f, t, j, local, stack, out);
            let k = out.records.len() as int;
            &&& step.out.records == out.records.push(RecordView::Node(r.0)).push(
                RecordView::Edge(r.1),
            )
            &&& is_symbol_of(
                r.0,
                r.1,
                t[j],
                kind,
                qualified(f.path, stack, local),
                owner(f, stack),
            )
            &&& step.out.definitions == out.definitions.push((local, r.0.id)).push(
                (qualified(f.path, stack, local), r.0.id),
            )
            &&& opens_scope(t[j].kind) || becomes_method(f.path, t[j].kind, kind)
                ==> step.stack.len() == stack.len() + 1 && step.stack.drop_last() == stack
                && step.stack.last().name == local && step.stack.last().id == r.0.id && (
            step.stack.last().kind == ScopeKind::Class <==> is_class_kind(t[j].kind))
            &&& is_class_kind(t[j].kind) ==> step.out.pending.len() == out.pending.len()
                + class_bases(t, j).len() && forall|b: int|
                0 <= b < class_bases(t, j).len() ==> (#[trigger] step.out.pending[out.pending.len()
                    + b]).source_id == r.0.id && step.out.pending[out.pending.len() + b].base_name
                    == class_bases(t, j)[b]
            &&& t[j].kind == "interface_declaration"@ ==> step.out.pending.len()
                == out.pending.len() + interface_bases(t, j).len() && forall|b: int|
                0 <= b < interface_bases(t, j).len() ==> (
                #[trigger] step.out.pending[out.pending.len() + b]).source_id == r.0.id
                    && step.out.pending[out.pending.len() + b].base_name == interface_bases(t, j)[b]
        }),
{
    reveal(enter_named);
    lemma_kinds_differ();
    let step = enter_named(f, t, j, local, stack, out);
    let k = out.records.len() as int;
    let n = step.out.records[k]->Node_0;
    let edge = step.out.records[k + 1]->Edge_0;
    if opens_scope(t[j].kind) || becomes_method(f.path, t[j].kind, kind) {
        assert(step.stack.drop_last() =~= stack);
    }
    (n, edge)
}

/// A node and an edge of the records, for a declaration.
pub open spec fn holds(
    records: Seq<RecordView>,
    n: NodeRecordView,
    edge: EdgeRecordView,
) -> bool {
    records.contains(RecordView::Node(n)) && records.contains(RecordView::Edge(edge))
}

/// A base of this name is to be looked up for the symbol.
pub open spec fn awaits(
    ps: Seq<PendingHeritageView>,
    id: Seq<char>,
    base: Seq<char>,
) -> bool {
    exists|m: int|
        0 <= m < ps.len() && (#[trigger] ps[m]).source_id == id && ps[m].base_name == base
}

proof fn lemma_declared(
    f: TsFileView,
    t: Seq<SyntaxNodeView>,
    j: int,
    kind: Seq<char>,
    local: Seq<char>,
    stack: Seq<TsScopeView>,
    out: TsFindingsView,
) -> (r: (NodeRecordView, EdgeRecordView))
    requires
        visited(f, t, j, stack, out, walk_of(f, t)),
        item_name(t, j) == Some(local),
        becomes(f.path, t[j].kind, kind) || becomes_method(f.path, t[j].kind, kind) && stack.len()
            > 0 && stack.last().kind == ScopeKind::Class,
    ensures
        holds(tree_findings(f, t).records, r.0, r.1),
        is_symbol_of(
            r.0,
            r.1,
            t[j],
            kind,
            qualified(f.path, stack, local),
            owner(f, stack),
        ),
        opens_scope(t[j].kind) ==> ({
            let inner = enter(f, t, j, stack, out).stack;
            inner.len() == stack.len() + 1 && inner.drop_last() == stack && inner.last().name
                == local && inner.last().id == r.0.id && (inner.last().kind == ScopeKind::Class
                <==> is_class_kind(t[j].kind))
        }),
        tree_findings(f, t).definitions.contains((local, r.0.id)),
        is_class_kind(t[j].kind) ==> forall|b: int|
            0 <= b < class_bases(t, j).len() ==> awaits(
                walk_of(f, t).pending,
                r.0.id,
                #[trigger] class_bases(t, j)[b],
            ),
        t[j].kind == "interface_declaration"@ ==> forall|b: int|
            0 <= b < interface_bases(t, j).len() ==> awaits(
                walk_of(f, t).pending,
                r.0.id,
                #[trigger] interface_bases(t, j)[b],
            ),
{
    let all = walk_of(f, t);
    let step = enter(f, t, j, stack, out);
    let k = out.records.len() as int;
    lemma_enter_declared(f, t, j, kind, local, stack, out);
    let (n, edge) = lemma_enter_named(f, t, j, kind, local, stack, out);
    lemma_visit(f, t, j, stack, out, all);
    lemma_tree_keeps(f, t);
    lemma_grows(step.out.records, all.records, tree_findings(f, t).records);
    assert(step.out.records[k] == RecordView::Node(n));
    assert(step.out.records[k + 1] == RecordView::Edge(edge));
    lemma_stays(step.out.records, tree_findings(f, t).records, k);
    lemma_stays(step.out.records, tree_findings(f, t).records, k + 1);
    let d = out.definitions.len() as int;
    assert(step.out.definitions[d] == (local, n.id));
    lemma_stays(step.out.definitions, all.definitions, d);
    if is_class_kind(t[j].kind) {
        assert forall|b: int| 0 <= b < class_bases(t, j).len() implies awaits(
            all.pending,
            n.id,
            #[trigger] class_bases(t, j)[b],
        ) by {
            let m = out.pending.len() + b;
            assert(step.out.pending[m].base_name == class_bases(t, j)[b]);
            assert(all.pending[m] == step.out.pending[m]);
        }
    }
    if t[j].kind == "interface_declaration"@ {
        assert forall|b: int| 0 <= b < interface_bases(t, j).len() implies awaits(
            all.pending,
            n.id,
            #[trigger] interface_bases(t, j)[b],
        ) by {
            let m = out.pending.len() + b;
            assert(step.out.pending[m].base_name == interface_bases(t, j)[b]);
            assert(all.pending[m] == step.out.pending[m]);
        }
    }
    (n, edge)
}

/// Every named declaration that nothing seals off becomes a symbol of its kind at its place, and an
/// edge defines it.
pub proof fn law_every_declaration_is_recorded(
    f: TsFileView,
    t: Seq<SyntaxNodeView>,
    j: int,
    kind: Seq<char>,
    local: Seq<char>,
)
    requires
        in_the_open(t, j),
        field_child(t, j, "name"@) matches Some(x) && text_at(t, x) == local,
        becomes(f.path, t[j].kind, kind),
    ensures
        exists|n: NodeRecordView, edge: EdgeRecordView| #[trigger]
            holds(tree_findings(f, t).records, n, edge) && is_symbol_of(
                n,
                edge,
                t[j],
                kind,
                n.name->0,
                edge.source,
            ) && (n.name->0 == local || ends(n.name->0, "."@ + local)),
{
    let (stack, out) = lemma_visited(f, t, j);
    let (n, edge) = lemma_declared(f, t, j, kind, local, stack, out);
    let scopes = ts_modules(f.path) + scope_names(stack);
    assert(scopes.push(local).drop_last() =~= scopes);
    if scopes.len() == 0 {
        assert(scopes.push(local) =~= seq![local]);
    } else {
        let front = joined(scopes, "."@);
        let name = qualified(f.path, stack, local);
        assert(name =~= front + ("."@ + local));
        assert(name.skip(name.len() - ("."@ + local).len()) =~= "."@ + local);
    }
    assert(holds(tree_findings(f, t).records, n, edge));
}

/// A declaration directly within the file is named after the file's modules, and the file defines
/// it.
pub proof fn law_declarations_of_the_file(
    f: TsFileView,
    t: Seq<SyntaxNodeView>,
    j: int,
    kind: Seq<char>,
    local: Seq<char>,
)
    requires
        directly_in(t, 0, j),
        is_plain(t, 0),
        field_child(t, j, "name"@) matches Some(x) && text_at(t, x) == local,
        becomes(f.path, t[j].kind, kind),
    ensures
        exists|n: NodeRecordView, edge: EdgeRecordView| #[trigger]
            holds(tree_findings(f, t).records, n, edge) && is_symbol_of(
                n,
                edge,
                t[j],
                kind,
                joined(ts_modules(f.path).push(local), "."@),
                f.file_id,
            ),
{
    let (stack, out) = lemma_visited(f, t, 0);
    lemma_enter_plain(f, t, 0, stack, out);
    let mid = lemma_reach(f, t, 0, stack, out, walk_of(f, t), j);
    let (n, edge) = lemma_declared(f, t, j, kind, local, stack, mid);
    assert(ts_modules(f.path) + scope_names(stack) =~= ts_modules(f.path));
}

proof fn lemma_nested_name(
    path: Seq<char>,
    stack: Seq<TsScopeView>,
    inner: Seq<TsScopeView>,
    local: Seq<char>,
)
    requires
        inner.len() == stack.len() + 1,
        inner.drop_last() == stack,
    ensures
        qualified(path, inner, local) == qualified(path, stack, inner.last().name) + "."@ + local,
{
    let outer = (ts_modules(path) + scope_names(stack)).push(inner.last().name);
    let all = (ts_modules(path) + scope_names(inner)).push(local);
    assert(scope_names(inner) =~= scope_names(stack).push(inner.last().name));
    assert(all.drop_last() =~= outer);
    assert(all.last() == local);
    assert(outer.len() > 0);
}

/// A declaration directly within a class, a function or a namespace is named after it, and it
/// defines the declaration; a method counts directly within a class.
pub proof fn law_members_stand_in_their_scope(
    f: TsFileView,
    t: Seq<SyntaxNodeView>,
    c: int,
    scope_kind: Seq<char>,
    scope: Seq<char>,
    j: int,
    kind: Seq<char>,
    local: Seq<char>,
)
    requires
        in_the_open(t, c),
        opens_scope(t[c].kind),
        becomes(f.path, t[c].kind, scope_kind),
        field_child(t, c, "name"@) matches Some(x) && text_at(t, x) == scope,
        directly_in(t, c, j),
        field_child(t, j, "name"@) matches Some(x) && text_at(t, x) == local,
        becomes(f.path, t[j].kind, kind) || becomes_method(f.path, t[j].kind, kind)
            && is_class_kind(t[c].kind),
    ensures
        exists|
            outer: NodeRecordView,
            outer_edge: EdgeRecordView,
            n: NodeRecordView,
            edge: EdgeRecordView,
        |
            {
                &&& #[trigger] holds(tree_findings(f, t).records, outer, outer_edge)
                &&& #[trigger] holds(tree_findings(f, t).records, n, edge)
                &&& is_symbol_of(
                    outer,
                    outer_edge,
                    t[c],
                    scope_kind,
                    outer.name->0,
                    outer_edge.source,
                )
                &&& is_symbol_of(n, edge, t[j], kind, outer.name->0 + "."@ + local, outer.id)
            },
{
    let (stack, out) = lemma_visited(f, t, c);
    lemma_kinds_differ();
    let (outer, outer_edge) = lemma_declared(f, t, c, scope_kind, scope, stack, out);
    let inner = enter(f, t, c, stack, out).stack;
    let mid = lemma_reach(f, t, c, stack, out, walk_of(f, t), j);
    let (n, edge) = lemma_declared(f, t, j, kind, local, inner, mid);
    lemma_nested_name(f.path, stack, inner, local);
    assert(holds(tree_findings(f, t).records, outer, outer_edge));
    assert(holds(tree_findings(f, t).records, n, edge));
}

// ── Imports ─────────────────────────────────────────────────────────────────

/// Every import that nothing seals off is recorded under its text on one line, and an edge leads to
/// it.
pub proof fn law_every_import_is_recorded(f: TsFileView, t: Seq<SyntaxNodeView>, j: int)
    requires
        in_the_open(t, j),
        is_a(t, j, "import_statement"@),
        collapsed(text_at(t, j)).len() > 0,
    ensures
        exists|n: NodeRecordView, edge: EdgeRecordView|
            {
                &&& #[trigger] holds(tree_findings(f, t).records, n, edge)
                &&& n.kind == NodeKind::Import
                &&& n.name == Some(collapsed(text_at(t, j)))
                &&& n.span matches Some(s) && covers(s, t[j])
                &&& edge.label == EdgeLabel::Imports
                &&& edge.target == n.id
            },
{
    let (stack, out) = lemma_visited(f, t, j);
    let all = walk_of(f, t);
    let k = out.records.len() as int;
    lemma_visit(f, t, j, stack, out, all);
    let step = enter(f, t, j, stack, out);
    assert(step.out == with_import(f, t, j, stack, out)) by {
        reveal(enter);
    }
    lemma_tree_keeps(f, t);
    lemma_grows(step.out.records, all.records, tree_findings(f, t).records);
    lemma_stays(step.out.records, tree_findings(f, t).records, k);
    lemma_stays(step.out.records, tree_findings(f, t).records, k + 1);
    let n = step.out.records[k]->Node_0;
    let edge = step.out.records[k + 1]->Edge_0;
    assert(holds(tree_findings(f, t).records, n, edge));
}

// ── Variables ───────────────────────────────────────────────────────────────

/// The kind of symbol that a declarator becomes: by what its value is.
pub open spec fn becomes_variable(
    path: Seq<char>,
    t: Seq<SyntaxNodeView>,
    k: int,
    kind: Seq<char>,
) -> bool {
    match field_child(t, k, "value"@) {
        Some(v) if t[v].kind == "arrow_function"@ || t[v].kind == "function_expression"@ => kind
            == if holds_tests(path) {
            "test"@
        } else {
            "function"@
        },
        _ => kind == "variable"@,
    }
}

proof fn lemma_declarator(
    f: TsFileView,
    t: Seq<SyntaxNodeView>,
    kids: Seq<int>,
    stack: Seq<TsScopeView>,
    out: TsFindingsView,
    m: int,
    kind: Seq<char>,
    local: Seq<char>,
) -> (r: (NodeRecordView, EdgeRecordView))
    requires
        0 <= m < kids.len(),
        0 <= kids[m] < t.len(),
        is_a(t, kids[m], "variable_declarator"@),
        field_child(t, kids[m], "name"@) matches Some(x) && is_a(t, x, "identifier"@) && text_at(
            t,
            x,
        ) == local,
        field_child(t, kids[m], "value"@) matches Some(v) ==> 0 <= v < t.len(),
        becomes_variable(f.path, t, kids[m], kind),
    ensures
        holds(with_declarators(f, t, kids, stack, out).records, r.0, r.1),
        is_symbol_of(
            r.0,
            r.1,
            t[kids[m]],
            kind,
            qualified(f.path, stack, local),
            owner(f, stack),
        ),
    decreases kids.len(),
{
    let rest = kids.drop_last();
    let before = with_declarators(f, t, rest, stack, out);
    let all = with_declarators(f, t, kids, stack, out);
    if m < rest.len() {
        assert(rest[m] == kids[m]);
        let (n, edge) = lemma_declarator(f, t, rest, stack, out, m, kind, local);
        assert(grows(before.records, all.records));
        let a = choose|a: int|
            0 <= a < before.records.len() && before.records[a] == RecordView::Node(n);
        let b = choose|b: int|
            0 <= b < before.records.len() && before.records[b] == RecordView::Edge(edge);
        lemma_stays(before.records, all.records, a);
        lemma_stays(before.records, all.records, b);
        (n, edge)
    } else {
        let k = before.records.len() as int;
        let n = all.records[k]->Node_0;
        let edge = all.records[k + 1]->Edge_0;
        assert(all.records[k] == RecordView::Node(n));
        assert(all.records[k + 1] == RecordView::Edge(edge));
        (n, edge)
    }
}

/// A variable that is declared directly within the file becomes a symbol: a function where its value
/// is one.
pub proof fn law_variables_of_the_file(
    f: TsFileView,
    t: Seq<SyntaxNodeView>,
    j: int,
    k: int,
    kind: Seq<char>,
    local: Seq<char>,
)
    requires
        directly_in(t, 0, j),
        is_plain(t, 0),
        is_a(t, j, "lexical_declaration"@) || is_a(t, j, "variable_declaration"@),
        child_of(t, j, k),
        is_a(t, k, "variable_declarator"@),
        field_child(t, k, "name"@) matches Some(x) && is_a(t, x, "identifier"@) && text_at(t, x)
            == local,
        becomes_variable(f.path, t, k, kind),
    ensures
        exists|n: NodeRecordView, edge: EdgeRecordView| #[trigger]
            holds(tree_findings(f, t).records, n, edge) && is_symbol_of(
                n,
                edge,
                t[k],
                kind,
                joined(ts_modules(f.path).push(local), "."@),
                f.file_id,
            ),
{
    let (stack, out) = lemma_visited(f, t, 0);
    lemma_enter_plain(f, t, 0, stack, out);
    let all = walk_of(f, t);
    let mid = lemma_reach(f, t, 0, stack, out, all, j);
    lemma_visit(f, t, j, stack, mid, all);
    let step = enter(f, t, j, stack, mid);
    let kids = named_children(t, j);
    lemma_kinds_differ();
    assert(step.out == with_declarators(f, t, kids, stack, mid)) by {
        reveal(enter);
    }
    law_named_children(t, j);
    assert(kids.contains(k));
    let m = choose|m: int| 0 <= m < kids.len() && kids[m] == k;
    crate::laws::rust_items::law_field_child(t, k, "value"@);
    let (n, edge) = lemma_declarator(f, t, kids, stack, mid, m, kind, local);
    assert(ts_modules(f.path) + scope_names(stack) =~= ts_modules(f.path));
    lemma_tree_keeps(f, t);
    let records = tree_findings(f, t).records;
    lemma_grows(step.out.records, all.records, records);
    let a = choose|a: int|
        0 <= a < step.out.records.len() && step.out.records[a] == RecordView::Node(n);
    let b = choose|b: int|
        0 <= b < step.out.records.len() && step.out.records[b] == RecordView::Edge(edge);
    lemma_stays(step.out.records, records, a);
    lemma_stays(step.out.records, records, b);
    assert(holds(records, n, edge));
}

/// A variable within a function leaves nothing.
pub proof fn law_inner_variables_leave_nothing(
    f: TsFileView,
    t: Seq<SyntaxNodeView>,
    j: int,
    stack: Seq<TsScopeView>,
    out: TsFindingsView,
    m: int,
)
    requires
        0 <= j < t.len(),
        is_a(t, j, "lexical_declaration"@) || is_a(t, j, "variable_declaration"@),
        0 <= m < stack.len(),
        stack[m].kind == ScopeKind::Function,
    ensures
        walked(f, t, j, stack, out) == out,
{
    reveal(enter);
    lemma_kinds_differ();
    assert(in_function(stack));
}

/// A method that stands directly within no class leaves nothing of its own.
pub proof fn law_loose_methods_leave_nothing(
    f: TsFileView,
    t: Seq<SyntaxNodeView>,
    j: int,
    stack: Seq<TsScopeView>,
    out: TsFindingsView,
)
    requires
        0 <= j < t.len(),
        is_a(t, j, "method_definition"@),
        stack.len() == 0 || stack.last().kind != ScopeKind::Class,
    ensures
        enter(f, t, j, stack, out).out == out,
        enter(f, t, j, stack, out).stack == stack,
{
    reveal(enter);
    lemma_kinds_differ();
    assert(!in_class(stack));
    assert(!is_declaration(t, j, stack));
}

// ── Heritage ────────────────────────────────────────────────────────────────

proof fn lemma_base(t: Seq<SyntaxNodeView>, kids: Seq<int>, m: int)
    requires
        0 <= m < kids.len(),
        is_a(t, kids[m], "identifier"@) || is_a(t, kids[m], "type_identifier"@),
    ensures
        bases_of(t, kids).contains(text_at(t, kids[m])),
    decreases kids.len(),
{
    let rest = kids.drop_last();
    let all = bases_of(t, kids);
    let base = text_at(t, kids[m]);
    if m < rest.len() {
        assert(rest[m] == kids[m]);
        lemma_base(t, rest, m);
        let n = choose|n: int| 0 <= n < bases_of(t, rest).len() && bases_of(t, rest)[n] == base;
        assert(all[n] == base);
    } else {
        assert(all.last() == base);
    }
}

proof fn lemma_clause(t: Seq<SyntaxNodeView>, kids: Seq<int>, m: int, base: Seq<char>)
    requires
        0 <= m < kids.len(),
        is_a(t, kids[m], "extends_clause"@) || is_a(t, kids[m], "implements_clause"@),
        bases_of(t, named_children(t, kids[m])).contains(base),
    ensures
        clauses_of(t, kids, true).contains(base),
    decreases kids.len(),
{
    let rest = kids.drop_last();
    let before = clauses_of(t, rest, true);
    let all = clauses_of(t, kids, true);
    if m < rest.len() {
        assert(rest[m] == kids[m]);
        lemma_clause(t, rest, m, base);
        let n = choose|n: int| 0 <= n < before.len() && before[n] == base;
        assert(all[n] == base);
    } else {
        let here = bases_of(t, named_children(t, kids[m]));
        let n = choose|n: int| 0 <= n < here.len() && here[n] == base;
        assert(all[before.len() + n] == base);
    }
}

proof fn lemma_heritage(t: Seq<SyntaxNodeView>, kids: Seq<int>, m: int, base: Seq<char>)
    requires
        0 <= m < kids.len(),
        is_a(t, kids[m], "class_heritage"@),
        clauses_of(t, named_children(t, kids[m]), true).contains(base),
    ensures
        heritages_of(t, kids).contains(base),
    decreases kids.len(),
{
    let rest = kids.drop_last();
    let before = heritages_of(t, rest);
    let all = heritages_of(t, kids);
    if m < rest.len() {
        assert(rest[m] == kids[m]);
        lemma_heritage(t, rest, m, base);
        let n = choose|n: int| 0 <= n < before.len() && before[n] == base;
        assert(all[n] == base);
    } else {
        let here = clauses_of(t, named_children(t, kids[m]), true);
        let n = choose|n: int| 0 <= n < here.len() && here[n] == base;
        assert(all[before.len() + n] == base);
    }
}

proof fn lemma_inherits(ps: Seq<PendingHeritageView>, out: TsFindingsView, m: int) -> (edge:
    EdgeRecordView)
    requires
        0 <= m < ps.len(),
        lookup(out.definitions, ps[m].base_name) is Some,
    ensures
        inherited(ps, out).records.contains(RecordView::Edge(edge)),
        edge.label == EdgeLabel::Implements,
        edge.source == ps[m].source_id,
        Some(edge.target) == lookup(out.definitions, ps[m].base_name),
    decreases ps.len(),
{
    let rest = ps.drop_last();
    let before = inherited(rest, out);
    let all = inherited(ps, out);
    lemma_inherited_keeps(rest, out);
    if m < rest.len() {
        assert(rest[m] == ps[m]);
        let edge = lemma_inherits(rest, out, m);
        let n = choose|n: int|
            0 <= n < before.records.len() && before.records[n] == RecordView::Edge(edge);
        assert(all.records[n] == RecordView::Edge(edge));
        edge
    } else {
        let edge = all.records.last()->Edge_0;
        assert(all.records[all.records.len() - 1] == RecordView::Edge(edge));
        edge
    }
}

/// A class inherits from what the file declares under the name of its base: an edge leads from the
/// class to a definition of that name.
pub proof fn law_classes_inherit(
    f: TsFileView,
    t: Seq<SyntaxNodeView>,
    c: int,
    scope: Seq<char>,
    h: int,
    clause: int,
    b: int,
    d: int,
    kind: Seq<char>,
)
    requires
        in_the_open(t, c),
        is_class_kind(t[c].kind),
        field_child(t, c, "name"@) matches Some(x) && text_at(t, x) == scope,
        child_of(t, c, h) && is_a(t, h, "class_heritage"@),
        child_of(t, h, clause),
        is_a(t, clause, "extends_clause"@) || is_a(t, clause, "implements_clause"@),
        child_of(t, clause, b),
        is_a(t, b, "identifier"@) || is_a(t, b, "type_identifier"@),
        in_the_open(t, d),
        becomes(f.path, t[d].kind, kind),
        field_child(t, d, "name"@) matches Some(x) && text_at(t, x) == text_at(t, b),
    ensures
        exists|n: NodeRecordView, own: EdgeRecordView, edge: EdgeRecordView|
            {
                &&& #[trigger] holds(tree_findings(f, t).records, n, own)
                &&& is_symbol_of(n, own, t[c], "class"@, n.name->0, own.source)
                &&& #[trigger] tree_findings(f, t).records.contains(RecordView::Edge(edge))
                &&& edge.label == EdgeLabel::Implements
                &&& edge.source == n.id
                &&& tree_findings(f, t).definitions.contains((text_at(t, b), edge.target))
            },
{
    let base = text_at(t, b);
    let all = walk_of(f, t);
    law_named_children(t, c);
    law_named_children(t, h);
    law_named_children(t, clause);
    assert(named_children(t, c).contains(h));
    assert(named_children(t, h).contains(clause));
    assert(named_children(t, clause).contains(b));
    let mh = choose|m: int| 0 <= m < named_children(t, c).len() && named_children(t, c)[m] == h;
    let mc = choose|m: int|
        0 <= m < named_children(t, h).len() && named_children(t, h)[m] == clause;
    let mb = choose|m: int|
        0 <= m < named_children(t, clause).len() && named_children(t, clause)[m] == b;
    lemma_base(t, named_children(t, clause), mb);
    lemma_clause(t, named_children(t, h), mc, base);
    lemma_heritage(t, named_children(t, c), mh, base);
    assert(class_bases(t, c).contains(base));
    let at = choose|m: int| 0 <= m < class_bases(t, c).len() && class_bases(t, c)[m] == base;

    let (stack, out) = lemma_visited(f, t, c);
    let (n, own) = lemma_declared(f, t, c, "class"@, scope, stack, out);
    let (other, before) = lemma_visited(f, t, d);
    let (dn, dedge) = lemma_declared(f, t, d, kind, base, other, before);
    lemma_tree_keeps(f, t);
    let defs = tree_findings(f, t).definitions;
    lemma_found(defs, base, dn.id);
    assert(class_bases(t, c)[at] == base);
    let m = choose|m: int|
        0 <= m < all.pending.len() && (#[trigger] all.pending[m]).source_id == n.id
            && all.pending[m].base_name == base;
    let start = TsFindingsView { pending: Seq::empty(), ..all };
    let edge = lemma_inherits(all.pending, start, m);
    assert(tree_findings(f, t).records.contains(RecordView::Edge(edge)));
    assert(holds(tree_findings(f, t).records, n, own));
}

proof fn lemma_extension(t: Seq<SyntaxNodeView>, kids: Seq<int>, m: int, base: Seq<char>)
    requires
        0 <= m < kids.len(),
        is_a(t, kids[m], "extends_clause"@),
        bases_of(t, named_children(t, kids[m])).contains(base),
    ensures
        clauses_of(t, kids, false).contains(base),
    decreases kids.len(),
{
    let rest = kids.drop_last();
    let before = clauses_of(t, rest, false);
    let all = clauses_of(t, kids, false);
    if m < rest.len() {
        assert(rest[m] == kids[m]);
        lemma_extension(t, rest, m, base);
        let n = choose|n: int| 0 <= n < before.len() && before[n] == base;
        assert(all[n] == base);
    } else {
        let here = bases_of(t, named_children(t, kids[m]));
        let n = choose|n: int| 0 <= n < here.len() && here[n] == base;
        assert(all[before.len() + n] == base);
    }
}

/// An interface extends what the file declares under the name of its base: an edge leads from the
/// interface to a definition of that name.
pub proof fn law_interfaces_extend(
    f: TsFileView,
    t: Seq<SyntaxNodeView>,
    c: int,
    local: Seq<char>,
    clause: int,
    b: int,
    d: int,
    kind: Seq<char>,
)
    requires
        in_the_open(t, c),
        t[c].kind == "interface_declaration"@,
        field_child(t, c, "name"@) matches Some(x) && text_at(t, x) == local,
        child_of(t, c, clause),
        is_a(t, clause, "extends_clause"@),
        child_of(t, clause, b),
        is_a(t, b, "identifier"@) || is_a(t, b, "type_identifier"@),
        in_the_open(t, d),
        becomes(f.path, t[d].kind, kind),
        field_child(t, d, "name"@) matches Some(x) && text_at(t, x) == text_at(t, b),
    ensures
        exists|n: NodeRecordView, own: EdgeRecordView, edge: EdgeRecordView|
            {
                &&& #[trigger] holds(tree_findings(f, t).records, n, own)
                &&& is_symbol_of(n, own, t[c], "interface"@, n.name->0, own.source)
                &&& #[trigger] tree_findings(f, t).records.contains(RecordView::Edge(edge))
                &&& edge.label == EdgeLabel::Implements
                &&& edge.source == n.id
                &&& tree_findings(f, t).definitions.contains((text_at(t, b), edge.target))
            },
{
    let base = text_at(t, b);
    let all = walk_of(f, t);
    law_named_children(t, c);
    law_named_children(t, clause);
    assert(named_children(t, c).contains(clause));
    assert(named_children(t, clause).contains(b));
    let mc = choose|m: int|
        0 <= m < named_children(t, c).len() && named_children(t, c)[m] == clause;
    let mb = choose|m: int|
        0 <= m < named_children(t, clause).len() && named_children(t, clause)[m] == b;
    lemma_base(t, named_children(t, clause), mb);
    lemma_extension(t, named_children(t, c), mc, base);
    assert(interface_bases(t, c).contains(base));
    let at = choose|m: int|
        0 <= m < interface_bases(t, c).len() && interface_bases(t, c)[m] == base;

    let (stack, out) = lemma_visited(f, t, c);
    let (n, own) = lemma_declared(f, t, c, "interface"@, local, stack, out);
    let (other, before) = lemma_visited(f, t, d);
    let (dn, dedge) = lemma_declared(f, t, d, kind, base, other, before);
    lemma_tree_keeps(f, t);
    lemma_found(tree_findings(f, t).definitions, base, dn.id);
    assert(interface_bases(t, c)[at] == base);
    let m = choose|m: int|
        0 <= m < all.pending.len() && (#[trigger] all.pending[m]).source_id == n.id
            && all.pending[m].base_name == base;
    let start = TsFindingsView { pending: Seq::empty(), ..all };
    let edge = lemma_inherits(all.pending, start, m);
    assert(tree_findings(f, t).records.contains(RecordView::Edge(edge)));
    assert(holds(tree_findings(f, t).records, n, own));
}

proof fn lemma_found(s: Seq<(Seq<char>, Seq<char>)>, key: Seq<char>, value: Seq<char>)
    requires
        s.contains((key, value)),
    ensures
        lookup(s, key) matches Some(v) && s.contains((key, v)),
    decreases s.len(),
{
    let rest = s.drop_last();
    if s.last().0 == key {
        assert(s[s.len() - 1] == (key, s.last().1));
    } else {
        let m = choose|m: int| 0 <= m < s.len() && s[m] == (key, value);
        assert(rest[m] == (key, value));
        lemma_found(rest, key, value);
        let v = lookup(rest, key)->0;
        let n = choose|n: int| 0 <= n < rest.len() && rest[n] == (key, v);
        assert(s[n] == (key, v));
    }
}

// ── Where records come from ─────────────────────────────────────────────────

/// The kind of symbol that a node of the tree can become.
pub open spec fn may_become(item: Seq<char>, kind: Seq<char>) -> bool {
    ||| is_class_kind(item) && kind == "class"@
    ||| item == "interface_declaration"@ && kind == "interface"@
    ||| item == "type_alias_declaration"@ && kind == "type"@
    ||| item == "enum_declaration"@ && kind == "enum"@
    ||| item == "internal_module"@ && kind == "namespace"@
    ||| (item == "function_declaration"@ || item == "generator_function_declaration"@) && (kind
        == "function"@ || kind == "test"@)
    ||| item == "method_definition"@ && (kind == "method"@ || kind == "test"@)
    ||| item == "variable_declarator"@ && (kind == "variable"@ || kind == "function"@ || kind
        == "test"@)
}

/// The record stands for the node of the tree at `j`.
pub open spec fn stands_for(t: Seq<SyntaxNodeView>, j: int, n: NodeRecordView) -> bool {
    &&& 0 <= j < t.len()
    &&& n.span matches Some(s) && covers(s, t[j])
    &&& match n.kind {
        NodeKind::Import => t[j].kind == "import_statement"@,
        _ => n.code.symbol_kind matches Some(kind) && may_become(t[j].kind, kind),
    }
}

/// The record is an edge, or stands for a node of the tree.
pub open spec fn has_origin(t: Seq<SyntaxNodeView>, r: RecordView) -> bool {
    r matches RecordView::Node(n) ==> exists|j: int| #[trigger] stands_for(t, j, n)
}

pub open spec fn all_have_origin(t: Seq<SyntaxNodeView>, s: Seq<RecordView>) -> bool {
    forall|k: int| 0 <= k < s.len() ==> has_origin(t, #[trigger] s[k])
}

proof fn lemma_origin_declared(
    f: TsFileView,
    t: Seq<SyntaxNodeView>,
    i: int,
    kind: Seq<char>,
    local: Seq<char>,
    stack: Seq<TsScopeView>,
    out: TsFindingsView,
)
    requires
        0 <= i < t.len(),
        may_become(t[i].kind, kind),
        all_have_origin(t, out.records),
    ensures
        all_have_origin(t, with_declaration(f, t, i, kind, local, stack, out).records),
{
    let all = with_declaration(f, t, i, kind, local, stack, out).records;
    let k = out.records.len() as int;
    assert(stands_for(t, i, all[k]->Node_0));
    assert forall|m: int| 0 <= m < all.len() implies has_origin(t, #[trigger] all[m]) by {
        if m < k {
            assert(all[m] == out.records[m]);
        }
    }
}

proof fn lemma_origin_named(
    f: TsFileView,
    t: Seq<SyntaxNodeView>,
    i: int,
    local: Seq<char>,
    stack: Seq<TsScopeView>,
    out: TsFindingsView,
)
    requires
        0 <= i < t.len(),
        is_declaration(t, i, stack),
        all_have_origin(t, out.records),
    ensures
        all_have_origin(t, enter_named(f, t, i, local, stack, out).out.records),
{
    reveal(enter_named);
    lemma_kinds_differ();
    let kind = if is_class_kind(t[i].kind) {
        "class"@
    } else if is_a(t, i, "interface_declaration"@) {
        "interface"@
    } else if is_a(t, i, "type_alias_declaration"@) {
        "type"@
    } else if is_a(t, i, "enum_declaration"@) {
        "enum"@
    } else if is_a(t, i, "method_definition"@) {
        function_kind(f, "method"@)
    } else if is_a(t, i, "internal_module"@) {
        "namespace"@
    } else {
        function_kind(f, "function"@)
    };
    lemma_origin_declared(f, t, i, kind, local, stack, out);
    assert(enter_named(f, t, i, local, stack, out).out.records == with_declaration(
        f,
        t,
        i,
        kind,
        local,
        stack,
        out,
    ).records);
}

proof fn lemma_origin_declarators(
    f: TsFileView,
    t: Seq<SyntaxNodeView>,
    kids: Seq<int>,
    stack: Seq<TsScopeView>,
    out: TsFindingsView,
)
    requires
        all_have_origin(t, out.records),
    ensures
        all_have_origin(t, with_declarators(f, t, kids, stack, out).records),
    decreases kids.len(),
{
    if kids.len() > 0 {
        let i = kids.last();
        lemma_origin_declarators(f, t, kids.drop_last(), stack, out);
        let before = with_declarators(f, t, kids.drop_last(), stack, out);
        let all = with_declarators(f, t, kids, stack, out);
        if all.records != before.records {
            let n = field_child(t, i, "name"@)->0;
            let local = text_at(t, n);
            lemma_origin_declared(f, t, i, "variable"@, local, stack, before);
            lemma_origin_declared(f, t, i, function_kind(f, "function"@), local, stack, before);
        }
    }
}

proof fn lemma_origin_import(
    f: TsFileView,
    t: Seq<SyntaxNodeView>,
    i: int,
    stack: Seq<TsScopeView>,
    out: TsFindingsView,
)
    requires
        0 <= i < t.len(),
        is_a(t, i, "import_statement"@),
        all_have_origin(t, out.records),
    ensures
        all_have_origin(t, with_import(f, t, i, stack, out).records),
{
    let all = with_import(f, t, i, stack, out).records;
    let k = out.records.len() as int;
    if all.len() > k {
        assert(stands_for(t, i, all[k]->Node_0));
    }
    assert forall|m: int| 0 <= m < all.len() implies has_origin(t, #[trigger] all[m]) by {
        if m < k {
            assert(all[m] == out.records[m]);
        }
    }
}

proof fn lemma_origin_entered(
    f: TsFileView,
    t: Seq<SyntaxNodeView>,
    i: int,
    stack: Seq<TsScopeView>,
    out: TsFindingsView,
)
    requires
        0 <= i < t.len(),
        all_have_origin(t, out.records),
    ensures
        all_have_origin(t, enter(f, t, i, stack, out).out.records),
{
    reveal(enter);
    if is_a(t, i, "import_statement"@) {
        lemma_origin_import(f, t, i, stack, out);
    } else if is_declaration(t, i, stack) {
        if let Some(local) = item_name(t, i) {
            lemma_origin_named(f, t, i, local, stack, out);
        }
    } else {
        lemma_origin_declarators(f, t, named_children(t, i), stack, out);
    }
}

proof fn lemma_origin_walked(
    f: TsFileView,
    t: Seq<SyntaxNodeView>,
    i: int,
    kids: Seq<int>,
    stack: Seq<TsScopeView>,
    out: TsFindingsView,
)
    requires
        all_have_origin(t, out.records),
    ensures
        all_have_origin(t, walk_over(f, t, i, kids, stack, out).records),
    decreases t.len() - i, kids.len(),
{
    if kids.len() > 0 && 0 <= i < t.len() {
        let k = kids.last();
        lemma_origin_walked(f, t, i, kids.drop_last(), stack, out);
        let next = walk_over(f, t, i, kids.drop_last(), stack, out);
        if i < k < t.len() {
            lemma_origin_entered(f, t, k, stack, next);
            let step = enter(f, t, k, stack, next);
            if step.descend {
                lemma_origin_walked(f, t, k, named_children(t, k), step.stack, step.out);
            }
        }
    }
}

proof fn lemma_origin_inherited(
    t: Seq<SyntaxNodeView>,
    ps: Seq<PendingHeritageView>,
    out: TsFindingsView,
)
    requires
        all_have_origin(t, out.records),
    ensures
        all_have_origin(t, inherited(ps, out).records),
    decreases ps.len(),
{
    if ps.len() > 0 {
        lemma_origin_inherited(t, ps.drop_last(), out);
        let before = inherited(ps.drop_last(), out).records;
        let all = inherited(ps, out).records;
        assert forall|m: int| 0 <= m < all.len() implies has_origin(t, #[trigger] all[m]) by {
            if m < before.len() {
                assert(all[m] == before[m]);
            }
        }
    }
}

/// Nothing is made up: every import and every symbol stands for a node of the tree, of a kind that
/// becomes it.
pub proof fn law_records_have_their_origin(f: TsFileView, t: Seq<SyntaxNodeView>)
    ensures
        all_have_origin(t, tree_findings(f, t).records),
{
    let all = if t.len() == 0 {
        TsFindingsView::none()
    } else {
        walk_of(f, t)
    };
    if t.len() > 0 {
        lemma_origin_entered(f, t, 0, Seq::empty(), TsFindingsView::none());
        let step = enter(f, t, 0, Seq::empty(), TsFindingsView::none());
        lemma_origin_walked(f, t, 0, named_children(t, 0), step.stack, step.out);
    }
    lemma_origin_inherited(t, all.pending, TsFindingsView { pending: Seq::empty(), ..all });
}

/// The modules that a file stands for are its directories and its name; the name of a barrel does
/// not count.
pub proof fn law_module_names(path: Seq<char>, dirs: Seq<Seq<char>>, stem: Seq<char>)
    ensures
        segments(path) == dirs.push("index.ts"@) ==> ts_modules(path) == dirs,
        segments(path) == dirs.push(stem + ".ts"@) && !(stem + ".ts"@ == "index.ts"@) && ends(
            stem,
            ".d"@,
        ) == false && !(stem + ".ts"@ == "index.d.ts"@) ==> ts_modules(path) == dirs.push(stem),
{
    let name = stem + ".ts"@;
    assert(dirs.push("index.ts"@).drop_last() =~= dirs);
    assert(dirs.push(name).drop_last() =~= dirs);
    assert(dirs.push(name).last() == name);
    reveal_strlit(".ts");
    reveal_strlit(".tsx");
    reveal_strlit(".d.ts");
    reveal_strlit(".d.tsx");
    reveal_strlit(".d");
    reveal_strlit("index.tsx");
    reveal_strlit("index.d.tsx");
    assert(name.last() == 's');
    assert(".d.tsx"@.last() == 'x' && "index.tsx"@.last() == 'x' && "index.d.tsx"@.last() == 'x');
    assert(name.subrange(name.len() - 3, name.len() as int) =~= ".ts"@);
    assert(name.take(name.len() - 3) =~= stem);
    if ends(name, ".d.tsx"@) {
        let k = name.len() - 6;
        assert(name.subrange(k, k + 6)[5] == ".d.tsx"@[5]);
    }
    if ends(name, ".d.ts"@) {
        let k = name.len() - 5;
        assert(name.subrange(k, k + 5)[0] == ".d.ts"@[0]);
        assert(name.subrange(k, k + 5)[1] == ".d.ts"@[1]);
        assert(stem.subrange(stem.len() - 2, stem.len() as int) =~= ".d"@);
    }
}

} // verus!
