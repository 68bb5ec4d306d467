//! What a Rust syntax tree holds, extraction finds.
use vstd::prelude::*;

use crate::languages::common::item_name;
use crate::languages::facts::FileFactsView;
use crate::languages::rust::calls::{
    function_env, note_site, sites_over, CallerView, TypeEnvView,
};
use crate::languages::rust::extract::{
    direct_impl_method, direct_trait_method, enter, enter_item, function_kind, function_name,
    named_kind, next_symbol_id, panic_risk, walk_over, walked, with_definition, with_function,
    with_impl, with_import, with_macro, with_markers, with_module, with_named, with_panic_risk,
    with_signature, with_symbol, with_unsafe_item, with_unsafe_site, FileSourceView, FindingsView,
    PendingImplEdgeView,
};
use crate::languages::rust::file::{file_scope, tree_findings};
use crate::languages::rust::markers::{markers_from, CommentMarkerView};
use crate::languages::rust::resolve::{resolve_one, resolved};
use crate::languages::rust::scope::ScopeView;
use crate::languages::syntax::{children_from, is_a, named_children, text_at, SyntaxNodeView};
use crate::policy::Redactor;

verus! {

// ── The tree ────────────────────────────────────────────────────────────────

/// The node at `j` is a named child of the node at `p`: one level deeper, with nothing of the
/// parent's level or above between them.
pub open spec fn child_of(t: Seq<SyntaxNodeView>, p: int, j: int) -> bool {
    &&& 0 <= p < j < t.len()
    &&& t[j].named
    &&& t[j].depth == t[p].depth + 1
    &&& forall|m: int| p < m < j ==> (#[trigger] t[m]).depth > t[p].depth
}

proof fn lemma_children_from(t: Seq<SyntaxNodeView>, p: int, from: int, j: int)
    requires
        child_of(t, p, j),
        p < from <= j,
    ensures
        children_from(t, p, from, true).contains(j),
    decreases j - from,
{
    let all = children_from(t, p, from, true);
    if from == j {
        assert(all[0] == j);
    } else {
        lemma_children_from(t, p, from + 1, j);
        let rest = children_from(t, p, from + 1, true);
        let k = choose|k: int| 0 <= k < rest.len() && rest[k] == j;
        if t[from].depth == t[p].depth + 1 && t[from].named {
            assert(all[k + 1] == j);
        }
    }
}

proof fn lemma_children_back(t: Seq<SyntaxNodeView>, p: int, from: int)
    requires
        0 <= p < from,
        forall|m: int| p < m < from ==> (#[trigger] t[m]).depth > t[p].depth,
    ensures
        forall|k: int|
            0 <= k < children_from(t, p, from, true).len() ==> child_of(
                t,
                p,
                #[trigger] children_from(t, p, from, true)[k],
            ),
    decreases t.len() - from,
{
    if from < t.len() && t[from].depth > t[p].depth {
        lemma_children_back(t, p, from + 1);
        let rest = children_from(t, p, from + 1, true);
        if t[from].depth == t[p].depth + 1 && t[from].named {
            let all = children_from(t, p, from, true);
            assert(all =~= seq![from] + rest);
            assert forall|k: int| 0 <= k < all.len() implies child_of(t, p, #[trigger] all[k]) by {
                if k > 0 {
                    assert(all[k] == rest[k - 1]);
                }
            }
        }
    }
}

/// The named children of a node are exactly these.
pub proof fn law_named_children(t: Seq<SyntaxNodeView>, p: int)
    requires
        0 <= p,
    ensures
        forall|j: int| #[trigger] named_children(t, p).contains(j) <==> child_of(t, p, j),
{
    assert forall|j: int| #[trigger] named_children(t, p).contains(j) <==> child_of(t, p, j) by {
        if child_of(t, p, j) {
            lemma_children_from(t, p, p + 1, j);
        }
        lemma_children_back(t, p, p + 1);
    }
}

// ── Growth ──────────────────────────────────────────────────────────────────

/// `b` goes on where `a` ends.
pub open spec fn grows<A>(a: Seq<A>, b: Seq<A>) -> bool {
    a.len() <= b.len() && forall|i: int| 0 <= i < a.len() ==> a[i] == #[trigger] b[i]
}

/// What was found stays.
pub open spec fn extends(a: FindingsView, b: FindingsView) -> bool {
    &&& grows(a.records, b.records)
    &&& grows(a.facts.definitions, b.facts.definitions)
    &&& grows(a.facts.call_sites, b.facts.call_sites)
    &&& grows(a.facts.construct_sites, b.facts.construct_sites)
    &&& grows(a.facts.route_registration_sites, b.facts.route_registration_sites)
    &&& grows(a.facts.impl_targets, b.facts.impl_targets)
    &&& grows(a.facts.impl_trait_relations, b.facts.impl_trait_relations)
    &&& grows(a.facts.out_of_line_mods, b.facts.out_of_line_mods)
    &&& grows(a.bodies, b.bodies)
}

pub proof fn lemma_grows<A>(a: Seq<A>, b: Seq<A>, c: Seq<A>)
    requires
        grows(a, b),
        grows(b, c),
    ensures
        grows(a, c),
{
    assert forall|i: int| 0 <= i < a.len() implies a[i] == #[trigger] c[i] by {
        assert(a[i] == b[i]);
    }
}

pub proof fn lemma_extends(a: FindingsView, b: FindingsView, c: FindingsView)
    requires
        extends(a, b),
        extends(b, c),
    ensures
        extends(a, c),
{
    lemma_grows(a.records, b.records, c.records);
    lemma_grows(a.facts.definitions, b.facts.definitions, c.facts.definitions);
    lemma_grows(a.facts.call_sites, b.facts.call_sites, c.facts.call_sites);
    lemma_grows(a.facts.construct_sites, b.facts.construct_sites, c.facts.construct_sites);
    lemma_grows(
        a.facts.route_registration_sites,
        b.facts.route_registration_sites,
        c.facts.route_registration_sites,
    );
    lemma_grows(a.facts.impl_targets, b.facts.impl_targets, c.facts.impl_targets);
    lemma_grows(
        a.facts.impl_trait_relations,
        b.facts.impl_trait_relations,
        c.facts.impl_trait_relations,
    );
    lemma_grows(a.facts.out_of_line_mods, b.facts.out_of_line_mods, c.facts.out_of_line_mods);
    lemma_grows(a.bodies, b.bodies, c.bodies);
}

/// Sites are only ever added, and nothing else of the facts changes.
pub open spec fn adds_sites(a: FileFactsView, b: FileFactsView) -> bool {
    &&& grows(a.call_sites, b.call_sites)
    &&& grows(a.construct_sites, b.construct_sites)
    &&& grows(a.route_registration_sites, b.route_registration_sites)
    &&& b == (FileFactsView {
        call_sites: b.call_sites,
        construct_sites: b.construct_sites,
        route_registration_sites: b.route_registration_sites,
        ..a
    })
}

pub proof fn lemma_sites_grow(
    t: Seq<SyntaxNodeView>,
    i: int,
    kids: Seq<int>,
    sc: ScopeView,
    env: TypeEnvView,
    caller: CallerView,
    facts: FileFactsView,
)
    ensures
        adds_sites(facts, sites_over(t, i, kids, sc, env, caller, facts)),
    decreases t.len() - i, kids.len(),
{
    if kids.len() > 0 && 0 <= i < t.len() {
        let k = kids.last();
        lemma_sites_grow(t, i, kids.drop_last(), sc, env, caller, facts);
        let next = sites_over(t, i, kids.drop_last(), sc, env, caller, facts);
        if i < k < t.len() {
            let noted = note_site(t, k, sc, env, caller, next);
            assert(adds_sites(next, noted));
            lemma_adds(facts, next, noted);
            lemma_sites_grow(t, k, named_children(t, k), sc, env, caller, noted);
            lemma_adds(
                facts,
                noted,
                sites_over(t, k, named_children(t, k), sc, env, caller, noted),
            );
        }
    }
}

pub proof fn lemma_adds(a: FileFactsView, b: FileFactsView, c: FileFactsView)
    requires
        adds_sites(a, b),
        adds_sites(b, c),
    ensures
        adds_sites(a, c),
{
    lemma_grows(a.call_sites, b.call_sites, c.call_sites);
    lemma_grows(a.construct_sites, b.construct_sites, c.construct_sites);
    lemma_grows(
        a.route_registration_sites,
        b.route_registration_sites,
        c.route_registration_sites,
    );
}

proof fn lemma_markers_extend<R: Redactor>(
    e: FileSourceView<R>,
    n: SyntaxNodeView,
    ms: Seq<CommentMarkerView>,
    out: FindingsView,
)
    ensures
        extends(out, with_markers(e, n, ms, out)),
    decreases ms.len(),
{
    if ms.len() > 0 {
        lemma_markers_extend(e, n, ms.drop_last(), out);
        let before = with_markers(e, n, ms.drop_last(), out);
        lemma_extends(out, before, with_markers(e, n, ms, out));
    }
}

pub proof fn lemma_function_extends<R: Redactor>(
    e: FileSourceView<R>,
    t: Seq<SyntaxNodeView>,
    i: int,
    local: Seq<char>,
    sc: ScopeView,
    out: FindingsView,
)
    ensures
        extends(out, with_function(e, t, i, local, sc, out)),
{
    let kind = function_kind(t, i, sc);
    let name = function_name(t, i, local, sc);
    let id = next_symbol_id(e, kind, name, out);
    let symbol = with_symbol(e, t, i, kind, name, sc, out);
    let caller = CallerView { id, name };
    let env = function_env(t, i);
    lemma_sites_grow(t, i, named_children(t, i), sc, env, caller, symbol.facts);
    let of_trait = direct_trait_method(t, i, sc);
    let of_impl = direct_impl_method(t, i, sc);
    let defined = with_definition(e, id, kind, name, local, of_trait, of_impl, sc, symbol);
    lemma_sites_grow(t, i, named_children(t, i), sc, env, caller, defined.facts);
}

pub proof fn lemma_item_extends<R: Redactor>(
    e: FileSourceView<R>,
    t: Seq<SyntaxNodeView>,
    i: int,
    sc: ScopeView,
    out: FindingsView,
)
    ensures
        extends(out, enter_item(e, t, i, sc, out).out),
        enter_item(e, t, i, sc, out).descend,
{
    reveal(enter_item);
    if let Some(local) = item_name(t, i) {
        lemma_function_extends(e, t, i, local, sc, out);
        assert(extends(out, with_module(e, t, i, local, sc, out)));
        assert(extends(out, with_signature(e, t, i, local, sc, out)));
        if let Some(kind) = named_kind(t, i) {
            lemma_named_extends(e, t, i, kind, local, sc, out);
        }
    } else {
        assert(extends(out, out));
    }
}

proof fn lemma_named_extends<R: Redactor>(
    e: FileSourceView<R>,
    t: Seq<SyntaxNodeView>,
    i: int,
    kind: Seq<char>,
    local: Seq<char>,
    sc: ScopeView,
    out: FindingsView,
)
    ensures
        extends(out, with_named(e, t, i, kind, local, sc, out)),
{
}

proof fn lemma_enter_extends<R: Redactor>(
    e: FileSourceView<R>,
    t: Seq<SyntaxNodeView>,
    i: int,
    sc: ScopeView,
    out: FindingsView,
)
    ensures
        extends(out, enter(e, t, i, sc, out).out),
        is_sealed(t, i) || enter(e, t, i, sc, out).descend,
{
    reveal(enter);
    lemma_item_extends(e, t, i, sc, out);
    let fns = with_unsafe_item(e, t, i, "fn"@, out);
    lemma_item_extends(e, t, i, sc, fns);
    assert(extends(out, fns));
    lemma_extends(out, fns, enter_item(e, t, i, sc, fns).out);
    let impls = with_unsafe_item(e, t, i, "impl"@, out);
    assert(extends(out, impls));
    assert(extends(impls, with_impl(e, t, i, sc, impls)));
    lemma_extends(out, impls, with_impl(e, t, i, sc, impls));
    assert(extends(out, with_import(e, t, i, sc, out)));
    assert(extends(out, with_macro(e, t, i, out)));
    assert(extends(out, with_unsafe_site(e, t, i, "block"@, out)));
    assert(extends(out, out));
    if let Some(category) = panic_risk(t, i) {
        assert(extends(out, with_panic_risk(e, t, i, category, sc, out)));
    }
    lemma_markers_extend(e, t[i], markers_from(text_at(t, i), 0), out);
}

proof fn lemma_walk_extends<R: Redactor>(
    e: FileSourceView<R>,
    t: Seq<SyntaxNodeView>,
    i: int,
    kids: Seq<int>,
    sc: ScopeView,
    out: FindingsView,
)
    ensures
        extends(out, walk_over(e, t, i, kids, sc, out)),
    decreases t.len() - i, kids.len(),
{
    if kids.len() > 0 && 0 <= i < t.len() {
        let k = kids.last();
        lemma_walk_extends(e, t, i, kids.drop_last(), sc, out);
        let next = walk_over(e, t, i, kids.drop_last(), sc, out);
        if i < k < t.len() {
            lemma_enter_extends(e, t, k, sc, next);
            let step = enter(e, t, k, sc, next);
            lemma_extends(out, next, step.out);
            if step.descend {
                lemma_walk_extends(e, t, k, named_children(t, k), step.scope, step.out);
                lemma_extends(
                    out,
                    step.out,
                    walk_over(e, t, k, named_children(t, k), step.scope, step.out),
                );
            }
        }
    }
}

// ── Visits ──────────────────────────────────────────────────────────────────

/// A node whose inside is not looked at.
pub open spec fn is_sealed(t: Seq<SyntaxNodeView>, i: int) -> bool {
    is_a(t, i, "use_declaration"@) || is_a(t, i, "macro_invocation"@) || is_a(t, i, "line_comment"@)
        || is_a(t, i, "block_comment"@)
}

/// The walk came by the node at `j` in the scope `sc` with `out` found before, and `found` holds
/// what it found there.
pub open spec fn visited<R: Redactor>(
    e: FileSourceView<R>,
    t: Seq<SyntaxNodeView>,
    j: int,
    sc: ScopeView,
    out: FindingsView,
    found: FindingsView,
) -> bool {
    0 <= j < t.len() && extends(walked(e, t, j, sc, out), found)
}

/// What a visit adds stays to the end.
pub proof fn lemma_visit<R: Redactor>(
    e: FileSourceView<R>,
    t: Seq<SyntaxNodeView>,
    j: int,
    sc: ScopeView,
    out: FindingsView,
    found: FindingsView,
)
    requires
        visited(e, t, j, sc, out, found),
    ensures
        extends(enter(e, t, j, sc, out).out, found),
        extends(out, found),
{
    let step = enter(e, t, j, sc, out);
    lemma_enter_extends(e, t, j, sc, out);
    lemma_walk_extends(e, t, j, named_children(t, j), step.scope, step.out);
    lemma_extends(step.out, walked(e, t, j, sc, out), found);
    lemma_extends(out, step.out, found);
}

proof fn lemma_walk_visits<R: Redactor>(
    e: FileSourceView<R>,
    t: Seq<SyntaxNodeView>,
    i: int,
    kids: Seq<int>,
    sc: ScopeView,
    out: FindingsView,
    found: FindingsView,
    k: int,
) -> (mid: FindingsView)
    requires
        0 <= i < k < t.len(),
        kids.contains(k),
        extends(walk_over(e, t, i, kids, sc, out), found),
    ensures
        visited(e, t, k, sc, mid, found),
    decreases kids.len(),
{
    let last = kids.last();
    let rest = kids.drop_last();
    let next = walk_over(e, t, i, rest, sc, out);
    if last == k {
        next
    } else {
        let n = choose|n: int| 0 <= n < kids.len() && kids[n] == k;
        assert(rest[n] == k);
        lemma_walk_extends(e, t, i, seq![last], sc, next);
        if i < last < t.len() {
            lemma_enter_extends(e, t, last, sc, next);
            let step = enter(e, t, last, sc, next);
            lemma_walk_extends(e, t, last, named_children(t, last), step.scope, step.out);
            if step.descend {
                lemma_extends(
                    next,
                    step.out,
                    walk_over(e, t, last, named_children(t, last), step.scope, step.out),
                );
            }
        }
        lemma_extends(next, walk_over(e, t, i, kids, sc, out), found);
        lemma_walk_visits(e, t, i, rest, sc, out, found, k)
    }
}

/// From a node that is not sealed, the walk goes on to each of its children in the scope that the
/// node opens.
pub proof fn lemma_visit_child<R: Redactor>(
    e: FileSourceView<R>,
    t: Seq<SyntaxNodeView>,
    j: int,
    sc: ScopeView,
    out: FindingsView,
    found: FindingsView,
    k: int,
) -> (mid: FindingsView)
    requires
        visited(e, t, j, sc, out, found),
        !is_sealed(t, j),
        child_of(t, j, k),
    ensures
        visited(e, t, k, enter(e, t, j, sc, out).scope, mid, found),
{
    law_named_children(t, j);
    let step = enter(e, t, j, sc, out);
    lemma_enter_extends(e, t, j, sc, out);
    assert(named_children(t, j).contains(k));
    lemma_walk_visits(e, t, j, named_children(t, j), step.scope, step.out, found, k)
}

proof fn lemma_resolved_extends(
    crate_root: Seq<char>,
    ps: Seq<PendingImplEdgeView>,
    out: FindingsView,
)
    ensures
        extends(out, resolved(crate_root, ps, out)),
    decreases ps.len(),
{
    if ps.len() > 0 {
        lemma_resolved_extends(crate_root, ps.drop_last(), out);
        let before = resolved(crate_root, ps.drop_last(), out);
        assert(extends(before, resolve_one(crate_root, ps.last(), before)));
        lemma_extends(out, before, resolved(crate_root, ps, out));
    }
}

/// The walk starts at the root, in the scope of the file.
pub proof fn lemma_visit_root<R: Redactor>(e: FileSourceView<R>, t: Seq<SyntaxNodeView>)
    requires
        t.len() > 0,
    ensures
        visited(e, t, 0, file_scope(e), FindingsView::none(), tree_findings(e, t)),
{
    let all = walked(e, t, 0, file_scope(e), FindingsView::none());
    let start = FindingsView { pending: Seq::empty(), ..all };
    lemma_resolved_extends(e.crate_root, all.pending, start);
    assert(extends(all, start));
    lemma_extends(all, start, resolved(e.crate_root, all.pending, start));
    assert(extends(resolved(e.crate_root, all.pending, start), tree_findings(e, t)));
    lemma_extends(all, resolved(e.crate_root, all.pending, start), tree_findings(e, t));
}

/// The node at `j` stands in the tree with nothing sealed around it.
pub open spec fn in_the_open(t: Seq<SyntaxNodeView>, j: int) -> bool
    decreases j,
{
    0 <= j < t.len() && (j == 0 || exists|p: int|
        0 <= p < j && #[trigger] child_of(t, p, j) && !is_sealed(t, p) && in_the_open(t, p))
}

pub proof fn lemma_visited<R: Redactor>(
    e: FileSourceView<R>,
    t: Seq<SyntaxNodeView>,
    j: int,
) -> (r: (ScopeView, FindingsView))
    requires
        in_the_open(t, j),
    ensures
        visited(e, t, j, r.0, r.1, tree_findings(e, t)),
    decreases j,
{
    if j == 0 {
        lemma_visit_root(e, t);
        (file_scope(e), FindingsView::none())
    } else {
        let p = choose|p: int|
            0 <= p < j && #[trigger] child_of(t, p, j) && !is_sealed(t, p) && in_the_open(t, p);
        let (sc, out) = lemma_visited(e, t, p);
        let mid = lemma_visit_child(e, t, p, sc, out, tree_findings(e, t), j);
        (enter(e, t, p, sc, out).scope, mid)
    }
}

} // verus!
