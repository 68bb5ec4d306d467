//! What extraction from Rust source keeps.
use vstd::prelude::*;

use crate::assoc::lookup;
use crate::ir::{EdgeLabel, NodeKind, RecordView, REDACTION_POLICY_VERSION};
use crate::languages::common::item_name;
use crate::languages::facts::FileFactsView;
use crate::languages::rust::calls::{
    function_env, note_site, sites_over, CallerView, TypeEnvView,
};
use crate::languages::rust::extract::{
    body_signature, enter, enter_item, function_kind, function_name, named_kind, next_symbol_id,
    panic_risk, walk_over, walked, with_function, with_impl, with_import, with_macro, with_marker,
    with_markers, with_module, with_named, with_panic_risk, with_signature, with_symbol,
    with_unsafe_item, with_unsafe_site, FileSourceView, FindingsView, PendingImplEdgeView,
};
use crate::languages::rust::file::{file_scope, tree_findings};
use crate::languages::rust::impls::impl_target_kind;
use crate::languages::rust::markers::{markers_from, CommentMarkerView};
use crate::languages::rust::resolve::{
    imports_name, local_target, outward, resolve_one, resolved,
};
use crate::languages::rust::scope::{qualified, ScopeView};
use crate::languages::rust::tree::block_local;
use crate::languages::syntax::{is_a, named_children, text_at, SyntaxNodeView};
use crate::policy::Redactor;
use crate::text::{has, law_line_feeds_only_idempotent, line_feeds_only};

verus! {

/// A record as extraction emits it. A node names its file, its place and its language; modules,
/// and only modules, carry a content signature; free text says by which policy it was redacted.
pub open spec fn well_made(path: Seq<char>, r: RecordView) -> bool {
    match r {
        RecordView::Node(n) => {
            &&& n.repo_relative_path == Some(path)
            &&& n.span is Some
            &&& n.code.language == Some("rust"@)
            &&& n.code.content_signature is Some <==> n.kind == NodeKind::Module
            &&& n.code.doc is Some || n.code.note is Some ==> n.redaction_policy_version == Some(
                REDACTION_POLICY_VERSION,
            )
        },
        RecordView::Edge(e) => e.label == EdgeLabel::Contains || e.label == EdgeLabel::Defines
            || e.label == EdgeLabel::Imports || e.label == EdgeLabel::Implements,
        RecordView::Tombstone(_) => false,
    }
}

pub open spec fn all_well_made(path: Seq<char>, s: Seq<RecordView>) -> bool {
    forall|i: int| 0 <= i < s.len() ==> well_made(path, #[trigger] s[i])
}

proof fn lemma_item<R: Redactor>(
    e: FileSourceView<R>,
    t: Seq<SyntaxNodeView>,
    i: int,
    sc: ScopeView,
    out: FindingsView,
)
    requires
        all_well_made(e.path, out.records),
    ensures
        all_well_made(e.path, enter_item(e, t, i, sc, out).out.records),
{
    reveal(enter_item);
    if let Some(local) = item_name(t, i) {
        if is_a(t, i, "mod_item"@) {
            assert(all_well_made(e.path, with_module(e, t, i, local, sc, out).records));
        } else if is_a(t, i, "function_item"@) {
            assert(all_well_made(e.path, with_function(e, t, i, local, sc, out).records));
        } else if is_a(t, i, "function_signature_item"@) {
            assert(all_well_made(e.path, with_signature(e, t, i, local, sc, out).records));
        } else if let Some(kind) = named_kind(t, i) {
            assert(all_well_made(e.path, with_named(e, t, i, kind, local, sc, out).records));
        }
    }
}

proof fn lemma_markers<R: Redactor>(
    e: FileSourceView<R>,
    n: SyntaxNodeView,
    ms: Seq<CommentMarkerView>,
    out: FindingsView,
)
    requires
        all_well_made(e.path, out.records),
    ensures
        all_well_made(e.path, with_markers(e, n, ms, out).records),
    decreases ms.len(),
{
    if ms.len() > 0 {
        lemma_markers(e, n, ms.drop_last(), out);
        let before = with_markers(e, n, ms.drop_last(), out);
        assert(all_well_made(e.path, with_marker(e, n, ms.last(), before).records));
    }
}

proof fn lemma_enter<R: Redactor>(
    e: FileSourceView<R>,
    t: Seq<SyntaxNodeView>,
    i: int,
    sc: ScopeView,
    out: FindingsView,
)
    requires
        all_well_made(e.path, out.records),
    ensures
        all_well_made(e.path, enter(e, t, i, sc, out).out.records),
{
    reveal(enter);
    assert(all_well_made(e.path, with_unsafe_item(e, t, i, "fn"@, out).records));
    let declared = with_unsafe_item(e, t, i, "impl"@, out);
    assert(all_well_made(e.path, declared.records));
    lemma_item(e, t, i, sc, out);
    lemma_item(e, t, i, sc, with_unsafe_item(e, t, i, "fn"@, out));
    lemma_markers(e, t[i], markers_from(text_at(t, i), 0), out);
    assert(all_well_made(e.path, with_import(e, t, i, sc, out).records));
    assert(all_well_made(e.path, with_impl(e, t, i, sc, declared).records));
    assert(all_well_made(e.path, with_macro(e, t, i, out).records));
    assert(all_well_made(e.path, with_unsafe_site(e, t, i, "block"@, out).records));
    if let Some(category) = panic_risk(t, i) {
        assert(all_well_made(e.path, with_panic_risk(e, t, i, category, sc, out).records));
    }
}

proof fn lemma_walk_over<R: Redactor>(
    e: FileSourceView<R>,
    t: Seq<SyntaxNodeView>,
    i: int,
    kids: Seq<int>,
    sc: ScopeView,
    out: FindingsView,
)
    requires
        all_well_made(e.path, out.records),
    ensures
        all_well_made(e.path, walk_over(e, t, i, kids, sc, out).records),
    decreases t.len() - i, kids.len(),
{
    if kids.len() > 0 && 0 <= i < t.len() {
        let k = kids.last();
        lemma_walk_over(e, t, i, kids.drop_last(), sc, out);
        let next = walk_over(e, t, i, kids.drop_last(), sc, out);
        if i < k < t.len() {
            lemma_enter(e, t, k, sc, next);
            let step = enter(e, t, k, sc, next);
            if step.descend {
                lemma_walk_over(e, t, k, named_children(t, k), step.scope, step.out);
            }
        }
    }
}

proof fn lemma_resolved(
    path: Seq<char>,
    crate_root: Seq<char>,
    ps: Seq<PendingImplEdgeView>,
    out: FindingsView,
)
    requires
        all_well_made(path, out.records),
    ensures
        all_well_made(path, resolved(crate_root, ps, out).records),
    decreases ps.len(),
{
    if ps.len() > 0 {
        lemma_resolved(path, crate_root, ps.drop_last(), out);
        let before = resolved(crate_root, ps.drop_last(), out);
        assert(all_well_made(path, resolve_one(crate_root, ps.last(), before).records));
    }
}

/// Every record that a syntax tree yields is well made.
pub proof fn law_records_are_well_made<R: Redactor>(e: FileSourceView<R>, t: Seq<SyntaxNodeView>)
    ensures
        all_well_made(e.path, tree_findings(e, t).records),
{
    let sc = file_scope(e);
    let none = FindingsView::none();
    let found = if t.len() == 0 {
        none
    } else {
        walked(e, t, 0, sc, none)
    };
    if t.len() > 0 {
        lemma_enter(e, t, 0, sc, none);
        let step = enter(e, t, 0, sc, none);
        if step.descend {
            lemma_walk_over(e, t, 0, named_children(t, 0), step.scope, step.out);
        }
    }
    lemma_resolved(
        e.path,
        e.crate_root,
        found.pending,
        (FindingsView { pending: Seq::empty(), ..found }),
    );
}

/// Calls add facts about calls alone.
proof fn lemma_sites_keep_definitions(
    t: Seq<SyntaxNodeView>,
    i: int,
    kids: Seq<int>,
    sc: ScopeView,
    env: TypeEnvView,
    caller: CallerView,
    facts: FileFactsView,
)
    ensures
        sites_over(t, i, kids, sc, env, caller, facts).definitions == facts.definitions,
    decreases t.len() - i, kids.len(),
{
    if kids.len() > 0 && 0 <= i < t.len() {
        let k = kids.last();
        lemma_sites_keep_definitions(t, i, kids.drop_last(), sc, env, caller, facts);
        let next = sites_over(t, i, kids.drop_last(), sc, env, caller, facts);
        if i < k < t.len() {
            lemma_sites_keep_definitions(
                t,
                k,
                named_children(t, k),
                sc,
                env,
                caller,
                note_site(t, k, sc, env, caller, next),
            );
        }
    }
}

/// A function inside a block is a symbol, but no call elsewhere can resolve to it.
pub proof fn law_block_local_functions_are_no_candidates<R: Redactor>(
    e: FileSourceView<R>,
    t: Seq<SyntaxNodeView>,
    i: int,
    local: Seq<char>,
    sc: ScopeView,
    out: FindingsView,
)
    requires
        block_local(t, i),
    ensures
        ({
            let after = with_function(e, t, i, local, sc, out);
            &&& after.definitions == out.definitions
            &&& after.facts.definitions == out.facts.definitions
            &&& after.records.len() == out.records.len() + 2
        }),
{
    let kind = function_kind(t, i, sc);
    let name = function_name(t, i, local, sc);
    let id = next_symbol_id(e, kind, name, out);
    lemma_sites_keep_definitions(
        t,
        i,
        named_children(t, i),
        sc,
        function_env(t, i),
        CallerView { id, name },
        with_symbol(e, t, i, kind, name, sc, out).facts,
    );
}

/// A constant or a static never hides a trait or a type from an impl block.
pub proof fn law_values_are_no_impl_targets<R: Redactor>(
    e: FileSourceView<R>,
    t: Seq<SyntaxNodeView>,
    i: int,
    kind: Seq<char>,
    local: Seq<char>,
    sc: ScopeView,
    out: FindingsView,
)
    requires
        !impl_target_kind(kind),
    ensures
        ({
            let after = with_named(e, t, i, kind, local, sc, out);
            &&& after.qualified == out.qualified
            &&& after.types == out.types
            &&& after.facts.impl_targets == out.facts.impl_targets
        }),
{
}

/// One of the entries has this value.
pub open spec fn has_value(m: Seq<(Seq<char>, Seq<char>)>, v: Seq<char>) -> bool {
    exists|i: int| 0 <= i < m.len() && (#[trigger] m[i]).1 == v
}

pub proof fn lemma_lookup(m: Seq<(Seq<char>, Seq<char>)>, key: Seq<char>)
    ensures
        lookup(m, key) matches Some(v) ==> has_value(m, v),
    decreases m.len(),
{
    if m.len() > 0 {
        let rest = m.drop_last();
        lemma_lookup(rest, key);
        if m.last().0 == key {
            assert(m[m.len() - 1].1 == m.last().1);
        } else if let Some(v) = lookup(rest, key) {
            let i = choose|i: int| 0 <= i < rest.len() && (#[trigger] rest[i]).1 == v;
            assert(m[i].1 == v);
        }
    }
}

proof fn lemma_outward(
    qualified: Seq<(Seq<char>, Seq<char>)>,
    target: Seq<char>,
    modules: Seq<Seq<char>>,
    depth: int,
)
    ensures
        outward(qualified, target, modules, depth) matches Some(v) ==> has_value(qualified, v),
    decreases depth,
{
    assert forall|key: Seq<char>| #[trigger] lookup(qualified, key) matches Some(v) ==> has_value(
        qualified,
        v,
    ) by {
        lemma_lookup(qualified, key);
    }
    if depth > 0 {
        lemma_outward(qualified, target, modules, depth - 1);
    }
}

/// An impl block leads to a trait or a type that the file defines, or nowhere: no target is
/// invented.
pub proof fn law_impl_edges_lead_to_definitions(
    out: FindingsView,
    target: Seq<char>,
    modules: Seq<Seq<char>>,
)
    ensures
        local_target(out, target, modules) matches Some(id) ==> has_value(out.qualified, id)
            || has_value(out.types, id),
{
    assert forall|key: Seq<char>| #[trigger] lookup(out.qualified, key) matches Some(v) ==> has_value(
        out.qualified,
        v,
    ) by {
        lemma_lookup(out.qualified, key);
    }
    lemma_lookup(out.types, target);
    lemma_outward(out.qualified, target, modules, modules.len() as int);
    lemma_outward(out.qualified, target, modules, modules.len() - 1);
}

/// A name that is imported in the module of an impl block, and not defined there, leads nowhere: a
/// missing edge is better than a wrong one.
pub proof fn law_imported_names_are_not_guessed(
    out: FindingsView,
    target: Seq<char>,
    modules: Seq<Seq<char>>,
)
    requires
        has(target, "::"@) == false,
        lookup(out.qualified, qualified(modules, target)) is None,
        imports_name(out.imported, modules, target),
    ensures
        local_target(out, target, modules) is None,
{
}

// ── Line ends ───────────────────────────────────────────────────────────────

/// A text with a carriage return in front of every line feed.
pub open spec fn with_carriage_returns(s: Seq<char>) -> Seq<char>
    decreases s.len(),
{
    if s.len() == 0 {
        s
    } else if s[0] == '\n' {
        seq!['\r', '\n'] + with_carriage_returns(s.skip(1))
    } else {
        seq![s[0]] + with_carriage_returns(s.skip(1))
    }
}

proof fn lemma_carriage_returns_go(s: Seq<char>)
    requires
        !s.contains('\r'),
    ensures
        line_feeds_only(with_carriage_returns(s)) == s,
    decreases s.len(),
{
    let out = with_carriage_returns(s);
    if s.len() > 0 {
        let rest = s.skip(1);
        assert(s.contains(s[0]));
        assert(!rest.contains('\r')) by {
            if rest.contains('\r') {
                let i = choose|i: int| 0 <= i < rest.len() && rest[i] == '\r';
                assert(s[i + 1] == '\r');
            }
        }
        lemma_carriage_returns_go(rest);
        let more = with_carriage_returns(rest);
        if s[0] == '\n' {
            assert(out.skip(2) =~= more);
        } else {
            assert(out.skip(1) =~= more);
        }
        assert(line_feeds_only(out) =~= seq![s[0]] + rest);
        assert(s =~= seq![s[0]] + rest);
    } else {
        assert(line_feeds_only(out) =~= s);
    }
}

/// A body has one signature, whichever of the two line ends a checkout gives it.
pub proof fn law_line_ends_do_not_sign(body: Seq<char>)
    requires
        !body.contains('\r'),
    ensures
        body_signature(with_carriage_returns(body)) == body_signature(body),
{
    lemma_carriage_returns_go(body);
    law_line_feeds_only_idempotent(with_carriage_returns(body));
}

} // verus!
