//! Every call in a function of a Rust file is one site of its facts.
use vstd::prelude::*;

use crate::ir::{EdgeLabel, EdgeRecordView, NodeKind, NodeRecordView, RecordView};
use crate::languages::common::item_name;
use crate::languages::facts::{CallKind, CallPathRootView, CallSiteFactView, FileFactsView};
use crate::languages::rust::calls::{
    call_fact, closed_off, function_env, note_site, sites_over, CallerView, TypeEnvView,
};
use crate::languages::rust::extract::{
    enter, function_kind, function_name, with_function, with_symbol, with_unsafe_item,
    FileSourceView, FindingsView,
};
use crate::languages::rust::file::tree_findings;
use crate::languages::rust::impls::simple_ident;
use crate::languages::rust::scope::ScopeView;
use crate::languages::syntax::{
    children_from, field_child, is_a, named_children, text_at, SyntaxNodeView,
};
use crate::laws::rust_calls::{
    is_site_of, is_way, law_direct_calls_are_sites, law_method_calls_are_sites,
    law_path_calls_are_sites, names_callee, on_receiver, parts_of, path_fact, within,
};
use crate::laws::rust_items::{lemma_enter_function, lemma_pair_stays, lemma_stays, recorded};
use crate::laws::rust_walk::{
    child_of, grows, in_the_open, law_named_children, lemma_visit, lemma_visited,
};
use crate::policy::Redactor;
use crate::text::trimmed;

verus! {

// ── Calls ───────────────────────────────────────────────────────────────────

pub proof fn lemma_with_function<R: Redactor>(
    e: FileSourceView<R>,
    t: Seq<SyntaxNodeView>,
    j: int,
    local: Seq<char>,
    sc: ScopeView,
    out: FindingsView,
) -> (r: (NodeRecordView, EdgeRecordView, FileFactsView))
    requires
        0 <= j < t.len(),
    ensures
        ({
            let all = with_function(e, t, j, local, sc, out);
            let k = out.records.len() as int;
            &&& all.records.len() == k + 2
            &&& all.records[k] == RecordView::Node(r.0)
            &&& all.records[k + 1] == RecordView::Edge(r.1)
            &&& r.0.kind == NodeKind::Symbol
            &&& r.0.name is Some
            &&& r.0.span matches Some(s) && crate::laws::rust_items::covers(s, t[j])
            &&& r.1.label == EdgeLabel::Defines
            &&& r.1.target == r.0.id
            &&& all.facts == sites_over(
                t,
                j,
                named_children(t, j),
                sc,
                function_env(t, j),
                CallerView { id: r.0.id, name: r.0.name->0 },
                r.2,
            )
        }),
{
    let kind = function_kind(t, j, sc);
    let name = function_name(t, j, local, sc);
    let symbol = with_symbol(e, t, j, kind, name, sc, out);
    let all = with_function(e, t, j, local, sc, out);
    let k = out.records.len() as int;
    let n = symbol.records[k]->Node_0;
    let edge = symbol.records[k + 1]->Edge_0;
    assert(all.records == symbol.records);
    let id = n.id;
    let defined = if crate::languages::rust::tree::block_local(t, j) {
        symbol
    } else {
        crate::languages::rust::extract::with_definition(
            e,
            id,
            kind,
            name,
            local,
            crate::languages::rust::extract::direct_trait_method(t, j, sc),
            crate::languages::rust::extract::direct_impl_method(t, j, sc),
            sc,
            symbol,
        )
    };
    (n, edge, defined.facts)
}

/// The symbol of a function, and what is found in its body under the symbol's name.
pub proof fn lemma_body<R: Redactor>(
    e: FileSourceView<R>,
    t: Seq<SyntaxNodeView>,
    j: int,
    local: Seq<char>,
) -> (r: (NodeRecordView, EdgeRecordView, ScopeView, FileFactsView))
    requires
        in_the_open(t, j),
        is_a(t, j, "function_item"@),
        item_name(t, j) == Some(local),
    ensures
        recorded(
            tree_findings(e, t).records,
            NodeKind::Symbol,
            t[j],
            EdgeLabel::Defines,
            r.0,
            r.1,
        ),
        grows(
            sites_over(
                t,
                j,
                named_children(t, j),
                r.2,
                function_env(t, j),
                caller_of(r.0),
                r.3,
            ).call_sites,
            tree_findings(e, t).facts.call_sites,
        ),
        grows(
            sites_over(
                t,
                j,
                named_children(t, j),
                r.2,
                function_env(t, j),
                caller_of(r.0),
                r.3,
            ).construct_sites,
            tree_findings(e, t).facts.construct_sites,
        ),
        grows(
            sites_over(
                t,
                j,
                named_children(t, j),
                r.2,
                function_env(t, j),
                caller_of(r.0),
                r.3,
            ).route_registration_sites,
            tree_findings(e, t).facts.route_registration_sites,
        ),
{
    let found = tree_findings(e, t);
    let (sc, out) = lemma_visited(e, t, j);
    lemma_visit(e, t, j, sc, out, found);
    lemma_enter_function(e, t, j, local, sc, out);
    let next = with_unsafe_item(e, t, j, "fn"@, out);
    let (n, edge, facts) = lemma_with_function(e, t, j, local, sc, next);
    lemma_pair_stays(enter(e, t, j, sc, out).out, found);
    (n, edge, sc, facts)
}

/// A function as the sites in its body name it.
pub open spec fn caller_of(n: NodeRecordView) -> CallerView {
    CallerView { id: n.id, name: n.name->0 }
}

/// The facts of a file have a site of the call at `k`, under the symbol of the function at `j`.
pub open spec fn has_call<R: Redactor>(
    e: FileSourceView<R>,
    t: Seq<SyntaxNodeView>,
    j: int,
    k: int,
    fact: CallSiteFactView,
) -> bool {
    &&& tree_findings(e, t).facts.call_sites.contains(fact)
    &&& exists|n: NodeRecordView, edge: EdgeRecordView| #[trigger]
        recorded(
            tree_findings(e, t).records,
            NodeKind::Symbol,
            t[j],
            EdgeLabel::Defines,
            n,
            edge,
        ) && is_site_of(fact, t, k, caller_of(n))
}

/// Every call of a plain name in a function is a site of the file.
pub proof fn law_direct_calls_of_a_file<R: Redactor>(
    e: FileSourceView<R>,
    t: Seq<SyntaxNodeView>,
    j: int,
    local: Seq<char>,
    k: int,
    f: int,
)
    requires
        in_the_open(t, j),
        is_a(t, j, "function_item"@),
        field_child(t, j, "name"@) matches Some(x) && text_at(t, x) == local,
        within(t, j, k),
        is_a(t, k, "call_expression"@),
        names_callee(t, k, f),
        is_a(t, f, "identifier"@),
        simple_ident(trimmed(t[f].text)),
    ensures
        exists|fact: CallSiteFactView| #[trigger]
            has_call(e, t, j, k, fact) && fact.call_kind == CallKind::Direct && fact.callee_display
                == trimmed(t[f].text) && fact.callee_segments == seq![trimmed(t[f].text)]
                && fact.path_root == CallPathRootView::Unqualified,
{
    let (n, edge, sc, facts) = lemma_body(e, t, j, local);
    let env = function_env(t, j);
    let caller = caller_of(n);
    let sites = sites_over(t, j, named_children(t, j), sc, env, caller, facts).call_sites;
    law_direct_calls_are_sites(t, j, k, f, sc, env, caller, facts);
    let fact = choose|fact: CallSiteFactView| #[trigger]
        sites.contains(fact) && is_site_of(fact, t, k, caller) && fact.call_kind == CallKind::Direct
            && fact.callee_display == trimmed(t[f].text) && fact.callee_segments == seq![
            trimmed(t[f].text),
        ] && fact.path_root == CallPathRootView::Unqualified;
    let m = choose|m: int| 0 <= m < sites.len() && sites[m] == fact;
    lemma_stays(sites, tree_findings(e, t).facts.call_sites, m);
    assert(has_call(e, t, j, k, fact));
}

/// Every call of a path in a function is a site of the file: a path call, shown as it is written.
pub proof fn law_path_calls_of_a_file<R: Redactor>(
    e: FileSourceView<R>,
    t: Seq<SyntaxNodeView>,
    j: int,
    local: Seq<char>,
    k: int,
    f: int,
)
    requires
        in_the_open(t, j),
        is_a(t, j, "function_item"@),
        field_child(t, j, "name"@) matches Some(x) && text_at(t, x) == local,
        within(t, j, k),
        is_a(t, k, "call_expression"@),
        names_callee(t, k, f),
        is_a(t, f, "scoped_identifier"@),
        forall|n: int|
            0 <= n < parts_of(trimmed(t[f].text)).len() ==> simple_ident(
                #[trigger] parts_of(trimmed(t[f].text))[n],
            ),
        !is_way(parts_of(trimmed(t[f].text)).last()),
        !parts_of(trimmed(t[f].text)).contains("Self"@),
    ensures
        exists|fact: CallSiteFactView| #[trigger]
            has_call(e, t, j, k, fact) && path_fact(fact, trimmed(t[f].text), None),
{
    let (n, edge, sc, facts) = lemma_body(e, t, j, local);
    let env = function_env(t, j);
    let caller = caller_of(n);
    let sites = sites_over(t, j, named_children(t, j), sc, env, caller, facts).call_sites;
    let parts = parts_of(trimmed(t[f].text));
    crate::laws::rust_calls::lemma_some_parts(trimmed(t[f].text));
    assert(parts.contains(parts[0]));
    assert(parts.contains(parts.last()));
    law_path_calls_are_sites(t, j, k, f, sc, env, caller, facts);
    let fact = choose|fact: CallSiteFactView| #[trigger]
        sites.contains(fact) && is_site_of(fact, t, k, caller) && path_fact(
            fact,
            trimmed(t[f].text),
            sc.self_owner(),
        );
    let m = choose|m: int| 0 <= m < sites.len() && sites[m] == fact;
    lemma_stays(sites, tree_findings(e, t).facts.call_sites, m);
    assert(has_call(e, t, j, k, fact));
    assert(path_fact(fact, trimmed(t[f].text), None));
}

/// Every call of a method in a function is a site of the file.
pub proof fn law_method_calls_of_a_file<R: Redactor>(
    e: FileSourceView<R>,
    t: Seq<SyntaxNodeView>,
    j: int,
    local: Seq<char>,
    k: int,
    f: int,
    x: int,
)
    requires
        in_the_open(t, j),
        is_a(t, j, "function_item"@),
        field_child(t, j, "name"@) matches Some(y) && text_at(t, y) == local,
        within(t, j, k),
        is_a(t, k, "call_expression"@),
        names_callee(t, k, f),
        is_a(t, f, "field_expression"@),
        field_child(t, f, "field"@) == Some(x),
        is_a(t, x, "field_identifier"@),
        simple_ident(trimmed(t[x].text)),
    ensures
        exists|fact: CallSiteFactView| #[trigger]
            has_call(e, t, j, k, fact) && fact.callee_display == trimmed(t[x].text)
                && fact.callee_segments == seq![trimmed(t[x].text)] && on_receiver(
                fact,
                t,
                field_child(t, f, "value"@),
                fact.receiver_owner,
                function_env(t, j),
            ),
{
    let (n, edge, sc, facts) = lemma_body(e, t, j, local);
    let env = function_env(t, j);
    let caller = caller_of(n);
    let sites = sites_over(t, j, named_children(t, j), sc, env, caller, facts).call_sites;
    law_method_calls_are_sites(t, j, k, f, x, sc, env, caller, facts);
    let value = field_child(t, f, "value"@);
    let fact = choose|fact: CallSiteFactView| #[trigger]
        sites.contains(fact) && is_site_of(fact, t, k, caller) && fact.callee_display == trimmed(
            t[x].text,
        ) && fact.callee_segments == seq![trimmed(t[x].text)] && on_receiver(
            fact,
            t,
            value,
            sc.self_owner(),
            env,
        );
    let m = choose|m: int| 0 <= m < sites.len() && sites[m] == fact;
    lemma_stays(sites, tree_findings(e, t).facts.call_sites, m);
    assert(has_call(e, t, j, k, fact));
    assert(on_receiver(fact, t, value, fact.receiver_owner, env));
}

// ── One site for one call ───────────────────────────────────────────────────

/// The node at `j` is below the node at `p`.
pub open spec fn below(t: Seq<SyntaxNodeView>, p: int, j: int) -> bool {
    0 <= p < j < t.len() && forall|m: int| p < m <= j ==> (#[trigger] t[m]).depth > t[p].depth
}

pub open spec fn ascends(s: Seq<int>) -> bool {
    forall|a: int, b: int| 0 <= a < b < s.len() ==> #[trigger] s[a] < #[trigger] s[b]
}

proof fn lemma_ascending_children(t: Seq<SyntaxNodeView>, p: int, from: int)
    requires
        0 <= p < from,
    ensures
        ascends(children_from(t, p, from, true)),
        forall|n: int|
            0 <= n < children_from(t, p, from, true).len() ==> from <= #[trigger] children_from(
                t,
                p,
                from,
                true,
            )[n],
    decreases t.len() - from,
{
    let all = children_from(t, p, from, true);
    if 0 <= from < t.len() && t[from].depth > t[p].depth {
        lemma_ascending_children(t, p, from + 1);
        let rest = children_from(t, p, from + 1, true);
        if t[from].depth == t[p].depth + 1 && t[from].named {
            assert(all =~= seq![from] + rest);
            assert forall|a: int, b: int| 0 <= a < b < all.len() implies #[trigger] all[a]
                < #[trigger] all[b] by {
                assert(all[b] == rest[b - 1]);
                if a > 0 {
                    assert(all[a] == rest[a - 1]);
                }
            }
            assert forall|n: int| 0 <= n < all.len() implies from <= #[trigger] all[n] by {
                if n > 0 {
                    assert(all[n] == rest[n - 1]);
                }
            }
        }
    }
}

/// The call sites that were added, each by the call at its node.
pub open spec fn sites_at(
    t: Seq<SyntaxNodeView>,
    at: Seq<int>,
    sc: ScopeView,
    env: TypeEnvView,
    caller: CallerView,
    before: Seq<CallSiteFactView>,
    after: Seq<CallSiteFactView>,
) -> bool {
    &&& ascends(at)
    &&& after.len() == before.len() + at.len()
    &&& forall|n: int| 0 <= n < before.len() ==> #[trigger] after[n] == before[n]
    &&& forall|n: int|
        0 <= n < at.len() ==> is_a(t, #[trigger] at[n], "call_expression"@) && call_fact(
            t,
            at[n],
            sc,
            env,
            caller,
        ) == Some(after[before.len() + n])
}

proof fn lemma_join(
    t: Seq<SyntaxNodeView>,
    a: Seq<int>,
    b: Seq<int>,
    sc: ScopeView,
    env: TypeEnvView,
    caller: CallerView,
    x: Seq<CallSiteFactView>,
    y: Seq<CallSiteFactView>,
    z: Seq<CallSiteFactView>,
)
    requires
        sites_at(t, a, sc, env, caller, x, y),
        sites_at(t, b, sc, env, caller, y, z),
        forall|m: int, n: int| 0 <= m < a.len() && 0 <= n < b.len() ==> #[trigger] a[m]
            < #[trigger] b[n],
    ensures
        sites_at(t, a + b, sc, env, caller, x, z),
{
    let all = a + b;
    assert forall|n: int| 0 <= n < x.len() implies #[trigger] z[n] == x[n] by {
        assert(y[n] == x[n]);
    }
    assert forall|n: int| 0 <= n < all.len() implies is_a(t, #[trigger] all[n], "call_expression"@)
        && call_fact(t, all[n], sc, env, caller) == Some(z[x.len() + n]) by {
        if n < a.len() {
            assert(all[n] == a[n]);
            assert(z[x.len() + n] == y[x.len() + n]);
        } else {
            assert(all[n] == b[n - a.len()]);
        }
    }
    assert forall|m: int, n: int| 0 <= m < n < all.len() implies #[trigger] all[m]
        < #[trigger] all[n] by {
        if n < a.len() {
            assert(a[m] < a[n]);
        } else if m >= a.len() {
            assert(b[m - a.len()] < b[n - a.len()]);
        } else {
            assert(a[m] < b[n - a.len()]);
        }
    }
}

proof fn lemma_note(
    t: Seq<SyntaxNodeView>,
    k: int,
    sc: ScopeView,
    env: TypeEnvView,
    caller: CallerView,
    facts: FileFactsView,
) -> (at: Seq<int>)
    ensures
        sites_at(
            t,
            at,
            sc,
            env,
            caller,
            facts.call_sites,
            note_site(t, k, sc, env, caller, facts).call_sites,
        ),
        forall|n: int| 0 <= n < at.len() ==> #[trigger] at[n] == k,
        at.len() <= 1,
{
    if is_a(t, k, "call_expression"@) && !is_a(t, k, "macro_invocation"@) && call_fact(
        t,
        k,
        sc,
        env,
        caller,
    ) is Some {
        seq![k]
    } else {
        Seq::empty()
    }
}

proof fn lemma_sites_once(
    t: Seq<SyntaxNodeView>,
    i: int,
    kids: Seq<int>,
    sc: ScopeView,
    env: TypeEnvView,
    caller: CallerView,
    facts: FileFactsView,
) -> (at: Seq<int>)
    requires
        0 <= i < t.len(),
        ascends(kids),
        forall|n: int| 0 <= n < kids.len() ==> child_of(t, i, #[trigger] kids[n]),
    ensures
        sites_at(
            t,
            at,
            sc,
            env,
            caller,
            facts.call_sites,
            sites_over(t, i, kids, sc, env, caller, facts).call_sites,
        ),
        forall|n: int| 0 <= n < at.len() ==> below(t, i, #[trigger] at[n]),
        forall|n: int|
            0 <= n < at.len() ==> exists|m: int|
                0 <= m < kids.len() && (#[trigger] at[n] == #[trigger] kids[m] || below(
                    t,
                    kids[m],
                    at[n],
                )),
    decreases t.len() - i, kids.len(),
{
    if kids.len() == 0 {
        Seq::empty()
    } else {
        let rest = kids.drop_last();
        let k = kids.last();
        assert(child_of(t, i, kids[kids.len() - 1]));
        assert forall|n: int| 0 <= n < rest.len() implies child_of(t, i, #[trigger] rest[n]) by {
            assert(rest[n] == kids[n]);
        }
        assert forall|a: int, b: int| 0 <= a < b < rest.len() implies #[trigger] rest[a]
            < #[trigger] rest[b] by {
            assert(kids[a] < kids[b]);
        }
        let next = sites_over(t, i, rest, sc, env, caller, facts);
        let first = lemma_sites_once(t, i, rest, sc, env, caller, facts);
        let noted = note_site(t, k, sc, env, caller, next);
        let own = lemma_note(t, k, sc, env, caller, next);
        assert forall|n: int| 0 <= n < first.len() implies #[trigger] first[n] < k by {
            let m = choose|m: int|
                0 <= m < rest.len() && (first[n] == #[trigger] rest[m] || below(
                    t,
                    rest[m],
                    first[n],
                ));
            assert(rest[m] == kids[m]);
            assert(kids[m] < kids[kids.len() - 1]);
            if first[n] >= k {
                assert(t[k].depth > t[rest[m]].depth);
                assert(child_of(t, i, rest[m]));
            }
        }
        lemma_join(
            t,
            first,
            own,
            sc,
            env,
            caller,
            facts.call_sites,
            next.call_sites,
            noted.call_sites,
        );
        let head = first + own;
        assert(below(t, i, k));
        let inner = if closed_off(t, k) {
            Seq::empty()
        } else {
            law_named_children(t, k);
            lemma_ascending_children(t, k, k + 1);
            let below_k = named_children(t, k);
            assert forall|n: int| 0 <= n < below_k.len() implies child_of(
                t,
                k,
                #[trigger] below_k[n],
            ) by {
                assert(below_k.contains(below_k[n]));
            }
            lemma_sites_once(t, k, below_k, sc, env, caller, noted)
        };
        let all = sites_over(t, i, kids, sc, env, caller, facts);
        assert forall|m: int, n: int| 0 <= m < head.len() && 0 <= n < inner.len() implies #[trigger] head[m]
            < #[trigger] inner[n] by {
            assert(below(t, k, inner[n]));
            if m < first.len() {
                assert(head[m] == first[m]);
            } else {
                assert(head[m] == own[m - first.len()]);
            }
        }
        lemma_join(
            t,
            head,
            inner,
            sc,
            env,
            caller,
            facts.call_sites,
            noted.call_sites,
            all.call_sites,
        );
        let at = head + inner;
        assert forall|n: int| 0 <= n < at.len() implies below(t, i, #[trigger] at[n]) && exists|
            m: int,
        |
            0 <= m < kids.len() && (at[n] == #[trigger] kids[m] || below(t, kids[m], at[n])) by {
            if n < first.len() {
                assert(at[n] == first[n]);
                let m = choose|m: int|
                    0 <= m < rest.len() && (first[n] == #[trigger] rest[m] || below(
                        t,
                        rest[m],
                        first[n],
                    ));
                assert(kids[m] == rest[m]);
            } else if n < head.len() {
                assert(at[n] == own[n - first.len()]);
                assert(at[n] == kids[kids.len() - 1]);
            } else {
                assert(at[n] == inner[n - head.len()]);
                assert(below(t, k, at[n]));
                assert forall|m: int| i < m <= at[n] implies (#[trigger] t[m]).depth
                    > t[i].depth by {
                    if m > k {
                        assert(t[m].depth > t[k].depth);
                    }
                }
                assert(below(t, kids[kids.len() - 1], at[n]));
            }
        }
        at
    }
}

/// A call leaves at most one site, and every site is left by a call: the sites of a body stand in
/// the order of their calls in the text, one for one.
pub proof fn law_one_site_for_one_call(
    t: Seq<SyntaxNodeView>,
    i: int,
    sc: ScopeView,
    env: TypeEnvView,
    caller: CallerView,
    facts: FileFactsView,
)
    requires
        0 <= i < t.len(),
    ensures
        exists|at: Seq<int>| #[trigger]
            sites_at(
                t,
                at,
                sc,
                env,
                caller,
                facts.call_sites,
                sites_over(t, i, named_children(t, i), sc, env, caller, facts).call_sites,
            ),
{
    let kids = named_children(t, i);
    law_named_children(t, i);
    lemma_ascending_children(t, i, i + 1);
    assert forall|n: int| 0 <= n < kids.len() implies child_of(t, i, #[trigger] kids[n]) by {
        assert(kids.contains(kids[n]));
    }
    let at = lemma_sites_once(t, i, kids, sc, env, caller, facts);
}

} // verus!
