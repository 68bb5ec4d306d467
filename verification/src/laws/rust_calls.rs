//! Every call in a function is a call site.
use vstd::prelude::*;

use crate::languages::facts::{CallKind, CallPathRootView, CallSiteFactView, FileFactsView};
use crate::languages::rust::calls::{
    call_fact, call_path, closed_off, note_site, raw_call, segments_of, sites_over, without_roots,
    CallerView, TypeEnvView,
};
use crate::languages::rust::impls::simple_ident;
use crate::languages::rust::scope::ScopeView;
use crate::languages::syntax::{field_child, is_a, named_children, SyntaxNodeView};
use crate::laws::rust_items::covers;
use crate::laws::rust_walk::{
    adds_sites, child_of, law_named_children, lemma_adds, lemma_sites_grow,
};
use crate::order::occurrences;
use crate::assoc::lookup;
use crate::text::{before_first, find, lemma_find_from, split_on, trimmed};

verus! {

// ── What is in a body ───────────────────────────────────────────────────────

/// An item of its own, or a macro: what is in it is no part of the function around it.
pub open spec fn stands_alone(t: Seq<SyntaxNodeView>, i: int) -> bool {
    &&& 0 <= i < t.len()
    &&& {
        let kind = t[i].kind;
        ||| kind == "function_item"@
        ||| kind == "impl_item"@
        ||| kind == "trait_item"@
        ||| kind == "mod_item"@
        ||| kind == "macro_definition"@
        ||| kind == "macro_invocation"@
    }
}

/// The node at `k` is in the function at `i`, and in no item of its own.
pub open spec fn within(t: Seq<SyntaxNodeView>, i: int, k: int) -> bool
    decreases k,
{
    exists|p: int|
        0 <= p < k && #[trigger] child_of(t, p, k) && (p == i || (within(t, i, p) && !stands_alone(
            t,
            p,
        )))
}

/// What is known after the node at `k` and all below it.
pub open spec fn after_node(
    t: Seq<SyntaxNodeView>,
    k: int,
    sc: ScopeView,
    env: TypeEnvView,
    caller: CallerView,
    facts: FileFactsView,
) -> FileFactsView {
    let noted = note_site(t, k, sc, env, caller, facts);
    if closed_off(t, k) {
        noted
    } else {
        sites_over(t, k, named_children(t, k), sc, env, caller, noted)
    }
}

pub proof fn lemma_after_node(
    t: Seq<SyntaxNodeView>,
    k: int,
    sc: ScopeView,
    env: TypeEnvView,
    caller: CallerView,
    facts: FileFactsView,
)
    ensures
        adds_sites(facts, note_site(t, k, sc, env, caller, facts)),
        adds_sites(
            note_site(t, k, sc, env, caller, facts),
            after_node(t, k, sc, env, caller, facts),
        ),
        adds_sites(facts, after_node(t, k, sc, env, caller, facts)),
{
    let noted = note_site(t, k, sc, env, caller, facts);
    assert(adds_sites(facts, noted));
    lemma_sites_grow(t, k, named_children(t, k), sc, env, caller, noted);
    assert(adds_sites(noted, noted));
    lemma_adds(facts, noted, after_node(t, k, sc, env, caller, facts));
}

proof fn lemma_sites_visit(
    t: Seq<SyntaxNodeView>,
    i: int,
    kids: Seq<int>,
    sc: ScopeView,
    env: TypeEnvView,
    caller: CallerView,
    facts: FileFactsView,
    k: int,
) -> (mid: FileFactsView)
    requires
        0 <= i < k < t.len(),
        kids.contains(k),
    ensures
        adds_sites(
            after_node(t, k, sc, env, caller, mid),
            sites_over(t, i, kids, sc, env, caller, facts),
        ),
    decreases kids.len(),
{
    let last = kids.last();
    let rest = kids.drop_last();
    let next = sites_over(t, i, rest, sc, env, caller, facts);
    let all = sites_over(t, i, kids, sc, env, caller, facts);
    if last == k {
        assert(all == after_node(t, k, sc, env, caller, next));
        assert(adds_sites(all, all));
        next
    } else {
        let n = choose|n: int| 0 <= n < kids.len() && kids[n] == k;
        assert(rest[n] == k);
        let mid = lemma_sites_visit(t, i, rest, sc, env, caller, facts, k);
        if i < last < t.len() {
            lemma_after_node(t, last, sc, env, caller, next);
            assert(all == after_node(t, last, sc, env, caller, next));
        } else {
            assert(adds_sites(next, all));
        }
        lemma_adds(after_node(t, k, sc, env, caller, mid), next, all);
        mid
    }
}

pub proof fn lemma_within(
    t: Seq<SyntaxNodeView>,
    i: int,
    k: int,
    sc: ScopeView,
    env: TypeEnvView,
    caller: CallerView,
    facts: FileFactsView,
) -> (mid: FileFactsView)
    requires
        0 <= i,
        within(t, i, k),
    ensures
        adds_sites(
            after_node(t, k, sc, env, caller, mid),
            sites_over(t, i, named_children(t, i), sc, env, caller, facts),
        ),
    decreases k,
{
    let all = sites_over(t, i, named_children(t, i), sc, env, caller, facts);
    let p = choose|p: int|
        0 <= p < k && #[trigger] child_of(t, p, k) && (p == i || (within(t, i, p) && !stands_alone(
            t,
            p,
        )));
    law_named_children(t, p);
    assert(named_children(t, p).contains(k));
    if p == i {
        lemma_sites_visit(t, i, named_children(t, i), sc, env, caller, facts, k)
    } else {
        let before = lemma_within(t, i, p, sc, env, caller, facts);
        let noted = note_site(t, p, sc, env, caller, before);
        let mid = lemma_sites_visit(t, p, named_children(t, p), sc, env, caller, noted, k);
        assert(after_node(t, p, sc, env, caller, before) == sites_over(
            t,
            p,
            named_children(t, p),
            sc,
            env,
            caller,
            noted,
        ));
        lemma_adds(
            after_node(t, k, sc, env, caller, mid),
            after_node(t, p, sc, env, caller, before),
            all,
        );
        mid
    }
}

proof fn lemma_call_kept(
    t: Seq<SyntaxNodeView>,
    i: int,
    k: int,
    sc: ScopeView,
    env: TypeEnvView,
    caller: CallerView,
    facts: FileFactsView,
)
    requires
        0 <= i,
        within(t, i, k),
        is_a(t, k, "call_expression"@),
        call_fact(t, k, sc, env, caller) is Some,
    ensures
        sites_over(t, i, named_children(t, i), sc, env, caller, facts).call_sites.contains(
            call_fact(t, k, sc, env, caller)->0,
        ),
{
    let mid = lemma_within(t, i, k, sc, env, caller, facts);
    let all = sites_over(t, i, named_children(t, i), sc, env, caller, facts);
    let noted = note_site(t, k, sc, env, caller, mid);
    lemma_after_node(t, k, sc, env, caller, mid);
    lemma_adds(noted, after_node(t, k, sc, env, caller, mid), all);
    reveal_strlit("macro_invocation");
    reveal_strlit("call_expression");
    assert("macro_invocation"@.len() != "call_expression"@.len());
    assert(noted.call_sites == mid.call_sites.push(call_fact(t, k, sc, env, caller)->0));
    assert(all.call_sites[mid.call_sites.len() as int] == call_fact(t, k, sc, env, caller)->0);
}

// ── The callee ──────────────────────────────────────────────────────────────

/// The node that names what is called: with type arguments, the node that they are given to.
pub open spec fn names_callee(t: Seq<SyntaxNodeView>, k: int, f: int) -> bool {
    field_child(t, k, "function"@) matches Some(g) && (if is_a(t, g, "generic_function"@) {
        field_child(t, g, "function"@) == Some(f)
    } else {
        g == f
    })
}

/// A site of the call at `k`: at its place and in its caller.
pub open spec fn is_site_of(
    fact: CallSiteFactView,
    t: Seq<SyntaxNodeView>,
    k: int,
    caller: CallerView,
) -> bool {
    &&& covers(fact.span, t[k])
    &&& fact.caller_id == caller.id
    &&& fact.caller_name == caller.name
}

proof fn lemma_callee_kinds()
    ensures
        "identifier"@ != "scoped_identifier"@,
        "identifier"@ != "field_expression"@,
        "scoped_identifier"@ != "field_expression"@,
{
    reveal_strlit("identifier");
    reveal_strlit("scoped_identifier");
    reveal_strlit("field_expression");
    assert("identifier"@.len() != "scoped_identifier"@.len());
    assert("identifier"@.len() != "field_expression"@.len());
    assert("scoped_identifier"@.len() != "field_expression"@.len());
}

/// A call of a plain name is a direct call of that name.
pub proof fn law_direct_calls_are_sites(
    t: Seq<SyntaxNodeView>,
    i: int,
    k: int,
    f: int,
    sc: ScopeView,
    env: TypeEnvView,
    caller: CallerView,
    facts: FileFactsView,
)
    requires
        0 <= i,
        within(t, i, k),
        is_a(t, k, "call_expression"@),
        names_callee(t, k, f),
        is_a(t, f, "identifier"@),
        simple_ident(trimmed(t[f].text)),
    ensures
        exists|fact: CallSiteFactView| #[trigger]
            sites_over(t, i, named_children(t, i), sc, env, caller, facts).call_sites.contains(fact)
                && is_site_of(fact, t, k, caller) && fact.call_kind == CallKind::Direct
                && fact.callee_display == trimmed(t[f].text) && fact.callee_segments == seq![
                trimmed(t[f].text),
            ] && fact.path_root == CallPathRootView::Unqualified && fact.receiver_owner is None
                && fact.receiver_type is None,
{
    let fact = raw_call(t, k, sc, env, caller)->0;
    assert(fact.callee_segments[0] == trimmed(t[f].text));
    assert(call_fact(t, k, sc, env, caller) == Some(fact));
    lemma_call_kept(t, i, k, sc, env, caller, facts);
}

/// A word that stands for a place in the tree of modules.
pub open spec fn is_way(s: Seq<char>) -> bool {
    s == "crate"@ || s == "self"@ || s == "super"@
}

/// The parts of a path as they are written.
pub open spec fn parts_of(path: Seq<char>) -> Seq<Seq<char>> {
    split_on(path, "::"@).map_values(|s: Seq<char>| trimmed(s))
}

proof fn lemma_split_on(s: Seq<char>, p: Seq<char>)
    ensures
        split_on(s, p).len() > 0,
        split_on(s, p)[0] == (match find(s, p) {
            Some(i) => if p.len() > 0 && 0 <= i && i + p.len() <= s.len() {
                s.take(i)
            } else {
                s
            },
            None => s,
        }),
    decreases s.len(),
{
}

pub proof fn lemma_some_parts(path: Seq<char>)
    ensures
        parts_of(path).len() > 0,
{
    lemma_split_on(path, "::"@);
}

proof fn lemma_without_roots(s: Seq<Seq<char>>)
    requires
        s.len() > 0,
        !is_way(s.last()),
    ensures
        without_roots(s).len() > 0,
        without_roots(s).last() == s.last(),
        without_roots(s).len() <= s.len(),
        forall|k: int|
            0 <= k < without_roots(s).len() ==> s.contains(#[trigger] without_roots(s)[k]),
        !is_way(without_roots(s)[0]),
        !is_way(s[0]) ==> without_roots(s) == s,
        is_way(s[0]) && s.len() > 1 && !is_way(s[1]) ==> without_roots(s) == s.skip(1),
    decreases s.len(),
{
    if is_way(s[0]) {
        let rest = s.drop_first();
        assert(s.len() > 1);
        assert(rest.last() == s.last());
        lemma_without_roots(rest);
        assert forall|k: int| 0 <= k < without_roots(s).len() implies s.contains(
            #[trigger] without_roots(s)[k],
        ) by {
            let m = choose|m: int| 0 <= m < rest.len() && rest[m] == without_roots(s)[k];
            assert(s[m + 1] == without_roots(s)[k]);
        }
        assert(rest =~= s.skip(1));
    } else {
        assert forall|k: int| 0 <= k < without_roots(s).len() implies s.contains(
            #[trigger] without_roots(s)[k],
        ) by {
            assert(s[k] == without_roots(s)[k]);
        }
    }
}

/// A call that is written with a path is a path call: it shows the path as it is written, is
/// matched by the path from the crate on, and ends in the name that is called.
pub proof fn law_path_calls_are_sites(
    t: Seq<SyntaxNodeView>,
    i: int,
    k: int,
    f: int,
    sc: ScopeView,
    env: TypeEnvView,
    caller: CallerView,
    facts: FileFactsView,
)
    requires
        0 <= i,
        within(t, i, k),
        is_a(t, k, "call_expression"@),
        names_callee(t, k, f),
        is_a(t, f, "scoped_identifier"@),
        forall|n: int|
            0 <= n < parts_of(trimmed(t[f].text)).len() ==> simple_ident(
                #[trigger] parts_of(trimmed(t[f].text))[n],
            ),
        !is_way(parts_of(trimmed(t[f].text)).last()),
        parts_of(trimmed(t[f].text)).last() != "Self"@,
        parts_of(trimmed(t[f].text)).contains("Self"@) ==> (sc.self_owner() matches Some(o)
            ==> simple_ident(o)),
    ensures
        exists|fact: CallSiteFactView| #[trigger]
            sites_over(t, i, named_children(t, i), sc, env, caller, facts).call_sites.contains(fact)
                && is_site_of(fact, t, k, caller) && path_fact(
                fact,
                trimmed(t[f].text),
                sc.self_owner(),
            ),
{
    let display = trimmed(t[f].text);
    let parts = parts_of(display);
    lemma_callee_kinds();
    lemma_split_on(display, "::"@);
    lemma_find_from(display, "::"@, 0);
    reveal_strlit("::");
    reveal_strlit("Self");
    reveal_strlit("self");
    reveal_strlit("super");
    reveal_strlit("crate");
    assert("Self"@[0] != "self"@[0]);
    assert(parts =~= segments_of(display));
    lemma_without_roots(parts);
    let bare = without_roots(parts);
    let fact = raw_call(t, k, sc, env, caller)->0;
    let segments = call_path(sc, display);
    assert(fact.callee_segments == segments);
    assert forall|n: int| 0 <= n < bare.len() implies simple_ident(#[trigger] bare[n]) by {
        assert(parts.contains(bare[n]));
        let m = choose|m: int| 0 <= m < parts.len() && parts[m] == bare[n];
        assert(simple_ident(parts[m]));
    }
    if bare[0] == "Self"@ {
        assert(parts.contains(bare[0]));
        assert(bare.len() > 1);
        let tail = bare.drop_first();
        assert(tail.last() == bare.last());
        assert forall|n: int| 0 <= n < segments.len() implies simple_ident(
            #[trigger] segments[n],
        ) by {
            if sc.self_owner() is Some {
                if n > 0 {
                    assert(segments[n] == bare[n]);
                }
            } else {
                assert(segments[n] == bare[n + 1]);
            }
        }
        assert(segments.last() == bare.last());
        assert(parts[0] == "Self"@ ==> tail =~= parts.skip(1));
    }
    assert(parts[0] == trimmed(split_on(display, "::"@)[0]));
    assert(call_fact(t, k, sc, env, caller) == Some(fact));
    lemma_call_kept(t, i, k, sc, env, caller, facts);
    let first = trimmed(before_first(display, "::"@));
    assert(parts[0] == first);
    assert(first.len() > 0);
    if is_way(parts[0]) && parts.len() > 1 && !is_way(parts[1]) && parts[1] != "Self"@ {
        assert(bare == parts.skip(1));
        assert(bare[0] == parts[1]);
    }
    if parts[0] == "Self"@ {
        assert(bare == parts);
    }
    assert(segments.last() == parts.last());
    assert(path_fact(fact, display, sc.self_owner()));
}

/// What a path call says of its path.
pub open spec fn path_fact(
    fact: CallSiteFactView,
    path: Seq<char>,
    owner: Option<Seq<char>>,
) -> bool {
    let parts = parts_of(path);
    &&& fact.call_kind == CallKind::Path
    &&& fact.callee_display == path
    &&& fact.callee_segments.len() > 0
    &&& fact.callee_segments.last() == parts.last()
    &&& !is_way(parts[0]) && parts[0] != "Self"@ ==> fact.callee_segments == parts
    &&& is_way(parts[0]) && parts.len() > 1 && !is_way(parts[1]) && parts[1] != "Self"@
        ==> fact.callee_segments == parts.skip(1)
    &&& parts[0] == "Self"@ ==> fact.callee_segments == (match owner {
        Some(o) => seq![o] + parts.skip(1),
        None => parts.skip(1),
    })
    &&& fact.path_root == (if is_way(parts[0]) {
        CallPathRootView::CurrentCrate
    } else {
        CallPathRootView::Leading(parts[0])
    })
    &&& fact.receiver_owner is None
    &&& fact.receiver_type is None
}

/// A call of a method is a method call of its name. On `self` it names the type of `self` where
/// that is known; on a name that is bound once, with its type beside it, it names that type.
pub proof fn law_method_calls_are_sites(
    t: Seq<SyntaxNodeView>,
    i: int,
    k: int,
    f: int,
    x: int,
    sc: ScopeView,
    env: TypeEnvView,
    caller: CallerView,
    facts: FileFactsView,
)
    requires
        0 <= i,
        within(t, i, k),
        is_a(t, k, "call_expression"@),
        names_callee(t, k, f),
        is_a(t, f, "field_expression"@),
        field_child(t, f, "field"@) == Some(x),
        is_a(t, x, "field_identifier"@),
        simple_ident(trimmed(t[x].text)),
    ensures
        exists|fact: CallSiteFactView| #[trigger]
            sites_over(t, i, named_children(t, i), sc, env, caller, facts).call_sites.contains(fact)
                && is_site_of(fact, t, k, caller) && fact.callee_display == trimmed(t[x].text)
                && fact.callee_segments == seq![trimmed(t[x].text)] && on_receiver(
                fact,
                t,
                field_child(t, f, "value"@),
                sc.self_owner(),
                env,
            ),
{
    lemma_callee_kinds();
    reveal_strlit("self");
    reveal_strlit("identifier");
    assert("self"@.len() != "identifier"@.len());
    let fact = raw_call(t, k, sc, env, caller)->0;
    assert(fact.callee_segments[0] == trimmed(t[x].text));
    assert(call_fact(t, k, sc, env, caller) == Some(fact));
    lemma_call_kept(t, i, k, sc, env, caller, facts);
    assert(on_receiver(fact, t, field_child(t, f, "value"@), sc.self_owner(), env));
}

/// What a method call says of its receiver.
pub open spec fn on_receiver(
    fact: CallSiteFactView,
    t: Seq<SyntaxNodeView>,
    value: Option<int>,
    owner: Option<Seq<char>>,
    env: TypeEnvView,
) -> bool {
    if value is Some && is_a(t, value->0, "self"@) {
        &&& fact.receiver_owner == owner
        &&& fact.receiver_type is None
        &&& owner is Some ==> fact.call_kind == CallKind::SelfMethod
        &&& owner is None ==> fact.call_kind == CallKind::Method
    } else {
        &&& fact.receiver_owner is None
        &&& fact.call_kind == CallKind::Method
        &&& value is Some && is_a(t, value->0, "identifier"@) ==> {
            let name = trimmed(t[value->0].text);
            &&& occurrences(env.bound, name) == 1 ==> fact.receiver_type == lookup(env.typed, name)
            &&& occurrences(env.bound, name) != 1 ==> fact.receiver_type is None
        }
        &&& !(value is Some && is_a(t, value->0, "identifier"@)) ==> fact.receiver_type is None
    }
}

} // verus!
