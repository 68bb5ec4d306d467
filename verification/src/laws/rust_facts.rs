//! What is built, registered and defined in a Rust file is among its facts.
use vstd::prelude::*;

use crate::ir::{EdgeLabel, EdgeRecordView, NodeKind, NodeRecordView, RecordView};
use crate::languages::facts::{
    CallPathRootView, ConstructSiteFactView, DefinitionFactView, OutOfLineModFactView,
    RouteRegistrationFactView,
};
use crate::languages::rust::calls::{
    bind_params, call_path, construct_fact, function_env, handlers, note_site, registrations,
    segments_of, sites_over, CallerView,
};
use crate::languages::rust::extract::{
    direct_impl_method, direct_trait_method, enter, function_kind, function_name, impl_scope,
    with_definition, with_function, with_symbol, with_unsafe_item, FileSourceView, FindingsView,
};
use crate::languages::rust::file::tree_findings;
use crate::languages::rust::impls::{header_of, owner_text, simple_ident};
use crate::languages::rust::items::{attributes, first_path, has_attribute, Wanted};
use crate::languages::rust::scope::{qualified, ScopeView};
use crate::languages::rust::tree::{block_local, literal_has_base, member_of, receiver_type};
use crate::languages::syntax::{
    children, field_child, first_of_kind, is_a, named_children, text_at, SyntaxNodeView,
};
use crate::laws::backtrace::is_free_of;
use crate::laws::rust_call_sites::{caller_of, lemma_body, lemma_with_function};
use crate::laws::rust_calls::{after_node, lemma_after_node, lemma_within, within};
use crate::laws::rust_items::{
    covers, law_parent, lemma_enter_function, lemma_enter_module, lemma_kinds_differ,
    lemma_pair_stays, lemma_stays, recorded,
};
use crate::laws::rust_sites::lemma_enter_impl;
use crate::laws::rust_walk::{
    child_of, extends, in_the_open, law_named_children, lemma_adds, lemma_sites_grow, lemma_visit,
    lemma_visit_child, lemma_visited,
};
use crate::policy::Redactor;
use crate::text::{after_last, before_first, find, has, lemma_find_from, split_on, trimmed};

verus! {

// ── What is built ───────────────────────────────────────────────────────────

proof fn lemma_no_way(s: Seq<char>)
    requires
        is_free_of(s, ':'),
        s != "crate"@,
        s != "self"@,
        s != "super"@,
        s != "Self"@,
        trimmed(s) == s,
    ensures
        has(s, "::"@) == false,
        before_first(s, "::"@) == s,
        forall|sc: ScopeView| #[trigger] call_path(sc, s) == seq![s],
{
    reveal_strlit("::");
    lemma_find_from(s, "::"@, 0);
    if let Some(k) = find(s, "::"@) {
        assert(s.subrange(k, k + 2)[0] == "::"@[0]);
        assert(s[k] == ':');
    }
    assert(split_on(s, "::"@) =~= seq![s]);
    assert(segments_of(s) =~= seq![s]);
}

/// A site of the struct literal at `k`.
pub open spec fn is_construct_of(
    fact: ConstructSiteFactView,
    t: Seq<SyntaxNodeView>,
    k: int,
    caller: CallerView,
    ty: Seq<char>,
) -> bool {
    &&& covers(fact.span, t[k])
    &&& fact.constructor_id == caller.id
    &&& fact.constructor_name == caller.name
    &&& fact.type_display == ty
    &&& fact.type_segments == seq![ty]
    &&& fact.path_root == CallPathRootView::Unqualified
    &&& fact.is_exhaustive == !literal_has_base(t, k)
}

proof fn lemma_construct(
    t: Seq<SyntaxNodeView>,
    k: int,
    x: int,
    ty: Seq<char>,
    sc: ScopeView,
    caller: CallerView,
)
    requires
        0 <= k < t.len(),
        field_child(t, k, "name"@) == Some(x),
        is_a(t, x, "type_identifier"@),
        trimmed(t[x].text) == ty,
        trimmed(ty) == ty,
        simple_ident(ty),
        is_free_of(ty, ':'),
        ty.len() > 0,
        ty != "crate"@ && ty != "self"@ && ty != "super"@ && ty != "Self"@,
    ensures
        construct_fact(t, k, sc, caller) matches Some(fact) && is_construct_of(
            fact,
            t,
            k,
            caller,
            ty,
        ),
{
    lemma_no_way(ty);
    reveal_strlit("type_identifier");
    reveal_strlit("reference_type");
    reveal_strlit("pointer_type");
    reveal_strlit("generic_type");
    assert("type_identifier"@.len() == 15 && "reference_type"@.len() == 14 && "pointer_type"@.len()
        == 12 && "generic_type"@.len() == 12);
    assert(receiver_type(t, x) == Some(ty));
    assert(call_path(sc, ty) == seq![ty]);
    assert(seq![ty][0] == ty);
}

/// Every struct literal of a plain type in a function is a site of the file, under the symbol of
/// the function.
pub proof fn law_struct_literals_are_sites<R: Redactor>(
    e: FileSourceView<R>,
    t: Seq<SyntaxNodeView>,
    j: int,
    local: Seq<char>,
    k: int,
    x: int,
    ty: Seq<char>,
)
    requires
        in_the_open(t, j),
        is_a(t, j, "function_item"@),
        field_child(t, j, "name"@) matches Some(y) && text_at(t, y) == local,
        within(t, j, k),
        is_a(t, k, "struct_expression"@),
        field_child(t, k, "name"@) == Some(x),
        is_a(t, x, "type_identifier"@),
        trimmed(t[x].text) == ty,
        trimmed(ty) == ty,
        simple_ident(ty),
        is_free_of(ty, ':'),
        ty.len() > 0,
        ty != "crate"@ && ty != "self"@ && ty != "super"@ && ty != "Self"@,
    ensures
        exists|fact: ConstructSiteFactView, n: NodeRecordView, edge: EdgeRecordView|
            {
                &&& tree_findings(e, t).facts.construct_sites.contains(fact)
                &&& #[trigger] recorded(
                    tree_findings(e, t).records,
                    NodeKind::Symbol,
                    t[j],
                    EdgeLabel::Defines,
                    n,
                    edge,
                )
                &&& #[trigger] is_construct_of(fact, t, k, caller_of(n), ty)
            },
{
    let (n, edge, sc, facts) = lemma_body(e, t, j, local);
    let env = function_env(t, j);
    let caller = caller_of(n);
    let mid = lemma_within(t, j, k, sc, env, caller, facts);
    let all = sites_over(t, j, named_children(t, j), sc, env, caller, facts);
    let noted = note_site(t, k, sc, env, caller, mid);
    lemma_after_node(t, k, sc, env, caller, mid);
    lemma_adds(noted, after_node(t, k, sc, env, caller, mid), all);
    reveal_strlit("macro_invocation");
    reveal_strlit("call_expression");
    reveal_strlit("struct_expression");
    assert("macro_invocation"@.len() == 16 && "call_expression"@.len() == 15
        && "struct_expression"@.len() == 17);
    lemma_construct(t, k, x, ty, sc, caller);
    let fact = construct_fact(t, k, sc, caller)->0;
    let m = mid.construct_sites.len() as int;
    assert(noted.construct_sites[m] == fact);
    assert(all.construct_sites[m] == fact);
    lemma_stays(all.construct_sites, tree_findings(e, t).facts.construct_sites, m);
    assert(is_construct_of(fact, t, k, caller_of(n), ty));
}

// ── What is registered ──────────────────────────────────────────────────────

proof fn lemma_handler(t: Seq<SyntaxNodeView>, kids: Seq<int>, caller: CallerView, m: int)
    requires
        0 <= m < kids.len(),
        0 <= kids[m] < t.len(),
        is_a(t, kids[m], "identifier"@),
        simple_ident(trimmed(t[kids[m]].text)),
    ensures
        exists|fact: RouteRegistrationFactView| #[trigger]
            handlers(t, kids, caller).contains(fact) && is_handler_of(fact, t, kids[m], caller),
    decreases kids.len(),
{
    let rest = kids.drop_last();
    let all = handlers(t, kids, caller);
    if m < rest.len() {
        assert(rest[m] == kids[m]);
        lemma_handler(t, rest, caller, m);
        let before = handlers(t, rest, caller);
        let fact = choose|fact: RouteRegistrationFactView| #[trigger]
            before.contains(fact) && is_handler_of(fact, t, kids[m], caller);
        let k = choose|k: int| 0 <= k < before.len() && before[k] == fact;
        assert(all[k] == fact);
        assert(all.contains(fact));
    } else {
        let fact = all.last();
        assert(all[all.len() - 1] == fact);
        assert(all.contains(fact));
        assert(is_handler_of(fact, t, kids[m], caller));
    }
}

/// The registration of the handler that the token at `k` names.
pub open spec fn is_handler_of(
    fact: RouteRegistrationFactView,
    t: Seq<SyntaxNodeView>,
    k: int,
    caller: CallerView,
) -> bool {
    &&& covers(fact.span, t[k])
    &&& fact.owner_id == caller.id
    &&& fact.owner_name == caller.name
    &&& fact.handler_display == trimmed(t[k].text)
    &&& fact.handler_segments == seq![trimmed(t[k].text)]
}

/// Every plain name within a macro `routes` is registered as a handler.
pub proof fn law_routes_are_registered(
    t: Seq<SyntaxNodeView>,
    i: int,
    name: int,
    tokens: int,
    k: int,
    caller: CallerView,
)
    requires
        field_child(t, i, "macro"@) == Some(name),
        trimmed(after_last(trimmed(text_at(t, name)), "::"@)) == "routes"@,
        0 <= name < t.len(),
        first_of_kind(t, children(t, i), "token_tree"@) == Some(tokens),
        child_of(t, tokens, k),
        is_a(t, k, "identifier"@),
        simple_ident(trimmed(t[k].text)),
    ensures
        exists|fact: RouteRegistrationFactView| #[trigger]
            registrations(t, i, caller).contains(fact) && is_handler_of(fact, t, k, caller),
{
    let kids = named_children(t, tokens);
    law_named_children(t, tokens);
    assert(kids.contains(k));
    let m = choose|m: int| 0 <= m < kids.len() && kids[m] == k;
    lemma_handler(t, kids, caller, m);
    assert(registrations(t, i, caller) == handlers(t, kids, caller));
}

// ── What is typed ───────────────────────────────────────────────────────────

/// A parameter that is a plain name is bound, and known by its type.
pub proof fn law_parameters_are_typed(
    t: Seq<SyntaxNodeView>,
    kids: Seq<int>,
    m: int,
    p: int,
    ty: int,
    path: Seq<char>,
)
    requires
        0 <= m < kids.len(),
        is_a(t, kids[m], "parameter"@),
        field_child(t, kids[m], "pattern"@) == Some(p),
        is_a(t, p, "identifier"@),
        field_child(t, kids[m], "type"@) == Some(ty),
        receiver_type(t, ty) == Some(path),
    ensures
        bind_params(t, kids).typed.contains((trimmed(t[p].text), path)),
        bind_params(t, kids).bound.contains(trimmed(t[p].text)),
    decreases kids.len(),
{
    let rest = kids.drop_last();
    let before = bind_params(t, rest);
    let all = bind_params(t, kids);
    let name = trimmed(t[p].text);
    if m < rest.len() {
        assert(rest[m] == kids[m]);
        law_parameters_are_typed(t, rest, m, p, ty, path);
        let a = choose|a: int| 0 <= a < before.typed.len() && before.typed[a] == (name, path);
        let b = choose|b: int| 0 <= b < before.bound.len() && before.bound[b] == name;
        assert(all.typed[a] == (name, path));
        assert(all.bound[b] == name);
    } else {
        assert(all.typed[before.typed.len() as int] == (name, path));
        assert(all.bound[before.bound.len() as int] == name);
    }
}

// ── What is defined ─────────────────────────────────────────────────────────

proof fn lemma_definition<R: Redactor>(
    e: FileSourceView<R>,
    t: Seq<SyntaxNodeView>,
    j: int,
    local: Seq<char>,
    sc: ScopeView,
    out: FindingsView,
)
    requires
        !block_local(t, j),
    ensures
        ({
            let all = with_function(e, t, j, local, sc, out);
            let d = out.facts.definitions.len() as int;
            &&& all.facts.definitions.len() == d + 1
            &&& all.records[out.records.len() as int] matches RecordView::Node(n)
                && all.facts.definitions[d].id == n.id && Some(
                all.facts.definitions[d].qualified_name,
            ) == n.name && all.facts.definitions[d].simple_name == local && Some(
                all.facts.definitions[d].symbol_kind,
            ) == n.code.symbol_kind && all.facts.definitions[d].repo_relative_path == e.path
        }),
{
    let kind = function_kind(t, j, sc);
    let name = function_name(t, j, local, sc);
    let symbol = with_symbol(e, t, j, kind, name, sc, out);
    let n = symbol.records[out.records.len() as int]->Node_0;
    let of_trait = direct_trait_method(t, j, sc);
    let of_impl = direct_impl_method(t, j, sc);
    let defined = with_definition(e, n.id, kind, name, local, of_trait, of_impl, sc, symbol);
    lemma_sites_grow(
        t,
        j,
        named_children(t, j),
        sc,
        function_env(t, j),
        CallerView { id: n.id, name },
        defined.facts,
    );
}

/// The fact that a function is defined, in the words of its symbol.
pub open spec fn is_definition_of(
    d: DefinitionFactView,
    n: NodeRecordView,
    local: Seq<char>,
    path: Seq<char>,
) -> bool {
    &&& d.id == n.id
    &&& n.name == Some(d.qualified_name)
    &&& d.simple_name == local
    &&& n.code.symbol_kind == Some(d.symbol_kind)
    &&& d.repo_relative_path == path
}

/// Every function outside a block is a definition that calls can find.
pub proof fn law_functions_are_definitions<R: Redactor>(
    e: FileSourceView<R>,
    t: Seq<SyntaxNodeView>,
    j: int,
    local: Seq<char>,
)
    requires
        in_the_open(t, j),
        is_a(t, j, "function_item"@),
        field_child(t, j, "name"@) matches Some(x) && text_at(t, x) == local,
        !block_local(t, j),
    ensures
        exists|d: DefinitionFactView, n: NodeRecordView, edge: EdgeRecordView|
            {
                &&& tree_findings(e, t).facts.definitions.contains(d)
                &&& #[trigger] recorded(
                    tree_findings(e, t).records,
                    NodeKind::Symbol,
                    t[j],
                    EdgeLabel::Defines,
                    n,
                    edge,
                )
                &&& #[trigger] is_definition_of(d, n, local, e.path)
            },
{
    let found = tree_findings(e, t);
    let (sc, out) = lemma_visited(e, t, j);
    lemma_visit(e, t, j, sc, out, found);
    lemma_enter_function(e, t, j, local, sc, out);
    let next = with_unsafe_item(e, t, j, "fn"@, out);
    let (n, edge, facts) = lemma_with_function(e, t, j, local, sc, next);
    lemma_definition(e, t, j, local, sc, next);
    let step = enter(e, t, j, sc, out).out;
    lemma_pair_stays(step, found);
    let k = next.facts.definitions.len() as int;
    let d = step.facts.definitions[k];
    lemma_stays(step.facts.definitions, found.facts.definitions, k);
    assert(recorded(found.records, NodeKind::Symbol, t[j], EdgeLabel::Defines, n, edge));
    assert(is_definition_of(d, n, local, e.path));
}

// ── Methods ─────────────────────────────────────────────────────────────────

proof fn lemma_enter_list<R: Redactor>(
    e: FileSourceView<R>,
    t: Seq<SyntaxNodeView>,
    d: int,
    sc: ScopeView,
    out: FindingsView,
)
    requires
        is_a(t, d, "declaration_list"@),
    ensures
        enter(e, t, d, sc, out).scope == sc,
{
    reveal(enter);
    lemma_kinds_differ();
}

proof fn lemma_enter_impl_scope<R: Redactor>(
    e: FileSourceView<R>,
    t: Seq<SyntaxNodeView>,
    p: int,
    sc: ScopeView,
    out: FindingsView,
)
    requires
        is_a(t, p, "impl_item"@),
    ensures
        enter(e, t, p, sc, out).scope == impl_scope(
            e,
            t,
            p,
            sc,
            with_unsafe_item(e, t, p, "impl"@, out),
        ),
{
    reveal(enter);
    lemma_kinds_differ();
}

proof fn lemma_method_symbol<R: Redactor>(
    e: FileSourceView<R>,
    t: Seq<SyntaxNodeView>,
    j: int,
    local: Seq<char>,
    sc: ScopeView,
    out: FindingsView,
)
    requires
        direct_impl_method(t, j, sc),
    ensures
        ({
            let all = with_function(e, t, j, local, sc, out).records;
            let k = out.records.len() as int;
            all[k] matches RecordView::Node(n) && n.code.symbol_kind == Some("method"@) && n.name
                == Some(
                qualified(sc.modules, sc.impl_context->0.method_owner + "::"@ + local),
            ) && (all[k + 1] matches RecordView::Edge(x) && x.source == sc.impl_context->0.id)
        }),
{
    let kind = function_kind(t, j, sc);
    let name = function_name(t, j, local, sc);
    assert(with_function(e, t, j, local, sc, out).records == with_symbol(
        e,
        t,
        j,
        kind,
        name,
        sc,
        out,
    ).records);
}

/// A method and the edge from its impl.
pub open spec fn is_method_of(
    n: NodeRecordView,
    edge: EdgeRecordView,
    of: NodeRecordView,
    name: Seq<char>,
) -> bool {
    &&& n.code.symbol_kind == Some("method"@)
    &&& n.name == Some(name) || exists|front: Seq<char>| n.name == Some(
        #[trigger] (front + "::"@ + name),
    )
    &&& edge.source == of.id
    &&& of.code.symbol_kind == Some("impl"@)
}

/// A function directly within an impl is a method, is named after what the impl is of, and is
/// defined by it.
pub proof fn law_methods_stand_in_their_impl<R: Redactor>(
    e: FileSourceView<R>,
    t: Seq<SyntaxNodeView>,
    p: int,
    d: int,
    j: int,
    owner: Seq<char>,
    local: Seq<char>,
)
    requires
        in_the_open(t, p),
        is_a(t, p, "impl_item"@),
        header_of(text_at(t, p)) == "impl "@ + owner,
        trimmed(owner) == owner,
        child_of(t, p, d),
        is_a(t, d, "declaration_list"@),
        child_of(t, d, j),
        is_a(t, j, "function_item"@),
        field_child(t, j, "name"@) matches Some(x) && text_at(t, x) == local,
    ensures
        exists|
            of: NodeRecordView,
            of_edge: EdgeRecordView,
            n: NodeRecordView,
            edge: EdgeRecordView,
        |
            {
                &&& #[trigger] recorded(
                    tree_findings(e, t).records,
                    NodeKind::Symbol,
                    t[p],
                    EdgeLabel::Defines,
                    of,
                    of_edge,
                )
                &&& #[trigger] recorded(
                    tree_findings(e, t).records,
                    NodeKind::Symbol,
                    t[j],
                    EdgeLabel::Defines,
                    n,
                    edge,
                )
                &&& is_method_of(n, edge, of, owner + "::"@ + local)
            },
{
    let found = tree_findings(e, t);
    let (sc, out) = lemma_visited(e, t, p);
    lemma_visit(e, t, p, sc, out, found);
    lemma_kinds_differ();
    let mid = lemma_visit_child(e, t, p, sc, out, found, d);
    let inner = enter(e, t, p, sc, out).scope;
    lemma_enter_list(e, t, d, inner, mid);
    let last = lemma_visit_child(e, t, d, inner, mid, found, j);
    lemma_enter_impl_scope(e, t, p, sc, out);
    let (of, of_edge) = lemma_impl_symbol(e, t, p, sc, out, found);
    let display = "impl "@ + owner;
    assert(display.subrange(0, "impl "@.len() as int) =~= "impl "@);
    assert(display.skip("impl "@.len() as int) =~= owner);
    assert(owner_text(display) == owner);

    law_parent(t, d, j);
    law_parent(t, p, d);
    assert(member_of(t, j, "impl_item"@));
    lemma_visit(e, t, j, inner, last, found);
    lemma_enter_function(e, t, j, local, inner, last);
    let next = with_unsafe_item(e, t, j, "fn"@, last);
    let (n, edge, facts) = lemma_with_function(e, t, j, local, inner, next);
    lemma_method_symbol(e, t, j, local, inner, next);
    lemma_pair_stays(enter(e, t, j, inner, last).out, found);
    assert(recorded(found.records, NodeKind::Symbol, t[j], EdgeLabel::Defines, n, edge));
    let name = owner + "::"@ + local;
    if inner.modules.len() > 0 {
        let front = crate::text::joined(inner.modules, "::"@);
        assert(qualified(inner.modules, name) == front + "::"@ + name);
    }
    assert(is_method_of(n, edge, of, name));
}

proof fn lemma_impl_symbol<R: Redactor>(
    e: FileSourceView<R>,
    t: Seq<SyntaxNodeView>,
    p: int,
    sc: ScopeView,
    out: FindingsView,
    found: FindingsView,
) -> (r: (NodeRecordView, EdgeRecordView))
    requires
        0 <= p < t.len(),
        is_a(t, p, "impl_item"@),
        extends(enter(e, t, p, sc, out).out, found),
    ensures
        recorded(found.records, NodeKind::Symbol, t[p], EdgeLabel::Defines, r.0, r.1),
        r.0.code.symbol_kind == Some("impl"@),
        r.0.id == impl_scope(
            e,
            t,
            p,
            sc,
            with_unsafe_item(e, t, p, "impl"@, out),
        ).impl_context->0.id,
{
    lemma_enter_impl(e, t, p, sc, out);
    let step = enter(e, t, p, sc, out).out;
    let next = with_unsafe_item(e, t, p, "impl"@, out);
    let k = next.records.len() as int;
    let name = qualified(sc.modules, header_of(text_at(t, p)));
    assert(step.records == with_symbol(e, t, p, "impl"@, name, sc, next).records);
    lemma_pair_stays(step, found);
    (step.records[k]->Node_0, step.records[k + 1]->Edge_0)
}

// ── Modules ─────────────────────────────────────────────────────────────────

/// The fact of a module whose body is in a file of its own.
pub open spec fn is_module_of(f: OutOfLineModFactView, local: Seq<char>) -> bool {
    f.name == local
}

/// Every module without a body is a fact, so that its file can be found.
pub proof fn law_modules_without_a_body_are_facts<R: Redactor>(
    e: FileSourceView<R>,
    t: Seq<SyntaxNodeView>,
    j: int,
    local: Seq<char>,
)
    requires
        in_the_open(t, j),
        is_a(t, j, "mod_item"@),
        field_child(t, j, "name"@) matches Some(x) && text_at(t, x) == local,
        field_child(t, j, "body"@) is None,
    ensures
        exists|f: OutOfLineModFactView|
            tree_findings(e, t).facts.out_of_line_mods.contains(f) && #[trigger] is_module_of(
                f,
                local,
            ) && (has_attribute(t, j, Wanted::CfgTest) ==> f.test_gated) && f.path_override
                == first_path(t, attributes(t, j)),
{
    let found = tree_findings(e, t);
    let (sc, out) = lemma_visited(e, t, j);
    lemma_visit(e, t, j, sc, out, found);
    lemma_enter_module(e, t, j, local, sc, out);
    let step = enter(e, t, j, sc, out).out;
    let k = out.facts.out_of_line_mods.len() as int;
    let f = step.facts.out_of_line_mods[k];
    lemma_stays(step.facts.out_of_line_mods, found.facts.out_of_line_mods, k);
    assert(is_module_of(f, local));
}

/// What stands in a module of tests, or in a test, counts as test code.
pub proof fn law_tests_reach_inward<R: Redactor>(
    e: FileSourceView<R>,
    t: Seq<SyntaxNodeView>,
    j: int,
    local: Seq<char>,
    sc: ScopeView,
    out: FindingsView,
)
    requires
        is_a(t, j, "mod_item"@),
        field_child(t, j, "name"@) matches Some(x) && text_at(t, x) == local,
    ensures
        enter(e, t, j, sc, out).scope.in_test == (sc.in_test || has_attribute(
            t,
            j,
            Wanted::CfgTest,
        )),
        enter(e, t, j, sc, out).scope.modules == sc.modules.push(local),
{
    lemma_enter_module(e, t, j, local, sc, out);
}

} // verus!
