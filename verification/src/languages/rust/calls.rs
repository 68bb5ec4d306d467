//! Calls, struct literals and route registrations inside a function.
use vstd::prelude::*;

use crate::assoc::{find_value, lookup};
use crate::duplicate::lemma_push;
use crate::languages::facts::{
    CallKind, CallPathRoot, CallPathRootView, CallSiteFact, CallSiteFactView, ConstructSiteFact,
    ConstructSiteFactView, FileFacts, FileFactsView, RouteRegistrationFact,
    RouteRegistrationFactView,
};
use crate::languages::rust::impls::{is_simple_ident, simple_ident};
use crate::languages::rust::items::is_route_registration_macro;
use crate::languages::rust::scope::{Scope, ScopeView};
use crate::languages::rust::tree::{
    collect_pattern_idents, literal_has_base, pattern_idents, receiver_type, reduce_receiver_type,
    struct_literal_has_base, trimmed_at, trimmed_text,
};
use crate::languages::syntax::{
    child_list, children, field_child, find_field, find_first_of_kind, first_of_kind, has_kind, is_a,
    named_child_list, named_children, positions, span, span_of, SyntaxNode, SyntaxNodeView,
};
use crate::order::{count_text, occurrences};
use crate::text::{
    after, after_last, before, before_first, contains, has, parts1, same, split, split_on, trim,
    trimmed,
};

verus! {

// ── Paths ───────────────────────────────────────────────────────────────────

pub open spec fn is_root(segment: Seq<char>) -> bool {
    segment == "crate"@ || segment == "self"@ || segment == "super"@
}

fn check_root(segment: &str) -> (r: bool)
    ensures
        r == is_root(segment@),
{
    same(segment, "crate") || same(segment, "self") || same(segment, "super")
}

/// Path segments without the `crate`, `self` and `super` in front.
pub open spec fn without_roots(segments: Seq<Seq<char>>) -> Seq<Seq<char>>
    decreases segments.len(),
{
    if segments.len() > 0 && is_root(segments[0]) {
        without_roots(segments.drop_first())
    } else {
        segments
    }
}

/// The segments of a path as it is written.
pub open spec fn segments_of(display: Seq<char>) -> Seq<Seq<char>> {
    split_on(display, "::"@).map_values(|s: Seq<char>| trimmed(s))
}

/// A path as calls are matched by it: without the way from the crate root, and with a leading
/// `Self` replaced where it is known.
pub open spec fn call_path(sc: ScopeView, display: Seq<char>) -> Seq<Seq<char>> {
    let bare = without_roots(segments_of(display));
    if bare.len() > 0 && bare[0] == "Self"@ {
        match sc.self_owner() {
            Some(o) => seq![o] + bare.drop_first(),
            None => bare.drop_first(),
        }
    } else {
        bare
    }
}

fn trim_all(parts: &Vec<String>) -> (r: Vec<String>)
    ensures
        r.deep_view() == parts.deep_view().map_values(|s: Seq<char>| trimmed(s)),
{
    let ghost all = parts.deep_view().map_values(|s: Seq<char>| trimmed(s));
    let mut out: Vec<String> = Vec::new();
    let mut i: usize = 0;
    assert(out.deep_view() =~= all.take(0));
    while i < parts.len()
        invariant
            i <= parts.len(),
            all == parts.deep_view().map_values(|s: Seq<char>| trimmed(s)),
            out.deep_view() == all.take(i as int),
        decreases parts.len() - i,
    {
        let ghost before = out;
        out.push(trim(parts[i].as_str()));
        proof {
            lemma_push(before, out);
            assert(parts.deep_view()[i as int] == parts@[i as int].deep_view());
            assert(all.take(i + 1) =~= all.take(i as int).push(all[i as int]));
        }
        i += 1;
    }
    assert(all.take(parts.len() as int) =~= all);
    out
}

pub fn normalize_call_path(sc: &Scope, display: &str) -> (r: Vec<String>)
    ensures
        r.deep_view() == call_path(sc.deep_view(), display@),
{
    proof {
        reveal_strlit("::");
    }
    let segments: Vec<String> = trim_all(&split(display, "::"));
    let ghost all = segments.deep_view();
    let mut k: usize = 0;
    assert(all.skip(0) =~= all);
    while k < segments.len() && check_root(segments[k].as_str())
        invariant
            k <= segments.len(),
            all == segments.deep_view(),
            without_roots(all) == without_roots(all.skip(k as int)),
        decreases segments.len() - k,
    {
        proof {
            assert(all.skip(k as int)[0] == segments@[k as int].deep_view());
            assert(all.skip(k as int).drop_first() =~= all.skip(k + 1));
        }
        k += 1;
    }
    let ghost bare = all.skip(k as int);
    proof {
        if k < segments.len() {
            assert(bare[0] == segments@[k as int].deep_view());
        }
        assert(without_roots(all) == bare);
    }
    let mut out: Vec<String> = Vec::new();
    let mut from: usize = k;
    if k < segments.len() && same(segments[k].as_str(), "Self") {
        from = k + 1;
        if let Some(o) = sc.self_owner() {
            out = parts1(o.as_str());
        }
    }
    let ghost head = out.deep_view();
    let ghost tail = all.skip(from as int);
    proof {
        assert(from > k ==> tail =~= bare.drop_first());
        assert(call_path(sc.deep_view(), display@) =~= head + tail);
        assert(tail.take(0) =~= Seq::empty());
        assert(head + Seq::<Seq<char>>::empty() =~= head);
    }
    let mut i: usize = from;
    while i < segments.len()
        invariant
            from <= i <= segments.len(),
            all == segments.deep_view(),
            tail == all.skip(from as int),
            out.deep_view() == head + tail.take(i - from),
        decreases segments.len() - i,
    {
        let ghost before = out;
        out.push(segments[i].clone());
        proof {
            lemma_push(before, out);
            assert(tail[i - from] == segments@[i as int].deep_view());
            assert(head + tail.take(i + 1 - from) =~= (head + tail.take(i - from)).push(
                tail[i - from],
            ));
        }
        i += 1;
    }
    assert(tail.take(segments.len() - from) =~= tail);
    out
}

/// Segments that are all plain identifiers, and at least one.
pub open spec fn plain_segments(segments: Seq<Seq<char>>) -> bool {
    segments.len() > 0 && forall|i: int|
        0 <= i < segments.len() ==> simple_ident(#[trigger] segments[i])
}

fn check_segments(segments: &Vec<String>) -> (r: bool)
    ensures
        r == plain_segments(segments.deep_view()),
{
    let ghost all = segments.deep_view();
    let mut i: usize = 0;
    while i < segments.len()
        invariant
            i <= segments.len(),
            all == segments.deep_view(),
            forall|k: int| 0 <= k < i ==> simple_ident(#[trigger] all[k]),
        decreases segments.len() - i,
    {
        assert(all[i as int] == segments@[i as int].deep_view());
        if !is_simple_ident(segments[i].as_str()) {
            return false;
        }
        i += 1;
    }
    segments.len() > 0
}

/// Where the path of a call starts.
pub open spec fn call_root(display: Seq<char>) -> CallPathRootView {
    let first = trimmed(before_first(display, "::"@));
    if is_root(first) {
        CallPathRootView::CurrentCrate
    } else if first.len() > 0 {
        CallPathRootView::Leading(first)
    } else {
        CallPathRootView::Unqualified
    }
}

fn find_call_root(display: &str) -> (r: CallPathRoot)
    ensures
        r.deep_view() == call_root(display@),
{
    let first: String = trim(before(display, "::").as_str());
    if check_root(first.as_str()) {
        CallPathRoot::CurrentCrate
    } else if !first.as_str().is_empty() {
        CallPathRoot::Leading(first)
    } else {
        CallPathRoot::Unqualified
    }
}

/// Where the path of a constructed type starts; `Self` is in the crate itself.
pub open spec fn construct_root(display: Seq<char>) -> CallPathRootView {
    let first = trimmed(before_first(display, "::"@));
    if is_root(first) || first == "Self"@ {
        CallPathRootView::CurrentCrate
    } else if has(display, "::"@) && first.len() > 0 {
        CallPathRootView::Leading(first)
    } else {
        CallPathRootView::Unqualified
    }
}

fn find_construct_root(display: &str) -> (r: CallPathRoot)
    ensures
        r.deep_view() == construct_root(display@),
{
    let first: String = trim(before(display, "::").as_str());
    if check_root(first.as_str()) || same(first.as_str(), "Self") {
        CallPathRoot::CurrentCrate
    } else if contains(display, "::") && !first.as_str().is_empty() {
        CallPathRoot::Leading(first)
    } else {
        CallPathRoot::Unqualified
    }
}

// ── Types of bindings ───────────────────────────────────────────────────────

/// What a function binds: the names with a type written beside them, and every name.
#[derive(Debug, PartialEq, Eq)]
pub struct TypeEnv {
    pub typed: Vec<(String, String)>,
    pub bound: Vec<String>,
}

#[verifier::ext_equal]
pub struct TypeEnvView {
    pub typed: Seq<(Seq<char>, Seq<char>)>,
    pub bound: Seq<Seq<char>>,
}

impl DeepView for TypeEnv {
    type V = TypeEnvView;

    open spec fn deep_view(&self) -> TypeEnvView {
        TypeEnvView { typed: self.typed.deep_view(), bound: self.bound.deep_view() }
    }
}

impl TypeEnvView {
    /// The type of a name that is certain: it is bound exactly once, with its type beside it.
    pub open spec fn type_of(self, name: Seq<char>) -> Option<Seq<char>> {
        if occurrences(self.bound, name) == 1 {
            lookup(self.typed, name)
        } else {
            None
        }
    }
}

impl TypeEnv {
    pub fn type_of(&self, name: &str) -> (r: Option<String>)
        ensures
            r.deep_view() == self.deep_view().type_of(name@),
    {
        if count_text(&self.bound, name) == 1 {
            match find_value(&self.typed, name) {
                Some(t) => Some(t.clone()),
                None => None,
            }
        } else {
            None
        }
    }
}

/// The environment after the pattern at `p`, with the type at `ty` beside it where there is one.
pub open spec fn bind(
    t: Seq<SyntaxNodeView>,
    p: int,
    ty: Option<int>,
    env: TypeEnvView,
) -> TypeEnvView {
    let reduced = match ty {
        Some(x) => receiver_type(t, x),
        None => None,
    };
    TypeEnvView {
        bound: env.bound + pattern_idents(t, p),
        typed: if is_a(t, p, "identifier"@) && reduced is Some {
            env.typed.push((trimmed_at(t, p), reduced->0))
        } else {
            env.typed
        },
    }
}

fn add_pattern(t: &Vec<SyntaxNode>, p: usize, ty: Option<usize>, env: &mut TypeEnv)
    requires
        p < t.len(),
        ty matches Some(x) ==> x < t.len(),
    ensures
        final(env).deep_view() == bind(
            t.deep_view(),
            p as int,
            match ty {
                Some(x) => Some(x as int),
                None => None,
            },
            old(env).deep_view(),
        ),
{
    collect_pattern_idents(t, p, &mut env.bound);
    if has_kind(t, p, "identifier") {
        if let Some(x) = ty {
            if let Some(reduced) = reduce_receiver_type(t, x) {
                let ghost before = env.typed;
                env.typed.push((trimmed_text(t, p), reduced));
                proof {
                    lemma_push(before, env.typed);
                }
            }
        }
    }
}

/// What the parameters of a function bind.
pub open spec fn bind_params(t: Seq<SyntaxNodeView>, kids: Seq<int>) -> TypeEnvView
    decreases kids.len(),
{
    if kids.len() == 0 {
        TypeEnvView { typed: Seq::empty(), bound: Seq::empty() }
    } else {
        let env = bind_params(t, kids.drop_last());
        match field_child(t, kids.last(), "pattern"@) {
            Some(p) => if is_a(t, kids.last(), "parameter"@) {
                bind(t, p, field_child(t, kids.last(), "type"@), env)
            } else {
                env
            },
            None => env,
        }
    }
}

/// What the node at `i` itself binds in a body.
pub open spec fn bind_node(t: Seq<SyntaxNodeView>, i: int, env: TypeEnvView) -> TypeEnvView {
    let pattern = field_child(t, i, "pattern"@);
    if is_a(t, i, "let_declaration"@) {
        match pattern {
            Some(p) => bind(t, p, field_child(t, i, "type"@), env),
            None => env,
        }
    } else if is_a(t, i, "for_expression"@) || is_a(t, i, "let_condition"@) || is_a(t, i, "match_arm"@) {
        match pattern {
            Some(p) => bind(t, p, None, env),
            None => env,
        }
    } else if is_a(t, i, "closure_expression"@) {
        match field_child(t, i, "parameters"@) {
            Some(p) => bind(t, p, None, env),
            None => env,
        }
    } else {
        env
    }
}

fn add_node(t: &Vec<SyntaxNode>, i: usize, env: &mut TypeEnv)
    requires
        i < t.len(),
    ensures
        final(env).deep_view() == bind_node(t.deep_view(), i as int, old(env).deep_view()),
{
    if has_kind(t, i, "let_declaration") {
        if let Some(p) = find_field(t, i, "pattern") {
            add_pattern(t, p, find_field(t, i, "type"), env);
        }
    } else if has_kind(t, i, "for_expression") || has_kind(t, i, "let_condition") || has_kind(
        t,
        i,
        "match_arm",
    ) {
        if let Some(p) = find_field(t, i, "pattern") {
            add_pattern(t, p, None, env);
        }
    } else if has_kind(t, i, "closure_expression") {
        if let Some(p) = find_field(t, i, "parameters") {
            add_pattern(t, p, None, env);
        }
    }
}

/// An item of its own inside a body, or a macro: what it holds is not part of the body.
pub open spec fn closed_off(t: Seq<SyntaxNodeView>, i: int) -> bool {
    is_a(t, i, "function_item"@) || is_a(t, i, "impl_item"@) || is_a(t, i, "trait_item"@) || is_a(
        t,
        i,
        "mod_item"@,
    ) || is_a(t, i, "macro_definition"@) || is_a(t, i, "macro_invocation"@)
}

fn is_closed_off(t: &Vec<SyntaxNode>, i: usize) -> (r: bool)
    ensures
        r == closed_off(t.deep_view(), i as int),
{
    has_kind(t, i, "function_item") || has_kind(t, i, "impl_item") || has_kind(t, i, "trait_item")
        || has_kind(t, i, "mod_item") || has_kind(t, i, "macro_definition") || has_kind(
        t,
        i,
        "macro_invocation",
    )
}

/// What some nodes behind `i`, and the nodes below them, bind.
pub open spec fn bind_over(
    t: Seq<SyntaxNodeView>,
    i: int,
    kids: Seq<int>,
    env: TypeEnvView,
) -> TypeEnvView
    decreases t.len() - i, kids.len(),
{
    if kids.len() == 0 || i < -1 || i >= t.len() {
        env
    } else {
        let k = kids.last();
        let next = bind_over(t, i, kids.drop_last(), env);
        if i < k < t.len() {
            if closed_off(t, k) {
                bind_node(t, k, next)
            } else {
                bind_over(t, k, named_children(t, k), bind_node(t, k, next))
            }
        } else {
            next
        }
    }
}

fn scan_body_binders(t: &Vec<SyntaxNode>, i: usize, env: &mut TypeEnv)
    requires
        i < t.len(),
    ensures
        final(env).deep_view() == (if closed_off(t.deep_view(), i as int) {
            bind_node(t.deep_view(), i as int, old(env).deep_view())
        } else {
            bind_over(
                t.deep_view(),
                i as int,
                named_children(t.deep_view(), i as int),
                bind_node(t.deep_view(), i as int, old(env).deep_view()),
            )
        }),
    decreases t.len() - i,
{
    let ghost tv = t.deep_view();
    add_node(t, i, env);
    if is_closed_off(t, i) {
        return;
    }
    let ghost start = env.deep_view();
    let kids: Vec<usize> = named_child_list(t, i);
    let ghost all = positions(kids@);
    let mut k: usize = 0;
    while k < kids.len()
        invariant
            i < t.len(),
            tv == t.deep_view(),
            k <= kids.len(),
            all == positions(kids@),
            forall|k: int| 0 <= k < kids@.len() ==> i < #[trigger] kids@[k] < t.len(),
            env.deep_view() == bind_over(tv, i as int, all.take(k as int), start),
        decreases kids.len() - k,
    {
        proof {
            assert(all.take(k + 1).drop_last() =~= all.take(k as int));
            assert(all.take(k + 1).last() == kids@[k as int] as int);
        }
        scan_body_binders(t, kids[k], env);
        k += 1;
    }
    assert(all.take(kids.len() as int) =~= all);
}

/// What a function binds, in its parameters and its body.
pub open spec fn function_env(t: Seq<SyntaxNodeView>, i: int) -> TypeEnvView {
    let params = match field_child(t, i, "parameters"@) {
        Some(p) => bind_params(t, named_children(t, p)),
        None => bind_params(t, Seq::empty()),
    };
    match field_child(t, i, "body"@) {
        Some(b) => if closed_off(t, b) {
            bind_node(t, b, params)
        } else {
            bind_over(t, b, named_children(t, b), bind_node(t, b, params))
        },
        None => params,
    }
}

pub fn build_type_env(t: &Vec<SyntaxNode>, i: usize) -> (r: TypeEnv)
    requires
        i < t.len(),
    ensures
        r.deep_view() == function_env(t.deep_view(), i as int),
{
    let ghost tv = t.deep_view();
    let mut env: TypeEnv = TypeEnv { typed: Vec::new(), bound: Vec::new() };
    assert(env.deep_view() =~= bind_params(tv, Seq::empty()));
    if let Some(p) = find_field(t, i, "parameters") {
        let kids: Vec<usize> = named_child_list(t, p);
        let ghost all = positions(kids@);
        let mut k: usize = 0;
        assert(all.take(0) =~= Seq::empty());
        while k < kids.len()
            invariant
                tv == t.deep_view(),
                k <= kids.len(),
                all == positions(kids@),
                forall|k: int| 0 <= k < kids@.len() ==> p < #[trigger] kids@[k] < t.len(),
                env.deep_view() == bind_params(tv, all.take(k as int)),
            decreases kids.len() - k,
        {
            proof {
                assert(all.take(k + 1).drop_last() =~= all.take(k as int));
                assert(all.take(k + 1).last() == kids@[k as int] as int);
            }
            let c: usize = kids[k];
            if has_kind(t, c, "parameter") {
                if let Some(pattern) = find_field(t, c, "pattern") {
                    add_pattern(t, pattern, find_field(t, c, "type"), &mut env);
                }
            }
            k += 1;
        }
        assert(all.take(kids.len() as int) =~= all);
    }
    if let Some(b) = find_field(t, i, "body") {
        scan_body_binders(t, b, &mut env);
    }
    env
}

// ── Single sites ────────────────────────────────────────────────────────────

/// The symbol that a site is in.
pub struct Caller<'a> {
    pub id: &'a str,
    pub name: &'a str,
}

pub struct CallerView {
    pub id: Seq<char>,
    pub name: Seq<char>,
}

impl<'a> DeepView for Caller<'a> {
    type V = CallerView;

    open spec fn deep_view(&self) -> CallerView {
        CallerView { id: self.id@, name: self.name@ }
    }
}

/// The callee of a call, without the type arguments it is given.
pub open spec fn callee(t: Seq<SyntaxNodeView>, i: int) -> Option<int> {
    match field_child(t, i, "function"@) {
        Some(f) => if is_a(t, f, "generic_function"@) {
            field_child(t, f, "function"@)
        } else {
            Some(f)
        },
        None => None,
    }
}

fn find_callee(t: &Vec<SyntaxNode>, i: usize) -> (r: Option<usize>)
    requires
        i < t.len(),
    ensures
        (match r {
            Some(f) => callee(t.deep_view(), i as int) == Some(f as int) && f < t.len(),
            None => callee(t.deep_view(), i as int) is None,
        }),
{
    match find_field(t, i, "function") {
        Some(f) => if has_kind(t, f, "generic_function") {
            find_field(t, f, "function")
        } else {
            Some(f)
        },
        None => None,
    }
}

pub open spec fn call_base(
    t: Seq<SyntaxNodeView>,
    i: int,
    caller: CallerView,
    display: Seq<char>,
    segments: Seq<Seq<char>>,
) -> CallSiteFactView {
    CallSiteFactView {
        caller_id: caller.id,
        caller_name: caller.name,
        callee_display: display,
        callee_segments: segments,
        call_kind: CallKind::Direct,
        path_root: CallPathRootView::Unqualified,
        receiver_owner: None,
        receiver_type: None,
        span: span_of(t[i]),
    }
}

fn build_call_base(
    t: &Vec<SyntaxNode>,
    i: usize,
    caller: &Caller,
    display: String,
    segments: Vec<String>,
) -> (r: CallSiteFact)
    requires
        i < t.len(),
    ensures
        r.deep_view() == call_base(
            t.deep_view(),
            i as int,
            caller.deep_view(),
            display@,
            segments.deep_view(),
        ),
{
    assert(t.deep_view()[i as int] == t@[i as int].deep_view());
    CallSiteFact {
        caller_id: caller.id.to_owned(),
        caller_name: caller.name.to_owned(),
        callee_display: display,
        callee_segments: segments,
        call_kind: CallKind::Direct,
        path_root: CallPathRoot::Unqualified,
        receiver_owner: None,
        receiver_type: None,
        span: span(&t[i]),
    }
}

/// A call on a receiver. On `self` it carries the type of `self`; on a name whose type is certain
/// it carries that type.
pub open spec fn method_call(
    t: Seq<SyntaxNodeView>,
    i: int,
    f: int,
    sc: ScopeView,
    env: TypeEnvView,
    caller: CallerView,
) -> Option<CallSiteFactView> {
    match field_child(t, f, "field"@) {
        Some(field) => if is_a(t, field, "field_identifier"@) {
            let name = trimmed_at(t, field);
            let receiver = field_child(t, f, "value"@);
            let on_self = receiver is Some && is_a(t, receiver->0, "self"@);
            let owner = if on_self {
                sc.self_owner()
            } else {
                None
            };
            Some(
                CallSiteFactView {
                    call_kind: if owner is Some {
                        CallKind::SelfMethod
                    } else {
                        CallKind::Method
                    },
                    receiver_owner: owner,
                    receiver_type: if !on_self && receiver is Some && is_a(
                        t,
                        receiver->0,
                        "identifier"@,
                    ) {
                        env.type_of(trimmed_at(t, receiver->0))
                    } else {
                        None
                    },
                    ..call_base(t, i, caller, name, seq![name])
                },
            )
        } else {
            None
        },
        None => None,
    }
}

fn build_method_call(
    t: &Vec<SyntaxNode>,
    i: usize,
    f: usize,
    sc: &Scope,
    env: &TypeEnv,
    caller: &Caller,
) -> (r: Option<CallSiteFact>)
    requires
        i < t.len(),
        f < t.len(),
    ensures
        r.deep_view() == method_call(
            t.deep_view(),
            i as int,
            f as int,
            sc.deep_view(),
            env.deep_view(),
            caller.deep_view(),
        ),
{
    match find_field(t, f, "field") {
        Some(field) => {
            if !has_kind(t, field, "field_identifier") {
                return None;
            }
            let name: String = trimmed_text(t, field);
            let receiver: Option<usize> = find_field(t, f, "value");
            let on_self: bool = match receiver {
                Some(v) => has_kind(t, v, "self"),
                None => false,
            };
            let owner: Option<String> = if on_self {
                sc.self_owner()
            } else {
                None
            };
            let kind: CallKind = if owner.is_some() {
                CallKind::SelfMethod
            } else {
                CallKind::Method
            };
            let of_type: Option<String> = match receiver {
                Some(v) => if !on_self && has_kind(t, v, "identifier") {
                    env.type_of(trimmed_text(t, v).as_str())
                } else {
                    None
                },
                None => None,
            };
            let segments: Vec<String> = parts1(name.as_str());
            let mut fact: CallSiteFact = build_call_base(t, i, caller, name, segments);
            fact.call_kind = kind;
            fact.receiver_owner = owner;
            fact.receiver_type = of_type;
            Some(fact)
        },
        None => None,
    }
}

/// What a call says, whatever its segments are.
pub open spec fn raw_call(
    t: Seq<SyntaxNodeView>,
    i: int,
    sc: ScopeView,
    env: TypeEnvView,
    caller: CallerView,
) -> Option<CallSiteFactView> {
    match callee(t, i) {
        None => None,
        Some(f) => if is_a(t, f, "identifier"@) {
            Some(call_base(t, i, caller, trimmed_at(t, f), seq![trimmed_at(t, f)]))
        } else if is_a(t, f, "scoped_identifier"@) {
            Some(
                CallSiteFactView {
                    call_kind: CallKind::Path,
                    path_root: call_root(trimmed_at(t, f)),
                    ..call_base(
                        t,
                        i,
                        caller,
                        trimmed_at(t, f),
                        call_path(sc, trimmed_at(t, f)),
                    )
                },
            )
        } else if is_a(t, f, "field_expression"@) {
            method_call(t, i, f, sc, env, caller)
        } else {
            None
        },
    }
}

/// The fact of a call; none where its callee is no plain name.
pub open spec fn call_fact(
    t: Seq<SyntaxNodeView>,
    i: int,
    sc: ScopeView,
    env: TypeEnvView,
    caller: CallerView,
) -> Option<CallSiteFactView> {
    match raw_call(t, i, sc, env, caller) {
        Some(fact) => if plain_segments(fact.callee_segments) {
            Some(fact)
        } else {
            None
        },
        None => None,
    }
}

fn build_raw_call(
    t: &Vec<SyntaxNode>,
    i: usize,
    sc: &Scope,
    env: &TypeEnv,
    caller: &Caller,
) -> (r: Option<CallSiteFact>)
    requires
        i < t.len(),
    ensures
        r.deep_view() == raw_call(
            t.deep_view(),
            i as int,
            sc.deep_view(),
            env.deep_view(),
            caller.deep_view(),
        ),
{
    match find_callee(t, i) {
        None => None,
        Some(f) => {
            if has_kind(t, f, "identifier") {
                let name: String = trimmed_text(t, f);
                let segments: Vec<String> = parts1(name.as_str());
                Some(build_call_base(t, i, caller, name, segments))
            } else if has_kind(t, f, "scoped_identifier") {
                let display: String = trimmed_text(t, f);
                let segments: Vec<String> = normalize_call_path(sc, display.as_str());
                let root: CallPathRoot = find_call_root(display.as_str());
                let mut fact: CallSiteFact = build_call_base(t, i, caller, display, segments);
                fact.call_kind = CallKind::Path;
                fact.path_root = root;
                Some(fact)
            } else if has_kind(t, f, "field_expression") {
                build_method_call(t, i, f, sc, env, caller)
            } else {
                None
            }
        },
    }
}

pub fn call_site_fact(
    t: &Vec<SyntaxNode>,
    i: usize,
    sc: &Scope,
    env: &TypeEnv,
    caller: &Caller,
) -> (r: Option<CallSiteFact>)
    requires
        i < t.len(),
    ensures
        r.deep_view() == call_fact(
            t.deep_view(),
            i as int,
            sc.deep_view(),
            env.deep_view(),
            caller.deep_view(),
        ),
{
    match build_raw_call(t, i, sc, env, caller) {
        Some(fact) => if check_segments(&fact.callee_segments) {
            Some(fact)
        } else {
            None
        },
        None => None,
    }
}

/// The fact of a struct literal; none where its type is no plain path.
pub open spec fn construct_fact(
    t: Seq<SyntaxNodeView>,
    i: int,
    sc: ScopeView,
    caller: CallerView,
) -> Option<ConstructSiteFactView> {
    match field_child(t, i, "name"@) {
        Some(n) => match receiver_type(t, n) {
            Some(display) => if plain_segments(call_path(sc, display)) {
                Some(
                    ConstructSiteFactView {
                        constructor_id: caller.id,
                        constructor_name: caller.name,
                        type_display: display,
                        type_segments: call_path(sc, display),
                        path_root: construct_root(display),
                        is_exhaustive: !literal_has_base(t, i),
                        span: span_of(t[i]),
                    },
                )
            } else {
                None
            },
            None => None,
        },
        None => None,
    }
}

pub fn construct_site_fact(
    t: &Vec<SyntaxNode>,
    i: usize,
    sc: &Scope,
    caller: &Caller,
) -> (r: Option<ConstructSiteFact>)
    requires
        i < t.len(),
    ensures
        r.deep_view() == construct_fact(
            t.deep_view(),
            i as int,
            sc.deep_view(),
            caller.deep_view(),
        ),
{
    assert(t.deep_view()[i as int] == t@[i as int].deep_view());
    match find_field(t, i, "name") {
        Some(n) => match reduce_receiver_type(t, n) {
            Some(display) => {
                let segments: Vec<String> = normalize_call_path(sc, display.as_str());
                if !check_segments(&segments) {
                    return None;
                }
                let root: CallPathRoot = find_construct_root(display.as_str());
                Some(
                    ConstructSiteFact {
                        constructor_id: caller.id.to_owned(),
                        constructor_name: caller.name.to_owned(),
                        type_display: display,
                        type_segments: segments,
                        path_root: root,
                        is_exhaustive: !struct_literal_has_base(t, i),
                        span: span(&t[i]),
                    },
                )
            },
            None => None,
        },
        None => None,
    }
}

// ── Routes ──────────────────────────────────────────────────────────────────

pub open spec fn registration(
    t: Seq<SyntaxNodeView>,
    i: int,
    caller: CallerView,
) -> RouteRegistrationFactView {
    RouteRegistrationFactView {
        owner_id: caller.id,
        owner_name: caller.name,
        handler_display: trimmed_at(t, i),
        handler_segments: seq![trimmed_at(t, i)],
        path_root: CallPathRootView::Unqualified,
        span: span_of(t[i]),
    }
}

/// The handlers among some tokens: the plain identifiers.
pub open spec fn handlers(t: Seq<SyntaxNodeView>, kids: Seq<int>, caller: CallerView) -> Seq<
    RouteRegistrationFactView,
>
    decreases kids.len(),
{
    if kids.len() == 0 {
        Seq::empty()
    } else {
        let rest = handlers(t, kids.drop_last(), caller);
        if is_a(t, kids.last(), "identifier"@) && simple_ident(trimmed_at(t, kids.last())) {
            rest.push(registration(t, kids.last(), caller))
        } else {
            rest
        }
    }
}

/// The tokens of a macro that registers routes; other macros are not looked into.
pub open spec fn route_tokens(t: Seq<SyntaxNodeView>, i: int) -> Option<int> {
    match field_child(t, i, "macro"@) {
        Some(m) => if trimmed(after_last(trimmed_at(t, m), "::"@)) == "routes"@ {
            first_of_kind(t, children(t, i), "token_tree"@)
        } else {
            None
        },
        None => None,
    }
}

/// The handlers that a macro registers.
pub open spec fn registrations(t: Seq<SyntaxNodeView>, i: int, caller: CallerView) -> Seq<
    RouteRegistrationFactView,
> {
    match route_tokens(t, i) {
        Some(tokens) => handlers(t, named_children(t, tokens), caller),
        None => Seq::empty(),
    }
}

fn find_route_tokens(t: &Vec<SyntaxNode>, i: usize) -> (r: Option<usize>)
    requires
        i < t.len(),
    ensures
        (match r {
            Some(j) => route_tokens(t.deep_view(), i as int) == Some(j as int) && j < t.len(),
            None => route_tokens(t.deep_view(), i as int) is None,
        }),
{
    match find_field(t, i, "macro") {
        Some(m) => {
            let raw: String = trimmed_text(t, m);
            let name: String = trim(after(raw.as_str(), "::").as_str());
            if is_route_registration_macro(name.as_str()) {
                find_first_of_kind(t, &child_list(t, i), "token_tree")
            } else {
                None
            }
        },
        None => None,
    }
}

pub fn collect_route_registrations(t: &Vec<SyntaxNode>, i: usize, caller: &Caller) -> (r: Vec<
    RouteRegistrationFact,
>)
    requires
        i < t.len(),
    ensures
        r.deep_view() == registrations(t.deep_view(), i as int, caller.deep_view()),
{
    let ghost tv = t.deep_view();
    let ghost cv = caller.deep_view();
    let mut out: Vec<RouteRegistrationFact> = Vec::new();
    assert(out.deep_view() =~= Seq::empty());
    if let Some(tokens) = find_route_tokens(t, i) {
        let kids: Vec<usize> = named_child_list(t, tokens);
        let ghost all = positions(kids@);
        let mut k: usize = 0;
        assert(out.deep_view() =~= handlers(tv, all.take(0), cv));
        while k < kids.len()
            invariant
                tv == t.deep_view(),
                cv == caller.deep_view(),
                k <= kids.len(),
                all == positions(kids@),
                forall|k: int| 0 <= k < kids@.len() ==> tokens < #[trigger] kids@[k] < t.len(),
                out.deep_view() == handlers(tv, all.take(k as int), cv),
            decreases kids.len() - k,
        {
            proof {
                assert(all.take(k + 1).drop_last() =~= all.take(k as int));
                assert(all.take(k + 1).last() == kids@[k as int] as int);
            }
            let c: usize = kids[k];
            assert(tv[c as int] == t@[c as int].deep_view());
            if has_kind(t, c, "identifier") {
                let name: String = trimmed_text(t, c);
                if is_simple_ident(name.as_str()) {
                    let ghost before = out;
                    let segments: Vec<String> = parts1(name.as_str());
                    out.push(
                        RouteRegistrationFact {
                            owner_id: caller.id.to_owned(),
                            owner_name: caller.name.to_owned(),
                            handler_display: name,
                            handler_segments: segments,
                            path_root: CallPathRoot::Unqualified,
                            span: span(&t[c]),
                        },
                    );
                    proof {
                        lemma_push(before, out);
                    }
                }
            }
            k += 1;
        }
        assert(all.take(kids.len() as int) =~= all);
    }
    out
}

// ── All sites ───────────────────────────────────────────────────────────────

/// The facts with what the node at `i` itself says.
pub open spec fn note_site(
    t: Seq<SyntaxNodeView>,
    i: int,
    sc: ScopeView,
    env: TypeEnvView,
    caller: CallerView,
    facts: FileFactsView,
) -> FileFactsView {
    if is_a(t, i, "macro_invocation"@) {
        FileFactsView {
            route_registration_sites: facts.route_registration_sites + registrations(t, i, caller),
            ..facts
        }
    } else if is_a(t, i, "call_expression"@) {
        match call_fact(t, i, sc, env, caller) {
            Some(fact) => FileFactsView { call_sites: facts.call_sites.push(fact), ..facts },
            None => facts,
        }
    } else if is_a(t, i, "struct_expression"@) {
        match construct_fact(t, i, sc, caller) {
            Some(fact) => FileFactsView {
                construct_sites: facts.construct_sites.push(fact),
                ..facts
            },
            None => facts,
        }
    } else {
        facts
    }
}

/// The facts with what some nodes behind `i`, and the nodes below them, say.
pub open spec fn sites_over(
    t: Seq<SyntaxNodeView>,
    i: int,
    kids: Seq<int>,
    sc: ScopeView,
    env: TypeEnvView,
    caller: CallerView,
    facts: FileFactsView,
) -> FileFactsView
    decreases t.len() - i, kids.len(),
{
    if kids.len() == 0 || i < 0 || i >= t.len() {
        facts
    } else {
        let k = kids.last();
        let next = sites_over(t, i, kids.drop_last(), sc, env, caller, facts);
        if i < k < t.len() {
            if closed_off(t, k) {
                note_site(t, k, sc, env, caller, next)
            } else {
                sites_over(
                    t,
                    k,
                    named_children(t, k),
                    sc,
                    env,
                    caller,
                    note_site(t, k, sc, env, caller, next),
                )
            }
        } else {
            next
        }
    }
}

fn record_site(
    t: &Vec<SyntaxNode>,
    i: usize,
    sc: &Scope,
    env: &TypeEnv,
    caller: &Caller,
    facts: &mut FileFacts,
)
    requires
        i < t.len(),
    ensures
        final(facts).deep_view() == note_site(
            t.deep_view(),
            i as int,
            sc.deep_view(),
            env.deep_view(),
            caller.deep_view(),
            old(facts).deep_view(),
        ),
{
    if has_kind(t, i, "macro_invocation") {
        let mut found: Vec<RouteRegistrationFact> = collect_route_registrations(t, i, caller);
        let ghost before = facts.route_registration_sites;
        let ghost more = found;
        facts.route_registration_sites.append(&mut found);
        assert(facts.route_registration_sites.deep_view() =~= before.deep_view()
            + more.deep_view());
    } else if has_kind(t, i, "call_expression") {
        if let Some(fact) = call_site_fact(t, i, sc, env, caller) {
            let ghost before = facts.call_sites;
            facts.call_sites.push(fact);
            proof {
                lemma_push(before, facts.call_sites);
            }
        }
    } else if has_kind(t, i, "struct_expression") {
        if let Some(fact) = construct_site_fact(t, i, sc, caller) {
            let ghost before = facts.construct_sites;
            facts.construct_sites.push(fact);
            proof {
                lemma_push(before, facts.construct_sites);
            }
        }
    }
}

/// Records the calls, struct literals and route registrations below the node at `i`. Items of
/// their own are left out: they record their own.
pub fn collect_call_sites(
    t: &Vec<SyntaxNode>,
    i: usize,
    sc: &Scope,
    env: &TypeEnv,
    caller: &Caller,
    facts: &mut FileFacts,
)
    requires
        i < t.len(),
    ensures
        final(facts).deep_view() == sites_over(
            t.deep_view(),
            i as int,
            named_children(t.deep_view(), i as int),
            sc.deep_view(),
            env.deep_view(),
            caller.deep_view(),
            old(facts).deep_view(),
        ),
    decreases t.len() - i,
{
    let ghost tv = t.deep_view();
    let ghost sv = sc.deep_view();
    let ghost ev = env.deep_view();
    let ghost cv = caller.deep_view();
    let ghost start = facts.deep_view();
    let kids: Vec<usize> = named_child_list(t, i);
    let ghost all = positions(kids@);
    let mut k: usize = 0;
    while k < kids.len()
        invariant
            i < t.len(),
            tv == t.deep_view(),
            sv == sc.deep_view(),
            ev == env.deep_view(),
            cv == caller.deep_view(),
            k <= kids.len(),
            all == positions(kids@),
            forall|k: int| 0 <= k < kids@.len() ==> i < #[trigger] kids@[k] < t.len(),
            facts.deep_view() == sites_over(tv, i as int, all.take(k as int), sv, ev, cv, start),
        decreases kids.len() - k,
    {
        proof {
            assert(all.take(k + 1).drop_last() =~= all.take(k as int));
            assert(all.take(k + 1).last() == kids@[k as int] as int);
        }
        record_site(t, kids[k], sc, env, caller, facts);
        if !is_closed_off(t, kids[k]) {
            collect_call_sites(t, kids[k], sc, env, caller, facts);
        }
        k += 1;
    }
    assert(all.take(kids.len() as int) =~= all);
}

} // verus!
