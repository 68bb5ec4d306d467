//! What single nodes of a Rust syntax tree say.
use vstd::prelude::*;

use crate::duplicate::lemma_push;
use crate::languages::rust::impls::{
    header_target, impl_trait_target, ImplTargetDecision, ImplTargetDecisionView,
};
use crate::languages::syntax::{
    child_list, children, field_child, find_field, find_first_of_kind, find_parent, first_of_kind,
    has_kind, is_a, named_child_list, named_children, node_text, parent, positions,
    text_at, SyntaxNode, SyntaxNodeView,
};
use crate::text::{cat3, contains_text, trim, trimmed};

verus! {

// ── Imports ─────────────────────────────────────────────────────────────────

/// A node that is a single name.
pub open spec fn is_name(t: Seq<SyntaxNodeView>, i: int) -> bool {
    is_a(t, i, "identifier"@) || is_a(t, i, "type_identifier"@)
}

fn check_name(t: &Vec<SyntaxNode>, i: usize) -> (r: bool)
    ensures
        r == is_name(t.deep_view(), i as int),
{
    has_kind(t, i, "identifier") || has_kind(t, i, "type_identifier")
}

pub open spec fn trimmed_at(t: Seq<SyntaxNodeView>, i: int) -> Seq<char> {
    trimmed(text_at(t, i))
}

pub fn trimmed_text(t: &Vec<SyntaxNode>, i: usize) -> (r: String)
    ensures
        r@ == trimmed_at(t.deep_view(), i as int),
{
    trim(node_text(t, i))
}

/// A path with a prefix in front.
pub open spec fn joined_path(prefix: Seq<char>, tail: Seq<char>) -> Seq<char> {
    if prefix.len() == 0 {
        tail
    } else {
        prefix + "::"@ + tail
    }
}

pub fn join_use_path(prefix: &str, tail: &str) -> (r: String)
    ensures
        r@ == joined_path(prefix@, tail@),
{
    if prefix.is_empty() {
        tail.to_owned()
    } else {
        cat3(prefix, "::", tail)
    }
}

/// The names that the use tree at `i` binds, each with the path it is bound to. An alias is bound
/// in place of the last name of its path; a glob binds no name.
pub open spec fn use_bindings(t: Seq<SyntaxNodeView>, i: int, prefix: Seq<char>) -> Seq<
    (Seq<char>, Seq<char>),
>
    decreases t.len() - i, 1nat, 0nat,
{
    if i < 0 || i >= t.len() {
        Seq::empty()
    } else if is_name(t, i) {
        seq![(trimmed_at(t, i), joined_path(prefix, trimmed_at(t, i)))]
    } else if is_a(t, i, "scoped_identifier"@) {
        match field_child(t, i, "name"@) {
            Some(name) => if is_name(t, name) {
                seq![(trimmed_at(t, name), joined_path(prefix, trimmed_at(t, i)))]
            } else {
                Seq::empty()
            },
            None => Seq::empty(),
        }
    } else if is_a(t, i, "use_as_clause"@) {
        match (field_child(t, i, "alias"@), field_child(t, i, "path"@)) {
            (Some(alias), Some(path)) => if is_name(t, alias) {
                seq![(trimmed_at(t, alias), joined_path(prefix, trimmed_at(t, path)))]
            } else {
                Seq::empty()
            },
            _ => Seq::empty(),
        }
    } else if is_a(t, i, "scoped_use_list"@) {
        let inner = match field_child(t, i, "path"@) {
            Some(path) => joined_path(prefix, trimmed_at(t, path)),
            None => prefix,
        };
        match field_child(t, i, "list"@) {
            Some(list) => if i < list < t.len() {
                use_bindings(t, list, inner)
            } else {
                Seq::empty()
            },
            None => Seq::empty(),
        }
    } else if is_a(t, i, "use_list"@) {
        use_bindings_of(t, i, children(t, i), prefix)
    } else {
        Seq::empty()
    }
}

/// The bindings of some nodes behind `i`.
pub open spec fn use_bindings_of(
    t: Seq<SyntaxNodeView>,
    i: int,
    kids: Seq<int>,
    prefix: Seq<char>,
) -> Seq<(Seq<char>, Seq<char>)>
    decreases t.len() - i, 0nat, kids.len(),
{
    if kids.len() == 0 || i < 0 || i >= t.len() {
        Seq::empty()
    } else {
        use_bindings_of(t, i, kids.drop_last(), prefix) + if i < kids.last() < t.len() {
            use_bindings(t, kids.last(), prefix)
        } else {
            Seq::empty()
        }
    }
}

fn push_binding(out: &mut Vec<(String, String)>, name: String, path: String)
    ensures
        final(out).deep_view() == old(out).deep_view() + seq![(name@, path@)],
{
    let ghost before = *out;
    out.push((name, path));
    proof {
        lemma_push(before, *out);
        assert(out.deep_view() =~= before.deep_view() + seq![(name@, path@)]);
    }
}

fn collect_use_tree_paths(
    t: &Vec<SyntaxNode>,
    i: usize,
    prefix: &str,
    out: &mut Vec<(String, String)>,
)
    ensures
        final(out).deep_view() == old(out).deep_view() + use_bindings(
            t.deep_view(),
            i as int,
            prefix@,
        ),
    decreases t.len() - i,
{
    let ghost tv = t.deep_view();
    let ghost start = out.deep_view();
    assert(start + Seq::<(Seq<char>, Seq<char>)>::empty() =~= start);
    if i >= t.len() {
        return;
    }
    if check_name(t, i) {
        let name: String = trimmed_text(t, i);
        let path: String = join_use_path(prefix, name.as_str());
        push_binding(out, name, path);
    } else if has_kind(t, i, "scoped_identifier") {
        if let Some(name) = find_field(t, i, "name") {
            if check_name(t, name) {
                let path: String = join_use_path(prefix, trimmed_text(t, i).as_str());
                push_binding(out, trimmed_text(t, name), path);
            }
        }
    } else if has_kind(t, i, "use_as_clause") {
        if let Some(alias) = find_field(t, i, "alias") {
            if let Some(path) = find_field(t, i, "path") {
                if check_name(t, alias) {
                    let full: String = join_use_path(prefix, trimmed_text(t, path).as_str());
                    push_binding(out, trimmed_text(t, alias), full);
                }
            }
        }
    } else if has_kind(t, i, "scoped_use_list") {
        let inner: String = match find_field(t, i, "path") {
            Some(path) => join_use_path(prefix, trimmed_text(t, path).as_str()),
            None => prefix.to_owned(),
        };
        if let Some(list) = find_field(t, i, "list") {
            collect_use_tree_paths(t, list, inner.as_str(), out);
        }
    } else if has_kind(t, i, "use_list") {
        let kids: Vec<usize> = child_list(t, i);
        let ghost all = positions(kids@);
        let mut k: usize = 0;
        while k < kids.len()
            invariant
                i < t.len(),
                tv == t.deep_view(),
                k <= kids.len(),
                all == positions(kids@),
                forall|k: int| 0 <= k < kids@.len() ==> i < #[trigger] kids@[k] < t.len(),
                out.deep_view() == start + use_bindings_of(
                    tv,
                    i as int,
                    all.take(k as int),
                    prefix@,
                ),
            decreases kids.len() - k,
        {
            proof {
                assert(all.take(k + 1).drop_last() =~= all.take(k as int));
                assert(all.take(k + 1).last() == kids@[k as int] as int);
            }
            let ghost done = use_bindings_of(tv, i as int, all.take(k as int), prefix@);
            let ghost more = use_bindings(tv, kids@[k as int] as int, prefix@);
            collect_use_tree_paths(t, kids[k], prefix, out);
            assert(start + done + more =~= start + (done + more));
            k += 1;
        }
        assert(all.take(kids.len() as int) =~= all);
    }
}

/// What a `use` declaration binds.
pub open spec fn declared_bindings(t: Seq<SyntaxNodeView>, i: int) -> Seq<(Seq<char>, Seq<char>)> {
    match field_child(t, i, "argument"@) {
        Some(a) => use_bindings(t, a, Seq::empty()),
        None => Seq::empty(),
    }
}

pub fn use_bound_import_paths(t: &Vec<SyntaxNode>, i: usize) -> (r: Vec<(String, String)>)
    requires
        i < t.len(),
    ensures
        r.deep_view() == declared_bindings(t.deep_view(), i as int),
{
    let mut out: Vec<(String, String)> = Vec::new();
    if let Some(a) = find_field(t, i, "argument") {
        proof {
            reveal_strlit("");
            assert(""@ =~= Seq::<char>::empty());
        }
        collect_use_tree_paths(t, a, "", &mut out);
    }
    assert(out.deep_view() =~= declared_bindings(t.deep_view(), i as int));
    out
}

/// The names that the use tree at `i` binds.
pub open spec fn use_names(t: Seq<SyntaxNodeView>, i: int) -> Seq<Seq<char>>
    decreases t.len() - i, 1nat, 0nat,
{
    if i < 0 || i >= t.len() {
        Seq::empty()
    } else if is_name(t, i) {
        seq![trimmed_at(t, i)]
    } else if is_a(t, i, "scoped_identifier"@) {
        match field_child(t, i, "name"@) {
            Some(name) => if is_name(t, name) {
                seq![trimmed_at(t, name)]
            } else {
                Seq::empty()
            },
            None => Seq::empty(),
        }
    } else if is_a(t, i, "use_as_clause"@) {
        match field_child(t, i, "alias"@) {
            Some(alias) => if is_name(t, alias) {
                seq![trimmed_at(t, alias)]
            } else {
                Seq::empty()
            },
            None => Seq::empty(),
        }
    } else if is_a(t, i, "scoped_use_list"@) {
        match field_child(t, i, "list"@) {
            Some(list) => if i < list < t.len() {
                use_names(t, list)
            } else {
                Seq::empty()
            },
            None => Seq::empty(),
        }
    } else if is_a(t, i, "use_list"@) {
        use_names_of(t, i, children(t, i))
    } else {
        Seq::empty()
    }
}

pub open spec fn use_names_of(t: Seq<SyntaxNodeView>, i: int, kids: Seq<int>) -> Seq<Seq<char>>
    decreases t.len() - i, 0nat, kids.len(),
{
    if kids.len() == 0 || i < 0 || i >= t.len() {
        Seq::empty()
    } else {
        use_names_of(t, i, kids.drop_last()) + if i < kids.last() < t.len() {
            use_names(t, kids.last())
        } else {
            Seq::empty()
        }
    }
}

fn push_name(out: &mut Vec<String>, name: String)
    ensures
        final(out).deep_view() == old(out).deep_view() + seq![name@],
{
    let ghost before = *out;
    out.push(name);
    proof {
        lemma_push(before, *out);
        assert(out.deep_view() =~= before.deep_view() + seq![name@]);
    }
}

fn collect_use_tree_names(t: &Vec<SyntaxNode>, i: usize, out: &mut Vec<String>)
    ensures
        final(out).deep_view() == old(out).deep_view() + use_names(t.deep_view(), i as int),
    decreases t.len() - i,
{
    let ghost tv = t.deep_view();
    let ghost start = out.deep_view();
    assert(start + Seq::<Seq<char>>::empty() =~= start);
    if i >= t.len() {
        return;
    }
    if check_name(t, i) {
        push_name(out, trimmed_text(t, i));
    } else if has_kind(t, i, "scoped_identifier") {
        if let Some(name) = find_field(t, i, "name") {
            if check_name(t, name) {
                push_name(out, trimmed_text(t, name));
            }
        }
    } else if has_kind(t, i, "use_as_clause") {
        if let Some(alias) = find_field(t, i, "alias") {
            if check_name(t, alias) {
                push_name(out, trimmed_text(t, alias));
            }
        }
    } else if has_kind(t, i, "scoped_use_list") {
        if let Some(list) = find_field(t, i, "list") {
            collect_use_tree_names(t, list, out);
        }
    } else if has_kind(t, i, "use_list") {
        let kids: Vec<usize> = child_list(t, i);
        let ghost all = positions(kids@);
        let mut k: usize = 0;
        while k < kids.len()
            invariant
                i < t.len(),
                tv == t.deep_view(),
                k <= kids.len(),
                all == positions(kids@),
                forall|k: int| 0 <= k < kids@.len() ==> i < #[trigger] kids@[k] < t.len(),
                out.deep_view() == start + use_names_of(tv, i as int, all.take(k as int)),
            decreases kids.len() - k,
        {
            proof {
                assert(all.take(k + 1).drop_last() =~= all.take(k as int));
                assert(all.take(k + 1).last() == kids@[k as int] as int);
            }
            let ghost done = use_names_of(tv, i as int, all.take(k as int));
            let ghost more = use_names(tv, kids@[k as int] as int);
            collect_use_tree_names(t, kids[k], out);
            assert(start + done + more =~= start + (done + more));
            k += 1;
        }
        assert(all.take(kids.len() as int) =~= all);
    }
}

/// The names that a `use` declaration binds.
pub open spec fn declared_names(t: Seq<SyntaxNodeView>, i: int) -> Seq<Seq<char>> {
    match field_child(t, i, "argument"@) {
        Some(a) => use_names(t, a),
        None => Seq::empty(),
    }
}

pub fn use_bound_names(t: &Vec<SyntaxNode>, i: usize) -> (r: Vec<String>)
    requires
        i < t.len(),
    ensures
        r.deep_view() == declared_names(t.deep_view(), i as int),
{
    let mut out: Vec<String> = Vec::new();
    if let Some(a) = find_field(t, i, "argument") {
        collect_use_tree_names(t, a, &mut out);
    }
    assert(out.deep_view() =~= declared_names(t.deep_view(), i as int));
    out
}

pub open spec fn parent_is(t: Seq<SyntaxNodeView>, i: int, kind: Seq<char>) -> bool {
    match parent(t, i) {
        Some(p) => is_a(t, p, kind),
        None => false,
    }
}

/// A `use` that is an item of a module: one in a block is seen nowhere else.
pub open spec fn module_item_use(t: Seq<SyntaxNodeView>, i: int) -> bool {
    parent_is(t, i, "source_file"@) || parent_is(t, i, "declaration_list"@)
}

pub fn is_module_item_use(t: &Vec<SyntaxNode>, i: usize) -> (r: bool)
    requires
        i < t.len(),
    ensures
        r == module_item_use(t.deep_view(), i as int),
{
    match find_parent(t, i) {
        Some(p) => has_kind(t, p, "source_file") || has_kind(t, p, "declaration_list"),
        None => false,
    }
}

// ── Impl blocks ─────────────────────────────────────────────────────────────

/// `impl !Trait for Type`.
pub open spec fn negative_impl(t: Seq<SyntaxNodeView>, i: int) -> bool {
    first_of_kind(t, children(t, i), "!"@) is Some
}

/// The type parameters among some nodes of a binder: those whose name is the name of a type.
pub open spec fn type_params_of(t: Seq<SyntaxNodeView>, kids: Seq<int>) -> Seq<Seq<char>>
    decreases kids.len(),
{
    if kids.len() == 0 {
        Seq::empty()
    } else {
        let rest = type_params_of(t, kids.drop_last());
        match field_child(t, kids.last(), "name"@) {
            Some(name) => if is_a(t, name, "type_identifier"@) {
                rest.push(text_at(t, name))
            } else {
                rest
            },
            None => rest,
        }
    }
}

pub open spec fn type_params(t: Seq<SyntaxNodeView>, i: int) -> Seq<Seq<char>> {
    type_params_of(t, named_children(t, i))
}

fn binder_type_params(t: &Vec<SyntaxNode>, i: usize) -> (r: Vec<String>)
    requires
        i < t.len(),
    ensures
        r.deep_view() == type_params(t.deep_view(), i as int),
{
    let ghost tv = t.deep_view();
    let kids: Vec<usize> = named_child_list(t, i);
    let ghost all = positions(kids@);
    let mut out: Vec<String> = Vec::new();
    let mut k: usize = 0;
    assert(out.deep_view() =~= type_params_of(tv, all.take(0)));
    while k < kids.len()
        invariant
            tv == t.deep_view(),
            k <= kids.len(),
            all == positions(kids@),
            forall|k: int| 0 <= k < kids@.len() ==> i < #[trigger] kids@[k] < t.len(),
            out.deep_view() == type_params_of(tv, all.take(k as int)),
        decreases kids.len() - k,
    {
        proof {
            assert(all.take(k + 1).drop_last() =~= all.take(k as int));
            assert(all.take(k + 1).last() == kids@[k as int] as int);
        }
        if let Some(name) = find_field(t, kids[k], "name") {
            if has_kind(t, name, "type_identifier") {
                let ghost before = out;
                out.push(node_text(t, name).to_owned());
                proof {
                    lemma_push(before, out);
                }
            }
        }
        k += 1;
    }
    assert(all.take(kids.len() as int) =~= all);
    out
}

/// The path of a trait without its generic arguments.
pub open spec fn trait_path(t: Seq<SyntaxNodeView>, i: int) -> Seq<char>
    decreases t.len() - i,
{
    match field_child(t, i, "type"@) {
        Some(base) => if is_a(t, i, "generic_type"@) && i < base < t.len() {
            trait_path(t, base)
        } else {
            trimmed_at(t, i)
        },
        None => trimmed_at(t, i),
    }
}

fn bare_trait_path(t: &Vec<SyntaxNode>, i: usize) -> (r: String)
    requires
        i < t.len(),
    ensures
        r@ == trait_path(t.deep_view(), i as int),
{
    let ghost tv = t.deep_view();
    let mut at: usize = i;
    while has_kind(t, at, "generic_type")
        invariant
            tv == t.deep_view(),
            at < t.len(),
            trait_path(tv, i as int) == trait_path(tv, at as int),
        decreases t.len() - at,
    {
        match find_field(t, at, "type") {
            Some(base) => {
                at = base;
            },
            None => {
                return trimmed_text(t, at);
            },
        }
    }
    trimmed_text(t, at)
}

/// The type behind all references and pointers.
pub open spec fn pointee_node(t: Seq<SyntaxNodeView>, i: int) -> int
    decreases t.len() - i,
{
    if is_a(t, i, "reference_type"@) || is_a(t, i, "pointer_type"@) {
        match field_child(t, i, "type"@) {
            Some(inner) => if i < inner < t.len() {
                pointee_node(t, inner)
            } else {
                i
            },
            None => i,
        }
    } else {
        i
    }
}

/// A type that an impl can be for: it has a name, and is no parameter of the binder.
pub open spec fn nominal(t: Seq<SyntaxNodeView>, i: int, params: Seq<Seq<char>>) -> bool {
    let core = pointee_node(t, i);
    if is_a(t, core, "type_identifier"@) {
        !params.contains(trimmed_at(t, core))
    } else {
        !(is_a(t, core, "array_type"@) || is_a(t, core, "tuple_type"@) || is_a(t, core, "dynamic_type"@)
            || is_a(t, core, "abstract_type"@) || is_a(t, core, "unit_type"@))
    }
}

fn is_nominal_target(t: &Vec<SyntaxNode>, i: usize, params: &Vec<String>) -> (r: bool)
    requires
        i < t.len(),
    ensures
        r == nominal(t.deep_view(), i as int, params.deep_view()),
{
    let ghost tv = t.deep_view();
    let mut core: usize = i;
    loop
        invariant_except_break
            tv == t.deep_view(),
            core < t.len(),
            pointee_node(tv, i as int) == pointee_node(tv, core as int),
        ensures
            core < t.len(),
            pointee_node(tv, i as int) == core,
        decreases t.len() - core,
    {
        if !(has_kind(t, core, "reference_type") || has_kind(t, core, "pointer_type")) {
            break;
        }
        match find_field(t, core, "type") {
            Some(inner) => {
                core = inner;
            },
            None => {
                break;
            },
        }
    }
    if has_kind(t, core, "type_identifier") {
        !contains_text(params, trimmed_text(t, core).as_str())
    } else {
        !(has_kind(t, core, "array_type") || has_kind(t, core, "tuple_type") || has_kind(
            t,
            core,
            "dynamic_type",
        ) || has_kind(t, core, "abstract_type") || has_kind(t, core, "unit_type"))
    }
}

/// What an impl block leads to, read from its tree. A header that the grammar cannot take apart is
/// read as text.
pub open spec fn impl_target(
    t: Seq<SyntaxNodeView>,
    i: int,
    display: Seq<char>,
) -> ImplTargetDecisionView {
    let of_trait = field_child(t, i, "trait"@);
    let of_params = field_child(t, i, "type_parameters"@);
    match field_child(t, i, "type"@) {
        None => header_target(display),
        Some(ty) => match of_trait {
            None => if 0 <= ty < t.len() && t[ty].has_error {
                header_target(display)
            } else if of_params is Some {
                ImplTargetDecisionView::Verbatim
            } else {
                ImplTargetDecisionView::Resolve(trimmed_at(t, ty))
            },
            Some(tr) => {
                let params = match of_params {
                    Some(p) => type_params(t, p),
                    None => Seq::empty(),
                };
                if negative_impl(t, i) || trait_path(t, tr).len() == 0 || !nominal(t, ty, params) {
                    ImplTargetDecisionView::NoEdge
                } else {
                    ImplTargetDecisionView::Resolve(trait_path(t, tr))
                }
            },
        },
    }
}

pub fn impl_target_decision(t: &Vec<SyntaxNode>, i: usize, display: &str) -> (r: ImplTargetDecision)
    requires
        i < t.len(),
    ensures
        r.deep_view() == impl_target(t.deep_view(), i as int, display@),
{
    let ghost tv = t.deep_view();
    let of_trait: Option<usize> = find_field(t, i, "trait");
    let of_params: Option<usize> = find_field(t, i, "type_parameters");
    match find_field(t, i, "type") {
        None => impl_trait_target(display),
        Some(ty) => match of_trait {
            None => {
                assert(tv[ty as int] == t@[ty as int].deep_view());
                if t[ty].has_error {
                    impl_trait_target(display)
                } else if of_params.is_some() {
                    ImplTargetDecision::Verbatim
                } else {
                    ImplTargetDecision::Resolve(trimmed_text(t, ty))
                }
            },
            Some(tr) => {
                let params: Vec<String> = match of_params {
                    Some(p) => binder_type_params(t, p),
                    None => Vec::new(),
                };
                assert(of_params is None ==> params.deep_view() =~= Seq::empty());
                let negative: bool = find_first_of_kind(t, &child_list(t, i), "!").is_some();
                let path: String = bare_trait_path(t, tr);
                if negative || path.as_str().is_empty() || !is_nominal_target(t, ty, &params) {
                    ImplTargetDecision::NoEdge
                } else {
                    ImplTargetDecision::Resolve(path)
                }
            },
        },
    }
}

// ── Types and patterns ──────────────────────────────────────────────────────

/// The path of the type at `i`, where it is a plain one behind references, pointers and generic
/// arguments.
pub open spec fn receiver_type(t: Seq<SyntaxNodeView>, i: int) -> Option<Seq<char>>
    decreases t.len() - i,
{
    if is_a(t, i, "reference_type"@) || is_a(t, i, "pointer_type"@) || is_a(t, i, "generic_type"@) {
        match field_child(t, i, "type"@) {
            Some(inner) => if i < inner < t.len() {
                receiver_type(t, inner)
            } else {
                None
            },
            None => None,
        }
    } else if (is_a(t, i, "type_identifier"@) || is_a(t, i, "scoped_type_identifier"@)) && trimmed_at(
        t,
        i,
    ).len() > 0 {
        Some(trimmed_at(t, i))
    } else {
        None
    }
}

pub fn reduce_receiver_type(t: &Vec<SyntaxNode>, i: usize) -> (r: Option<String>)
    requires
        i < t.len(),
    ensures
        r.deep_view() == receiver_type(t.deep_view(), i as int),
{
    let ghost tv = t.deep_view();
    let mut core: usize = i;
    while has_kind(t, core, "reference_type") || has_kind(t, core, "pointer_type") || has_kind(
        t,
        core,
        "generic_type",
    )
        invariant
            tv == t.deep_view(),
            core < t.len(),
            receiver_type(tv, i as int) == receiver_type(tv, core as int),
        decreases t.len() - core,
    {
        match find_field(t, core, "type") {
            Some(inner) => {
                core = inner;
            },
            None => {
                return None;
            },
        }
    }
    if has_kind(t, core, "type_identifier") || has_kind(t, core, "scoped_type_identifier") {
        let text: String = trimmed_text(t, core);
        if text.as_str().is_empty() {
            None
        } else {
            Some(text)
        }
    } else {
        None
    }
}

/// The names that the pattern at `i` binds. The type that a pattern takes apart is none of them.
pub open spec fn pattern_idents(t: Seq<SyntaxNodeView>, i: int) -> Seq<Seq<char>>
    decreases t.len() - i, 1nat, 0nat,
{
    if i < 0 || i >= t.len() {
        Seq::empty()
    } else if is_a(t, i, "identifier"@) || is_a(t, i, "shorthand_field_identifier"@) {
        seq![trimmed_at(t, i)]
    } else if is_a(t, i, "tuple_struct_pattern"@) || is_a(t, i, "struct_pattern"@) {
        pattern_idents_of(t, i, named_children(t, i), field_child(t, i, "type"@))
    } else {
        pattern_idents_of(t, i, named_children(t, i), None)
    }
}

pub open spec fn pattern_idents_of(
    t: Seq<SyntaxNodeView>,
    i: int,
    kids: Seq<int>,
    skipped: Option<int>,
) -> Seq<Seq<char>>
    decreases t.len() - i, 0nat, kids.len(),
{
    if kids.len() == 0 || i < 0 || i >= t.len() {
        Seq::empty()
    } else {
        pattern_idents_of(t, i, kids.drop_last(), skipped) + if i < kids.last() < t.len() && skipped
            != Some(kids.last()) {
            pattern_idents(t, kids.last())
        } else {
            Seq::empty()
        }
    }
}

pub fn collect_pattern_idents(t: &Vec<SyntaxNode>, i: usize, out: &mut Vec<String>)
    requires
        i < t.len(),
    ensures
        final(out).deep_view() == old(out).deep_view() + pattern_idents(t.deep_view(), i as int),
    decreases t.len() - i,
{
    let ghost tv = t.deep_view();
    let ghost start = out.deep_view();
    if has_kind(t, i, "identifier") || has_kind(t, i, "shorthand_field_identifier") {
        push_name(out, trimmed_text(t, i));
        return;
    }
    let skipped: Option<usize> = if has_kind(t, i, "tuple_struct_pattern") || has_kind(
        t,
        i,
        "struct_pattern",
    ) {
        find_field(t, i, "type")
    } else {
        None
    };
    let ghost sv: Option<int> = match skipped {
        Some(x) => Some(x as int),
        None => None,
    };
    let kids: Vec<usize> = named_child_list(t, i);
    let ghost all = positions(kids@);
    let mut k: usize = 0;
    assert(start + Seq::<Seq<char>>::empty() =~= start);
    while k < kids.len()
        invariant
            i < t.len(),
            tv == t.deep_view(),
            k <= kids.len(),
            all == positions(kids@),
            sv == (match skipped {
                Some(x) => Some(x as int),
                None => None,
            }),
            forall|k: int| 0 <= k < kids@.len() ==> i < #[trigger] kids@[k] < t.len(),
            out.deep_view() == start + pattern_idents_of(tv, i as int, all.take(k as int), sv),
        decreases kids.len() - k,
    {
        proof {
            assert(all.take(k + 1).drop_last() =~= all.take(k as int));
            assert(all.take(k + 1).last() == kids@[k as int] as int);
        }
        let ghost done = pattern_idents_of(tv, i as int, all.take(k as int), sv);
        let skip: bool = match skipped {
            Some(x) => x == kids[k],
            None => false,
        };
        if !skip {
            let ghost more = pattern_idents(tv, kids@[k as int] as int);
            collect_pattern_idents(t, kids[k], out);
            assert(start + done + more =~= start + (done + more));
        } else {
            assert(done + Seq::<Seq<char>>::empty() =~= done);
        }
        k += 1;
    }
    assert(all.take(kids.len() as int) =~= all);
}

/// A struct literal that takes what it leaves out from a base.
pub open spec fn literal_has_base(t: Seq<SyntaxNodeView>, i: int) -> bool {
    match field_child(t, i, "body"@) {
        Some(body) => first_of_kind(t, named_children(t, body), "base_field_initializer"@) is Some,
        None => false,
    }
}

pub fn struct_literal_has_base(t: &Vec<SyntaxNode>, i: usize) -> (r: bool)
    requires
        i < t.len(),
    ensures
        r == literal_has_base(t.deep_view(), i as int),
{
    match find_field(t, i, "body") {
        Some(body) => find_first_of_kind(
            t,
            &named_child_list(t, body),
            "base_field_initializer",
        ).is_some(),
        None => false,
    }
}

// ── Modifiers ───────────────────────────────────────────────────────────────

/// One of the nodes is the word `unsafe`, or a list of modifiers with it.
pub open spec fn unsafe_among(t: Seq<SyntaxNodeView>, kids: Seq<int>) -> bool
    decreases kids.len(),
{
    kids.len() > 0 && (is_a(t, kids.last(), "unsafe"@) || (is_a(t, kids.last(), "function_modifiers"@)
        && first_of_kind(t, children(t, kids.last()), "unsafe"@) is Some) || unsafe_among(
        t,
        kids.drop_last(),
    ))
}

/// An item that is declared `unsafe`; what is unsafe inside it does not count.
pub open spec fn unsafe_item(t: Seq<SyntaxNodeView>, i: int) -> bool {
    unsafe_among(t, children(t, i))
}

pub fn has_unsafe_modifier(t: &Vec<SyntaxNode>, i: usize) -> (r: bool)
    requires
        i < t.len(),
    ensures
        r == unsafe_item(t.deep_view(), i as int),
{
    let ghost tv = t.deep_view();
    let kids: Vec<usize> = child_list(t, i);
    let ghost all = positions(kids@);
    let mut found: bool = false;
    let mut k: usize = 0;
    while k < kids.len()
        invariant
            tv == t.deep_view(),
            k <= kids.len(),
            all == positions(kids@),
            forall|k: int| 0 <= k < kids@.len() ==> i < #[trigger] kids@[k] < t.len(),
            found == unsafe_among(tv, all.take(k as int)),
        decreases kids.len() - k,
    {
        proof {
            assert(all.take(k + 1).drop_last() =~= all.take(k as int));
            assert(all.take(k + 1).last() == kids@[k as int] as int);
        }
        let c: usize = kids[k];
        if has_kind(t, c, "unsafe") {
            found = true;
        } else if has_kind(t, c, "function_modifiers") {
            if find_first_of_kind(t, &child_list(t, c), "unsafe").is_some() {
                found = true;
            }
        }
        k += 1;
    }
    assert(all.take(kids.len() as int) =~= all);
    found
}

/// The nearest item around a signature is a trait and no foreign block.
pub open spec fn in_trait(t: Seq<SyntaxNodeView>, i: int) -> bool
    decreases i,
{
    match parent(t, i) {
        Some(p) => if p < 0 || p >= i {
            false
        } else if is_a(t, p, "trait_item"@) {
            true
        } else if is_a(t, p, "foreign_mod_item"@) {
            false
        } else {
            in_trait(t, p)
        },
        None => false,
    }
}

pub fn signature_is_trait_method(t: &Vec<SyntaxNode>, i: usize) -> (r: bool)
    requires
        i < t.len(),
    ensures
        r == in_trait(t.deep_view(), i as int),
{
    let ghost tv = t.deep_view();
    let mut at: usize = i;
    loop
        invariant
            tv == t.deep_view(),
            at < t.len(),
            in_trait(tv, i as int) == in_trait(tv, at as int),
        decreases at,
    {
        match find_parent(t, at) {
            Some(p) => {
                if has_kind(t, p, "trait_item") {
                    return true;
                }
                if has_kind(t, p, "foreign_mod_item") {
                    return false;
                }
                at = p;
            },
            None => {
                return false;
            },
        }
    }
}

/// A function that is declared in a block: nothing outside it can call it.
pub open spec fn block_local(t: Seq<SyntaxNodeView>, i: int) -> bool
    decreases i,
{
    match parent(t, i) {
        Some(p) => if p < 0 || p >= i {
            false
        } else if is_a(t, p, "block"@) {
            true
        } else if is_a(t, p, "declaration_list"@) || is_a(t, p, "source_file"@) {
            false
        } else {
            block_local(t, p)
        },
        None => false,
    }
}

pub fn is_block_local_fn(t: &Vec<SyntaxNode>, i: usize) -> (r: bool)
    requires
        i < t.len(),
    ensures
        r == block_local(t.deep_view(), i as int),
{
    let ghost tv = t.deep_view();
    let mut at: usize = i;
    loop
        invariant
            tv == t.deep_view(),
            at < t.len(),
            block_local(tv, i as int) == block_local(tv, at as int),
        decreases at,
    {
        match find_parent(t, at) {
            Some(p) => {
                if has_kind(t, p, "block") {
                    return true;
                }
                if has_kind(t, p, "declaration_list") || has_kind(t, p, "source_file") {
                    return false;
                }
                at = p;
            },
            None => {
                return false;
            },
        }
    }
}

/// A direct member of the body of an item of a kind.
pub open spec fn member_of(t: Seq<SyntaxNodeView>, i: int, kind: Seq<char>) -> bool {
    match parent(t, i) {
        Some(p) => is_a(t, p, "declaration_list"@) && parent_is(t, p, kind),
        None => false,
    }
}

pub fn is_member_of(t: &Vec<SyntaxNode>, i: usize, kind: &str) -> (r: bool)
    requires
        i < t.len(),
    ensures
        r == member_of(t.deep_view(), i as int, kind@),
{
    match find_parent(t, i) {
        Some(p) => has_kind(t, p, "declaration_list") && match find_parent(t, p) {
            Some(g) => has_kind(t, g, kind),
            None => false,
        },
        None => false,
    }
}

/// The visibility modifier of an item.
pub open spec fn modifier(t: Seq<SyntaxNodeView>, i: int) -> Option<int> {
    first_of_kind(t, children(t, i), "visibility_modifier"@)
}

pub fn visibility_modifier(t: &Vec<SyntaxNode>, i: usize) -> (r: Option<usize>)
    requires
        i < t.len(),
    ensures
        (match r {
            Some(j) => modifier(t.deep_view(), i as int) == Some(j as int) && j < t.len(),
            None => modifier(t.deep_view(), i as int) is None,
        }),
{
    find_first_of_kind(t, &child_list(t, i), "visibility_modifier")
}

} // verus!
