//! Impl blocks and the traits and types they lead to, once a whole file has been read.
use vstd::prelude::*;

use crate::assoc::{find_value, lookup};
use crate::duplicate::{duplicate_all, lemma_push, Duplicate};
use crate::ir::EdgeLabel;
use crate::languages::facts::{
    FileFactsView, PendingImplFact, PendingImplFactView, UseImportFact, UseImportFactView,
};
use crate::languages::rust::extract::{
    Findings, FindingsView, PendingImplEdge, PendingImplEdgeView,
};
use crate::languages::rust::impls::{
    ambiguous_name, bare_simple_name_is_ambiguous, ImplTargetDecision, ImplTargetDecisionView,
};
use crate::languages::rust::scope::{qualified, qualify};
use crate::order::{sort_by_keys, sorted_by, KeyPart, KeyPartView};
use crate::text::{
    cat, contains, has, same, same_texts, starts, starts_with, strip_prefix, trim, trimmed,
    without_prefix,
};

verus! {

// ── Paths ───────────────────────────────────────────────────────────────────

/// The modules that are left after each `super::` in front of a path, and the rest of it.
pub open spec fn super_path(target: Seq<char>, modules: Seq<Seq<char>>) -> Option<Seq<char>>
    decreases modules.len(),
{
    match without_prefix(target, "super::"@) {
        Some(rest) => if modules.len() == 0 {
            None
        } else {
            super_path(rest, modules.drop_last())
        },
        None => Some(qualified(modules, target)),
    }
}

/// The qualified name that a path from the crate root, from its own module or from a module above
/// it means; none for any other path, and for one that leads above the crate root.
pub open spec fn absolute_path(target: Seq<char>, modules: Seq<Seq<char>>) -> Option<Seq<char>> {
    match (without_prefix(target, "crate::"@), without_prefix(target, "self::"@)) {
        (Some(rest), _) => Some(rest),
        (None, Some(rest)) => Some(qualified(modules, rest)),
        (None, None) => if starts(target, "super::"@) {
            super_path(target, modules)
        } else {
            None
        },
    }
}

fn first_modules(modules: &Vec<String>, n: usize) -> (r: Vec<String>)
    requires
        n <= modules.len(),
    ensures
        r.deep_view() == modules.deep_view().take(n as int),
{
    let ghost all = modules.deep_view();
    let mut out: Vec<String> = Vec::new();
    let mut i: usize = 0;
    assert(out.deep_view() =~= all.take(0));
    while i < n
        invariant
            i <= n <= modules.len(),
            all == modules.deep_view(),
            out.deep_view() == all.take(i as int),
        decreases n - i,
    {
        let ghost before = out;
        out.push(modules[i].clone());
        proof {
            lemma_push(before, out);
            assert(all.take(i + 1) =~= all.take(i as int).push(all[i as int]));
        }
        i += 1;
    }
    out
}

fn resolve_super(target: &str, modules: &Vec<String>) -> (r: Option<String>)
    ensures
        r.deep_view() == super_path(target@, modules.deep_view()),
{
    let ghost all = modules.deep_view();
    let mut rest: String = target.to_owned();
    let mut n: usize = modules.len();
    assert(all.take(n as int) =~= all);
    loop
        invariant
            n <= modules.len(),
            all == modules.deep_view(),
            super_path(target@, all) == super_path(rest@, all.take(n as int)),
        decreases n,
    {
        match strip_prefix(rest.as_str(), "super::") {
            Some(x) => {
                if n == 0 {
                    return None;
                }
                assert(all.take(n as int).drop_last() =~= all.take(n - 1));
                rest = x;
                n -= 1;
            },
            None => {
                return Some(qualify(&first_modules(modules, n), rest.as_str()));
            },
        }
    }
}

pub fn normalize_local_trait_path(target: &str, modules: &Vec<String>) -> (r: Option<String>)
    ensures
        r.deep_view() == absolute_path(target@, modules.deep_view()),
{
    if let Some(rest) = strip_prefix(target, "crate::") {
        return Some(rest);
    }
    if let Some(rest) = strip_prefix(target, "self::") {
        return Some(qualify(modules, rest.as_str()));
    }
    if starts_with(target, "super::") {
        resolve_super(target, modules)
    } else {
        None
    }
}

/// The record of a name in the innermost of the first `depth` modules that has one.
pub open spec fn outward(
    named: Seq<(Seq<char>, Seq<char>)>,
    target: Seq<char>,
    modules: Seq<Seq<char>>,
    depth: int,
) -> Option<Seq<char>>
    decreases depth + 1,
{
    if depth < 0 {
        None
    } else {
        match lookup(named, qualified(modules.take(depth), target)) {
            Some(id) => Some(id),
            None => outward(named, target, modules, depth - 1),
        }
    }
}

/// Looks for a name in the first `depth` modules; a negative depth is written as none.
fn walk_outward(
    named: &Vec<(String, String)>,
    target: &str,
    modules: &Vec<String>,
    depth: Option<usize>,
) -> (r: Option<String>)
    requires
        depth matches Some(d) ==> d <= modules.len(),
    ensures
        r.deep_view() == outward(
            named.deep_view(),
            target@,
            modules.deep_view(),
            match depth {
                Some(d) => d as int,
                None => -1,
            },
        ),
{
    match depth {
        None => None,
        Some(start) => {
            let mut d: usize = start;
            loop
                invariant
                    depth == Some(start),
                    d <= modules.len(),
                    outward(named.deep_view(), target@, modules.deep_view(), start as int)
                        == outward(named.deep_view(), target@, modules.deep_view(), d as int),
                decreases d,
            {
                let candidate: String = qualify(&first_modules(modules, d), target);
                if let Some(id) = find_value(named, candidate.as_str()) {
                    return Some(id.clone());
                }
                if d == 0 {
                    assert(outward(named.deep_view(), target@, modules.deep_view(), -1) is None);
                    return None;
                }
                d -= 1;
            }
        },
    }
}

// ── Shadows and ambiguity ───────────────────────────────────────────────────

/// An import in the module itself binds the name. What a module around it imports does not count.
pub open spec fn imports_name(
    imported: Seq<(Seq<Seq<char>>, Seq<char>)>,
    modules: Seq<Seq<char>>,
    name: Seq<char>,
) -> bool {
    exists|i: int| 0 <= i < imported.len() && #[trigger] imported[i] == (modules, name)
}

pub fn scope_imports_bare_name(
    imported: &Vec<(Vec<String>, String)>,
    modules: &Vec<String>,
    bare: &str,
) -> (r: bool)
    ensures
        r == imports_name(imported.deep_view(), modules.deep_view(), bare@),
{
    let ghost all = imported.deep_view();
    let mut i: usize = 0;
    while i < imported.len()
        invariant
            i <= imported.len(),
            all == imported.deep_view(),
            forall|k: int| 0 <= k < i ==> #[trigger] all[k] != (modules.deep_view(), bare@),
        decreases imported.len() - i,
    {
        assert(all[i as int] == imported@[i as int].deep_view());
        if same(imported[i].1.as_str(), bare) && same_texts(&imported[i].0, modules) {
            return true;
        }
        i += 1;
    }
    false
}

/// The keys of an association list.
pub open spec fn keys(m: Seq<(Seq<char>, Seq<char>)>) -> Seq<Seq<char>> {
    m.map_values(|e: (Seq<char>, Seq<char>)| e.0)
}

fn key_list(m: &Vec<(String, String)>) -> (r: Vec<String>)
    ensures
        r.deep_view() == keys(m.deep_view()),
{
    let ghost all = keys(m.deep_view());
    let mut out: Vec<String> = Vec::new();
    let mut i: usize = 0;
    assert(out.deep_view() =~= all.take(0));
    while i < m.len()
        invariant
            i <= m.len(),
            all == keys(m.deep_view()),
            out.deep_view() == all.take(i as int),
        decreases m.len() - i,
    {
        let ghost before = out;
        out.push(m[i].0.clone());
        proof {
            lemma_push(before, out);
            assert(m.deep_view()[i as int] == m@[i as int].deep_view());
            assert(all.take(i + 1) =~= all.take(i as int).push(all[i as int]));
        }
        i += 1;
    }
    assert(all.take(m.len() as int) =~= all);
    out
}

/// More than one trait or type of the file has the simple name.
pub open spec fn ambiguous(named: Seq<(Seq<char>, Seq<char>)>, target: Seq<char>) -> bool {
    ambiguous_name(keys(named), target)
}

fn bare_name_is_ambiguous(named: &Vec<(String, String)>, target: &str) -> (r: bool)
    ensures
        r == ambiguous(named.deep_view(), target@),
{
    bare_simple_name_is_ambiguous(target, &key_list(named))
}

// ── Resolution ──────────────────────────────────────────────────────────────

/// The record in the file that a bare name in a module means: one of the module itself; else, if
/// no import there binds the name and no other item shares it, the nearest one further out, or any
/// at all.
pub open spec fn bare_target(
    out: FindingsView,
    target: Seq<char>,
    modules: Seq<Seq<char>>,
) -> Option<Seq<char>> {
    match lookup(out.qualified, qualified(modules, target)) {
        Some(id) => Some(id),
        None => if imports_name(out.imported, modules, target) || ambiguous(
            out.qualified,
            target,
        ) {
            None
        } else {
            match outward(out.qualified, target, modules, modules.len() - 1) {
                Some(id) => Some(id),
                None => lookup(out.types, target),
            }
        },
    }
}

/// The record in the file that the path of an impl block in a module leads to.
pub open spec fn local_target(
    out: FindingsView,
    target: Seq<char>,
    modules: Seq<Seq<char>>,
) -> Option<Seq<char>> {
    if has(target, "::"@) {
        match absolute_path(target, modules) {
            Some(name) => lookup(out.qualified, name),
            None => outward(out.qualified, target, modules, modules.len() as int),
        }
    } else {
        bare_target(out, target, modules)
    }
}

fn copied(o: Option<&String>) -> (r: Option<String>)
    ensures
        r.deep_view() == o.deep_view(),
{
    match o {
        Some(s) => Some(s.clone()),
        None => None,
    }
}

pub fn resolve_impl_trait_locally(
    out: &Findings,
    target: &str,
    modules: &Vec<String>,
) -> (r: Option<String>)
    ensures
        r.deep_view() == local_target(out.deep_view(), target@, modules.deep_view()),
{
    assert(modules.deep_view().len() == modules@.len());
    if contains(target, "::") {
        return match normalize_local_trait_path(target, modules) {
            Some(name) => copied(find_value(&out.qualified, name.as_str())),
            None => walk_outward(&out.qualified, target, modules, Some(modules.len())),
        };
    }
    let own: String = qualify(modules, target);
    if let Some(id) = find_value(&out.qualified, own.as_str()) {
        return Some(id.clone());
    }
    if scope_imports_bare_name(&out.imported, modules, target) || bare_name_is_ambiguous(
        &out.qualified,
        target,
    ) {
        return None;
    }
    let above: Option<usize> = if modules.len() == 0 {
        None
    } else {
        Some(modules.len() - 1)
    };
    match walk_outward(&out.qualified, target, modules, above) {
        Some(id) => Some(id),
        None => copied(find_value(&out.types, target)),
    }
}

/// The findings after an impl block: an edge to what it leads to in the file, or else a fact for
/// the other files.
pub open spec fn resolve_one(
    crate_root: Seq<char>,
    p: PendingImplEdgeView,
    out: FindingsView,
) -> FindingsView {
    let summary = p.display + " implementation relationship"@;
    match p.decision {
        ImplTargetDecisionView::Resolve(target) => match local_target(
            out,
            target,
            p.module_names,
        ) {
            Some(id) => out.with_edge(EdgeLabel::Implements, p.source_id, id, summary),
            None => FindingsView {
                facts: FileFactsView {
                    pending_impls: out.facts.pending_impls.push(
                        PendingImplFactView {
                            source_id: p.source_id,
                            trait_path: target,
                            crate_root,
                            module_names: p.module_names,
                            shadowed_by_use: has(target, "::"@) == false && imports_name(
                                out.imported,
                                p.module_names,
                                target,
                            ),
                        },
                    ),
                    ..out.facts
                },
                ..out
            },
        },
        ImplTargetDecisionView::Verbatim => match lookup(out.definitions, trimmed(p.display)) {
            Some(id) => out.with_edge(EdgeLabel::Implements, p.source_id, id, summary),
            None => out,
        },
        ImplTargetDecisionView::NoEdge => out,
    }
}

fn resolve_pending(crate_root: &str, p: &PendingImplEdge, out: &mut Findings)
    ensures
        final(out).deep_view() == resolve_one(
            crate_root@,
            p.deep_view(),
            old(out).deep_view(),
        ),
{
    match &p.decision {
        ImplTargetDecision::Resolve(target) => {
            match resolve_impl_trait_locally(out, target.as_str(), &p.module_names) {
                Some(id) => {
                    out.push_edge(
                        EdgeLabel::Implements,
                        p.source_id.as_str(),
                        id.as_str(),
                        cat(p.display.as_str(), " implementation relationship"),
                    );
                },
                None => {
                    let shadowed: bool = !contains(target.as_str(), "::")
                        && scope_imports_bare_name(
                        &out.imported,
                        &p.module_names,
                        target.as_str(),
                    );
                    let ghost before = out.facts.pending_impls;
                    out.facts.pending_impls.push(
                        PendingImplFact {
                            source_id: p.source_id.clone(),
                            trait_path: target.clone(),
                            crate_root: crate_root.to_owned(),
                            module_names: duplicate_all(&p.module_names),
                            shadowed_by_use: shadowed,
                        },
                    );
                    proof {
                        lemma_push(before, out.facts.pending_impls);
                    }
                },
            }
        },
        ImplTargetDecision::Verbatim => {
            let key: String = trim(p.display.as_str());
            let found: Option<String> = copied(find_value(&out.definitions, key.as_str()));
            if let Some(id) = found {
                out.push_edge(
                    EdgeLabel::Implements,
                    p.source_id.as_str(),
                    id.as_str(),
                    cat(p.display.as_str(), " implementation relationship"),
                );
            }
        },
        ImplTargetDecision::NoEdge => {},
    }
}

/// The findings after some impl blocks, in the order of the source.
pub open spec fn resolved(
    crate_root: Seq<char>,
    ps: Seq<PendingImplEdgeView>,
    out: FindingsView,
) -> FindingsView
    decreases ps.len(),
{
    if ps.len() == 0 {
        out
    } else {
        resolve_one(crate_root, ps.last(), resolved(crate_root, ps.drop_last(), out))
    }
}

pub fn resolve_pending_impl_edges(crate_root: &str, ps: &Vec<PendingImplEdge>, out: &mut Findings)
    ensures
        final(out).deep_view() == resolved(
            crate_root@,
            ps.deep_view(),
            old(out).deep_view(),
        ),
{
    let ghost all = ps.deep_view();
    let ghost start = out.deep_view();
    let mut i: usize = 0;
    assert(all.take(0).len() == 0);
    while i < ps.len()
        invariant
            i <= ps.len(),
            all == ps.deep_view(),
            out.deep_view() == resolved(crate_root@, all.take(i as int), start),
        decreases ps.len() - i,
    {
        proof {
            assert(all.take(i + 1).drop_last() =~= all.take(i as int));
            assert(all.take(i + 1).last() == ps@[i as int].deep_view());
        }
        resolve_pending(crate_root, &ps[i], out);
        i += 1;
    }
    assert(all.take(ps.len() as int) =~= all);
}

// ── Imports that matter elsewhere ───────────────────────────────────────────

/// An impl block that is left to the other files names the import.
pub open spec fn wanted(pending: Seq<PendingImplFactView>, u: UseImportFactView) -> bool {
    exists|i: int|
        0 <= i < pending.len() && (#[trigger] pending[i]).trait_path == u.simple_name
            && pending[i].module_names == u.module_names && has(pending[i].trait_path, "::"@)
            == false
}

fn is_wanted(pending: &Vec<PendingImplFact>, u: &UseImportFact) -> (r: bool)
    ensures
        r == wanted(pending.deep_view(), u.deep_view()),
{
    let ghost all = pending.deep_view();
    let mut i: usize = 0;
    while i < pending.len()
        invariant
            i <= pending.len(),
            all == pending.deep_view(),
            forall|k: int|
                0 <= k < i ==> !((#[trigger] all[k]).trait_path == u.deep_view().simple_name
                    && all[k].module_names == u.deep_view().module_names && has(
                    all[k].trait_path,
                    "::"@,
                ) == false),
        decreases pending.len() - i,
    {
        assert(all[i as int] == pending@[i as int].deep_view());
        if same(pending[i].trait_path.as_str(), u.simple_name.as_str()) && same_texts(
            &pending[i].module_names,
            &u.module_names,
        ) && !contains(pending[i].trait_path.as_str(), "::") {
            return true;
        }
        i += 1;
    }
    false
}

/// The imports that are wanted, each once.
pub open spec fn wanted_imports(
    pending: Seq<PendingImplFactView>,
    s: Seq<UseImportFactView>,
) -> Seq<UseImportFactView>
    decreases s.len(),
{
    if s.len() == 0 {
        Seq::empty()
    } else {
        let rest = wanted_imports(pending, s.drop_last());
        if wanted(pending, s.last()) && !rest.contains(s.last()) {
            rest.push(s.last())
        } else {
            rest
        }
    }
}

/// The key by which imports are ordered: their modules, one after the other, then the name and the
/// path. Fewer modules come first.
pub open spec fn modules_key(modules: Seq<Seq<char>>) -> Seq<KeyPartView>
    decreases modules.len(),
{
    if modules.len() == 0 {
        Seq::empty()
    } else {
        modules_key(modules.drop_last()).push(KeyPartView::Num(1)).push(
            KeyPartView::Text(modules.last()),
        )
    }
}

pub open spec fn import_key(u: UseImportFactView) -> Seq<KeyPartView> {
    modules_key(u.module_names).push(KeyPartView::Num(0)).push(
        KeyPartView::Text(u.simple_name),
    ).push(KeyPartView::Text(u.resolved_path))
}

fn push_part(out: &mut Vec<KeyPart>, part: KeyPart)
    ensures
        final(out).deep_view() == old(out).deep_view().push(part.deep_view()),
{
    let ghost before = *out;
    out.push(part);
    proof {
        lemma_push(before, *out);
    }
}

fn build_import_key(u: &UseImportFact) -> (r: Vec<KeyPart>)
    ensures
        r.deep_view() == import_key(u.deep_view()),
{
    let ghost all = u.module_names.deep_view();
    let mut out: Vec<KeyPart> = Vec::new();
    let mut i: usize = 0;
    assert(out.deep_view() =~= modules_key(all.take(0)));
    while i < u.module_names.len()
        invariant
            i <= u.module_names.len(),
            all == u.module_names.deep_view(),
            out.deep_view() == modules_key(all.take(i as int)),
        decreases u.module_names.len() - i,
    {
        proof {
            assert(all.take(i + 1).drop_last() =~= all.take(i as int));
            assert(all.take(i + 1).last() == u.module_names@[i as int].deep_view());
        }
        push_part(&mut out, KeyPart::Num(1));
        push_part(&mut out, KeyPart::Text(u.module_names[i].clone()));
        i += 1;
    }
    assert(all.take(u.module_names.len() as int) =~= all);
    push_part(&mut out, KeyPart::Num(0));
    push_part(&mut out, KeyPart::Text(u.simple_name.clone()));
    push_part(&mut out, KeyPart::Text(u.resolved_path.clone()));
    out
}

/// The imports that impl blocks left to the other files name, in order.
pub open spec fn use_imports(out: FindingsView) -> Seq<UseImportFactView> {
    let kept = wanted_imports(out.facts.pending_impls, out.import_paths);
    sorted_by(kept, kept.map_values(|u: UseImportFactView| import_key(u)))
}

fn same_import(a: &UseImportFact, b: &UseImportFact) -> (r: bool)
    ensures
        r == (a.deep_view() == b.deep_view()),
{
    same_texts(&a.module_names, &b.module_names) && same(
        a.simple_name.as_str(),
        b.simple_name.as_str(),
    ) && same(a.resolved_path.as_str(), b.resolved_path.as_str())
}

fn contains_import(s: &Vec<UseImportFact>, u: &UseImportFact) -> (r: bool)
    ensures
        r == s.deep_view().contains(u.deep_view()),
{
    let ghost all = s.deep_view();
    let mut i: usize = 0;
    while i < s.len()
        invariant
            i <= s.len(),
            all == s.deep_view(),
            forall|k: int| 0 <= k < i ==> #[trigger] all[k] != u.deep_view(),
        decreases s.len() - i,
    {
        assert(all[i as int] == s@[i as int].deep_view());
        if same_import(&s[i], u) {
            return true;
        }
        i += 1;
    }
    false
}

impl Duplicate for UseImportFact {
    fn duplicate(&self) -> (r: UseImportFact) {
        UseImportFact {
            module_names: duplicate_all(&self.module_names),
            simple_name: self.simple_name.clone(),
            resolved_path: self.resolved_path.clone(),
        }
    }
}

fn collect_wanted(pending: &Vec<PendingImplFact>, s: &Vec<UseImportFact>) -> (r: Vec<UseImportFact>)
    ensures
        r.deep_view() == wanted_imports(pending.deep_view(), s.deep_view()),
{
    let ghost pv = pending.deep_view();
    let ghost all = s.deep_view();
    let mut out: Vec<UseImportFact> = Vec::new();
    let mut i: usize = 0;
    assert(out.deep_view() =~= wanted_imports(pv, all.take(0)));
    while i < s.len()
        invariant
            i <= s.len(),
            pv == pending.deep_view(),
            all == s.deep_view(),
            out.deep_view() == wanted_imports(pv, all.take(i as int)),
        decreases s.len() - i,
    {
        proof {
            assert(all.take(i + 1).drop_last() =~= all.take(i as int));
            assert(all.take(i + 1).last() == s@[i as int].deep_view());
        }
        if is_wanted(pending, &s[i]) && !contains_import(&out, &s[i]) {
            let ghost before = out;
            out.push(s[i].duplicate());
            proof {
                lemma_push(before, out);
            }
        }
        i += 1;
    }
    assert(all.take(s.len() as int) =~= all);
    out
}

/// The imports by which the other files resolve what this one leaves open. A name that is bound to
/// two paths stays ambiguous: both are kept.
pub fn finalize_use_imports(out: &mut Findings)
    ensures
        final(out).deep_view() == (FindingsView {
            facts: FileFactsView {
                use_trait_imports: use_imports(old(out).deep_view()),
                ..old(out).deep_view().facts
            },
            ..old(out).deep_view()
        }),
{
    let kept: Vec<UseImportFact> = collect_wanted(&out.facts.pending_impls, &out.import_paths);
    let ghost kv = kept.deep_view();
    let ghost all = kv.map_values(|u: UseImportFactView| import_key(u));
    let mut ks: Vec<Vec<KeyPart>> = Vec::new();
    let mut i: usize = 0;
    assert(ks.deep_view() =~= all.take(0));
    while i < kept.len()
        invariant
            i <= kept.len(),
            ks.len() == i,
            kv == kept.deep_view(),
            all == kv.map_values(|u: UseImportFactView| import_key(u)),
            ks.deep_view() == all.take(i as int),
        decreases kept.len() - i,
    {
        let ghost before = ks;
        ks.push(build_import_key(&kept[i]));
        proof {
            lemma_push(before, ks);
            assert(kv[i as int] == kept@[i as int].deep_view());
            assert(all.take(i + 1) =~= all.take(i as int).push(all[i as int]));
        }
        i += 1;
    }
    assert(all.take(kept.len() as int) =~= all);
    out.facts.use_trait_imports = sort_by_keys(&kept, &ks);
}

} // verus!
