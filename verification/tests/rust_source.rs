//! Rust source: impl headers, imports, documentation, normalization, debt markers and extraction.
use egregore::ir::{Graph, GraphRecord, NodeKind, NodeRecord, SourceSpan};
use egregore::languages::rust::calls::{collect_route_registrations, Caller};
use egregore::languages::rust::docs::{doc_attribute_text, string_literal_text};
use egregore::languages::rust::extract::FileSource;
use egregore::languages::rust::impls::{
    bare_simple_name_is_ambiguous, impl_display, impl_trait_target, normalize_impl_owner,
    ImplTargetDecision,
};
use egregore::languages::rust::items::{
    http_method_from_attribute_name, is_route_registration_macro, route_annotation_from_attribute,
};
use egregore::languages::rust::markers::comment_debt_markers;
use egregore::languages::rust::resolve::scope_imports_bare_name;
use egregore::languages::rust::tree::{
    impl_target_decision, is_module_item_use, use_bound_import_paths, use_bound_names,
};
use egregore::languages::rust::{extract_file_source, normalize_code, normalize_file_code};
use egregore::languages::syntax::{find_field, node_text, parse, Grammar, SyntaxNode};
use egregore::policy::PassThrough;

fn resolve_target(display: &str) -> Option<String> {
    match impl_trait_target(display) {
        ImplTargetDecision::Resolve(name) => Some(name),
        ImplTargetDecision::Verbatim | ImplTargetDecision::NoEdge => None,
    }
}

/// The first node of a kind.
fn first(t: &[SyntaxNode], kind: &str) -> usize {
    t.iter().position(|n| n.kind == kind).expect("a node of the kind")
}

/// Parses one impl header from real Rust source and returns the decision that its tree gives.
fn ast_decision(source: &str) -> ImplTargetDecision {
    let t = parse_tree(source);
    let i = first(&t, "impl_item");
    let display = impl_display(node_text(&t, i));
    impl_target_decision(&t, i, &display)
}

/// The AST decision reduced to the resolved trait/type name, mirroring
/// [`resolve_target`] but driven by a real parse.
fn ast_resolve(source: &str) -> Option<String> {
    match ast_decision(source) {
        ImplTargetDecision::Resolve(name) => Some(name),
        ImplTargetDecision::Verbatim | ImplTargetDecision::NoEdge => None,
    }
}

fn parse_tree(source: &str) -> Vec<SyntaxNode> {
    parse(Grammar::Rust, source).expect("parse source")
}

/// The route that the first attribute of a source text declares.
fn route_attr(source: &str) -> Option<(String, String)> {
    let t = parse_tree(source);
    let r = route_annotation_from_attribute(&t, first(&t, "attribute_item"))?;
    Some((r.method, r.path))
}

/// The handlers that the first macro call of a source text registers; none where it registers no
/// routes.
fn route_macro_idents(source: &str) -> Option<Vec<String>> {
    let t = parse_tree(source);
    let i = first(&t, "macro_invocation");
    let name = node_text(&t, find_field(&t, i, "macro")?).trim().to_owned();
    let leaf = name.rsplit("::").next().unwrap_or(&name).trim();
    let caller = Caller { id: "id", name: "build" };
    let found = collect_route_registrations(&t, i, &caller);
    if !is_route_registration_macro(leaf) {
        assert!(found.is_empty());
        return None;
    }
    Some(found.into_iter().map(|f| f.handler_display).collect())
}

#[test]
fn http_method_attribute_name_maps_closed_set_case_insensitively() {
    assert_eq!(http_method_from_attribute_name("get"), Some("GET"));
    assert_eq!(http_method_from_attribute_name("POST"), Some("POST"));
    assert_eq!(http_method_from_attribute_name("Put"), Some("PUT"));
    assert_eq!(http_method_from_attribute_name("delete"), Some("DELETE"));
    assert_eq!(http_method_from_attribute_name("patch"), Some("PATCH"));
    assert_eq!(http_method_from_attribute_name("head"), Some("HEAD"));
    assert_eq!(http_method_from_attribute_name("options"), Some("OPTIONS"));
    // Not an HTTP method — no route fact.
    assert_eq!(http_method_from_attribute_name("inline"), None);
    assert_eq!(http_method_from_attribute_name("test"), None);
}

#[test]
fn route_registration_macro_set_is_closed() {
    assert!(is_route_registration_macro("routes"));
    assert!(!is_route_registration_macro("vec"));
    assert!(!is_route_registration_macro("println"));
}

#[test]
fn route_attribute_parses_to_method_and_path() {
    assert_eq!(
        route_attr("#[get(\"/api/v1/contacts\")]\nfn list() {}\n"),
        Some(("GET".to_owned(), "/api/v1/contacts".to_owned()))
    );
    assert_eq!(
        route_attr("#[post(\"/api/v1/contacts\")]\nfn create() {}\n"),
        Some(("POST".to_owned(), "/api/v1/contacts".to_owned()))
    );
}

#[test]
fn non_method_attribute_yields_no_route_fact() {
    assert_eq!(route_attr("#[inline]\nfn plain() {}\n"), None);
    assert_eq!(route_attr("#[cfg(test)]\nfn gated() {}\n"), None);
}

#[test]
fn routes_macro_yields_registered_handler_identifier_set() {
    assert_eq!(
        route_macro_idents("fn build() { let _ = routes![list, get_one, create]; }"),
        Some(vec![
            "list".to_owned(),
            "get_one".to_owned(),
            "create".to_owned()
        ])
    );
}

#[test]
fn non_routes_macro_yields_no_registrations() {
    assert_eq!(
        route_macro_idents("fn build() { let _ = vec![list, create]; }"),
        None
    );
}

#[test]
fn bare_simple_name_ambiguity_counts_distinct_same_simple_name_targets() {
    // Two distinct qualified names sharing the simple name `T` (root `T`
    // and `a::T`) are ambiguous.
    assert!(bare_simple_name_is_ambiguous(
        "T",
        &texts(&["T", "a::T", "m::Foo"])
    ));
    // A lone same-simple-name target is unambiguous — the guard must not
    // over-suppress a legitimate single-name resolve.
    assert!(!bare_simple_name_is_ambiguous(
        "T",
        &texts(&["T", "m::Bar"])
    ));
    // A single deeply-nested definition is still unambiguous.
    assert!(!bare_simple_name_is_ambiguous(
        "T",
        &texts(&["a::b::T", "a::Foo"])
    ));
    // Two nested same-simple-name definitions with no root are ambiguous
    // (the type-alias-fallback wrong-edge class).
    assert!(bare_simple_name_is_ambiguous(
        "T",
        &texts(&["a::T", "b::T"])
    ));
    // The same qualified name twice is one target.
    assert!(!bare_simple_name_is_ambiguous(
        "T",
        &texts(&["a::T", "a::T"])
    ));
    // A name absent from the index is unambiguous (zero matches).
    assert!(!bare_simple_name_is_ambiguous(
        "Missing",
        &texts(&["T", "a::T"])
    ));
}

fn texts(items: &[&str]) -> Vec<String> {
    items.iter().map(|s| (*s).to_owned()).collect()
}

/// The names that the first `use` declaration of a source text binds.
fn parse_use_bound_names(source: &str) -> Vec<String> {
    let t = parse_tree(source);
    use_bound_names(&t, first(&t, "use_declaration"))
}

#[test]
fn use_bound_names_covers_plain_alias_grouped_and_glob() {
    // Plain `use a::b::T;` binds the final segment `T`.
    assert_eq!(parse_use_bound_names("use a::b::T;"), vec!["T".to_owned()]);
    // A bare `use T;` binds `T`.
    assert_eq!(parse_use_bound_names("use T;"), vec!["T".to_owned()]);
    // `use a::b::T as U;` binds the ALIAS `U`, never the path segment `T`.
    assert_eq!(
        parse_use_bound_names("use a::b::T as U;"),
        vec!["U".to_owned()]
    );
    // A grouped `use a::{B, C::D};` binds each leaf simple name.
    assert_eq!(
        parse_use_bound_names("use a::{B, C::D};"),
        vec!["B".to_owned(), "D".to_owned()]
    );
    // A grouped import with an inner alias binds the alias.
    assert_eq!(
        parse_use_bound_names("use a::{B, C::D as E};"),
        vec!["B".to_owned(), "E".to_owned()]
    );
    // A glob `use a::*;` names no specific simple name — it must contribute
    // nothing, so it never vetoes a bare impl-target name.
    assert!(parse_use_bound_names("use a::*;").is_empty());
    // A grouped glob leaf contributes nothing either.
    assert_eq!(
        parse_use_bound_names("use a::{B, c::*};"),
        vec!["B".to_owned()]
    );
}

/// The names that the first `use` declaration binds, each with its path.
fn parse_use_import_paths(source: &str) -> Vec<(String, String)> {
    let t = parse_tree(source);
    use_bound_import_paths(&t, first(&t, "use_declaration"))
}

#[test]
fn use_bound_import_paths_capture_resolved_paths() {
    // Plain `use crate::a::T;` binds `T` to the full import path.
    assert_eq!(
        parse_use_import_paths("use crate::a::T;"),
        vec![("T".to_owned(), "crate::a::T".to_owned())]
    );
    // A bare `use T;` binds `T` to `T`.
    assert_eq!(
        parse_use_import_paths("use T;"),
        vec![("T".to_owned(), "T".to_owned())]
    );
    // `use crate::a::T as U;` binds the alias `U` to the aliased PATH, never
    // the alias text.
    assert_eq!(
        parse_use_import_paths("use crate::a::T as U;"),
        vec![("U".to_owned(), "crate::a::T".to_owned())]
    );
    // Grouped `use crate::a::{T};` distributes the group prefix.
    assert_eq!(
        parse_use_import_paths("use crate::a::{T};"),
        vec![("T".to_owned(), "crate::a::T".to_owned())]
    );
    // Grouped with nested path + inner alias.
    assert_eq!(
        parse_use_import_paths("use crate::a::{B, C::D as E};"),
        vec![
            ("B".to_owned(), "crate::a::B".to_owned()),
            ("E".to_owned(), "crate::a::C::D".to_owned()),
        ]
    );
    // A glob binds no simple name, so it contributes no path — it stays
    // bounded out of import-aware resolution.
    assert!(parse_use_import_paths("use crate::a::*;").is_empty());
    // `super::`/`self::` prefixes are preserved verbatim for the resolver to
    // normalize against the impl's module scope.
    assert_eq!(
        parse_use_import_paths("use super::a::T;"),
        vec![("T".to_owned(), "super::a::T".to_owned())]
    );
}

#[test]
fn scope_imports_bare_name_consults_only_the_impls_own_scope() {
    // Rust `use` visibility is NOT inherited by child modules: the veto
    // consults ONLY the impl's exact own module-scope key. A file-top `use` (scope `[]`) binding `Display` shadows a
    // bare name at file top, but NOT one inside a descendant module.
    let imports: Vec<(Vec<String>, String)> = vec![(Vec::new(), "Display".to_owned())];
    assert!(scope_imports_bare_name(&imports, &vec![], "Display"));
    // Ancestor/root `use` does NOT match a child scope.
    assert!(!scope_imports_bare_name(
        &imports,
        &vec!["m".to_owned(), "n".to_owned()],
        "Display"
    ));
    // A name it does not bind is never shadowed.
    assert!(!scope_imports_bare_name(&imports, &vec![], "Other"));

    // A `use` inside `mod m` (scope `["m"]`) shadows a bare name in `m`
    // only, never at file top, in a descendant, or in a sibling module.
    let nested: Vec<(Vec<String>, String)> = vec![(texts(&["m"]), "Display".to_owned())];
    assert!(scope_imports_bare_name(
        &nested,
        &vec!["m".to_owned()],
        "Display"
    ));
    // A descendant `mod m::inner` does NOT inherit `mod m`'s import.
    assert!(!scope_imports_bare_name(
        &nested,
        &vec!["m".to_owned(), "inner".to_owned()],
        "Display"
    ));
    // File top cannot see the import declared inside `mod m`.
    assert!(!scope_imports_bare_name(&nested, &vec![], "Display"));
    // An unrelated sibling module `mod other` cannot see `mod m`'s import.
    assert!(!scope_imports_bare_name(
        &nested,
        &vec!["other".to_owned()],
        "Display"
    ));
}

#[test]
fn is_module_item_use_distinguishes_module_and_block_scope() {
    // A module-item `use` (file-top or inside a `mod` body) feeds the veto;
    // a block-local `use` inside a function body does NOT.
    // File-top `use` — a direct child of `source_file`.
    let top = "use std::fmt::Display;\n";
    let t = parse_tree(top);
    let i = first(&t, "use_declaration");
    assert!(is_module_item_use(&t, i), "file-top use is a module item");

    // `use` inside a `mod m { ... }` body — a child of `declaration_list`.
    let in_mod = "mod m { use std::fmt::Display; }\n";
    let t = parse_tree(in_mod);
    let i = first(&t, "use_declaration");
    assert!(
        is_module_item_use(&t, i),
        "use inside a mod body is a module item"
    );

    // Block-local `use` inside a function body — a child of `block`.
    let in_fn = "fn helper() { use std::fmt::Display; let _ = 0; }\n";
    let t = parse_tree(in_fn);
    let i = first(&t, "use_declaration");
    assert!(
        !is_module_item_use(&t, i),
        "block-local use is NOT a module item"
    );
}

#[test]
fn ast_impl_decision_resolves_generic_and_plain_trait_impls() {
    // Generic binder, non-parameter RHS: resolve the bare trait name.
    assert_eq!(
        ast_resolve("impl<T> GenT for Wrapper<T> {}"),
        Some("GenT".to_owned())
    );
    // Trait-segment generic args are stripped via the AST `type_arguments`.
    assert_eq!(
        ast_resolve("impl GenP<u32> for Plain {}"),
        Some("GenP".to_owned())
    );
    // Qualified generic trait path keeps the scoped path, drops the args.
    assert_eq!(
        ast_resolve("impl<T> foo::Bar<T> for Wrapper<T> {}"),
        Some("foo::Bar".to_owned())
    );
    assert_eq!(
        ast_resolve("impl<T> crate::Target<u32> for Wrapper<T> {}"),
        Some("crate::Target".to_owned())
    );
    // Non-generic trait impl on a concrete instantiation.
    assert_eq!(
        ast_resolve("impl MyTrait for MyStruct<i32> {}"),
        Some("MyTrait".to_owned())
    );
    // `unsafe` keyword prefix is transparent (a child token, not a field).
    assert_eq!(
        ast_resolve("unsafe impl<T> GenT for Wrapper<T> {}"),
        Some("GenT".to_owned())
    );
    // Multi-bound binder: the trait still resolves.
    assert_eq!(
        ast_resolve("impl<T: Into<String>> GenT for Wrapper<T> {}"),
        Some("GenT".to_owned())
    );
    // A qualified path WITHOUT turbofish keeps every `::`.
    assert_eq!(
        ast_resolve("impl crate::T for Foo {}"),
        Some("crate::T".to_owned())
    );
}

#[test]
fn ast_impl_decision_resolves_arrow_bound_binder() {
    // The regression case: a function-trait bound with a return arrow in
    // the binder. The Tree-sitter `type_parameters` field bounds the binder
    // structurally, so the `->` never leaks into the trait segment the way
    // the pre-AST char-scan binder split did (it closed depth on the `>` of
    // `->`, leaving `u32> Target ...`).
    assert_eq!(
        ast_resolve("impl<T: Fn() -> u32> Target for Wrapper<T> {}"),
        Some("Target".to_owned())
    );
    assert_eq!(
        ast_resolve("impl<T: Fn(u8) -> u32> crate::Target<u32> for Wrapper<T> {}"),
        Some("crate::Target".to_owned())
    );
    // A binder param used bare with an arrow bound is still a blanket impl.
    assert_eq!(
        ast_decision("impl<T: Fn() -> u32> Blanket for T {}"),
        ImplTargetDecision::NoEdge
    );
}

#[test]
fn ast_impl_decision_resolves_turbofish_via_recovery() {
    // Turbofish `::<>` in trait position is invalid Rust; Tree-sitter emits
    // an ERROR node, so `impl_target_decision` recovers through the
    // header-string normalizer and still resolves the bare trait.
    assert_eq!(
        ast_resolve("impl GenP::<u32> for Plain {}"),
        Some("GenP".to_owned())
    );
    assert_eq!(
        ast_resolve("impl some::path::GenP::<u32> for Plain {}"),
        Some("some::path::GenP".to_owned())
    );
    assert_eq!(
        ast_resolve("impl crate::GenP::<u32> for Foo {}"),
        Some("crate::GenP".to_owned())
    );
}

#[test]
fn ast_impl_decision_handles_spaced_binder() {
    // A source-level space between `impl` and the `<T>` binder parses into
    // the same fields, so the trait segment resolves natively.
    assert_eq!(
        ast_resolve("impl <T> GenT for Wrapper<T> {}"),
        Some("GenT".to_owned())
    );
    assert_eq!(
        ast_decision("impl <T> Blanket for T {}"),
        ImplTargetDecision::NoEdge
    );
    assert_eq!(
        ast_decision("impl <T> MyStruct<T> {}"),
        ImplTargetDecision::Verbatim
    );
}

#[test]
fn ast_impl_decision_bounds_out_blanket_and_non_nominal() {
    // Bare binder-parameter `for` target: no edge.
    for header in [
        "impl<T> Blanket for T {}",
        "impl<'a, T> Blanket for T {}",
        "impl<T: Clone> Blanket for T {}",
    ] {
        assert_eq!(ast_decision(header), ImplTargetDecision::NoEdge, "{header}");
    }
    // Reference/pointer wrappers around a bare binder param: still blanket.
    for header in [
        "impl<T> Blanket for &T {}",
        "impl<T> Blanket for &mut T {}",
        "impl<'a, T> Blanket for &'a T {}",
        "impl<'a, T> Blanket for &'a mut T {}",
        "impl<T> Blanket for *const T {}",
        "impl<T> Blanket for *mut T {}",
        "impl<T> Blanket for &&T {}",
        "impl<T> Blanket for &*const T {}",
    ] {
        assert_eq!(ast_decision(header), ImplTargetDecision::NoEdge, "{header}");
    }
    // Non-nominal targets (slice, array, tuple, trait object, opaque type).
    for header in [
        "impl<T> Blanket for [T] {}",
        "impl<T> Blanket for [T; 4] {}",
        "impl<T> Blanket for (T, T) {}",
        "impl<T> Blanket for &[T] {}",
        "impl Blanket for dyn Other {}",
        "impl Blanket for impl Other {}",
    ] {
        assert_eq!(ast_decision(header), ImplTargetDecision::NoEdge, "{header}");
    }
    // A concrete type sharing the param spelling but carrying generics, or a
    // reference to a concrete nominal type, still resolves.
    assert_eq!(
        ast_resolve("impl<T> Blanket for Wrapper<T> {}"),
        Some("Blanket".to_owned())
    );
    assert_eq!(
        ast_resolve("impl<T> Blanket for &Wrapper<T> {}"),
        Some("Blanket".to_owned())
    );
}

#[test]
fn ast_impl_decision_negative_impl_mints_no_edge() {
    // A negative impl asserts the type does NOT implement the trait; the `!`
    // token lives outside the `trait` field, so reading the field alone
    // would wrongly resolve `LocalAuto`. It must mint no edge.
    assert_eq!(
        ast_decision("impl !LocalAuto for Foo {}"),
        ImplTargetDecision::NoEdge
    );
    assert_eq!(
        ast_decision("impl<T> !LocalAuto for Wrapper<T> {}"),
        ImplTargetDecision::NoEdge
    );
    assert_eq!(
        ast_decision("unsafe impl !Send for Foo {}"),
        ImplTargetDecision::NoEdge
    );
}

#[test]
fn ast_impl_decision_preserves_inherent_impls() {
    // Generic inherent impl (no `for`): verbatim self edge preserved.
    assert_eq!(
        ast_decision("impl<T> MyStruct<T> {}"),
        ImplTargetDecision::Verbatim
    );
    // Non-generic inherent impl: resolve the type name verbatim.
    assert_eq!(ast_resolve("impl Plain {}"), Some("Plain".to_owned()));
    assert_eq!(
        ast_resolve("impl MyStruct<i32> {}"),
        Some("MyStruct<i32>".to_owned())
    );
}

#[test]
fn impl_trait_target_resolves_generic_trait_impls() {
    // Generic binder, non-parameter RHS: resolve the bare trait name.
    assert_eq!(
        resolve_target("impl<T> GenT for Wrapper<T>"),
        Some("GenT".to_owned())
    );
    // Trait-segment generic args are stripped.
    assert_eq!(
        resolve_target("impl GenP<u32> for Plain"),
        Some("GenP".to_owned())
    );
    // Qualified generic trait path keeps the qualifier, drops the args.
    assert_eq!(
        resolve_target("impl<T> foo::Bar<T> for Wrapper<T>"),
        Some("foo::Bar".to_owned())
    );
    // Non-generic trait impls are unchanged.
    assert_eq!(
        resolve_target("impl MyTrait for MyStruct<i32>"),
        Some("MyTrait".to_owned())
    );
    // `unsafe` keyword prefix is transparent.
    assert_eq!(
        resolve_target("unsafe impl<T> GenT for Wrapper<T>"),
        Some("GenT".to_owned())
    );
    // Multi-bound binder: still resolves the trait, params parsed past
    // the bounds.
    assert_eq!(
        resolve_target("impl<T: Into<String>> GenT for Wrapper<T>"),
        Some("GenT".to_owned())
    );
}

#[test]
fn impl_trait_target_resolves_turbofish_trait_impls() {
    // Turbofish trait syntax `GenP::<u32>` is valid Rust in type position.
    // After stripping the generic args, the trailing `::` separator must
    // also be dropped so the bare trait name matches the `GenP` symbol.
    assert_eq!(
        resolve_target("impl GenP::<u32> for Plain"),
        Some("GenP".to_owned())
    );
    // Turbofish on a qualified path strips the args and the trailing `::`
    // while preserving the internal path separators.
    assert_eq!(
        resolve_target("impl some::path::GenP::<u32> for Plain"),
        Some("some::path::GenP".to_owned())
    );
    // A qualified path WITHOUT turbofish keeps every `::` — only a
    // trailing separator left by turbofish stripping is removed.
    assert_eq!(
        resolve_target("impl crate::T::<u32> for Foo"),
        Some("crate::T".to_owned())
    );
    assert_eq!(
        resolve_target("impl crate::T for Foo"),
        Some("crate::T".to_owned())
    );
    // Spaced turbofish (valid Rust, survives `impl_display` as `GenP ::
    // <u32>`) normalizes the same way.
    assert_eq!(
        resolve_target("impl GenP :: <u32> for Plain"),
        Some("GenP".to_owned())
    );
    // Generic binder with a turbofish trait: bare trait still resolves.
    assert_eq!(
        resolve_target("impl<T> GenT::<T> for Wrapper<T>"),
        Some("GenT".to_owned())
    );
}

#[test]
fn impl_trait_target_resolves_spaced_generic_binder() {
    // A source-level space between `impl` and the `<T>` binder is valid
    // Rust and survives `impl_display` normalization as `impl <T> ...`.
    // The binder must still be skipped so the trait segment resolves.
    assert_eq!(
        resolve_target("impl <T> GenT for Wrapper<T>"),
        Some("GenT".to_owned())
    );
    // Spaced blanket impl is still bounded out.
    assert!(matches!(
        impl_trait_target("impl <T> Blanket for T"),
        ImplTargetDecision::NoEdge
    ));
    // Spaced generic inherent impl keeps its verbatim self edge.
    assert!(matches!(
        impl_trait_target("impl <T> MyStruct<T>"),
        ImplTargetDecision::Verbatim
    ));
    // `unsafe` + spaced binder is transparent too.
    assert_eq!(
        resolve_target("unsafe impl <T> GenT for Wrapper<T>"),
        Some("GenT".to_owned())
    );
}

#[test]
fn impl_trait_target_bounds_out_blanket_impls() {
    // `for` target is a bare binder parameter: no edge.
    assert!(matches!(
        impl_trait_target("impl<T> Blanket for T"),
        ImplTargetDecision::NoEdge
    ));
    assert!(matches!(
        impl_trait_target("impl<'a, T> Blanket for T"),
        ImplTargetDecision::NoEdge
    ));
    // A bounded binder param used bare is still blanket.
    assert!(matches!(
        impl_trait_target("impl<T: Clone> Blanket for T"),
        ImplTargetDecision::NoEdge
    ));
    // A concrete type sharing the param's spelling but carrying generics
    // is NOT a bare param -> still resolves.
    assert_eq!(
        resolve_target("impl<T> Blanket for Wrapper<T>"),
        Some("Blanket".to_owned())
    );
}

#[test]
fn impl_trait_target_bounds_out_reference_blanket_impls() {
    // A reference/pointer around a bare binder parameter is still a
    // blanket impl: strip the sigils and lifetimes, recognize the binder
    // param, mint no edge. Before the fix the `&` broke the bare-`T`
    // filter and the header fell through to `Resolve`, fabricating an
    // IMPLEMENTS edge with no concrete implementing-type record.
    for header in [
        "impl<T> Blanket for &T",
        "impl<T> Blanket for &mut T",
        "impl<'a, T> Blanket for &'a T",
        "impl<'a, T> Blanket for &'a mut T",
        "impl<T> Blanket for *const T",
        "impl<T> Blanket for *mut T",
        // Combined / repeated sigils still reduce to the binder param.
        "impl<T> Blanket for &&T",
        "impl<T> Blanket for &*const T",
    ] {
        assert!(
            matches!(impl_trait_target(header), ImplTargetDecision::NoEdge),
            "{header} must be bounded out"
        );
    }
    // Non-nominal `for` targets (slice, tuple, trait object, opaque type)
    // name no local nominal type and mint no edge either.
    for header in [
        "impl<T> Blanket for [T]",
        "impl<T> Blanket for (T, T)",
        "impl<T> Blanket for &[T]",
        "impl Blanket for dyn Other",
        "impl Blanket for impl Other",
    ] {
        assert!(
            matches!(impl_trait_target(header), ImplTargetDecision::NoEdge),
            "{header} must be bounded out"
        );
    }
    // A reference to a CONCRETE nominal type is not a binder-param blanket
    // impl -> still resolves the trait (implementing type `&Wrapper`).
    assert_eq!(
        resolve_target("impl<T> Blanket for &Wrapper<T>"),
        Some("Blanket".to_owned())
    );
}

#[test]
fn impl_trait_target_preserves_inherent_impls() {
    // Generic inherent impl (no `for`): verbatim self edge preserved.
    assert!(matches!(
        impl_trait_target("impl<T> MyStruct<T>"),
        ImplTargetDecision::Verbatim
    ));
    // Non-generic inherent impl: resolve the type name verbatim.
    assert_eq!(resolve_target("impl Plain"), Some("Plain".to_owned()));
}

#[test]
fn test_doc_attribute_text_extracts_string_forms() {
    assert_eq!(
        doc_attribute_text(r#"#[doc = "Plain doc."]"#),
        Some("Plain doc.".to_owned())
    );
    assert_eq!(
        doc_attribute_text(r##"#[doc = r#"Raw doc."#]"##),
        Some("Raw doc.".to_owned())
    );
    assert_eq!(
        doc_attribute_text(r#"#[doc="escaped \"quote\" and\nnewline"]"#),
        Some("escaped \"quote\" and\nnewline".to_owned())
    );
}

#[test]
fn test_string_literal_text_decodes_all_escape_forms() {
    assert_eq!(
        string_literal_text(r#""caf\u{e9}""#),
        Some("café".to_owned())
    );
    assert_eq!(string_literal_text(r#""\x41B""#), Some("AB".to_owned()));
    assert_eq!(
        string_literal_text(r#""a\rb\0c\'d\"e""#),
        Some("a\rb\0c'd\"e".to_owned())
    );
    // Line continuation: `\` before a newline swallows the newline and
    // the next line's leading whitespace.
    assert_eq!(
        string_literal_text("\"one \\\n    two\""),
        Some("one two".to_owned())
    );
}

#[test]
fn test_string_literal_text_keeps_undecodable_escapes_raw() {
    // Never partially decode: an escape this decoder does not understand
    // keeps the literal content verbatim instead of dropping backslashes.
    assert_eq!(string_literal_text(r#""caf\q""#), Some(r"caf\q".to_owned()));
    assert_eq!(
        string_literal_text(r#""bad \u{ZZ} escape""#),
        Some(r"bad \u{ZZ} escape".to_owned())
    );
}

#[test]
fn test_doc_attribute_text_decodes_unicode_escapes() {
    assert_eq!(
        doc_attribute_text(r#"#[doc = "caf\u{e9}"]"#),
        Some("café".to_owned())
    );
}

#[test]
fn test_doc_attribute_text_rejects_non_doc_shapes() {
    assert_eq!(doc_attribute_text("#[doc(hidden)]"), None);
    assert_eq!(doc_attribute_text(r#"#[doc(alias = "other")]"#), None);
    assert_eq!(doc_attribute_text("#[derive(Debug)]"), None);
    assert_eq!(doc_attribute_text(r#"#[deprecated = "note"]"#), None);
}

#[test]
fn test_doc_attribute_text_marks_unexpanded_expressions_as_present() {
    // Rustdoc documents an item carrying `#[doc = <expr>]` even when the
    // expression needs macro expansion; the fact recorded is presence
    // with a labeled unexpanded marker, never guessed doc text.
    let included = doc_attribute_text(r#"#[doc = include_str!("../README.md")]"#)
        .expect("include_str! doc attribute must count as documentation");
    assert!(
        included.contains(r#"include_str!("../README.md")"#),
        "marker must cite the unexpanded expression, got {included:?}"
    );
    let concatenated = doc_attribute_text(r#"#[doc = concat!("a", "b")]"#)
        .expect("concat! doc attribute must count as documentation");
    assert!(
        concatenated.contains("concat!"),
        "marker must cite the unexpanded expression, got {concatenated:?}"
    );
}

#[test]
fn test_normalize_raw_strings() {
    // Raw strings should preserve their contents, including comments-like delimiters
    let code = r###"
        let a = r"hello // world";
        let b = r#"foo /* bar */ baz"#;
        let c = r##"nested "quotes" and // comments"##;
    "###;
    let normalized = normalize_code(code);
    assert!(normalized.contains("hello // world"), "Got: {normalized}");
    assert!(
        normalized.contains("foo /* bar */ baz"),
        "Got: {normalized}"
    );
    assert!(
        normalized.contains("nested \"quotes\" and // comments"),
        "Got: {normalized}"
    );
}

#[test]
fn test_normalize_block_comments_preserves_separator() {
    // Block comment stripping should preserve a separator space to avoid token concatenation
    let code = "let x = 1/* comment */+2;";
    let normalized = normalize_code(code);
    assert_eq!(normalized, "let x=1+2;");

    let code2 = "let x = 1 /* comment */ +2;";
    let normalized2 = normalize_code(code2);
    assert_eq!(normalized2, "let x=1+2;");
}

#[test]
fn test_normalize_nested_block_comments() {
    let code = "let x = 1 /* outer /* inner */ changed */ + 2;";
    let normalized = normalize_code(code);
    assert_eq!(normalized, "let x=1+2;");
}

#[test]
fn test_strip_comments_before_sorting_imports() {
    let code = "
        // use old::path;
        use new::path;
    ";
    let normalized = normalize_file_code(code);
    assert_eq!(normalized, "use new::path;");
}

#[test]
fn test_preserve_scoped_imports() {
    let code = "
        use top::level;
        fn foo() {
            use inner::scoped;
        }
    ";
    let normalized = normalize_file_code(code);
    assert!(normalized.contains("use top::level;"), "Got: {normalized}");
    assert!(
        normalized.contains("use inner::scoped;"),
        "Got: {normalized}"
    );
}

#[test]
fn test_normalize_punctuation_adjacent_whitespace() {
    let code1 = "fn f(a: i32) -> i32 { a + 1 }";
    let code2 = "fn f(a:i32)->i32{a+1}";
    let normalized1 = normalize_code(code1);
    let normalized2 = normalize_code(code2);
    assert_eq!(normalized1, normalized2);
    assert_eq!(normalized1, "fn f(a:i32)->i32{a+1}");
}

#[test]
fn test_normalize_file_code_raw_strings() {
    let code = r##"
        let s = r#"x"#; // comment
    "##;
    let normalized = normalize_file_code(code);
    assert_eq!(normalized, "let s=r#\"x\"#;");
}

#[test]
fn test_normalize_file_code_visibility() {
    let code = "
        pub use b::Y;
        use a::X;
        pub(crate) use c::Z;
    ";
    let normalized = normalize_file_code(code);
    // The imports should sort as:
    // pub use b::Y;
    // pub(crate) use c::Z;
    // use a::X;
    // (after normalization, all spacing is stripped/collapsed)
    assert_eq!(normalized, "pub use b::Y;pub(crate)use c::Z;use a::X;");
}

#[test]
fn test_normalize_file_code_abuse() {
    let code = "pub const abuse: i32 = 1;";
    let normalized = normalize_file_code(code);
    assert_eq!(normalized, "pub const abuse:i32=1;");
}

// ── Debt-marker comment scanning ─────────────────────────────

fn categories_and_notes(text: &str) -> Vec<(&'static str, String)> {
    comment_debt_markers(text)
        .into_iter()
        .map(|m| (m.category, m.note))
        .collect()
}

#[test]
fn debt_marker_scan_matches_line_comment_markers() {
    assert_eq!(
        categories_and_notes("// TODO: wire retry logic"),
        vec![("todo", "wire retry logic".to_owned())]
    );
    assert_eq!(
        categories_and_notes("// FIXME - handle empty input"),
        vec![("fixme", "handle empty input".to_owned())]
    );
    assert_eq!(
        categories_and_notes("// HACK bypasses cache"),
        vec![("hack", "bypasses cache".to_owned())]
    );
}

#[test]
fn debt_marker_scan_is_case_insensitive_on_the_token_only() {
    assert_eq!(
        categories_and_notes("// todo lowercase works"),
        vec![("todo", "lowercase works".to_owned())]
    );
    assert_eq!(
        categories_and_notes("// xXx MiXeD"),
        vec![("xxx", "MiXeD".to_owned())],
        "the note text keeps its original case"
    );
}

#[test]
fn debt_marker_scan_never_matches_identifier_substrings() {
    assert_eq!(categories_and_notes("// TODOIST integration"), vec![]);
    assert_eq!(categories_and_notes("// call fixmeup() next"), vec![]);
    assert_eq!(categories_and_notes("// sizes XXXL and up"), vec![]);
    assert_eq!(categories_and_notes("// TODO2 is not a marker"), vec![]);
    assert_eq!(categories_and_notes("// TODO_LIST const"), vec![]);
    assert_eq!(categories_and_notes("// nothing to see here"), vec![]);
}

#[test]
fn debt_marker_scan_strips_block_terminator_and_stays_single_line() {
    assert_eq!(
        categories_and_notes("/* FIXME handle empty input */"),
        vec![("fixme", "handle empty input".to_owned())]
    );
    assert_eq!(
        categories_and_notes("/* first line\n * TODO: second line note\n */"),
        vec![("todo", "second line note".to_owned())],
        "a multi-line block note is cut at the end of the marker's line"
    );
}

#[test]
fn debt_marker_scan_captures_raw_note_and_empty_notes() {
    // Structured metadata is out of scope: the raw text is kept verbatim.
    assert_eq!(
        categories_and_notes("// TODO(alice): assign later"),
        vec![("todo", "(alice): assign later".to_owned())]
    );
    assert_eq!(
        categories_and_notes("// TODO"),
        vec![("todo", String::new())],
        "a bare marker keeps an empty note"
    );
}

#[test]
fn debt_marker_scan_returns_one_marker_per_occurrence_in_source_order() {
    assert_eq!(
        categories_and_notes("// TODO: fix\n// FIXME: later"),
        vec![("todo", "fix".to_owned()), ("fixme", "later".to_owned()),]
    );
    let markers = comment_debt_markers("/* line one\n TODO: on line two */");
    assert_eq!(markers.len(), 1);
    assert_eq!(markers[0].line_offset, 1, "line offset counts newlines");
    assert!(markers[0].token_start > 0);
    assert!(markers[0].note_end > markers[0].token_start);
}

#[test]
fn debt_marker_extraction_skips_string_literals_via_tree_sitter() {
    let source = "pub fn f() -> &'static str {\n    // TODO: real marker\n    \"TODO: not a marker\"\n}\n";
    let graph = extract_records(source);
    let markers: Vec<&GraphRecord> = graph
        .records()
        .iter()
        .filter(|r| {
            matches!(
                r,
                GraphRecord::Node(n) if n.kind == NodeKind::DebtMarker
            )
        })
        .collect();
    assert_eq!(
        markers.len(),
        1,
        "only the comment marker may match; the string literal never does"
    );
    assert_eq!(node(markers[0]).code.note.as_deref(), Some("real marker"));
}

#[test]
fn symbol_spans_carry_tree_sitter_columns() {
    // every syntax-derived symbol span records zero-based
    // byte-offset columns, so the SCIP exporter can emit precise ranges
    // without re-reading source. Columns must agree with the byte offsets
    // against the source's newline positions.
    let source = "fn top() {}\n    fn indented() {}\n";
    let graph = extract_records(source);
    let mut spans: Vec<SourceSpan> = graph
        .records()
        .iter()
        .filter_map(|record| match record {
            GraphRecord::Node(n) if n.kind == NodeKind::Symbol => n.span,
            _ => None,
        })
        .collect();
    assert_eq!(spans.len(), 2, "two function symbols expected");
    spans.sort_by_key(|span| span.start_byte);
    for span in &spans {
        assert!(
            span.start_column.is_some() && span.end_column.is_some(),
            "extractor must record columns: {span:?}"
        );
    }
    // The indented declaration starts four bytes into its line.
    let indented = spans
        .iter()
        .find(|span| span.start_line == 2)
        .expect("line-2 symbol");
    assert_eq!(indented.start_column, Some(4));

    let mut line_starts = vec![0usize];
    for (index, byte) in source.bytes().enumerate() {
        if byte == b'\n' {
            line_starts.push(index + 1);
        }
    }
    for span in &spans {
        let start_line_start = line_starts[span.start_line - 1];
        let end_line_start = line_starts[span.end_line - 1];
        assert_eq!(
            span.start_column,
            Some(span.start_byte - start_line_start),
            "start column is the byte offset from line start"
        );
        assert_eq!(
            span.end_column,
            Some(span.end_byte - end_line_start),
            "end column is the byte offset from line start"
        );
    }
}

/// Extracts `source` and returns the graph records.
fn extract_records(source: &str) -> Graph {
    let file = FileSource {
        source,
        path: "src/lib.rs",
        file_id: "file-id",
        repository_id: "repo-id",
        crate_root: "src/lib.rs",
        redact: &PassThrough,
    };
    let mut graph = Graph::new();
    extract_file_source(&file, &mut graph).expect("source should parse");
    graph
}

fn node(record: &GraphRecord) -> &NodeRecord {
    match record {
        GraphRecord::Node(n) => n,
        _ => panic!("a node"),
    }
}

fn find_node(graph: &Graph, want: NodeKind) -> &NodeRecord {
    graph
        .records()
        .iter()
        .find_map(|r| match r {
            GraphRecord::Node(n) if n.kind == want => Some(n),
            _ => None,
        })
        .expect("node of requested kind present")
}

#[test]
fn module_carries_deterministic_content_signature() {
    // A module summary is name-only and its stable ID is keyed
    // on the qualified NAME alone, so an inline-body edit keeps the same ID.
    // The extractor stamps a compact BLAKE3 body signature so that
    // same-ID body drift stays content-detectable. It must be present,
    // well-formed, and byte-stable across identical extractions. Imports
    // carry NO signature (their ID already encodes the full declaration).
    let source = "\
use std::collections::BTreeMap;

pub mod inner {
pub fn helper() -> u32 {
    1
}
}
";
    let graph = extract_records(source);
    let module = find_node(&graph, NodeKind::Module);
    let import = find_node(&graph, NodeKind::Import);

    let module_sig = module.code.content_signature.as_deref()
        .expect("module content_signature");
    assert!(module_sig.starts_with("blake3:"));
    // Imports no longer carry a content signature.
    assert_eq!(import.code.content_signature.as_deref(), None);

    // Deterministic: re-extracting identical source yields identical handles.
    let graph2 = extract_records(source);
    assert_eq!(
        find_node(&graph2, NodeKind::Module).code.content_signature.as_deref(),
        Some(module_sig)
    );
    assert_eq!(
        find_node(&graph2, NodeKind::Import).code.content_signature.as_deref(),
        None
    );
}

#[test]
fn content_signature_changes_with_module_body() {
    // A module body edit that leaves the name unchanged keeps the module's
    // stable ID (keyed on qualified name only) but must produce a different
    // content signature — exactly what makes the module body drift
    // detectable as a ContentChange within one ID group.
    let base = "\
pub mod inner {
pub fn helper() -> u32 {
    1
}
}
";
    let changed_mod = "\
pub mod inner {
pub fn helper() -> u32 {
    2
}
}
";
    let base_graph = extract_records(base);
    let base_mod = find_node(&base_graph, NodeKind::Module).code.content_signature.as_deref()
        .expect("sig")
        .to_owned();

    let mod_graph = extract_records(changed_mod);
    assert_ne!(
        find_node(&mod_graph, NodeKind::Module).code.content_signature.as_deref(),
        Some(base_mod.as_str()),
        "changed module body must change the signature"
    );
}

#[test]
fn import_body_change_is_a_record_identity_change() {
    // An import body change (here adding an `as` alias) mints a DIFFERENT
    // stable record ID, because `import_name` — a hash component of the ID —
    // is the whole trimmed `use ...;` declaration, not the bound leaf. So
    // the two versions never share an ID for evidence-freshness to compare a
    // signature within; the change surfaces as a handle-identity change
    // (`unresolved`/removed), never a ContentChange drift.
    let base = "use std::collections::BTreeMap;\n";
    let changed = "use std::collections::BTreeMap as Map;\n";
    let base_graph = extract_records(base);
    let changed_graph = extract_records(changed);
    let base_import = find_node(&base_graph, NodeKind::Import).id.as_str();
    let changed_import = find_node(&changed_graph, NodeKind::Import).id.as_str();
    assert_ne!(
        base_import, changed_import,
        "an import body change must mint a different record ID"
    );
}

#[test]
fn only_module_nodes_carry_content_signature() {
    // content_signature is scoped to Module. Symbols embed the
    // normalized body in their own summary, imports encode the full
    // declaration in their ID, and the File node is minted upstream; none of
    // them carry a signature, so their content hash stays byte-unchanged.
    let source = "use std::collections::BTreeMap;\n\npub fn f() -> u32 {\n    1\n}\n";
    let graph = extract_records(source);
    assert_eq!(
        find_node(&graph, NodeKind::Symbol).code.content_signature.as_deref(),
        None
    );
    assert_eq!(
        find_node(&graph, NodeKind::Import).code.content_signature.as_deref(),
        None
    );
}

#[test]
fn owners_are_known_by_the_name_of_their_type() {
    let owner = |s: &str| normalize_impl_owner(s);
    assert_eq!(owner("Runner for Widget"), Some("Widget".to_owned()));
    assert_eq!(owner("impl<T> MyStruct<T>"), Some("MyStruct".to_owned()));
    assert_eq!(owner("crate::foo::Bar"), Some("Bar".to_owned()));
    assert_eq!(owner("Runner for implicit"), Some("implicit".to_owned()));
    assert_eq!(owner("impl<F: Fn() -> u32> Wrapper<F>"), Some("Wrapper".to_owned()));
    assert_eq!(owner("Runner for &crate::Foo"), None);
    assert_eq!(owner("Runner for dyn crate::Foo"), None);
    assert_eq!(owner("Runner for (a::B<u8>, C)"), None);
}

#[test]
fn an_arrow_closes_no_angle_bracket() {
    assert_eq!(
        resolve_target("impl<T: Fn() -> u32> Target for Wrapper<T>"),
        Some("Target".to_owned())
    );
}

#[test]
fn signatures_do_not_depend_on_line_ends() {
    let signed = |source: &str| {
        find_node(&extract_records(source), NodeKind::Module)
            .code
            .content_signature
            .clone()
            .expect("a module is signed")
    };
    let unix = signed("pub mod inner {\n    const A: &str = \"x\n y\";\n}\n");
    assert_eq!(unix, signed("pub mod inner {\r\n    const A: &str = \"x\r\n y\";\r\n}\r\n"));
    assert_ne!(unix, signed("pub mod inner {\n    const A: &str = \"x y\";\n}\n"));
    let digest = unix.strip_prefix("blake3:").expect("how it was signed");
    assert_eq!(digest.len(), 64);
    assert!(digest.chars().all(|c| matches!(c, '0'..='9' | 'a'..='f')));
}
