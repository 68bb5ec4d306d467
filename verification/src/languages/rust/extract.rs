//! The walk over a Rust syntax tree: records and facts, in the order of the source.
use vstd::prelude::*;

use crate::duplicate::{duplicate_all, duplicate_opt, lemma_push, Duplicate};
use crate::ir::{
    code_edge, code_id, digest_text, is_digest, stable_id, text_digest, CodeFieldsView, EdgeLabel,
    GraphRecord, NodeKind, NodeRecord, NodeRecordView, RecordView, SourceSpan,
    REDACTION_POLICY_VERSION,
};
use crate::languages::common::{
    collect_excluded, count_ordinal, excluded_from, item_name, node_name, ordinal, SymbolBody,
    SymbolBodyView,
};
use crate::languages::facts::{
    DefinitionFact, DefinitionFactView, FileFacts, FileFactsView, ImplTargetFact,
    ImplTargetFactView, ImplTraitRelationFact, ImplTraitRelationFactView, OutOfLineModFact,
    OutOfLineModFactView, UseImportFact, UseImportFactView,
};
use crate::languages::rust::calls::{
    build_type_env, collect_call_sites, function_env, sites_over, Caller, CallerView, TypeEnv,
};
use crate::languages::rust::impls::{
    header_of, impl_display, impl_target_kind, is_impl_target_kind, method_owner,
    normalize_impl_owner, normalize_impl_owner_path, owner_name_of, owner_path_of, owner_text,
    ImplTargetDecision, ImplTargetDecisionView,
};
use crate::languages::rust::items::{
    attributes, carries_declaration_surface, check_attribute, documentation, first_path,
    has_attribute, has_surface, import_name, import_text, is_test_function, macro_invocation_name,
    macro_name, mod_path_override, route_annotations, routes_of, signature, symbol_doc,
    symbol_signature, symbol_visibility, test_function, visibility, Wanted,
};
use crate::languages::rust::markers::{
    comment_debt_markers, markers_from, CommentMarker, CommentMarkerView,
};
use crate::languages::rust::normalize::{normalize_code, normalized};
use crate::languages::rust::scope::{qualified, qualify, ImplContext, ImplContextView, Scope, ScopeView};
use crate::languages::rust::tree::{
    block_local, declared_bindings, declared_names, has_unsafe_modifier, impl_target,
    impl_target_decision, in_trait, is_block_local_fn, is_member_of, is_module_item_use, member_of,
    module_item_use, signature_is_trait_method, unsafe_item, use_bound_import_paths,
    use_bound_names,
};
use crate::languages::syntax::{
    field_child, find_field, has_kind, is_a, named_child_list, named_children, node_text, plus,
    positions, saturating_plus, span, span_of, text_at, Grammar, SyntaxNode, SyntaxNodeView,
};
use crate::policy::Redactor;
use crate::text::{
    cat, cat3, cat4, decimal, decimal_of, line_feeds_only, normalize_line_endings, parts5, parts6,
    parts7, same, starts,
};

verus! {

/// The file that is read.
pub struct FileSource<'a, R: Redactor> {
    pub source: &'a str,
    pub path: &'a str,
    pub file_id: &'a str,
    pub repository_id: &'a str,
    pub crate_root: &'a str,
    pub redact: &'a R,
}

pub struct FileSourceView<R> {
    pub source: Seq<char>,
    pub path: Seq<char>,
    pub file_id: Seq<char>,
    pub repository_id: Seq<char>,
    pub crate_root: Seq<char>,
    pub redact: R,
}

impl<'a, R: Redactor> DeepView for FileSource<'a, R> {
    type V = FileSourceView<R>;

    open spec fn deep_view(&self) -> FileSourceView<R> {
        FileSourceView {
            source: self.source@,
            path: self.path@,
            file_id: self.file_id@,
            repository_id: self.repository_id@,
            crate_root: self.crate_root@,
            redact: *self.redact,
        }
    }
}

/// An impl block whose trait is looked up when the whole file has been read.
#[derive(Debug, PartialEq, Eq)]
pub struct PendingImplEdge {
    pub source_id: String,
    pub display: String,
    pub module_names: Vec<String>,
    pub decision: ImplTargetDecision,
}

#[verifier::ext_equal]
pub struct PendingImplEdgeView {
    pub source_id: Seq<char>,
    pub display: Seq<char>,
    pub module_names: Seq<Seq<char>>,
    pub decision: ImplTargetDecisionView,
}

impl DeepView for PendingImplEdge {
    type V = PendingImplEdgeView;

    open spec fn deep_view(&self) -> PendingImplEdgeView {
        PendingImplEdgeView {
            source_id: self.source_id@,
            display: self.display@,
            module_names: self.module_names.deep_view(),
            decision: self.decision.deep_view(),
        }
    }
}

/// What the walk has found.
#[derive(Debug, PartialEq, Eq)]
pub struct Findings {
    pub records: Vec<GraphRecord>,
    /// What has been numbered: a class and a name, once for each number given.
    pub counted: Vec<(String, String)>,
    /// The record of each name; a later entry hides an earlier one.
    pub definitions: Vec<(String, String)>,
    /// The same of traits and types, by their qualified names alone.
    pub qualified: Vec<(String, String)>,
    /// The same of traits and types, by their simple names.
    pub types: Vec<(String, String)>,
    /// The modules in which a name is imported.
    pub imported: Vec<(Vec<String>, String)>,
    /// What the imports are bound to.
    pub import_paths: Vec<UseImportFact>,
    pub pending: Vec<PendingImplEdge>,
    pub bodies: Vec<SymbolBody>,
    pub facts: FileFacts,
}

#[verifier::ext_equal]
pub struct FindingsView {
    pub records: Seq<RecordView>,
    pub counted: Seq<(Seq<char>, Seq<char>)>,
    pub definitions: Seq<(Seq<char>, Seq<char>)>,
    pub qualified: Seq<(Seq<char>, Seq<char>)>,
    pub types: Seq<(Seq<char>, Seq<char>)>,
    pub imported: Seq<(Seq<Seq<char>>, Seq<char>)>,
    pub import_paths: Seq<UseImportFactView>,
    pub pending: Seq<PendingImplEdgeView>,
    pub bodies: Seq<SymbolBodyView>,
    pub facts: FileFactsView,
}

impl DeepView for Findings {
    type V = FindingsView;

    open spec fn deep_view(&self) -> FindingsView {
        FindingsView {
            records: self.records.deep_view(),
            counted: self.counted.deep_view(),
            definitions: self.definitions.deep_view(),
            qualified: self.qualified.deep_view(),
            types: self.types.deep_view(),
            imported: self.imported.deep_view(),
            import_paths: self.import_paths.deep_view(),
            pending: self.pending.deep_view(),
            bodies: self.bodies.deep_view(),
            facts: self.facts.deep_view(),
        }
    }
}

impl FindingsView {
    pub open spec fn none() -> FindingsView {
        FindingsView {
            records: Seq::empty(),
            counted: Seq::empty(),
            definitions: Seq::empty(),
            qualified: Seq::empty(),
            types: Seq::empty(),
            imported: Seq::empty(),
            import_paths: Seq::empty(),
            pending: Seq::empty(),
            bodies: Seq::empty(),
            facts: FileFactsView::none(),
        }
    }
}

impl Findings {
    pub fn none() -> (r: Findings)
        ensures
            r.deep_view() == FindingsView::none(),
    {
        Findings {
            records: Vec::new(),
            counted: Vec::new(),
            definitions: Vec::new(),
            qualified: Vec::new(),
            types: Vec::new(),
            imported: Vec::new(),
            import_paths: Vec::new(),
            pending: Vec::new(),
            bodies: Vec::new(),
            facts: FileFacts::none(),
        }
    }
}

// ── Numbers ─────────────────────────────────────────────────────────────────

impl FindingsView {
    /// With one more number given.
    pub open spec fn numbered(self, class: Seq<char>, name: Seq<char>) -> FindingsView {
        FindingsView { counted: self.counted.push((class, name)), ..self }
    }

    /// With one more record.
    pub open spec fn with_record(self, r: RecordView) -> FindingsView {
        FindingsView { records: self.records.push(r), ..self }
    }

    /// With an edge.
    pub open spec fn with_edge(
        self,
        label: EdgeLabel,
        source: Seq<char>,
        target: Seq<char>,
        summary: Seq<char>,
    ) -> FindingsView {
        self.with_record(RecordView::Edge(code_edge(label, source, target, None, summary)))
    }

    /// With a name defined.
    pub open spec fn defining(self, name: Seq<char>, id: Seq<char>) -> FindingsView {
        FindingsView { definitions: self.definitions.push((name, id)), ..self }
    }
}

impl Findings {
    fn number(&mut self, class: &str, name: &str) -> (r: u64)
        ensures
            final(self).deep_view() == old(self).deep_view().numbered(class@, name@),
            r == ordinal(old(self).deep_view().counted, class@, name@),
    {
        let n: u64 = count_ordinal(&self.counted, class, name);
        let ghost before = self.counted;
        self.counted.push((class.to_owned(), name.to_owned()));
        proof {
            lemma_push(before, self.counted);
        }
        n
    }

    pub fn push_record(&mut self, r: GraphRecord)
        ensures
            final(self).deep_view() == old(self).deep_view().with_record(r.deep_view()),
    {
        let ghost before = self.records;
        self.records.push(r);
        proof {
            lemma_push(before, self.records);
        }
    }

    pub fn push_edge(&mut self, label: EdgeLabel, source: &str, target: &str, summary: String)
        ensures
            final(self).deep_view() == old(self).deep_view().with_edge(
                label,
                source@,
                target@,
                summary@,
            ),
    {
        self.push_record(
            GraphRecord::edge(label, source.to_owned(), target.to_owned(), None, summary),
        );
    }

    fn define(&mut self, name: &str, id: &str)
        ensures
            final(self).deep_view() == old(self).deep_view().defining(name@, id@),
    {
        let ghost before = self.definitions;
        self.definitions.push((name.to_owned(), id.to_owned()));
        proof {
            lemma_push(before, self.definitions);
        }
    }
}

// ── Records ─────────────────────────────────────────────────────────────────

/// A syntax node of the file.
pub open spec fn syntax_node<R: Redactor>(
    e: FileSourceView<R>,
    id: Seq<char>,
    kind: NodeKind,
    at: SourceSpan,
    name: Seq<char>,
    summary: Seq<char>,
) -> NodeRecordView {
    NodeRecordView {
        code: CodeFieldsView { language: Some("rust"@), ..CodeFieldsView::none() },
        ..NodeRecordView::plain(id, kind, Some(e.path), Some(at), Some(name), summary)
    }
}

fn build_syntax_node<R: Redactor>(
    e: &FileSource<R>,
    id: &str,
    kind: NodeKind,
    at: SourceSpan,
    name: &str,
    summary: String,
) -> (r: NodeRecord)
    ensures
        r.deep_view() == syntax_node(e.deep_view(), id@, kind, at, name@, summary@),
{
    let mut n: NodeRecord = NodeRecord::plain(
        id.to_owned(),
        kind,
        Some(e.path.to_owned()),
        Some(at),
        Some(name.to_owned()),
        summary,
    );
    n.code.language = Some("rust".to_owned());
    n
}

/// The identity of the `n`th site of a class with a name.
pub open spec fn site_id<R: Redactor>(
    e: FileSourceView<R>,
    class: Seq<char>,
    name: Seq<char>,
    n: nat,
) -> Seq<char> {
    code_id(seq!["node"@, class, e.repository_id, e.path, name, decimal_of(n)])
}

fn site_id_for<R: Redactor>(e: &FileSource<R>, class: &str, name: &str, n: u64) -> (r: String)
    ensures
        r@ == site_id(e.deep_view(), class@, name@, n as nat),
{
    stable_id(&parts6("node", class, e.repository_id, e.path, name, decimal(n).as_str()))
}

/// The findings with an unsafe site.
pub open spec fn with_unsafe_site<R: Redactor>(
    e: FileSourceView<R>,
    t: Seq<SyntaxNodeView>,
    i: int,
    site: Seq<char>,
    out: FindingsView,
) -> FindingsView {
    let id = site_id(e, "unsafe_site"@, site, ordinal(out.counted, "unsafe_site"@, site));
    out.numbered("unsafe_site"@, site).with_record(
        RecordView::Node(
            syntax_node(
                e,
                id,
                NodeKind::UnsafeSite,
                span_of(t[i]),
                site,
                "Rust unsafe "@ + site + " site"@,
            ),
        ),
    ).with_edge(
        EdgeLabel::Contains,
        e.file_id,
        id,
        e.path + " contains unsafe "@ + site + " site"@,
    )
}

fn emit_unsafe_site<R: Redactor>(
    e: &FileSource<R>,
    t: &Vec<SyntaxNode>,
    i: usize,
    site: &str,
    out: &mut Findings,
)
    requires
        i < t.len(),
    ensures
        final(out).deep_view() == with_unsafe_site(
            e.deep_view(),
            t.deep_view(),
            i as int,
            site@,
            old(out).deep_view(),
        ),
{
    assert(t.deep_view()[i as int] == t@[i as int].deep_view());
    let n: u64 = out.number("unsafe_site", site);
    let id: String = site_id_for(e, "unsafe_site", site, n);
    out.push_record(
        GraphRecord::Node(
            build_syntax_node(
                e,
                id.as_str(),
                NodeKind::UnsafeSite,
                span(&t[i]),
                site,
                cat3("Rust unsafe ", site, " site"),
            ),
        ),
    );
    out.push_edge(
        EdgeLabel::Contains,
        e.file_id,
        id.as_str(),
        cat4(e.path, " contains unsafe ", site, " site"),
    );
}

/// The class under which the symbols of a kind are numbered.
pub open spec fn symbol_class(kind: Seq<char>) -> Seq<char> {
    "symbol "@ + kind
}

pub open spec fn symbol_id<R: Redactor>(
    e: FileSourceView<R>,
    kind: Seq<char>,
    name: Seq<char>,
    n: nat,
) -> Seq<char> {
    code_id(seq!["node"@, "symbol"@, kind, e.repository_id, e.path, name, decimal_of(n)])
}

/// The record of a symbol. Its summary holds its normalized source.
pub open spec fn symbol_node<R: Redactor>(
    e: FileSourceView<R>,
    t: Seq<SyntaxNodeView>,
    i: int,
    kind: Seq<char>,
    name: Seq<char>,
    n: nat,
) -> NodeRecordView {
    let base = syntax_node(
        e,
        symbol_id(e, kind, name, n),
        NodeKind::Symbol,
        span_of(t[i]),
        name,
        "Rust "@ + kind + " "@ + name + "\nSource:\n"@ + normalized(text_at(t, i)),
    );
    let doc = documentation(e.redact, t, i);
    let routes = routes_of(t, attributes(t, i));
    NodeRecordView {
        code: CodeFieldsView {
            symbol_kind: Some(kind),
            disambiguator: Some(n as u64),
            visibility: if has_surface(kind) {
                Some(visibility(t, i))
            } else {
                None
            },
            signature: if has_surface(kind) {
                Some(signature(e.source, t, i))
            } else {
                None
            },
            doc: if has_surface(kind) {
                doc
            } else {
                None
            },
            route: if routes.len() == 0 {
                None
            } else {
                Some(routes)
            },
            ..base.code
        },
        redaction_policy_version: if has_surface(kind) && doc is Some {
            Some(REDACTION_POLICY_VERSION)
        } else {
            None
        },
        ..base
    }
}

fn build_symbol_node<R: Redactor>(
    e: &FileSource<R>,
    t: &Vec<SyntaxNode>,
    i: usize,
    kind: &str,
    name: &str,
    n: u64,
    id: &str,
) -> (r: NodeRecord)
    requires
        i < t.len(),
        id@ == symbol_id(e.deep_view(), kind@, name@, n as nat),
    ensures
        r.deep_view() == symbol_node(
            e.deep_view(),
            t.deep_view(),
            i as int,
            kind@,
            name@,
            n as nat,
        ),
{
    assert(t.deep_view()[i as int] == t@[i as int].deep_view());
    let summary: String = cat4("Rust ", kind, " ", name).concat("\nSource:\n").concat(
        normalize_code(node_text(t, i)).as_str(),
    );
    let mut record: NodeRecord = build_syntax_node(
        e,
        id,
        NodeKind::Symbol,
        span(&t[i]),
        name,
        summary,
    );
    record.code.symbol_kind = Some(kind.to_owned());
    record.code.disambiguator = Some(n);
    if carries_declaration_surface(kind) {
        let doc: Option<String> = symbol_doc(e.redact, t, i);
        if doc.is_some() {
            record.redaction_policy_version = Some(REDACTION_POLICY_VERSION);
        }
        record.code.visibility = Some(symbol_visibility(t, i).to_owned());
        record.code.signature = Some(symbol_signature(e.source, t, i));
        record.code.doc = doc;
    }
    let routes = route_annotations(t, i);
    assert(routes.deep_view().len() == routes@.len());
    if routes.len() > 0 {
        record.code.route = Some(routes);
    }
    record
}

/// The identity that the next symbol of a kind and name gets.
pub open spec fn next_symbol_id<R: Redactor>(
    e: FileSourceView<R>,
    kind: Seq<char>,
    name: Seq<char>,
    out: FindingsView,
) -> Seq<char> {
    symbol_id(e, kind, name, ordinal(out.counted, symbol_class(kind), name))
}

/// The findings with a symbol and the edge from its owner.
pub open spec fn with_symbol<R: Redactor>(
    e: FileSourceView<R>,
    t: Seq<SyntaxNodeView>,
    i: int,
    kind: Seq<char>,
    name: Seq<char>,
    sc: ScopeView,
    out: FindingsView,
) -> FindingsView {
    let n = ordinal(out.counted, symbol_class(kind), name);
    out.numbered(symbol_class(kind), name).with_record(
        RecordView::Node(symbol_node(e, t, i, kind, name, n)),
    ).with_edge(
        EdgeLabel::Defines,
        sc.owner(),
        symbol_id(e, kind, name, n),
        sc.owner_name(e.path) + " defines "@ + name,
    )
}

fn add_symbol<R: Redactor>(
    e: &FileSource<R>,
    t: &Vec<SyntaxNode>,
    i: usize,
    kind: &str,
    name: &str,
    sc: &Scope,
    out: &mut Findings,
) -> (r: String)
    requires
        i < t.len(),
    ensures
        r@ == next_symbol_id(e.deep_view(), kind@, name@, old(out).deep_view()),
        final(out).deep_view() == with_symbol(
            e.deep_view(),
            t.deep_view(),
            i as int,
            kind@,
            name@,
            sc.deep_view(),
            old(out).deep_view(),
        ),
{
    let class: String = cat("symbol ", kind);
    let n: u64 = out.number(class.as_str(), name);
    let id: String = stable_id(
        &parts7("node", "symbol", kind, e.repository_id, e.path, name, decimal(n).as_str()),
    );
    let record: NodeRecord = build_symbol_node(e, t, i, kind, name, n, id.as_str());
    out.push_record(GraphRecord::Node(record));
    out.push_edge(
        EdgeLabel::Defines,
        sc.owner().as_str(),
        id.as_str(),
        cat3(sc.owner_name(e.path).as_str(), " defines ", name),
    );
    id
}

// ── Modules ─────────────────────────────────────────────────────────────────

/// The signature of a body: it changes with the body, but not with its layout or its line ends.
pub open spec fn body_signature(body: Seq<char>) -> Seq<char> {
    "blake3:"@ + text_digest(normalized(line_feeds_only(body)))
}

pub fn content_signature(body: &str) -> (r: String)
    ensures
        r@ == body_signature(body@),
        starts(r@, "blake3:"@),
        is_digest(r@.skip("blake3:"@.len() as int)),
{
    let clean: String = normalize_line_endings(body);
    let digest: String = digest_text(normalize_code(clean.as_str()).as_str());
    let r: String = cat("blake3:", digest.as_str());
    proof {
        let head = "blake3:"@;
        assert(r@.skip(head.len() as int) =~= digest@);
        assert(r@.subrange(0, head.len() as int) =~= head);
    }
    r
}

pub open spec fn module_id<R: Redactor>(e: FileSourceView<R>, name: Seq<char>) -> Seq<char> {
    code_id(seq!["node"@, "module"@, e.repository_id, e.path, name])
}

pub open spec fn module_node<R: Redactor>(
    e: FileSourceView<R>,
    t: Seq<SyntaxNodeView>,
    i: int,
    name: Seq<char>,
) -> NodeRecordView {
    let base = syntax_node(
        e,
        module_id(e, name),
        NodeKind::Module,
        span_of(t[i]),
        name,
        "Rust module "@ + name,
    );
    NodeRecordView {
        code: CodeFieldsView {
            visibility: Some(visibility(t, i)),
            content_signature: Some(body_signature(text_at(t, i))),
            ..base.code
        },
        ..base
    }
}

/// What surrounds the items of a module.
pub open spec fn module_scope<R: Redactor>(
    e: FileSourceView<R>,
    t: Seq<SyntaxNodeView>,
    i: int,
    local: Seq<char>,
    sc: ScopeView,
) -> ScopeView {
    let inline = field_child(t, i, "body"@) is Some;
    ScopeView {
        modules: sc.modules.push(local),
        owner_id: module_id(e, qualified(sc.modules, local)),
        inline_modules: if inline {
            sc.inline_modules.push(local)
        } else {
            sc.inline_modules
        },
        under_path_override: sc.under_path_override || (inline && has_attribute(
            t,
            i,
            Wanted::Path,
        )),
        in_test: sc.in_test || has_attribute(t, i, Wanted::CfgTest),
        ..sc
    }
}

/// The findings with a module. A declaration without a body is a fact for its own file.
pub open spec fn with_module<R: Redactor>(
    e: FileSourceView<R>,
    t: Seq<SyntaxNodeView>,
    i: int,
    local: Seq<char>,
    sc: ScopeView,
    out: FindingsView,
) -> FindingsView {
    let name = qualified(sc.modules, local);
    let next = out.with_record(RecordView::Node(module_node(e, t, i, name))).with_edge(
        EdgeLabel::Contains,
        sc.owner(),
        module_id(e, name),
        sc.owner_name(e.path) + " contains module "@ + name,
    );
    if field_child(t, i, "body"@) is Some {
        next
    } else {
        FindingsView {
            facts: FileFactsView {
                out_of_line_mods: next.facts.out_of_line_mods.push(
                    OutOfLineModFactView {
                        name: local,
                        inline_modules: sc.inline_modules,
                        test_gated: has_attribute(t, i, Wanted::CfgTest) || sc.in_test,
                        path_override: first_path(t, attributes(t, i)),
                        under_inline_path_override: sc.under_path_override,
                    },
                ),
                ..next.facts
            },
            ..next
        }
    }
}

fn extract_module<R: Redactor>(
    e: &FileSource<R>,
    t: &Vec<SyntaxNode>,
    i: usize,
    local: &str,
    sc: &Scope,
    out: &mut Findings,
) -> (r: Scope)
    requires
        i < t.len(),
    ensures
        r.deep_view() == module_scope(e.deep_view(), t.deep_view(), i as int, local@, sc.deep_view()),
        final(out).deep_view() == with_module(
            e.deep_view(),
            t.deep_view(),
            i as int,
            local@,
            sc.deep_view(),
            old(out).deep_view(),
        ),
{
    assert(t.deep_view()[i as int] == t@[i as int].deep_view());
    let name: String = qualify(&sc.modules, local);
    let id: String = stable_id(
        &parts5("node", "module", e.repository_id, e.path, name.as_str()),
    );
    let mut record: NodeRecord = build_syntax_node(
        e,
        id.as_str(),
        NodeKind::Module,
        span(&t[i]),
        name.as_str(),
        cat("Rust module ", name.as_str()),
    );
    record.code.visibility = Some(symbol_visibility(t, i).to_owned());
    record.code.content_signature = Some(content_signature(node_text(t, i)));
    out.push_record(GraphRecord::Node(record));
    out.push_edge(
        EdgeLabel::Contains,
        sc.owner().as_str(),
        id.as_str(),
        cat3(sc.owner_name(e.path).as_str(), " contains module ", name.as_str()),
    );
    let gated: bool = check_attribute(t, i, Wanted::CfgTest);
    let inline: bool = find_field(t, i, "body").is_some();
    if !inline {
        let ghost before = out.facts.out_of_line_mods;
        out.facts.out_of_line_mods.push(
            OutOfLineModFact {
                name: local.to_owned(),
                inline_modules: duplicate_all(&sc.inline_modules),
                test_gated: gated || sc.in_test,
                path_override: mod_path_override(t, i),
                under_inline_path_override: sc.under_path_override,
            },
        );
        proof {
            lemma_push(before, out.facts.out_of_line_mods);
        }
    }
    let mut inner: Scope = sc.duplicate();
    let ghost b1 = inner.modules;
    inner.modules.push(local.to_owned());
    proof {
        lemma_push(b1, inner.modules);
    }
    inner.owner_id = id;
    if inline {
        let ghost b2 = inner.inline_modules;
        inner.inline_modules.push(local.to_owned());
        proof {
            lemma_push(b2, inner.inline_modules);
        }
        if check_attribute(t, i, Wanted::Path) {
            inner.under_path_override = true;
        }
    }
    if gated {
        inner.in_test = true;
    }
    inner
}

// ── Imports ─────────────────────────────────────────────────────────────────

pub open spec fn import_id<R: Redactor>(e: FileSourceView<R>, name: Seq<char>) -> Seq<char> {
    code_id(seq!["node"@, "import"@, e.repository_id, e.path, name])
}

pub open spec fn import_node<R: Redactor>(
    e: FileSourceView<R>,
    t: Seq<SyntaxNodeView>,
    i: int,
    name: Seq<char>,
) -> NodeRecordView {
    let base = syntax_node(
        e,
        import_id(e, name),
        NodeKind::Import,
        span_of(t[i]),
        name,
        "Rust import "@ + name,
    );
    match documentation(e.redact, t, i) {
        Some(doc) => NodeRecordView {
            code: CodeFieldsView { doc: Some(doc), ..base.code },
            redaction_policy_version: Some(REDACTION_POLICY_VERSION),
            ..base
        },
        None => base,
    }
}

/// The findings with what an import in a module binds.
pub open spec fn with_bindings(
    t: Seq<SyntaxNodeView>,
    i: int,
    modules: Seq<Seq<char>>,
    out: FindingsView,
) -> FindingsView {
    if module_item_use(t, i) {
        FindingsView {
            imported: out.imported + declared_names(t, i).map_values(
                |n: Seq<char>| (modules, n),
            ),
            import_paths: out.import_paths + declared_bindings(t, i).map_values(
                |b: (Seq<char>, Seq<char>)|
                    UseImportFactView {
                        module_names: modules,
                        simple_name: b.0,
                        resolved_path: b.1,
                    },
            ),
            ..out
        }
    } else {
        out
    }
}

/// The findings with an import.
pub open spec fn with_import<R: Redactor>(
    e: FileSourceView<R>,
    t: Seq<SyntaxNodeView>,
    i: int,
    sc: ScopeView,
    out: FindingsView,
) -> FindingsView {
    let name = import_text(text_at(t, i));
    with_bindings(t, i, sc.modules, out).with_record(
        RecordView::Node(import_node(e, t, i, name)),
    ).with_edge(
        EdgeLabel::Imports,
        sc.owner(),
        import_id(e, name),
        sc.owner_name(e.path) + " imports "@ + name,
    )
}

fn record_names(names: &Vec<String>, modules: &Vec<String>, out: &mut Findings)
    ensures
        final(out).deep_view() == (FindingsView {
            imported: old(out).deep_view().imported + names.deep_view().map_values(
                |n: Seq<char>| (modules.deep_view(), n),
            ),
            ..old(out).deep_view()
        }),
{
    let ghost start = out.deep_view();
    let ghost mv = modules.deep_view();
    let ghost all = names.deep_view().map_values(|n: Seq<char>| (mv, n));
    let mut k: usize = 0;
    assert(start.imported + all.take(0) =~= start.imported);
    while k < names.len()
        invariant
            k <= names.len(),
            mv == modules.deep_view(),
            all == names.deep_view().map_values(|n: Seq<char>| (mv, n)),
            out.deep_view() == (FindingsView {
                imported: start.imported + all.take(k as int),
                ..start
            }),
        decreases names.len() - k,
    {
        let ghost before = out.imported;
        out.imported.push((duplicate_all(modules), names[k].clone()));
        proof {
            lemma_push(before, out.imported);
            assert(names.deep_view()[k as int] == names@[k as int].deep_view());
            assert(start.imported + all.take(k + 1) =~= (start.imported + all.take(k as int)).push(
                all[k as int],
            ));
        }
        k += 1;
    }
    assert(all.take(names.len() as int) =~= all);
}

fn record_paths(paths: &Vec<(String, String)>, modules: &Vec<String>, out: &mut Findings)
    ensures
        final(out).deep_view() == (FindingsView {
            import_paths: old(out).deep_view().import_paths + paths.deep_view().map_values(
                |b: (Seq<char>, Seq<char>)|
                    UseImportFactView {
                        module_names: modules.deep_view(),
                        simple_name: b.0,
                        resolved_path: b.1,
                    },
            ),
            ..old(out).deep_view()
        }),
{
    let ghost start = out.deep_view();
    let ghost mv = modules.deep_view();
    let ghost f = |b: (Seq<char>, Seq<char>)|
        UseImportFactView { module_names: mv, simple_name: b.0, resolved_path: b.1 };
    let ghost all = paths.deep_view().map_values(f);
    let mut k: usize = 0;
    assert(start.import_paths + all.take(0) =~= start.import_paths);
    while k < paths.len()
        invariant
            k <= paths.len(),
            mv == modules.deep_view(),
            f == (|b: (Seq<char>, Seq<char>)|
                UseImportFactView { module_names: mv, simple_name: b.0, resolved_path: b.1 }),
            all == paths.deep_view().map_values(f),
            out.deep_view() == (FindingsView {
                import_paths: start.import_paths + all.take(k as int),
                ..start
            }),
        decreases paths.len() - k,
    {
        let ghost before = out.import_paths;
        out.import_paths.push(
            UseImportFact {
                module_names: duplicate_all(modules),
                simple_name: paths[k].0.clone(),
                resolved_path: paths[k].1.clone(),
            },
        );
        proof {
            lemma_push(before, out.import_paths);
            assert(paths.deep_view()[k as int] == paths@[k as int].deep_view());
            assert(start.import_paths + all.take(k + 1) =~= (start.import_paths + all.take(
                k as int,
            )).push(all[k as int]));
        }
        k += 1;
    }
    assert(all.take(paths.len() as int) =~= all);
    assert(all =~= paths.deep_view().map_values(
        |b: (Seq<char>, Seq<char>)|
            UseImportFactView {
                module_names: modules.deep_view(),
                simple_name: b.0,
                resolved_path: b.1,
            },
    ));
}

fn extract_import<R: Redactor>(
    e: &FileSource<R>,
    t: &Vec<SyntaxNode>,
    i: usize,
    sc: &Scope,
    out: &mut Findings,
)
    requires
        i < t.len(),
    ensures
        final(out).deep_view() == with_import(
            e.deep_view(),
            t.deep_view(),
            i as int,
            sc.deep_view(),
            old(out).deep_view(),
        ),
{
    assert(t.deep_view()[i as int] == t@[i as int].deep_view());
    if is_module_item_use(t, i) {
        record_names(&use_bound_names(t, i), &sc.modules, out);
        record_paths(&use_bound_import_paths(t, i), &sc.modules, out);
        assert(out.deep_view() =~= with_bindings(
            t.deep_view(),
            i as int,
            sc.deep_view().modules,
            old(out).deep_view(),
        ));
    }
    let name: String = import_name(node_text(t, i));
    let id: String = stable_id(
        &parts5("node", "import", e.repository_id, e.path, name.as_str()),
    );
    let mut record: NodeRecord = build_syntax_node(
        e,
        id.as_str(),
        NodeKind::Import,
        span(&t[i]),
        name.as_str(),
        cat("Rust import ", name.as_str()),
    );
    if let Some(doc) = symbol_doc(e.redact, t, i) {
        record.code.doc = Some(doc);
        record.redaction_policy_version = Some(REDACTION_POLICY_VERSION);
    }
    out.push_record(GraphRecord::Node(record));
    out.push_edge(
        EdgeLabel::Imports,
        sc.owner().as_str(),
        id.as_str(),
        cat3(sc.owner_name(e.path).as_str(), " imports ", name.as_str()),
    );
}

// ── Types and values ────────────────────────────────────────────────────────

/// The findings with a named item. Only traits and types can be led to by impl blocks.
pub open spec fn with_named<R: Redactor>(
    e: FileSourceView<R>,
    t: Seq<SyntaxNodeView>,
    i: int,
    kind: Seq<char>,
    local: Seq<char>,
    sc: ScopeView,
    out: FindingsView,
) -> FindingsView {
    let name = qualified(sc.modules, local);
    let id = next_symbol_id(e, kind, name, out);
    let next = with_symbol(e, t, i, kind, name, sc, out).defining(local, id).defining(name, id);
    if impl_target_kind(kind) {
        FindingsView {
            facts: FileFactsView {
                impl_targets: next.facts.impl_targets.push(
                    ImplTargetFactView {
                        id,
                        qualified_name: name,
                        crate_root: e.crate_root,
                        modules: sc.modules,
                        symbol_kind: kind,
                    },
                ),
                ..next.facts
            },
            qualified: next.qualified.push((name, id)),
            types: next.types.push((local, id)),
            ..next
        }
    } else {
        next
    }
}

/// What surrounds the members of a named item.
pub open spec fn named_scope(kind: Seq<char>, local: Seq<char>, sc: ScopeView) -> ScopeView {
    if kind == "trait"@ {
        ScopeView { trait_context: Some(local), ..sc }
    } else {
        sc
    }
}

fn extract_named_symbol<R: Redactor>(
    e: &FileSource<R>,
    t: &Vec<SyntaxNode>,
    i: usize,
    kind: &str,
    local: &str,
    sc: &Scope,
    out: &mut Findings,
) -> (r: Scope)
    requires
        i < t.len(),
    ensures
        r.deep_view() == named_scope(kind@, local@, sc.deep_view()),
        final(out).deep_view() == with_named(
            e.deep_view(),
            t.deep_view(),
            i as int,
            kind@,
            local@,
            sc.deep_view(),
            old(out).deep_view(),
        ),
{
    let name: String = qualify(&sc.modules, local);
    let id: String = add_symbol(e, t, i, kind, name.as_str(), sc, out);
    out.define(local, id.as_str());
    out.define(name.as_str(), id.as_str());
    if is_impl_target_kind(kind) {
        let ghost b1 = out.facts.impl_targets;
        let ghost b2 = out.qualified;
        let ghost b3 = out.types;
        out.facts.impl_targets.push(
            ImplTargetFact {
                id: id.clone(),
                qualified_name: name.clone(),
                crate_root: e.crate_root.to_owned(),
                modules: duplicate_all(&sc.modules),
                symbol_kind: kind.to_owned(),
            },
        );
        out.qualified.push((name, id.clone()));
        out.types.push((local.to_owned(), id));
        proof {
            lemma_push(b1, out.facts.impl_targets);
            lemma_push(b2, out.qualified);
            lemma_push(b3, out.types);
        }
    }
    let mut inner: Scope = sc.duplicate();
    if same(kind, "trait") {
        inner.trait_context = Some(local.to_owned());
    }
    inner
}

// ── Functions ───────────────────────────────────────────────────────────────

/// A direct member of the body of the trait around it.
pub open spec fn direct_trait_method(t: Seq<SyntaxNodeView>, i: int, sc: ScopeView) -> bool {
    sc.impl_context is None && sc.trait_context is Some && member_of(t, i, "trait_item"@)
}

fn is_direct_trait_method(t: &Vec<SyntaxNode>, i: usize, sc: &Scope) -> (r: bool)
    requires
        i < t.len(),
    ensures
        r == direct_trait_method(t.deep_view(), i as int, sc.deep_view()),
{
    sc.impl_context.is_none() && sc.trait_context.is_some() && is_member_of(t, i, "trait_item")
}

/// A direct member of the impl block around it.
pub open spec fn direct_impl_method(t: Seq<SyntaxNodeView>, i: int, sc: ScopeView) -> bool {
    sc.impl_context is Some && member_of(t, i, "impl_item"@)
}

/// The segments by which calls find a definition: its modules, the type or trait it is a direct
/// member of, and its name.
pub open spec fn match_segments(
    sc: ScopeView,
    local: Seq<char>,
    of_trait: bool,
    of_impl: bool,
) -> Seq<Seq<char>> {
    let owner = if of_impl && sc.impl_context is Some {
        owner_name_of(sc.impl_context->0.method_owner)
    } else if of_trait {
        sc.trait_context
    } else {
        None
    };
    (match owner {
        Some(o) => sc.modules.push(o),
        None => sc.modules,
    }).push(local)
}

fn definition_match_segments(sc: &Scope, local: &str, of_trait: bool, of_impl: bool) -> (r: Vec<
    String,
>)
    ensures
        r.deep_view() == match_segments(sc.deep_view(), local@, of_trait, of_impl),
{
    let mut owner: Option<String> = None;
    let mut decided: bool = false;
    if of_impl {
        if let Some(c) = &sc.impl_context {
            owner = normalize_impl_owner(c.method_owner.as_str());
            decided = true;
        }
    }
    if !decided && of_trait {
        owner = duplicate_opt(&sc.trait_context);
    }
    let mut out: Vec<String> = duplicate_all(&sc.modules);
    if let Some(o) = owner {
        let ghost before = out;
        out.push(o);
        proof {
            lemma_push(before, out);
        }
    }
    let ghost before = out;
    out.push(local.to_owned());
    proof {
        lemma_push(before, out);
    }
    out
}

pub open spec fn function_kind(t: Seq<SyntaxNodeView>, i: int, sc: ScopeView) -> Seq<char> {
    if direct_impl_method(t, i, sc) {
        "method"@
    } else if test_function(t, i) {
        "test"@
    } else {
        "function"@
    }
}

pub open spec fn function_name(
    t: Seq<SyntaxNodeView>,
    i: int,
    local: Seq<char>,
    sc: ScopeView,
) -> Seq<char> {
    if direct_impl_method(t, i, sc) {
        qualified(sc.modules, sc.impl_context->0.method_owner + "::"@ + local)
    } else {
        qualified(sc.modules, local)
    }
}

/// The findings with a callable that calls can resolve to.
pub open spec fn with_definition<R: Redactor>(
    e: FileSourceView<R>,
    id: Seq<char>,
    kind: Seq<char>,
    name: Seq<char>,
    local: Seq<char>,
    of_trait: bool,
    of_impl: bool,
    sc: ScopeView,
    out: FindingsView,
) -> FindingsView {
    let next = out.defining(local, id).defining(name, id);
    FindingsView {
        facts: FileFactsView {
            definitions: next.facts.definitions.push(
                DefinitionFactView {
                    id,
                    qualified_name: name,
                    simple_name: local,
                    match_segments: match_segments(sc, local, of_trait, of_impl),
                    symbol_kind: kind,
                    is_trait_method: of_trait,
                    repo_relative_path: e.path,
                },
            ),
            ..next.facts
        },
        ..next
    }
}

fn add_definition<R: Redactor>(
    e: &FileSource<R>,
    id: &str,
    kind: &str,
    name: &str,
    local: &str,
    of_trait: bool,
    of_impl: bool,
    sc: &Scope,
    out: &mut Findings,
)
    ensures
        final(out).deep_view() == with_definition(
            e.deep_view(),
            id@,
            kind@,
            name@,
            local@,
            of_trait,
            of_impl,
            sc.deep_view(),
            old(out).deep_view(),
        ),
{
    out.define(local, id);
    out.define(name, id);
    let ghost before = out.facts.definitions;
    out.facts.definitions.push(
        DefinitionFact {
            id: id.to_owned(),
            qualified_name: name.to_owned(),
            simple_name: local.to_owned(),
            match_segments: definition_match_segments(sc, local, of_trait, of_impl),
            symbol_kind: kind.to_owned(),
            is_trait_method: of_trait,
            repo_relative_path: e.path.to_owned(),
        },
    );
    proof {
        lemma_push(before, out.facts.definitions);
    }
}

/// The findings with the calls and the body of a function.
pub open spec fn with_body(
    t: Seq<SyntaxNodeView>,
    i: int,
    id: Seq<char>,
    name: Seq<char>,
    sc: ScopeView,
    out: FindingsView,
) -> FindingsView {
    FindingsView {
        facts: sites_over(
            t,
            i,
            named_children(t, i),
            sc,
            function_env(t, i),
            CallerView { id, name },
            out.facts,
        ),
        bodies: out.bodies.push(
            SymbolBodyView {
                id,
                name,
                text: text_at(t, i),
                start_byte: t[i].start_byte,
                excluded: excluded_from(Grammar::Rust, t, i, i + 1),
            },
        ),
        ..out
    }
}

fn add_body(
    t: &Vec<SyntaxNode>,
    i: usize,
    id: &str,
    name: &str,
    sc: &Scope,
    out: &mut Findings,
)
    requires
        i < t.len(),
    ensures
        final(out).deep_view() == with_body(
            t.deep_view(),
            i as int,
            id@,
            name@,
            sc.deep_view(),
            old(out).deep_view(),
        ),
{
    assert(t.deep_view()[i as int] == t@[i as int].deep_view());
    let env: TypeEnv = build_type_env(t, i);
    let caller: Caller = Caller { id, name };
    collect_call_sites(t, i, sc, &env, &caller, &mut out.facts);
    let ghost before = out.bodies;
    out.bodies.push(
        SymbolBody {
            id: id.to_owned(),
            name: name.to_owned(),
            text: node_text(t, i).to_owned(),
            start_byte: t[i].start_byte,
            excluded: collect_excluded(Grammar::Rust, t, i),
        },
    );
    proof {
        lemma_push(before, out.bodies);
    }
}

/// The findings with a function. One in a block is a symbol, but no call can resolve to it.
pub open spec fn with_function<R: Redactor>(
    e: FileSourceView<R>,
    t: Seq<SyntaxNodeView>,
    i: int,
    local: Seq<char>,
    sc: ScopeView,
    out: FindingsView,
) -> FindingsView {
    let kind = function_kind(t, i, sc);
    let name = function_name(t, i, local, sc);
    let id = next_symbol_id(e, kind, name, out);
    let symbol = with_symbol(e, t, i, kind, name, sc, out);
    let defined = if block_local(t, i) {
        symbol
    } else {
        with_definition(
            e,
            id,
            kind,
            name,
            local,
            direct_trait_method(t, i, sc),
            direct_impl_method(t, i, sc),
            sc,
            symbol,
        )
    };
    with_body(t, i, id, name, sc, defined)
}

fn extract_function<R: Redactor>(
    e: &FileSource<R>,
    t: &Vec<SyntaxNode>,
    i: usize,
    local: &str,
    sc: &Scope,
    out: &mut Findings,
)
    requires
        i < t.len(),
    ensures
        final(out).deep_view() == with_function(
            e.deep_view(),
            t.deep_view(),
            i as int,
            local@,
            sc.deep_view(),
            old(out).deep_view(),
        ),
{
    let of_impl: bool = sc.impl_context.is_some() && is_member_of(t, i, "impl_item");
    let of_trait: bool = is_direct_trait_method(t, i, sc);
    let kind: &str = if of_impl {
        "method"
    } else if is_test_function(t, i) {
        "test"
    } else {
        "function"
    };
    let name: String = match &sc.impl_context {
        Some(c) => if of_impl {
            qualify(&sc.modules, cat3(c.method_owner.as_str(), "::", local).as_str())
        } else {
            qualify(&sc.modules, local)
        },
        None => qualify(&sc.modules, local),
    };
    let id: String = add_symbol(e, t, i, kind, name.as_str(), sc, out);
    if !is_block_local_fn(t, i) {
        add_definition(
            e,
            id.as_str(),
            kind,
            name.as_str(),
            local,
            of_trait,
            of_impl,
            sc,
            out,
        );
    }
    add_body(t, i, id.as_str(), name.as_str(), sc, out);
}

/// The findings with a method that a trait only declares.
pub open spec fn with_signature<R: Redactor>(
    e: FileSourceView<R>,
    t: Seq<SyntaxNodeView>,
    i: int,
    local: Seq<char>,
    sc: ScopeView,
    out: FindingsView,
) -> FindingsView {
    let name = qualified(sc.modules, local);
    with_definition(
        e,
        next_symbol_id(e, "function"@, name, out),
        "function"@,
        name,
        local,
        direct_trait_method(t, i, sc),
        false,
        sc,
        with_symbol(e, t, i, "function"@, name, sc, out),
    )
}

fn extract_function_signature<R: Redactor>(
    e: &FileSource<R>,
    t: &Vec<SyntaxNode>,
    i: usize,
    local: &str,
    sc: &Scope,
    out: &mut Findings,
)
    requires
        i < t.len(),
    ensures
        final(out).deep_view() == with_signature(
            e.deep_view(),
            t.deep_view(),
            i as int,
            local@,
            sc.deep_view(),
            old(out).deep_view(),
        ),
{
    let name: String = qualify(&sc.modules, local);
    let id: String = add_symbol(e, t, i, "function", name.as_str(), sc, out);
    let of_trait: bool = is_direct_trait_method(t, i, sc);
    add_definition(
        e,
        id.as_str(),
        "function",
        name.as_str(),
        local,
        of_trait,
        false,
        sc,
        out,
    );
}

// ── Impl blocks ─────────────────────────────────────────────────────────────

/// That a type implements a trait, where both have names.
pub open spec fn relation<R: Redactor>(
    e: FileSourceView<R>,
    t: Seq<SyntaxNodeView>,
    i: int,
    display: Seq<char>,
    sc: ScopeView,
) -> Option<ImplTraitRelationFactView> {
    match (impl_target(t, i, display), owner_name_of(display), owner_path_of(display)) {
        (ImplTargetDecisionView::Resolve(path), Some(name), Some(full)) => if field_child(
            t,
            i,
            "trait"@,
        ) is Some {
            Some(
                ImplTraitRelationFactView {
                    impl_type: name,
                    impl_type_path: full,
                    trait_path: path,
                    crate_root: e.crate_root,
                    module_names: sc.modules,
                },
            )
        } else {
            None
        },
        _ => None,
    }
}

fn build_relation<R: Redactor>(
    e: &FileSource<R>,
    t: &Vec<SyntaxNode>,
    i: usize,
    display: &str,
    decision: &ImplTargetDecision,
    sc: &Scope,
) -> (r: Option<ImplTraitRelationFact>)
    requires
        i < t.len(),
        decision.deep_view() == impl_target(t.deep_view(), i as int, display@),
    ensures
        r.deep_view() == relation(e.deep_view(), t.deep_view(), i as int, display@, sc.deep_view()),
{
    if find_field(t, i, "trait").is_none() {
        return None;
    }
    match decision {
        ImplTargetDecision::Resolve(path) => match normalize_impl_owner(display) {
            Some(name) => match normalize_impl_owner_path(display) {
                Some(full) => Some(
                    ImplTraitRelationFact {
                        impl_type: name,
                        impl_type_path: full,
                        trait_path: path.clone(),
                        crate_root: e.crate_root.to_owned(),
                        module_names: duplicate_all(&sc.modules),
                    },
                ),
                None => None,
            },
            None => None,
        },
        _ => None,
    }
}

/// The findings with an impl block.
pub open spec fn with_impl<R: Redactor>(
    e: FileSourceView<R>,
    t: Seq<SyntaxNodeView>,
    i: int,
    sc: ScopeView,
    out: FindingsView,
) -> FindingsView {
    let display = header_of(text_at(t, i));
    let name = qualified(sc.modules, display);
    let id = next_symbol_id(e, "impl"@, name, out);
    let next = with_symbol(e, t, i, "impl"@, name, sc, out).defining(name, id);
    FindingsView {
        facts: match relation(e, t, i, display, sc) {
            Some(f) => FileFactsView {
                impl_trait_relations: next.facts.impl_trait_relations.push(f),
                ..next.facts
            },
            None => next.facts,
        },
        pending: next.pending.push(
            PendingImplEdgeView {
                source_id: id,
                display,
                module_names: sc.modules,
                decision: impl_target(t, i, display),
            },
        ),
        ..next
    }
}

/// What surrounds the members of an impl block.
pub open spec fn impl_scope<R: Redactor>(
    e: FileSourceView<R>,
    t: Seq<SyntaxNodeView>,
    i: int,
    sc: ScopeView,
    out: FindingsView,
) -> ScopeView {
    let display = header_of(text_at(t, i));
    ScopeView {
        impl_context: Some(
            ImplContextView {
                display,
                method_owner: owner_text(display),
                id: next_symbol_id(e, "impl"@, qualified(sc.modules, display), out),
            },
        ),
        ..sc
    }
}

fn extract_impl<R: Redactor>(
    e: &FileSource<R>,
    t: &Vec<SyntaxNode>,
    i: usize,
    sc: &Scope,
    out: &mut Findings,
) -> (r: Scope)
    requires
        i < t.len(),
    ensures
        r.deep_view() == impl_scope(
            e.deep_view(),
            t.deep_view(),
            i as int,
            sc.deep_view(),
            old(out).deep_view(),
        ),
        final(out).deep_view() == with_impl(
            e.deep_view(),
            t.deep_view(),
            i as int,
            sc.deep_view(),
            old(out).deep_view(),
        ),
{
    let display: String = impl_display(node_text(t, i));
    let name: String = qualify(&sc.modules, display.as_str());
    let id: String = add_symbol(e, t, i, "impl", name.as_str(), sc, out);
    out.define(name.as_str(), id.as_str());
    let decision: ImplTargetDecision = impl_target_decision(t, i, display.as_str());
    if let Some(f) = build_relation(e, t, i, display.as_str(), &decision, sc) {
        let ghost before = out.facts.impl_trait_relations;
        out.facts.impl_trait_relations.push(f);
        proof {
            lemma_push(before, out.facts.impl_trait_relations);
        }
    }
    let ghost before = out.pending;
    out.pending.push(
        PendingImplEdge {
            source_id: id.clone(),
            display: display.clone(),
            module_names: duplicate_all(&sc.modules),
            decision,
        },
    );
    proof {
        lemma_push(before, out.pending);
    }
    let mut inner: Scope = sc.duplicate();
    inner.impl_context = Some(
        ImplContext { method_owner: method_owner(display.as_str()), display, id },
    );
    inner
}

// ── Sites ───────────────────────────────────────────────────────────────────

/// The name of a debt marker in capitals.
pub open spec fn shouted(category: Seq<char>) -> Seq<char> {
    if category == "todo"@ {
        "TODO"@
    } else if category == "fixme"@ {
        "FIXME"@
    } else if category == "hack"@ {
        "HACK"@
    } else {
        "XXX"@
    }
}

fn shout(category: &str) -> (r: &'static str)
    ensures
        r@ == shouted(category@),
{
    if same(category, "todo") {
        "TODO"
    } else if same(category, "fixme") {
        "FIXME"
    } else if same(category, "hack") {
        "HACK"
    } else {
        "XXX"
    }
}

/// The place of a debt marker: of its columns nothing is known.
pub open spec fn marker_span(n: SyntaxNodeView, m: CommentMarkerView) -> SourceSpan {
    let line = plus(plus(n.start_row, 1), m.line_offset as usize);
    SourceSpan {
        start_byte: plus(n.start_byte, m.token_start as usize),
        end_byte: plus(n.start_byte, m.note_end as usize),
        start_line: line,
        end_line: line,
        start_column: None,
        end_column: None,
    }
}

/// The findings with a debt marker.
pub open spec fn with_marker<R: Redactor>(
    e: FileSourceView<R>,
    n: SyntaxNodeView,
    m: CommentMarkerView,
    out: FindingsView,
) -> FindingsView {
    let id = site_id(
        e,
        "debt_marker"@,
        m.category,
        ordinal(out.counted, "debt_marker"@, m.category),
    );
    let base = syntax_node(
        e,
        id,
        NodeKind::DebtMarker,
        marker_span(n, m),
        m.category,
        "Rust "@ + shouted(m.category) + " debt-comment marker"@,
    );
    out.numbered("debt_marker"@, m.category).with_record(
        RecordView::Node(
            NodeRecordView {
                code: CodeFieldsView { note: Some(e.redact.redacted(m.note)), ..base.code },
                redaction_policy_version: Some(REDACTION_POLICY_VERSION),
                ..base
            },
        ),
    ).with_edge(
        EdgeLabel::Contains,
        e.file_id,
        id,
        e.path + " contains "@ + shouted(m.category) + " debt-comment marker"@,
    )
}

pub open spec fn with_markers<R: Redactor>(
    e: FileSourceView<R>,
    n: SyntaxNodeView,
    ms: Seq<CommentMarkerView>,
    out: FindingsView,
) -> FindingsView
    decreases ms.len(),
{
    if ms.len() == 0 {
        out
    } else {
        with_marker(e, n, ms.last(), with_markers(e, n, ms.drop_last(), out))
    }
}

fn add_marker<R: Redactor>(e: &FileSource<R>, n: &SyntaxNode, m: &CommentMarker, out: &mut Findings)
    ensures
        final(out).deep_view() == with_marker(
            e.deep_view(),
            n.deep_view(),
            m.deep_view(),
            old(out).deep_view(),
        ),
{
    let number: u64 = out.number("debt_marker", m.category);
    let id: String = site_id_for(e, "debt_marker", m.category, number);
    let line: usize = saturating_plus(saturating_plus(n.start_row, 1), m.line_offset);
    let at: SourceSpan = SourceSpan {
        start_byte: saturating_plus(n.start_byte, m.token_start),
        end_byte: saturating_plus(n.start_byte, m.note_end),
        start_line: line,
        end_line: line,
        start_column: None,
        end_column: None,
    };
    let loud: &str = shout(m.category);
    let mut record: NodeRecord = build_syntax_node(
        e,
        id.as_str(),
        NodeKind::DebtMarker,
        at,
        m.category,
        cat3("Rust ", loud, " debt-comment marker"),
    );
    record.code.note = Some(e.redact.redact(m.note.as_str()));
    record.redaction_policy_version = Some(REDACTION_POLICY_VERSION);
    out.push_record(GraphRecord::Node(record));
    out.push_edge(
        EdgeLabel::Contains,
        e.file_id,
        id.as_str(),
        cat4(e.path, " contains ", loud, " debt-comment marker"),
    );
}

fn extract_comment_markers<R: Redactor>(
    e: &FileSource<R>,
    t: &Vec<SyntaxNode>,
    i: usize,
    out: &mut Findings,
)
    requires
        i < t.len(),
    ensures
        final(out).deep_view() == with_markers(
            e.deep_view(),
            t.deep_view()[i as int],
            markers_from(text_at(t.deep_view(), i as int), 0),
            old(out).deep_view(),
        ),
{
    let ghost ev = e.deep_view();
    let ghost n = t.deep_view()[i as int];
    assert(n == t@[i as int].deep_view());
    let ghost start = out.deep_view();
    let ms: Vec<CommentMarker> = comment_debt_markers(node_text(t, i));
    let ghost all = ms.deep_view();
    let mut k: usize = 0;
    assert(all.take(0).len() == 0);
    while k < ms.len()
        invariant
            i < t.len(),
            k <= ms.len(),
            ev == e.deep_view(),
            n == t@[i as int].deep_view(),
            all == ms.deep_view(),
            out.deep_view() == with_markers(ev, n, all.take(k as int), start),
        decreases ms.len() - k,
    {
        proof {
            assert(all.take(k + 1).drop_last() =~= all.take(k as int));
            assert(all.take(k + 1).last() == ms@[k as int].deep_view());
        }
        add_marker(e, &t[i], &ms[k], out);
        k += 1;
    }
    assert(all.take(ms.len() as int) =~= all);
}

/// The findings with a macro call: what it expands to is not known.
pub open spec fn with_macro<R: Redactor>(
    e: FileSourceView<R>,
    t: Seq<SyntaxNodeView>,
    i: int,
    out: FindingsView,
) -> FindingsView {
    let name = macro_name(text_at(t, i));
    let id = site_id(e, "diagnostic"@, name, ordinal(out.counted, "diagnostic"@, name));
    out.numbered("diagnostic"@, name).with_record(
        RecordView::Node(
            syntax_node(
                e,
                id,
                NodeKind::Diagnostic,
                span_of(t[i]),
                name,
                "unsupported macro invocation "@ + name,
            ),
        ),
    )
}

fn extract_macro_diagnostic<R: Redactor>(
    e: &FileSource<R>,
    t: &Vec<SyntaxNode>,
    i: usize,
    out: &mut Findings,
)
    requires
        i < t.len(),
    ensures
        final(out).deep_view() == with_macro(
            e.deep_view(),
            t.deep_view(),
            i as int,
            old(out).deep_view(),
        ),
{
    assert(t.deep_view()[i as int] == t@[i as int].deep_view());
    let name: String = macro_invocation_name(node_text(t, i));
    let n: u64 = out.number("diagnostic", name.as_str());
    let id: String = site_id_for(e, "diagnostic", name.as_str(), n);
    out.push_record(
        GraphRecord::Node(
            build_syntax_node(
                e,
                id.as_str(),
                NodeKind::Diagnostic,
                span(&t[i]),
                name.as_str(),
                cat("unsupported macro invocation ", name.as_str()),
            ),
        ),
    );
}

/// The method by which a call can panic: `unwrap` or `expect`.
pub open spec fn panic_risk(t: Seq<SyntaxNodeView>, i: int) -> Option<Seq<char>> {
    match field_child(t, i, "function"@) {
        Some(f) => match field_child(t, f, "field"@) {
            Some(x) => if is_a(t, f, "field_expression"@) && is_a(t, x, "field_identifier"@) && (
            text_at(t, x) == "expect"@ || text_at(t, x) == "unwrap"@) {
                Some(text_at(t, x))
            } else {
                None
            },
            None => None,
        },
        None => None,
    }
}

fn panic_risk_category(t: &Vec<SyntaxNode>, i: usize) -> (r: Option<&'static str>)
    requires
        i < t.len(),
    ensures
        (match r {
            Some(c) => panic_risk(t.deep_view(), i as int) == Some(c@),
            None => panic_risk(t.deep_view(), i as int) is None,
        }),
{
    match find_field(t, i, "function") {
        Some(f) => match find_field(t, f, "field") {
            Some(x) => {
                if !has_kind(t, f, "field_expression") || !has_kind(t, x, "field_identifier") {
                    return None;
                }
                let name: &str = node_text(t, x);
                if same(name, "expect") {
                    Some("expect")
                } else if same(name, "unwrap") {
                    Some("unwrap")
                } else {
                    None
                }
            },
            None => None,
        },
        None => None,
    }
}

/// The findings with a call that can panic.
pub open spec fn with_panic_risk<R: Redactor>(
    e: FileSourceView<R>,
    t: Seq<SyntaxNodeView>,
    i: int,
    category: Seq<char>,
    sc: ScopeView,
    out: FindingsView,
) -> FindingsView {
    let id = site_id(
        e,
        "panic_risk_site"@,
        category,
        ordinal(out.counted, "panic_risk_site"@, category),
    );
    let base = syntax_node(
        e,
        id,
        NodeKind::PanicRiskSite,
        span_of(t[i]),
        category,
        "Rust ."@ + category + "() panic-risk call site"@,
    );
    out.numbered("panic_risk_site"@, category).with_record(
        RecordView::Node(
            NodeRecordView {
                code: CodeFieldsView {
                    call_context: Some(
                        if sc.in_test {
                            "test"@
                        } else {
                            "production"@
                        },
                    ),
                    ..base.code
                },
                ..base
            },
        ),
    ).with_edge(
        EdgeLabel::Contains,
        e.file_id,
        id,
        e.path + " contains ."@ + category + "() panic-risk call site"@,
    )
}

fn emit_panic_risk_site<R: Redactor>(
    e: &FileSource<R>,
    t: &Vec<SyntaxNode>,
    i: usize,
    category: &str,
    sc: &Scope,
    out: &mut Findings,
)
    requires
        i < t.len(),
    ensures
        final(out).deep_view() == with_panic_risk(
            e.deep_view(),
            t.deep_view(),
            i as int,
            category@,
            sc.deep_view(),
            old(out).deep_view(),
        ),
{
    assert(t.deep_view()[i as int] == t@[i as int].deep_view());
    let n: u64 = out.number("panic_risk_site", category);
    let id: String = site_id_for(e, "panic_risk_site", category, n);
    let mut record: NodeRecord = build_syntax_node(
        e,
        id.as_str(),
        NodeKind::PanicRiskSite,
        span(&t[i]),
        category,
        cat3("Rust .", category, "() panic-risk call site"),
    );
    let context: &str = if sc.in_test {
        "test"
    } else {
        "production"
    };
    record.code.call_context = Some(context.to_owned());
    out.push_record(GraphRecord::Node(record));
    out.push_edge(
        EdgeLabel::Contains,
        e.file_id,
        id.as_str(),
        cat4(e.path, " contains .", category, "() panic-risk call site"),
    );
}

// ── The walk ────────────────────────────────────────────────────────────────

/// What a node yields before the nodes below it: the findings, what surrounds these nodes, and
/// whether they are looked at.
pub struct StepView {
    pub out: FindingsView,
    pub scope: ScopeView,
    pub descend: bool,
}

/// The kind of symbol that an item is, where it is one that only has a name.
pub open spec fn named_kind(t: Seq<SyntaxNodeView>, i: int) -> Option<Seq<char>> {
    if is_a(t, i, "struct_item"@) {
        Some("struct"@)
    } else if is_a(t, i, "enum_item"@) {
        Some("enum"@)
    } else if is_a(t, i, "trait_item"@) {
        Some("trait"@)
    } else if is_a(t, i, "const_item"@) {
        Some("const"@)
    } else if is_a(t, i, "static_item"@) {
        Some("static"@)
    } else if is_a(t, i, "type_item"@) {
        Some("type_alias"@)
    } else {
        None
    }
}

fn find_named_kind(t: &Vec<SyntaxNode>, i: usize) -> (r: Option<&'static str>)
    ensures
        (match r {
            Some(k) => named_kind(t.deep_view(), i as int) == Some(k@),
            None => named_kind(t.deep_view(), i as int) is None,
        }),
{
    if has_kind(t, i, "struct_item") {
        Some("struct")
    } else if has_kind(t, i, "enum_item") {
        Some("enum")
    } else if has_kind(t, i, "trait_item") {
        Some("trait")
    } else if has_kind(t, i, "const_item") {
        Some("const")
    } else if has_kind(t, i, "static_item") {
        Some("static")
    } else if has_kind(t, i, "type_item") {
        Some("type_alias")
    } else {
        None
    }
}

/// The findings with an unsafe site, where the item is declared unsafe.
pub open spec fn with_unsafe_item<R: Redactor>(
    e: FileSourceView<R>,
    t: Seq<SyntaxNodeView>,
    i: int,
    site: Seq<char>,
    out: FindingsView,
) -> FindingsView {
    if unsafe_item(t, i) {
        with_unsafe_site(e, t, i, site, out)
    } else {
        out
    }
}

/// An item with a name: a module, a type, a value or a function. Without its name it is passed
/// over, but what is below it is not.
#[verifier::opaque]
pub open spec fn enter_item<R: Redactor>(
    e: FileSourceView<R>,
    t: Seq<SyntaxNodeView>,
    i: int,
    sc: ScopeView,
    out: FindingsView,
) -> StepView {
    match item_name(t, i) {
        None => StepView { out, scope: sc, descend: true },
        Some(local) => if is_a(t, i, "mod_item"@) {
            StepView {
                out: with_module(e, t, i, local, sc, out),
                scope: module_scope(e, t, i, local, sc),
                descend: true,
            }
        } else if is_a(t, i, "function_item"@) {
            StepView {
                out: with_function(e, t, i, local, sc, out),
                scope: ScopeView {
                    in_test: sc.in_test || has_attribute(t, i, Wanted::Test),
                    ..sc
                },
                descend: true,
            }
        } else if is_a(t, i, "function_signature_item"@) {
            StepView {
                out: with_signature(e, t, i, local, sc, out),
                scope: sc,
                descend: true,
            }
        } else {
            match named_kind(t, i) {
                Some(kind) => StepView {
                    out: with_named(e, t, i, kind, local, sc, out),
                    scope: named_scope(kind, local, sc),
                    descend: true,
                },
                None => StepView { out, scope: sc, descend: true },
            }
        },
    }
}

/// What the node at `i` yields.
#[verifier::opaque]
pub open spec fn enter<R: Redactor>(
    e: FileSourceView<R>,
    t: Seq<SyntaxNodeView>,
    i: int,
    sc: ScopeView,
    out: FindingsView,
) -> StepView {
    if is_a(t, i, "mod_item"@) || named_kind(t, i) is Some {
        enter_item(e, t, i, sc, out)
    } else if is_a(t, i, "use_declaration"@) {
        StepView { out: with_import(e, t, i, sc, out), scope: sc, descend: false }
    } else if is_a(t, i, "function_item"@) {
        enter_item(e, t, i, sc, with_unsafe_item(e, t, i, "fn"@, out))
    } else if is_a(t, i, "impl_item"@) {
        let next = with_unsafe_item(e, t, i, "impl"@, out);
        StepView {
            out: with_impl(e, t, i, sc, next),
            scope: impl_scope(e, t, i, sc, next),
            descend: true,
        }
    } else if is_a(t, i, "macro_invocation"@) {
        StepView { out: with_macro(e, t, i, out), scope: sc, descend: false }
    } else if is_a(t, i, "call_expression"@) {
        StepView {
            out: match panic_risk(t, i) {
                Some(category) => with_panic_risk(e, t, i, category, sc, out),
                None => out,
            },
            scope: sc,
            descend: true,
        }
    } else if is_a(t, i, "line_comment"@) || is_a(t, i, "block_comment"@) {
        StepView {
            out: with_markers(e, t[i], markers_from(text_at(t, i), 0), out),
            scope: sc,
            descend: false,
        }
    } else if is_a(t, i, "function_signature_item"@) {
        let next = with_unsafe_item(e, t, i, "fn"@, out);
        if in_trait(t, i) {
            enter_item(e, t, i, sc, next)
        } else {
            StepView { out: next, scope: sc, descend: true }
        }
    } else if is_a(t, i, "unsafe_block"@) {
        StepView {
            out: with_unsafe_site(e, t, i, "block"@, out),
            scope: sc,
            descend: true,
        }
    } else {
        StepView { out, scope: sc, descend: true }
    }
}

/// The findings after some nodes behind `i` and the nodes below them.
pub open spec fn walk_over<R: Redactor>(
    e: FileSourceView<R>,
    t: Seq<SyntaxNodeView>,
    i: int,
    kids: Seq<int>,
    sc: ScopeView,
    out: FindingsView,
) -> FindingsView
    decreases t.len() - i, kids.len(),
{
    if kids.len() == 0 || i < 0 || i >= t.len() {
        out
    } else {
        let k = kids.last();
        let next = walk_over(e, t, i, kids.drop_last(), sc, out);
        if i < k < t.len() {
            let step = enter(e, t, k, sc, next);
            if step.descend {
                walk_over(e, t, k, named_children(t, k), step.scope, step.out)
            } else {
                step.out
            }
        } else {
            next
        }
    }
}

/// The findings after the node at `i` and the nodes below it.
pub open spec fn walked<R: Redactor>(
    e: FileSourceView<R>,
    t: Seq<SyntaxNodeView>,
    i: int,
    sc: ScopeView,
    out: FindingsView,
) -> FindingsView {
    let step = enter(e, t, i, sc, out);
    if step.descend {
        walk_over(e, t, i, named_children(t, i), step.scope, step.out)
    } else {
        step.out
    }
}

fn note_unsafe_item<R: Redactor>(
    e: &FileSource<R>,
    t: &Vec<SyntaxNode>,
    i: usize,
    site: &str,
    out: &mut Findings,
)
    requires
        i < t.len(),
    ensures
        final(out).deep_view() == with_unsafe_item(
            e.deep_view(),
            t.deep_view(),
            i as int,
            site@,
            old(out).deep_view(),
        ),
{
    if has_unsafe_modifier(t, i) {
        emit_unsafe_site(e, t, i, site, out);
    }
}

fn visit_item<R: Redactor>(
    e: &FileSource<R>,
    t: &Vec<SyntaxNode>,
    i: usize,
    sc: &Scope,
    out: &mut Findings,
) -> (r: Scope)
    requires
        i < t.len(),
    ensures
        final(out).deep_view() == enter_item(
            e.deep_view(),
            t.deep_view(),
            i as int,
            sc.deep_view(),
            old(out).deep_view(),
        ).out,
        r.deep_view() == enter_item(
            e.deep_view(),
            t.deep_view(),
            i as int,
            sc.deep_view(),
            old(out).deep_view(),
        ).scope,
        enter_item(
            e.deep_view(),
            t.deep_view(),
            i as int,
            sc.deep_view(),
            old(out).deep_view(),
        ).descend,
{
    reveal(enter_item);
    match node_name(t, i) {
        None => sc.duplicate(),
        Some(local) => {
            if has_kind(t, i, "mod_item") {
                extract_module(e, t, i, local.as_str(), sc, out)
            } else if has_kind(t, i, "function_item") {
                extract_function(e, t, i, local.as_str(), sc, out);
                let mut inner: Scope = sc.duplicate();
                if check_attribute(t, i, Wanted::Test) {
                    inner.in_test = true;
                }
                inner
            } else if has_kind(t, i, "function_signature_item") {
                extract_function_signature(e, t, i, local.as_str(), sc, out);
                sc.duplicate()
            } else {
                match find_named_kind(t, i) {
                    Some(kind) => extract_named_symbol(e, t, i, kind, local.as_str(), sc, out),
                    None => sc.duplicate(),
                }
            }
        },
    }
}

/// Visits the node at `i`; where the nodes below it are looked at, what surrounds them.
fn visit<R: Redactor>(
    e: &FileSource<R>,
    t: &Vec<SyntaxNode>,
    i: usize,
    sc: &Scope,
    out: &mut Findings,
) -> (r: Option<Scope>)
    requires
        i < t.len(),
    ensures
        ({
            let step = enter(
                e.deep_view(),
                t.deep_view(),
                i as int,
                sc.deep_view(),
                old(out).deep_view(),
            );
            &&& final(out).deep_view() == step.out
            &&& r is Some <==> step.descend
            &&& r matches Some(inner) ==> inner.deep_view() == step.scope
        }),
{
    reveal(enter);
    if has_kind(t, i, "mod_item") || find_named_kind(t, i).is_some() {
        Some(visit_item(e, t, i, sc, out))
    } else if has_kind(t, i, "use_declaration") {
        extract_import(e, t, i, sc, out);
        None
    } else if has_kind(t, i, "function_item") {
        note_unsafe_item(e, t, i, "fn", out);
        Some(visit_item(e, t, i, sc, out))
    } else if has_kind(t, i, "impl_item") {
        note_unsafe_item(e, t, i, "impl", out);
        Some(extract_impl(e, t, i, sc, out))
    } else if has_kind(t, i, "macro_invocation") {
        extract_macro_diagnostic(e, t, i, out);
        None
    } else if has_kind(t, i, "call_expression") {
        if let Some(category) = panic_risk_category(t, i) {
            emit_panic_risk_site(e, t, i, category, sc, out);
        }
        Some(sc.duplicate())
    } else if has_kind(t, i, "line_comment") || has_kind(t, i, "block_comment") {
        extract_comment_markers(e, t, i, out);
        None
    } else if has_kind(t, i, "function_signature_item") {
        note_unsafe_item(e, t, i, "fn", out);
        if signature_is_trait_method(t, i) {
            Some(visit_item(e, t, i, sc, out))
        } else {
            Some(sc.duplicate())
        }
    } else if has_kind(t, i, "unsafe_block") {
        emit_unsafe_site(e, t, i, "block", out);
        Some(sc.duplicate())
    } else {
        Some(sc.duplicate())
    }
}

pub fn walk<R: Redactor>(
    e: &FileSource<R>,
    t: &Vec<SyntaxNode>,
    i: usize,
    sc: &Scope,
    out: &mut Findings,
)
    requires
        i < t.len(),
    ensures
        final(out).deep_view() == walked(
            e.deep_view(),
            t.deep_view(),
            i as int,
            sc.deep_view(),
            old(out).deep_view(),
        ),
    decreases t.len() - i,
{
    let ghost ev = e.deep_view();
    let ghost tv = t.deep_view();
    match visit(e, t, i, sc, out) {
        Some(inner) => {
            let ghost iv = inner.deep_view();
            let ghost start = out.deep_view();
            let kids: Vec<usize> = named_child_list(t, i);
            let ghost all = positions(kids@);
            let mut k: usize = 0;
            while k < kids.len()
                invariant
                    i < t.len(),
                    ev == e.deep_view(),
                    tv == t.deep_view(),
                    iv == inner.deep_view(),
                    k <= kids.len(),
                    all == positions(kids@),
                    forall|k: int| 0 <= k < kids@.len() ==> i < #[trigger] kids@[k] < t.len(),
                    out.deep_view() == walk_over(ev, tv, i as int, all.take(k as int), iv, start),
                decreases kids.len() - k,
            {
                proof {
                    assert(all.take(k + 1).drop_last() =~= all.take(k as int));
                    assert(all.take(k + 1).last() == kids@[k as int] as int);
                }
                walk(e, t, kids[k], &inner, out);
                k += 1;
            }
            assert(all.take(kids.len() as int) =~= all);
        },
        None => {},
    }
}

} // verus!
