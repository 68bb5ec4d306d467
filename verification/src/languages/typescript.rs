//! TypeScript and TSX source: normalization and syntax extraction.
use vstd::prelude::*;

use crate::assoc::{find_value, lookup};
use crate::duplicate::{duplicate_all, lemma_push, Duplicate};
use crate::ir::{
    code_edge, code_id, stable_id, CodeFieldsView, EdgeLabel, Graph, GraphRecord, NodeKind,
    NodeRecord, NodeRecordView, RecordView, SourceSpan,
};
use crate::languages::common::{
    collect_excluded, count_ordinal, emit_reference_edges, excluded_from, item_name, node_name,
    ordinal, with_references, SymbolBody, SymbolBodyView,
};
use crate::languages::lexer::Dialect;
use crate::languages::paths::{path_segments, segments};
use crate::languages::spacing::{normalize_in, normalized_in};
use crate::languages::syntax::{
    field_child, find_field, has_kind, is_a, named_child_list, named_children, node_text, positions,
    parse, span, span_of, syntax_of, text_at, Grammar, ParseError, SyntaxNode,
    SyntaxNodeView,
};
use crate::path::{extension, find_extension};
use crate::policy::CodePolicy;
use crate::text::{
    byte_len, cat, cat3, cat4, collapse_whitespace, collapsed, decimal, decimal_of, ends, ends_with,
    join, joined, lower_ascii, lowered, parts5, parts7, same, strip_suffix, without_suffix,
};

verus! {

// ── Files ───────────────────────────────────────────────────────────────────

/// A test file by its name: `*.test.ts`, `*.spec.ts`, or the same with `.tsx`.
pub open spec fn test_file(path: Seq<char>) -> bool {
    ends(path, ".test.ts"@) || ends(path, ".spec.ts"@) || ends(path, ".test.tsx"@) || ends(
        path,
        ".spec.tsx"@,
    )
}

pub fn is_test_file(repo_relative_path: &str) -> (r: bool)
    ensures
        r == test_file(repo_relative_path@),
{
    ends_with(repo_relative_path, ".test.ts") || ends_with(repo_relative_path, ".spec.ts")
        || ends_with(repo_relative_path, ".test.tsx") || ends_with(repo_relative_path, ".spec.tsx")
}

/// A file that stands for its directory.
pub open spec fn is_barrel(name: Seq<char>) -> bool {
    name == "index.ts"@ || name == "index.tsx"@ || name == "index.d.ts"@ || name == "index.d.tsx"@
}

/// A file name without its extension: the longest one that is known.
pub open spec fn module_stem(name: Seq<char>) -> Seq<char> {
    match (without_suffix(name, ".d.ts"@), without_suffix(name, ".d.tsx"@)) {
        (Some(x), _) => x,
        (None, Some(x)) => x,
        (None, None) => match (without_suffix(name, ".ts"@), without_suffix(name, ".tsx"@)) {
            (Some(x), _) => x,
            (None, Some(x)) => x,
            (None, None) => name,
        },
    }
}

/// The modules that a file stands for: its directories, and its name unless it is a barrel.
pub open spec fn ts_modules(path: Seq<char>) -> Seq<Seq<char>> {
    let parts = segments(path);
    if parts.len() == 0 {
        Seq::empty()
    } else if is_barrel(parts.last()) {
        parts.drop_last()
    } else {
        parts.drop_last().push(module_stem(parts.last()))
    }
}

fn find_module_stem(name: &str) -> (r: String)
    ensures
        r@ == module_stem(name@),
{
    if let Some(x) = strip_suffix(name, ".d.ts") {
        return x;
    }
    if let Some(x) = strip_suffix(name, ".d.tsx") {
        return x;
    }
    if let Some(x) = strip_suffix(name, ".ts") {
        return x;
    }
    match strip_suffix(name, ".tsx") {
        Some(x) => x,
        None => name.to_owned(),
    }
}

pub fn typescript_module_path(repo_relative_path: &str) -> (r: Vec<String>)
    ensures
        r.deep_view() == ts_modules(repo_relative_path@),
{
    let parts: Vec<String> = path_segments(repo_relative_path);
    let ghost all = parts.deep_view();
    let mut out: Vec<String> = Vec::new();
    assert(out.deep_view() =~= Seq::empty());
    let n: usize = parts.len();
    if n == 0 {
        return out;
    }
    let mut i: usize = 0;
    assert(out.deep_view() =~= all.take(0));
    while i < n - 1
        invariant
            i < n,
            n == parts.len(),
            all == parts.deep_view(),
            out.deep_view() == all.take(i as int),
        decreases n - i,
    {
        let ghost before = out;
        out.push(parts[i].clone());
        proof {
            lemma_push(before, out);
            assert(all.take(i + 1) =~= all.take(i as int).push(all[i as int]));
        }
        i += 1;
    }
    proof {
        assert(all.take(n - 1) =~= all.drop_last());
        assert(all.last() == parts@[n - 1].deep_view());
    }
    let last: &str = parts[n - 1].as_str();
    if !same(last, "index.ts") && !same(last, "index.tsx") && !same(last, "index.d.ts") && !same(
        last,
        "index.d.tsx",
    ) {
        let ghost before = out;
        out.push(find_module_stem(last));
        proof {
            lemma_push(before, out);
        }
    }
    out
}

/// Whether a file is written in TSX, by its extension in any case.
pub open spec fn is_tsx(path: Seq<char>) -> bool {
    extension(path) matches Some(e) && lowered(e) == "tsx"@
}

fn check_tsx(path: &str) -> (r: bool)
    ensures
        r == is_tsx(path@),
{
    match find_extension(path) {
        Some(e) => same(lower_ascii(e.as_str()).as_str(), "tsx"),
        None => false,
    }
}

/// The source without comments, and without the white space that separates nothing.
pub open spec fn normalized(code: Seq<char>) -> Seq<char> {
    normalized_in(Dialect::CLike, code)
}

pub fn normalize_code(code: &str) -> (r: String)
    ensures
        r@ == normalized(code@),
{
    normalize_in(Dialect::CLike, code)
}

/// Whole files are normalized as any other piece of source.
pub fn normalize_file_code(code: &str) -> (r: String)
    ensures
        r@ == normalized(code@),
{
    normalize_code(code)
}

// ── State ───────────────────────────────────────────────────────────────────

/// The file that is read.
pub struct TsFile<'a> {
    pub path: &'a str,
    pub file_id: &'a str,
    pub repository_id: &'a str,
}

pub struct TsFileView {
    pub path: Seq<char>,
    pub file_id: Seq<char>,
    pub repository_id: Seq<char>,
}

impl<'a> DeepView for TsFile<'a> {
    type V = TsFileView;

    open spec fn deep_view(&self) -> TsFileView {
        TsFileView {
            path: self.path@,
            file_id: self.file_id@,
            repository_id: self.repository_id@,
        }
    }
}

#[derive(Debug, Clone, Copy, PartialEq, Eq, Structural)]
pub enum ScopeKind {
    Class,
    Function,
    Namespace,
}

/// A base that is looked up when the whole file has been read.
#[derive(Debug, PartialEq, Eq)]
pub struct PendingHeritage {
    pub source_id: String,
    pub base_name: String,
    pub summary: String,
}

#[verifier::ext_equal]
pub struct PendingHeritageView {
    pub source_id: Seq<char>,
    pub base_name: Seq<char>,
    pub summary: Seq<char>,
}

impl DeepView for PendingHeritage {
    type V = PendingHeritageView;

    open spec fn deep_view(&self) -> PendingHeritageView {
        PendingHeritageView {
            source_id: self.source_id@,
            base_name: self.base_name@,
            summary: self.summary@,
        }
    }
}

/// A class, function or namespace around a node.
#[derive(Debug, PartialEq, Eq)]
pub struct TsScope {
    pub name: String,
    pub kind: ScopeKind,
    pub id: String,
}

#[verifier::ext_equal]
pub struct TsScopeView {
    pub name: Seq<char>,
    pub kind: ScopeKind,
    pub id: Seq<char>,
}

impl DeepView for TsScope {
    type V = TsScopeView;

    open spec fn deep_view(&self) -> TsScopeView {
        TsScopeView {
            name: self.name@,
            kind: self.kind,
            id: self.id@,
        }
    }
}

impl Duplicate for TsScope {
    fn duplicate(&self) -> (r: TsScope) {
        TsScope {
            name: self.name.clone(),
            kind: self.kind,
            id: self.id.clone(),
        }
    }
}

/// What the walk has found.
#[derive(Debug, PartialEq, Eq)]
pub struct TsFindings {
    pub records: Vec<GraphRecord>,
    pub counted: Vec<(String, String)>,
    pub definitions: Vec<(String, String)>,
    pub bodies: Vec<SymbolBody>,
    pub pending: Vec<PendingHeritage>,
}

#[verifier::ext_equal]
pub struct TsFindingsView {
    pub records: Seq<RecordView>,
    pub counted: Seq<(Seq<char>, Seq<char>)>,
    pub definitions: Seq<(Seq<char>, Seq<char>)>,
    pub bodies: Seq<SymbolBodyView>,
    pub pending: Seq<PendingHeritageView>,
}

impl DeepView for TsFindings {
    type V = TsFindingsView;

    open spec fn deep_view(&self) -> TsFindingsView {
        TsFindingsView {
            records: self.records.deep_view(),
            counted: self.counted.deep_view(),
            definitions: self.definitions.deep_view(),
            bodies: self.bodies.deep_view(),
            pending: self.pending.deep_view(),
        }
    }
}

impl TsFindingsView {
    pub open spec fn none() -> TsFindingsView {
        TsFindingsView {
            records: Seq::empty(),
            counted: Seq::empty(),
            definitions: Seq::empty(),
            bodies: Seq::empty(),
            pending: Seq::empty(),
        }
    }
}

impl TsFindings {
    fn none() -> (r: TsFindings)
        ensures
            r.deep_view() == TsFindingsView::none(),
    {
        TsFindings {
            records: Vec::new(),
            counted: Vec::new(),
            definitions: Vec::new(),
            bodies: Vec::new(),
            pending: Vec::new(),
        }
    }
}

pub open spec fn scope_names(stack: Seq<TsScopeView>) -> Seq<Seq<char>> {
    stack.map_values(|s: TsScopeView| s.name)
}

/// A name with the modules and scopes around it.
pub open spec fn qualified(path: Seq<char>, stack: Seq<TsScopeView>, name: Seq<char>) -> Seq<char> {
    joined((ts_modules(path) + scope_names(stack)).push(name), "."@)
}

fn qualify(path: &str, stack: &Vec<TsScope>, name: &str) -> (r: String)
    ensures
        r@ == qualified(path@, stack.deep_view(), name@),
{
    let mut parts: Vec<String> = typescript_module_path(path);
    let ghost start = parts.deep_view();
    let ghost all = scope_names(stack.deep_view());
    let mut i: usize = 0;
    assert(start + all.take(0) =~= start);
    while i < stack.len()
        invariant
            i <= stack.len(),
            all == scope_names(stack.deep_view()),
            parts.deep_view() == start + all.take(i as int),
        decreases stack.len() - i,
    {
        let ghost before = parts;
        parts.push(stack[i].name.clone());
        proof {
            lemma_push(before, parts);
            assert(stack.deep_view()[i as int] == stack@[i as int].deep_view());
            assert(start + all.take(i + 1) =~= (start + all.take(i as int)).push(all[i as int]));
        }
        i += 1;
    }
    assert(all.take(stack.len() as int) =~= all);
    let ghost before = parts;
    parts.push(name.to_owned());
    proof {
        lemma_push(before, parts);
    }
    join(&parts, ".")
}

pub open spec fn owner(f: TsFileView, stack: Seq<TsScopeView>) -> Seq<char> {
    if stack.len() == 0 {
        f.file_id
    } else {
        stack.last().id
    }
}

fn owner_id(f: &TsFile, stack: &Vec<TsScope>) -> (r: String)
    ensures
        r@ == owner(f.deep_view(), stack.deep_view()),
{
    assert(stack.deep_view().len() == stack@.len());
    if stack.len() == 0 {
        f.file_id.to_owned()
    } else {
        assert(stack.deep_view().last() == stack@[stack@.len() - 1].deep_view());
        stack[stack.len() - 1].id.clone()
    }
}

pub open spec fn owner_text(f: TsFileView, stack: Seq<TsScopeView>) -> Seq<char> {
    if stack.len() > 0 {
        stack.last().name
    } else if ts_modules(f.path).len() == 0 {
        f.path
    } else {
        joined(ts_modules(f.path), "."@)
    }
}

fn owner_name(f: &TsFile, stack: &Vec<TsScope>) -> (r: String)
    ensures
        r@ == owner_text(f.deep_view(), stack.deep_view()),
{
    assert(stack.deep_view().len() == stack@.len());
    if stack.len() > 0 {
        assert(stack.deep_view().last() == stack@[stack@.len() - 1].deep_view());
        return stack[stack.len() - 1].name.clone();
    }
    let modules: Vec<String> = typescript_module_path(f.path);
    assert(modules.deep_view().len() == modules@.len());
    if modules.len() == 0 {
        f.path.to_owned()
    } else {
        join(&modules, ".")
    }
}

pub open spec fn in_class(stack: Seq<TsScopeView>) -> bool {
    stack.len() > 0 && stack.last().kind == ScopeKind::Class
}

fn in_class_scope(stack: &Vec<TsScope>) -> (r: bool)
    ensures
        r == in_class(stack.deep_view()),
{
    assert(stack.deep_view().len() == stack@.len());
    if stack.len() == 0 {
        return false;
    }
    assert(stack.deep_view().last() == stack@[stack@.len() - 1].deep_view());
    stack[stack.len() - 1].kind == ScopeKind::Class
}

pub open spec fn in_function(stack: Seq<TsScopeView>) -> bool {
    exists|i: int| 0 <= i < stack.len() && (#[trigger] stack[i]).kind == ScopeKind::Function
}

fn in_function_scope(stack: &Vec<TsScope>) -> (r: bool)
    ensures
        r == in_function(stack.deep_view()),
{
    let ghost all = stack.deep_view();
    let mut i: usize = 0;
    while i < stack.len()
        invariant
            i <= stack.len(),
            all == stack.deep_view(),
            forall|k: int| 0 <= k < i ==> (#[trigger] all[k]).kind != ScopeKind::Function,
        decreases stack.len() - i,
    {
        assert(all[i as int] == stack@[i as int].deep_view());
        if stack[i].kind == ScopeKind::Function {
            return true;
        }
        i += 1;
    }
    false
}

fn nested(stack: &Vec<TsScope>, name: &str, kind: ScopeKind, id: &str) -> (r: Vec<TsScope>)
    ensures
        r.deep_view() == stack.deep_view().push(
            TsScopeView { name: name@, kind, id: id@ },
        ),
{
    let mut out: Vec<TsScope> = duplicate_all(stack);
    let ghost before = out;
    out.push(TsScope { name: name.to_owned(), kind, id: id.to_owned() });
    proof {
        lemma_push(before, out);
    }
    out
}

// ── Records ─────────────────────────────────────────────────────────────────

pub open spec fn syntax_node(
    f: TsFileView,
    id: Seq<char>,
    kind: NodeKind,
    at: SourceSpan,
    name: Seq<char>,
    summary: Seq<char>,
) -> NodeRecordView {
    NodeRecordView {
        code: CodeFieldsView { language: Some("typescript"@), ..CodeFieldsView::none() },
        ..NodeRecordView::plain(id, kind, Some(f.path), Some(at), Some(name), summary)
    }
}

fn build_syntax_node(
    f: &TsFile,
    id: &str,
    kind: NodeKind,
    at: SourceSpan,
    name: &str,
    summary: String,
) -> (r: NodeRecord)
    ensures
        r.deep_view() == syntax_node(f.deep_view(), id@, kind, at, name@, summary@),
{
    let mut n: NodeRecord = NodeRecord::plain(
        id.to_owned(),
        kind,
        Some(f.path.to_owned()),
        Some(at),
        Some(name.to_owned()),
        summary,
    );
    n.code.language = Some("typescript".to_owned());
    n
}

impl TsFindingsView {
    pub open spec fn with_record(self, r: RecordView) -> TsFindingsView {
        TsFindingsView { records: self.records.push(r), ..self }
    }

    pub open spec fn with_edge(
        self,
        label: EdgeLabel,
        source: Seq<char>,
        target: Seq<char>,
        summary: Seq<char>,
    ) -> TsFindingsView {
        self.with_record(RecordView::Edge(code_edge(label, source, target, None, summary)))
    }

    /// With a simple and a qualified name defined.
    pub open spec fn defining(
        self,
        local: Seq<char>,
        name: Seq<char>,
        id: Seq<char>,
    ) -> TsFindingsView {
        TsFindingsView {
            definitions: self.definitions.push((local, id)).push((name, id)),
            ..self
        }
    }
}

impl TsFindings {
    fn push_record(&mut self, r: GraphRecord)
        ensures
            final(self).deep_view() == old(self).deep_view().with_record(r.deep_view()),
    {
        let ghost before = self.records;
        self.records.push(r);
        proof {
            lemma_push(before, self.records);
        }
    }

    fn push_edge(&mut self, label: EdgeLabel, source: &str, target: &str, summary: String)
        ensures
            final(self).deep_view() == old(self).deep_view().with_edge(
                label,
                source@,
                target@,
                summary@,
            ),
    {
        self.push_record(
            GraphRecord::edge(label, source.to_owned(), target.to_owned(), None, summary),
        );
    }

    fn define(&mut self, local: &str, name: &str, id: &str)
        ensures
            final(self).deep_view() == old(self).deep_view().defining(local@, name@, id@),
    {
        let ghost b1 = self.definitions;
        self.definitions.push((local.to_owned(), id.to_owned()));
        let ghost b2 = self.definitions;
        self.definitions.push((name.to_owned(), id.to_owned()));
        proof {
            lemma_push(b1, b2);
            lemma_push(b2, self.definitions);
        }
    }
}

pub open spec fn symbol_id(f: TsFileView, kind: Seq<char>, name: Seq<char>, n: nat) -> Seq<char> {
    code_id(seq!["node"@, "symbol"@, kind, f.repository_id, f.path, name, decimal_of(n)])
}

pub open spec fn next_id(
    f: TsFileView,
    kind: Seq<char>,
    name: Seq<char>,
    out: TsFindingsView,
) -> Seq<char> {
    symbol_id(f, kind, name, ordinal(out.counted, kind, name))
}

/// The findings with a symbol and the edge from its owner.
pub open spec fn with_symbol(
    f: TsFileView,
    t: Seq<SyntaxNodeView>,
    i: int,
    kind: Seq<char>,
    name: Seq<char>,
    stack: Seq<TsScopeView>,
    out: TsFindingsView,
) -> TsFindingsView {
    let n = ordinal(out.counted, kind, name);
    let base = syntax_node(
        f,
        symbol_id(f, kind, name, n),
        NodeKind::Symbol,
        span_of(t[i]),
        name,
        "TypeScript "@ + kind + " "@ + name + "\nSource:\n"@ + normalized(text_at(t, i)),
    );
    let node = NodeRecordView {
        code: CodeFieldsView {
            symbol_kind: Some(kind),
            disambiguator: Some(n as u64),
            ..base.code
        },
        ..base
    };
    (TsFindingsView { counted: out.counted.push((kind, name)), ..out }).with_record(
        RecordView::Node(node),
    ).with_edge(
        EdgeLabel::Defines,
        owner(f, stack),
        symbol_id(f, kind, name, n),
        owner_text(f, stack) + " defines "@ + name,
    )
}

fn add_symbol(
    f: &TsFile,
    t: &Vec<SyntaxNode>,
    i: usize,
    kind: &str,
    name: &str,
    stack: &Vec<TsScope>,
    out: &mut TsFindings,
) -> (r: String)
    requires
        i < t.len(),
    ensures
        r@ == next_id(f.deep_view(), kind@, name@, old(out).deep_view()),
        final(out).deep_view() == with_symbol(
            f.deep_view(),
            t.deep_view(),
            i as int,
            kind@,
            name@,
            stack.deep_view(),
            old(out).deep_view(),
        ),
{
    assert(t.deep_view()[i as int] == t@[i as int].deep_view());
    let n: u64 = count_ordinal(&out.counted, kind, name);
    let ghost before = out.counted;
    out.counted.push((kind.to_owned(), name.to_owned()));
    proof {
        lemma_push(before, out.counted);
    }
    let id: String = stable_id(
        &parts7("node", "symbol", kind, f.repository_id, f.path, name, decimal(n).as_str()),
    );
    let summary: String = cat4("TypeScript ", kind, " ", name).concat("\nSource:\n").concat(
        normalize_code(node_text(t, i)).as_str(),
    );
    let mut node: NodeRecord = build_syntax_node(
        f,
        id.as_str(),
        NodeKind::Symbol,
        span(&t[i]),
        name,
        summary,
    );
    node.code.symbol_kind = Some(kind.to_owned());
    node.code.disambiguator = Some(n);
    out.push_record(GraphRecord::Node(node));
    out.push_edge(
        EdgeLabel::Defines,
        owner_id(f, stack).as_str(),
        id.as_str(),
        cat3(owner_name(f, stack).as_str(), " defines ", name),
    );
    id
}

/// The findings with the body of a function.
pub open spec fn with_body(
    t: Seq<SyntaxNodeView>,
    i: int,
    id: Seq<char>,
    name: Seq<char>,
    out: TsFindingsView,
) -> TsFindingsView {
    TsFindingsView {
        bodies: out.bodies.push(
            SymbolBodyView {
                id,
                name,
                text: text_at(t, i),
                start_byte: t[i].start_byte,
                excluded: excluded_from(Grammar::TypeScript, t, i, i + 1),
            },
        ),
        ..out
    }
}

fn add_body(t: &Vec<SyntaxNode>, i: usize, id: &str, name: &str, out: &mut TsFindings)
    requires
        i < t.len(),
    ensures
        final(out).deep_view() == with_body(
            t.deep_view(),
            i as int,
            id@,
            name@,
            old(out).deep_view(),
        ),
{
    assert(t.deep_view()[i as int] == t@[i as int].deep_view());
    let ghost before = out.bodies;
    out.bodies.push(
        SymbolBody {
            id: id.to_owned(),
            name: name.to_owned(),
            text: node_text(t, i).to_owned(),
            start_byte: t[i].start_byte,
            excluded: collect_excluded(Grammar::TypeScript, t, i),
        },
    );
    proof {
        lemma_push(before, out.bodies);
    }
}

// ── Imports ─────────────────────────────────────────────────────────────────

pub open spec fn import_id(f: TsFileView, name: Seq<char>) -> Seq<char> {
    code_id(seq!["node"@, "import"@, f.repository_id, f.path, name])
}

/// The findings with an import, which is named after its whole statement on one line.
pub open spec fn with_import(
    f: TsFileView,
    t: Seq<SyntaxNodeView>,
    i: int,
    stack: Seq<TsScopeView>,
    out: TsFindingsView,
) -> TsFindingsView {
    let name = collapsed(text_at(t, i));
    if name.len() == 0 {
        out
    } else {
        out.with_record(
            RecordView::Node(
                syntax_node(
                    f,
                    import_id(f, name),
                    NodeKind::Import,
                    span_of(t[i]),
                    name,
                    "TypeScript import "@ + name,
                ),
            ),
        ).with_edge(
            EdgeLabel::Imports,
            owner(f, stack),
            import_id(f, name),
            owner_text(f, stack) + " imports "@ + name,
        )
    }
}

fn extract_import(
    f: &TsFile,
    t: &Vec<SyntaxNode>,
    i: usize,
    stack: &Vec<TsScope>,
    out: &mut TsFindings,
)
    requires
        i < t.len(),
    ensures
        final(out).deep_view() == with_import(
            f.deep_view(),
            t.deep_view(),
            i as int,
            stack.deep_view(),
            old(out).deep_view(),
        ),
{
    assert(t.deep_view()[i as int] == t@[i as int].deep_view());
    let name: String = collapse_whitespace(node_text(t, i));
    if name.as_str().is_empty() {
        return;
    }
    let id: String = stable_id(
        &parts5("node", "import", f.repository_id, f.path, name.as_str()),
    );
    out.push_record(
        GraphRecord::Node(
            build_syntax_node(
                f,
                id.as_str(),
                NodeKind::Import,
                span(&t[i]),
                name.as_str(),
                cat("TypeScript import ", name.as_str()),
            ),
        ),
    );
    out.push_edge(
        EdgeLabel::Imports,
        owner_id(f, stack).as_str(),
        id.as_str(),
        cat3(owner_name(f, stack).as_str(), " imports ", name.as_str()),
    );
}

// ── Heritage ────────────────────────────────────────────────────────────────

/// The base that a node of a clause names, by its last name.
pub open spec fn base_of(t: Seq<SyntaxNodeView>, i: int) -> Option<Seq<char>> {
    if is_a(t, i, "identifier"@) || is_a(t, i, "type_identifier"@) {
        Some(text_at(t, i))
    } else if is_a(t, i, "member_expression"@) || is_a(t, i, "nested_type_identifier"@) {
        match (field_child(t, i, "property"@), field_child(t, i, "type"@)) {
            (Some(p), _) => Some(text_at(t, p)),
            (None, Some(p)) => Some(text_at(t, p)),
            (None, None) => None,
        }
    } else if is_a(t, i, "generic_type"@) {
        match field_child(t, i, "name"@) {
            Some(n) => Some(text_at(t, n)),
            None => None,
        }
    } else {
        None
    }
}

fn find_base(t: &Vec<SyntaxNode>, i: usize) -> (r: Option<String>)
    requires
        i < t.len(),
    ensures
        r.deep_view() == base_of(t.deep_view(), i as int),
{
    let named: Option<usize> = if has_kind(t, i, "identifier") || has_kind(t, i, "type_identifier") {
        Some(i)
    } else if has_kind(t, i, "member_expression") || has_kind(t, i, "nested_type_identifier") {
        match find_field(t, i, "property") {
            Some(p) => Some(p),
            None => find_field(t, i, "type"),
        }
    } else if has_kind(t, i, "generic_type") {
        find_field(t, i, "name")
    } else {
        None
    };
    match named {
        Some(n) => Some(node_text(t, n).to_owned()),
        None => None,
    }
}

/// The bases among some nodes of a clause.
pub open spec fn bases_of(t: Seq<SyntaxNodeView>, kids: Seq<int>) -> Seq<Seq<char>>
    decreases kids.len(),
{
    if kids.len() == 0 {
        Seq::empty()
    } else {
        match base_of(t, kids.last()) {
            Some(b) => bases_of(t, kids.drop_last()).push(b),
            None => bases_of(t, kids.drop_last()),
        }
    }
}

/// The bases that an `extends` or `implements` clause names.
pub fn clause_type_names(t: &Vec<SyntaxNode>, i: usize) -> (r: Vec<String>)
    requires
        i < t.len(),
    ensures
        r.deep_view() == bases_of(t.deep_view(), named_children(t.deep_view(), i as int)),
{
    let ghost tv = t.deep_view();
    let kids: Vec<usize> = named_child_list(t, i);
    let ghost all = positions(kids@);
    let mut out: Vec<String> = Vec::new();
    let mut k: usize = 0;
    assert(out.deep_view() =~= bases_of(tv, all.take(0)));
    while k < kids.len()
        invariant
            tv == t.deep_view(),
            k <= kids.len(),
            all == positions(kids@),
            forall|k: int| 0 <= k < kids@.len() ==> i < #[trigger] kids@[k] < t.len(),
            out.deep_view() == bases_of(tv, all.take(k as int)),
        decreases kids.len() - k,
    {
        proof {
            assert(all.take(k + 1).drop_last() =~= all.take(k as int));
            assert(all.take(k + 1).last() == kids@[k as int] as int);
        }
        if let Some(b) = find_base(t, kids[k]) {
            let ghost before = out;
            out.push(b);
            proof {
                lemma_push(before, out);
            }
        }
        k += 1;
    }
    assert(all.take(kids.len() as int) =~= all);
    out
}

/// The bases of the clauses among some nodes: of `extends` clauses, or of `implements` clauses too.
pub open spec fn clauses_of(t: Seq<SyntaxNodeView>, kids: Seq<int>, both: bool) -> Seq<Seq<char>>
    decreases kids.len(),
{
    if kids.len() == 0 {
        Seq::empty()
    } else {
        let rest = clauses_of(t, kids.drop_last(), both);
        if is_a(t, kids.last(), "extends_clause"@) || (both && is_a(
            t,
            kids.last(),
            "implements_clause"@,
        )) {
            rest + bases_of(t, named_children(t, kids.last()))
        } else {
            rest
        }
    }
}

fn collect_clauses(t: &Vec<SyntaxNode>, i: usize, both: bool) -> (r: Vec<String>)
    requires
        i < t.len(),
    ensures
        r.deep_view() == clauses_of(
            t.deep_view(),
            named_children(t.deep_view(), i as int),
            both,
        ),
{
    let ghost tv = t.deep_view();
    let kids: Vec<usize> = named_child_list(t, i);
    let ghost all = positions(kids@);
    let mut out: Vec<String> = Vec::new();
    let mut k: usize = 0;
    assert(out.deep_view() =~= clauses_of(tv, all.take(0), both));
    while k < kids.len()
        invariant
            tv == t.deep_view(),
            k <= kids.len(),
            all == positions(kids@),
            forall|k: int| 0 <= k < kids@.len() ==> i < #[trigger] kids@[k] < t.len(),
            out.deep_view() == clauses_of(tv, all.take(k as int), both),
        decreases kids.len() - k,
    {
        proof {
            assert(all.take(k + 1).drop_last() =~= all.take(k as int));
            assert(all.take(k + 1).last() == kids@[k as int] as int);
        }
        if has_kind(t, kids[k], "extends_clause") || (both && has_kind(
            t,
            kids[k],
            "implements_clause",
        )) {
            let mut more: Vec<String> = clause_type_names(t, kids[k]);
            let ghost before = out.deep_view();
            let ghost mv = more.deep_view();
            out.append(&mut more);
            assert(out.deep_view() =~= before + mv);
        }
        k += 1;
    }
    assert(all.take(kids.len() as int) =~= all);
    out
}

/// The bases of the heritages among some nodes.
pub open spec fn heritages_of(t: Seq<SyntaxNodeView>, kids: Seq<int>) -> Seq<Seq<char>>
    decreases kids.len(),
{
    if kids.len() == 0 {
        Seq::empty()
    } else {
        let rest = heritages_of(t, kids.drop_last());
        if is_a(t, kids.last(), "class_heritage"@) {
            rest + clauses_of(t, named_children(t, kids.last()), true)
        } else {
            rest
        }
    }
}

/// The bases of a class, extended or implemented.
pub open spec fn class_bases(t: Seq<SyntaxNodeView>, i: int) -> Seq<Seq<char>> {
    heritages_of(t, named_children(t, i))
}

fn class_base_names(t: &Vec<SyntaxNode>, i: usize) -> (r: Vec<String>)
    requires
        i < t.len(),
    ensures
        r.deep_view() == class_bases(t.deep_view(), i as int),
{
    let ghost tv = t.deep_view();
    let kids: Vec<usize> = named_child_list(t, i);
    let ghost all = positions(kids@);
    let mut out: Vec<String> = Vec::new();
    let mut k: usize = 0;
    assert(out.deep_view() =~= heritages_of(tv, all.take(0)));
    while k < kids.len()
        invariant
            tv == t.deep_view(),
            k <= kids.len(),
            all == positions(kids@),
            forall|k: int| 0 <= k < kids@.len() ==> i < #[trigger] kids@[k] < t.len(),
            out.deep_view() == heritages_of(tv, all.take(k as int)),
        decreases kids.len() - k,
    {
        proof {
            assert(all.take(k + 1).drop_last() =~= all.take(k as int));
            assert(all.take(k + 1).last() == kids@[k as int] as int);
        }
        if has_kind(t, kids[k], "class_heritage") {
            let mut more: Vec<String> = collect_clauses(t, kids[k], true);
            let ghost before = out.deep_view();
            let ghost mv = more.deep_view();
            out.append(&mut more);
            assert(out.deep_view() =~= before + mv);
        }
        k += 1;
    }
    assert(all.take(kids.len() as int) =~= all);
    out
}

/// The bases of an interface.
pub open spec fn interface_bases(t: Seq<SyntaxNodeView>, i: int) -> Seq<Seq<char>> {
    clauses_of(t, named_children(t, i), false)
}

/// What is to be looked up for a symbol with some bases.
pub open spec fn heritage(
    id: Seq<char>,
    name: Seq<char>,
    verb: Seq<char>,
    bases: Seq<Seq<char>>,
) -> Seq<PendingHeritageView> {
    bases.map_values(
        |b: Seq<char>|
            PendingHeritageView { source_id: id, base_name: b, summary: name + verb + b },
    )
}

fn add_heritage(id: &str, name: &str, verb: &str, bases: &Vec<String>, out: &mut TsFindings)
    ensures
        final(out).deep_view() == (TsFindingsView {
            pending: old(out).deep_view().pending + heritage(id@, name@, verb@, bases.deep_view()),
            ..old(out).deep_view()
        }),
{
    let ghost start = out.deep_view();
    let ghost all = heritage(id@, name@, verb@, bases.deep_view());
    let mut k: usize = 0;
    assert(start.pending + all.take(0) =~= start.pending);
    while k < bases.len()
        invariant
            k <= bases.len(),
            all == heritage(id@, name@, verb@, bases.deep_view()),
            out.deep_view() == (TsFindingsView {
                pending: start.pending + all.take(k as int),
                ..start
            }),
        decreases bases.len() - k,
    {
        let ghost before = out.pending;
        out.pending.push(
            PendingHeritage {
                source_id: id.to_owned(),
                base_name: bases[k].clone(),
                summary: cat3(name, verb, bases[k].as_str()),
            },
        );
        proof {
            lemma_push(before, out.pending);
            assert(bases.deep_view()[k as int] == bases@[k as int].deep_view());
            assert(start.pending + all.take(k + 1) =~= (start.pending + all.take(k as int)).push(
                all[k as int],
            ));
        }
        k += 1;
    }
    assert(all.take(bases.len() as int) =~= all);
}

/// The findings after some bases have been looked up: an edge for each one in the file.
pub open spec fn inherited(ps: Seq<PendingHeritageView>, out: TsFindingsView) -> TsFindingsView
    decreases ps.len(),
{
    if ps.len() == 0 {
        out
    } else {
        let next = inherited(ps.drop_last(), out);
        match lookup(next.definitions, ps.last().base_name) {
            Some(id) => next.with_edge(
                EdgeLabel::Implements,
                ps.last().source_id,
                id,
                ps.last().summary,
            ),
            None => next,
        }
    }
}

fn emit_pending_heritage_edges(ps: &Vec<PendingHeritage>, out: &mut TsFindings)
    ensures
        final(out).deep_view() == inherited(ps.deep_view(), old(out).deep_view()),
{
    let ghost all = ps.deep_view();
    let ghost start = out.deep_view();
    let mut i: usize = 0;
    assert(all.take(0).len() == 0);
    while i < ps.len()
        invariant
            i <= ps.len(),
            all == ps.deep_view(),
            out.deep_view() == inherited(all.take(i as int), start),
        decreases ps.len() - i,
    {
        proof {
            assert(all.take(i + 1).drop_last() =~= all.take(i as int));
            assert(all.take(i + 1).last() == ps@[i as int].deep_view());
        }
        let found: Option<String> = match find_value(
            &out.definitions,
            ps[i].base_name.as_str(),
        ) {
            Some(id) => Some(id.clone()),
            None => None,
        };
        if let Some(id) = found {
            out.push_edge(
                EdgeLabel::Implements,
                ps[i].source_id.as_str(),
                id.as_str(),
                ps[i].summary.clone(),
            );
        }
        i += 1;
    }
    assert(all.take(ps.len() as int) =~= all);
}

// ── Declarations ────────────────────────────────────────────────────────────

/// The kind of a function: in a test file it is a test.
pub open spec fn function_kind(f: TsFileView, kind: Seq<char>) -> Seq<char> {
    if test_file(f.path) {
        "test"@
    } else {
        kind
    }
}

/// The findings with a declaration of a kind, and its names.
pub open spec fn with_declaration(
    f: TsFileView,
    t: Seq<SyntaxNodeView>,
    i: int,
    kind: Seq<char>,
    local: Seq<char>,
    stack: Seq<TsScopeView>,
    out: TsFindingsView,
) -> TsFindingsView {
    let name = qualified(f.path, stack, local);
    with_symbol(f, t, i, kind, name, stack, out).defining(
        local,
        name,
        next_id(f, kind, name, out),
    )
}

fn declare(
    f: &TsFile,
    t: &Vec<SyntaxNode>,
    i: usize,
    kind: &str,
    local: &str,
    stack: &Vec<TsScope>,
    out: &mut TsFindings,
) -> (r: (String, String))
    requires
        i < t.len(),
    ensures
        r.0@ == qualified(f.path@, stack.deep_view(), local@),
        r.1@ == next_id(f.deep_view(), kind@, r.0@, old(out).deep_view()),
        final(out).deep_view() == with_declaration(
            f.deep_view(),
            t.deep_view(),
            i as int,
            kind@,
            local@,
            stack.deep_view(),
            old(out).deep_view(),
        ),
{
    let name: String = qualify(f.path, stack, local);
    let id: String = add_symbol(f, t, i, kind, name.as_str(), stack, out);
    out.define(local, name.as_str(), id.as_str());
    (name, id)
}

/// The findings with a function or method and its body.
pub open spec fn with_callable(
    f: TsFileView,
    t: Seq<SyntaxNodeView>,
    i: int,
    kind: Seq<char>,
    local: Seq<char>,
    stack: Seq<TsScopeView>,
    out: TsFindingsView,
) -> TsFindingsView {
    let name = qualified(f.path, stack, local);
    let k = function_kind(f, kind);
    with_body(
        t,
        i,
        next_id(f, k, name, out),
        name,
        with_declaration(f, t, i, k, local, stack, out),
    )
}

fn declare_callable(
    f: &TsFile,
    t: &Vec<SyntaxNode>,
    i: usize,
    kind: &str,
    local: &str,
    stack: &Vec<TsScope>,
    out: &mut TsFindings,
) -> (r: String)
    requires
        i < t.len(),
    ensures
        r@ == next_id(
            f.deep_view(),
            function_kind(f.deep_view(), kind@),
            qualified(f.path@, stack.deep_view(), local@),
            old(out).deep_view(),
        ),
        final(out).deep_view() == with_callable(
            f.deep_view(),
            t.deep_view(),
            i as int,
            kind@,
            local@,
            stack.deep_view(),
            old(out).deep_view(),
        ),
{
    let k: &str = if is_test_file(f.path) {
        "test"
    } else {
        kind
    };
    let (name, id) = declare(f, t, i, k, local, stack, out);
    add_body(t, i, id.as_str(), name.as_str(), out);
    id
}

/// The findings with one declarator: a function where its value is one, else a variable. Patterns
/// that take a value apart are passed over.
pub open spec fn with_declarator(
    f: TsFileView,
    t: Seq<SyntaxNodeView>,
    i: int,
    stack: Seq<TsScopeView>,
    out: TsFindingsView,
) -> TsFindingsView {
    match field_child(t, i, "name"@) {
        Some(n) => if is_a(t, i, "variable_declarator"@) && is_a(t, n, "identifier"@) {
            let of_function = match field_child(t, i, "value"@) {
                Some(v) => is_a(t, v, "arrow_function"@) || is_a(t, v, "function_expression"@),
                None => false,
            };
            if of_function {
                with_callable(f, t, i, "function"@, text_at(t, n), stack, out)
            } else {
                with_declaration(f, t, i, "variable"@, text_at(t, n), stack, out)
            }
        } else {
            out
        },
        None => out,
    }
}

pub open spec fn with_declarators(
    f: TsFileView,
    t: Seq<SyntaxNodeView>,
    kids: Seq<int>,
    stack: Seq<TsScopeView>,
    out: TsFindingsView,
) -> TsFindingsView
    decreases kids.len(),
{
    if kids.len() == 0 {
        out
    } else {
        with_declarator(
            f,
            t,
            kids.last(),
            stack,
            with_declarators(f, t, kids.drop_last(), stack, out),
        )
    }
}

fn declare_one(
    f: &TsFile,
    t: &Vec<SyntaxNode>,
    i: usize,
    stack: &Vec<TsScope>,
    out: &mut TsFindings,
)
    requires
        i < t.len(),
    ensures
        final(out).deep_view() == with_declarator(
            f.deep_view(),
            t.deep_view(),
            i as int,
            stack.deep_view(),
            old(out).deep_view(),
        ),
{
    if !has_kind(t, i, "variable_declarator") {
        return;
    }
    if let Some(n) = find_field(t, i, "name") {
        if has_kind(t, n, "identifier") {
            let local: String = node_text(t, n).to_owned();
            let of_function: bool = match find_field(t, i, "value") {
                Some(v) => has_kind(t, v, "arrow_function") || has_kind(
                    t,
                    v,
                    "function_expression",
                ),
                None => false,
            };
            if of_function {
                declare_callable(f, t, i, "function", local.as_str(), stack, out);
            } else {
                declare(f, t, i, "variable", local.as_str(), stack, out);
            }
        }
    }
}

fn extract_variable_or_func(
    f: &TsFile,
    t: &Vec<SyntaxNode>,
    i: usize,
    stack: &Vec<TsScope>,
    out: &mut TsFindings,
)
    requires
        i < t.len(),
    ensures
        final(out).deep_view() == with_declarators(
            f.deep_view(),
            t.deep_view(),
            named_children(t.deep_view(), i as int),
            stack.deep_view(),
            old(out).deep_view(),
        ),
{
    let ghost fv = f.deep_view();
    let ghost tv = t.deep_view();
    let ghost sv = stack.deep_view();
    let ghost start = out.deep_view();
    let kids: Vec<usize> = named_child_list(t, i);
    let ghost all = positions(kids@);
    let mut k: usize = 0;
    assert(all.take(0).len() == 0);
    while k < kids.len()
        invariant
            fv == f.deep_view(),
            tv == t.deep_view(),
            sv == stack.deep_view(),
            k <= kids.len(),
            all == positions(kids@),
            forall|k: int| 0 <= k < kids@.len() ==> i < #[trigger] kids@[k] < t.len(),
            out.deep_view() == with_declarators(fv, tv, all.take(k as int), sv, start),
        decreases kids.len() - k,
    {
        proof {
            assert(all.take(k + 1).drop_last() =~= all.take(k as int));
            assert(all.take(k + 1).last() == kids@[k as int] as int);
        }
        declare_one(f, t, kids[k], stack, out);
        k += 1;
    }
    assert(all.take(kids.len() as int) =~= all);
}

// ── The walk ────────────────────────────────────────────────────────────────

/// What a node yields before the nodes below it: the findings, what surrounds these nodes, and
/// whether they are looked at.
pub struct TsStep {
    pub out: TsFindingsView,
    pub stack: Seq<TsScopeView>,
    pub descend: bool,
}

pub open spec fn is_class(t: Seq<SyntaxNodeView>, i: int) -> bool {
    is_a(t, i, "class_declaration"@) || is_a(t, i, "abstract_class_declaration"@)
}

pub open spec fn is_function(t: Seq<SyntaxNodeView>, i: int) -> bool {
    is_a(t, i, "function_declaration"@) || is_a(t, i, "generator_function_declaration"@)
}

/// A declaration with a name.
#[verifier::opaque]
pub open spec fn enter_named(
    f: TsFileView,
    t: Seq<SyntaxNodeView>,
    i: int,
    local: Seq<char>,
    stack: Seq<TsScopeView>,
    out: TsFindingsView,
) -> TsStep {
    let name = qualified(f.path, stack, local);
    if is_class(t, i) {
        let id = next_id(f, "class"@, name, out);
        let next = with_declaration(f, t, i, "class"@, local, stack, out);
        TsStep {
            out: TsFindingsView {
                pending: next.pending + heritage(
                    id,
                    name,
                    " extends/implements "@,
                    class_bases(t, i),
                ),
                ..next
            },
            stack: stack.push(TsScopeView { name: local, kind: ScopeKind::Class, id }),
            descend: true,
        }
    } else if is_a(t, i, "interface_declaration"@) {
        let id = next_id(f, "interface"@, name, out);
        let next = with_declaration(f, t, i, "interface"@, local, stack, out);
        TsStep {
            out: TsFindingsView {
                pending: next.pending + heritage(id, name, " extends "@, interface_bases(t, i)),
                ..next
            },
            stack,
            descend: false,
        }
    } else if is_a(t, i, "type_alias_declaration"@) {
        TsStep {
            out: with_declaration(f, t, i, "type"@, local, stack, out),
            stack,
            descend: false,
        }
    } else if is_a(t, i, "enum_declaration"@) {
        TsStep {
            out: with_declaration(f, t, i, "enum"@, local, stack, out),
            stack,
            descend: false,
        }
    } else if is_function(t, i) || is_a(t, i, "method_definition"@) {
        let kind = if is_function(t, i) {
            "function"@
        } else {
            "method"@
        };
        TsStep {
            out: with_callable(f, t, i, kind, local, stack, out),
            stack: stack.push(
                TsScopeView {
                    name: local,
                    kind: ScopeKind::Function,
                    id: next_id(f, function_kind(f, kind), name, out),
                },
            ),
            descend: true,
        }
    } else {
        TsStep {
            out: with_declaration(f, t, i, "namespace"@, local, stack, out),
            stack: stack.push(
                TsScopeView {
                    name: local,
                    kind: ScopeKind::Namespace,
                    id: next_id(f, "namespace"@, name, out),
                },
            ),
            descend: true,
        }
    }
}

/// A declaration that has a name of its own. Methods count only directly in a class.
pub open spec fn is_declaration(t: Seq<SyntaxNodeView>, i: int, stack: Seq<TsScopeView>) -> bool {
    is_class(t, i) || is_a(t, i, "interface_declaration"@) || is_a(t, i, "type_alias_declaration"@)
        || is_a(t, i, "enum_declaration"@) || is_function(t, i) || (is_a(t, i, "method_definition"@)
        && in_class(stack)) || is_a(t, i, "internal_module"@)
}

fn check_declaration(t: &Vec<SyntaxNode>, i: usize, stack: &Vec<TsScope>) -> (r: bool)
    ensures
        r == is_declaration(t.deep_view(), i as int, stack.deep_view()),
{
    has_kind(t, i, "class_declaration") || has_kind(t, i, "abstract_class_declaration")
        || has_kind(t, i, "interface_declaration") || has_kind(t, i, "type_alias_declaration")
        || has_kind(t, i, "enum_declaration") || has_kind(t, i, "function_declaration") || has_kind(
        t,
        i,
        "generator_function_declaration",
    ) || (has_kind(t, i, "method_definition") && in_class_scope(stack)) || has_kind(
        t,
        i,
        "internal_module",
    )
}

/// What the node at `i` yields. Variables inside a function are passed over.
#[verifier::opaque]
pub open spec fn enter(
    f: TsFileView,
    t: Seq<SyntaxNodeView>,
    i: int,
    stack: Seq<TsScopeView>,
    out: TsFindingsView,
) -> TsStep {
    if is_a(t, i, "import_statement"@) {
        TsStep { out: with_import(f, t, i, stack, out), stack, descend: false }
    } else if is_declaration(t, i, stack) {
        match item_name(t, i) {
            Some(local) => enter_named(f, t, i, local, stack, out),
            None => TsStep {
                out,
                stack,
                descend: !is_a(t, i, "type_alias_declaration"@) && !is_a(
                    t,
                    i,
                    "enum_declaration"@,
                ),
            },
        }
    } else if is_a(t, i, "lexical_declaration"@) || is_a(t, i, "variable_declaration"@) {
        TsStep {
            out: if in_function(stack) {
                out
            } else {
                with_declarators(f, t, named_children(t, i), stack, out)
            },
            stack,
            descend: false,
        }
    } else {
        TsStep { out, stack, descend: true }
    }
}

pub open spec fn walk_over(
    f: TsFileView,
    t: Seq<SyntaxNodeView>,
    i: int,
    kids: Seq<int>,
    stack: Seq<TsScopeView>,
    out: TsFindingsView,
) -> TsFindingsView
    decreases t.len() - i, kids.len(),
{
    if kids.len() == 0 || i < 0 || i >= t.len() {
        out
    } else {
        let k = kids.last();
        let next = walk_over(f, t, i, kids.drop_last(), stack, out);
        if i < k < t.len() {
            let step = enter(f, t, k, stack, next);
            if step.descend {
                walk_over(f, t, k, named_children(t, k), step.stack, step.out)
            } else {
                step.out
            }
        } else {
            next
        }
    }
}

pub open spec fn walked(
    f: TsFileView,
    t: Seq<SyntaxNodeView>,
    i: int,
    stack: Seq<TsScopeView>,
    out: TsFindingsView,
) -> TsFindingsView {
    let step = enter(f, t, i, stack, out);
    if step.descend {
        walk_over(f, t, i, named_children(t, i), step.stack, step.out)
    } else {
        step.out
    }
}

fn visit_named(
    f: &TsFile,
    t: &Vec<SyntaxNode>,
    i: usize,
    local: &str,
    stack: &Vec<TsScope>,
    out: &mut TsFindings,
) -> (r: Option<Vec<TsScope>>)
    requires
        i < t.len(),
    ensures
        ({
            let step = enter_named(
                f.deep_view(),
                t.deep_view(),
                i as int,
                local@,
                stack.deep_view(),
                old(out).deep_view(),
            );
            &&& final(out).deep_view() == step.out
            &&& r is Some <==> step.descend
            &&& r matches Some(inner) ==> inner.deep_view() == step.stack
        }),
{
    reveal(enter_named);
    if has_kind(t, i, "class_declaration") || has_kind(t, i, "abstract_class_declaration") {
        let (name, id) = declare(f, t, i, "class", local, stack, out);
        add_heritage(
            id.as_str(),
            name.as_str(),
            " extends/implements ",
            &class_base_names(t, i),
            out,
        );
        Some(nested(stack, local, ScopeKind::Class, id.as_str()))
    } else if has_kind(t, i, "interface_declaration") {
        let (name, id) = declare(f, t, i, "interface", local, stack, out);
        add_heritage(
            id.as_str(),
            name.as_str(),
            " extends ",
            &collect_clauses(t, i, false),
            out,
        );
        None
    } else if has_kind(t, i, "type_alias_declaration") {
        declare(f, t, i, "type", local, stack, out);
        None
    } else if has_kind(t, i, "enum_declaration") {
        declare(f, t, i, "enum", local, stack, out);
        None
    } else if has_kind(t, i, "function_declaration") || has_kind(
        t,
        i,
        "generator_function_declaration",
    ) {
        let id: String = declare_callable(f, t, i, "function", local, stack, out);
        Some(nested(stack, local, ScopeKind::Function, id.as_str()))
    } else if has_kind(t, i, "method_definition") {
        let id: String = declare_callable(f, t, i, "method", local, stack, out);
        Some(nested(stack, local, ScopeKind::Function, id.as_str()))
    } else {
        let (_, id) = declare(f, t, i, "namespace", local, stack, out);
        Some(nested(stack, local, ScopeKind::Namespace, id.as_str()))
    }
}

fn visit(
    f: &TsFile,
    t: &Vec<SyntaxNode>,
    i: usize,
    stack: &Vec<TsScope>,
    out: &mut TsFindings,
) -> (r: Option<Vec<TsScope>>)
    requires
        i < t.len(),
    ensures
        ({
            let step = enter(
                f.deep_view(),
                t.deep_view(),
                i as int,
                stack.deep_view(),
                old(out).deep_view(),
            );
            &&& final(out).deep_view() == step.out
            &&& r is Some <==> step.descend
            &&& r matches Some(inner) ==> inner.deep_view() == step.stack
        }),
{
    reveal(enter);
    if has_kind(t, i, "import_statement") {
        extract_import(f, t, i, stack, out);
        None
    } else if check_declaration(t, i, stack) {
        match node_name(t, i) {
            Some(local) => visit_named(f, t, i, local.as_str(), stack, out),
            None => if has_kind(t, i, "type_alias_declaration") || has_kind(
                t,
                i,
                "enum_declaration",
            ) {
                None
            } else {
                Some(duplicate_all(stack))
            },
        }
    } else if has_kind(t, i, "lexical_declaration") || has_kind(t, i, "variable_declaration") {
        if !in_function_scope(stack) {
            extract_variable_or_func(f, t, i, stack, out);
        }
        None
    } else {
        Some(duplicate_all(stack))
    }
}

fn walk(
    f: &TsFile,
    t: &Vec<SyntaxNode>,
    i: usize,
    stack: &Vec<TsScope>,
    out: &mut TsFindings,
)
    requires
        i < t.len(),
    ensures
        final(out).deep_view() == walked(
            f.deep_view(),
            t.deep_view(),
            i as int,
            stack.deep_view(),
            old(out).deep_view(),
        ),
    decreases t.len() - i,
{
    let ghost fv = f.deep_view();
    let ghost tv = t.deep_view();
    match visit(f, t, i, stack, out) {
        Some(inner) => {
            let ghost iv = inner.deep_view();
            let ghost start = out.deep_view();
            let kids: Vec<usize> = named_child_list(t, i);
            let ghost all = positions(kids@);
            let mut k: usize = 0;
            while k < kids.len()
                invariant
                    i < t.len(),
                    fv == f.deep_view(),
                    tv == t.deep_view(),
                    iv == inner.deep_view(),
                    k <= kids.len(),
                    all == positions(kids@),
                    forall|k: int| 0 <= k < kids@.len() ==> i < #[trigger] kids@[k] < t.len(),
                    out.deep_view() == walk_over(fv, tv, i as int, all.take(k as int), iv, start),
                decreases kids.len() - k,
            {
                proof {
                    assert(all.take(k + 1).drop_last() =~= all.take(k as int));
                    assert(all.take(k + 1).last() == kids@[k as int] as int);
                }
                walk(f, t, kids[k], &inner, out);
                k += 1;
            }
            assert(all.take(kids.len() as int) =~= all);
        },
        None => {},
    }
}

/// Everything that a syntax tree yields: the walk, then the bases that are in the file.
pub open spec fn tree_findings(f: TsFileView, t: Seq<SyntaxNodeView>) -> TsFindingsView {
    let all = if t.len() == 0 {
        TsFindingsView::none()
    } else {
        walked(f, t, 0, Seq::empty(), TsFindingsView::none())
    };
    inherited(all.pending, TsFindingsView { pending: Seq::empty(), ..all })
}

pub fn extract_tree(f: &TsFile, t: &Vec<SyntaxNode>) -> (r: TsFindings)
    ensures
        r.deep_view() == tree_findings(f.deep_view(), t.deep_view()),
{
    let mut out: TsFindings = TsFindings::none();
    let stack: Vec<TsScope> = Vec::new();
    assert(stack.deep_view() =~= Seq::empty());
    if t.len() > 0 {
        walk(f, t, 0, &stack, &mut out);
    }
    let mut pending: Vec<PendingHeritage> = Vec::new();
    pending.append(&mut out.pending);
    assert(out.pending.deep_view() =~= Seq::empty());
    emit_pending_heritage_edges(&pending, &mut out);
    out
}

/// The grammar in which a file is written.
pub open spec fn grammar_of(path: Seq<char>) -> Grammar {
    if is_tsx(path) {
        Grammar::Tsx
    } else {
        Grammar::TypeScript
    }
}

/// Extracts the records of a source text into a graph, the references inside it last. The reasons
/// to fail are those of the parser; the graph then stays as it is.
pub fn extract_file_source<P: CodePolicy>(
    policy: &P,
    f: &TsFile,
    source: &str,
    graph: &mut Graph,
) -> (r: Result<(), ParseError>)
    requires
        byte_len(source@) <= u32::MAX,
    ensures
        (match (r, syntax_of(grammar_of(f.path@), source@)) {
            (Ok(_), Ok(t)) => {
                let found = tree_findings(f.deep_view(), t);
                final(graph)@ == with_references(
                    *policy,
                    old(graph)@ + found.records,
                    found.definitions,
                    found.bodies,
                )
            },
            (Err(x), Err(reason)) => x.deep_view() == reason && final(graph)@ == old(graph)@,
            _ => false,
        }),
{
    let grammar: Grammar = if check_tsx(f.path) {
        Grammar::Tsx
    } else {
        Grammar::TypeScript
    };
    match parse(grammar, source) {
        Ok(t) => {
            let mut found: TsFindings = extract_tree(f, &t);
            let ghost records = found.records.deep_view();
            let ghost before = graph@;
            graph.records.append(&mut found.records);
            assert(graph@ =~= before + records);
            emit_reference_edges(policy, graph, &found.definitions, &found.bodies);
            Ok(())
        },
        Err(x) => Err(x),
    }
}

} // verus!
