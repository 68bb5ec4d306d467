//! Syntax trees.
//!
//! A tree is the list of its nodes in pre-order, each with its depth: the children of a node are
//! the nodes behind it that are one level deeper, up to the next one that is not deeper than it.
use vstd::prelude::*;

use crate::duplicate::{duplicate_opt, lemma_push};
use crate::ir::SourceSpan;
use crate::text::{byte_len, bytes_or_nothing, same, ByteIndex};

verus! {

/// The languages that are parsed.
#[derive(Debug, Clone, Copy, PartialEq, Eq, Structural)]
pub enum Grammar {
    Rust,
    TypeScript,
    Tsx,
}

/// A node of a syntax tree.
#[derive(Debug, PartialEq, Eq)]
pub struct SyntaxNode {
    pub kind: String,
    /// Whether the grammar names it; punctuation and keywords are not named.
    pub named: bool,
    /// The field of its parent that it fills.
    pub field: Option<String>,
    pub depth: u32,
    /// Whether it or a node below it is an error.
    pub has_error: bool,
    pub text: String,
    pub start_byte: usize,
    pub end_byte: usize,
    /// Rows and columns count from zero; columns count bytes.
    pub start_row: usize,
    pub end_row: usize,
    pub start_column: usize,
    pub end_column: usize,
}

#[verifier::ext_equal]
pub struct SyntaxNodeView {
    pub kind: Seq<char>,
    pub named: bool,
    pub field: Option<Seq<char>>,
    pub depth: int,
    pub has_error: bool,
    pub text: Seq<char>,
    pub start_byte: usize,
    pub end_byte: usize,
    pub start_row: usize,
    pub end_row: usize,
    pub start_column: usize,
    pub end_column: usize,
}

impl DeepView for SyntaxNode {
    type V = SyntaxNodeView;

    open spec fn deep_view(&self) -> SyntaxNodeView {
        SyntaxNodeView {
            kind: self.kind@,
            named: self.named,
            field: self.field.deep_view(),
            depth: self.depth as int,
            has_error: self.has_error,
            text: self.text@,
            start_byte: self.start_byte,
            end_byte: self.end_byte,
            start_row: self.start_row,
            end_row: self.end_row,
            start_column: self.start_column,
            end_column: self.end_column,
        }
    }
}

/// Why there is no tree.
#[derive(Debug, PartialEq, Eq)]
pub enum ParseError {
    /// The grammar could not be loaded.
    Language(String),
    /// The parser gave up.
    Parse,
}

#[verifier::ext_equal]
pub enum ParseErrorView {
    Language(Seq<char>),
    Parse,
}

impl DeepView for ParseError {
    type V = ParseErrorView;

    open spec fn deep_view(&self) -> ParseErrorView {
        match self {
            ParseError::Language(s) => ParseErrorView::Language(s@),
            ParseError::Parse => ParseErrorView::Parse,
        }
    }
}

/// A node as the parser gives it: without its text.
#[derive(Debug, PartialEq, Eq)]
pub struct RawNode {
    pub kind: String,
    pub named: bool,
    pub field: Option<String>,
    pub depth: u32,
    pub has_error: bool,
    pub start_byte: usize,
    pub end_byte: usize,
    pub start_row: usize,
    pub end_row: usize,
    pub start_column: usize,
    pub end_column: usize,
}

#[verifier::ext_equal]
pub struct RawNodeView {
    pub kind: Seq<char>,
    pub named: bool,
    pub field: Option<Seq<char>>,
    pub depth: int,
    pub has_error: bool,
    pub start_byte: usize,
    pub end_byte: usize,
    pub start_row: usize,
    pub end_row: usize,
    pub start_column: usize,
    pub end_column: usize,
}

impl DeepView for RawNode {
    type V = RawNodeView;

    open spec fn deep_view(&self) -> RawNodeView {
        RawNodeView {
            kind: self.kind@,
            named: self.named,
            field: self.field.deep_view(),
            depth: self.depth as int,
            has_error: self.has_error,
            start_byte: self.start_byte,
            end_byte: self.end_byte,
            start_row: self.start_row,
            end_row: self.end_row,
            start_column: self.start_column,
            end_column: self.end_column,
        }
    }
}

/// A parsed tree. What is inside is read node by node.
#[verifier::external_type_specification]
#[verifier::external_body]
pub struct ExTree(tree_sitter::Tree);

/// The nodes that a tree holds, in pre-order.
pub uninterp spec fn tree_nodes(tree: tree_sitter::Tree) -> Seq<RawNodeView>;

/// The nodes of the syntax tree of a source text, in pre-order.
pub uninterp spec fn parsed_nodes(grammar: Grammar, source: Seq<char>) -> Result<
    Seq<RawNodeView>,
    ParseErrorView,
>;

/// `tree_sitter::Parser::parse` with the grammar of a language, which `Parser::set_language` can
/// refuse. The tree depends on the text and the grammar alone. The parser counts bytes in 32 bits,
/// so a longer text is left out.
#[verifier::external_body]
fn parse_tree(grammar: Grammar, source: &str) -> (r: Result<tree_sitter::Tree, ParseError>)
    requires
        byte_len(source@) <= u32::MAX,
    ensures
        (match r {
            Ok(tree) => parsed_nodes(grammar, source@) == Ok::<Seq<RawNodeView>, ParseErrorView>(
                tree_nodes(tree),
            ),
            Err(e) => parsed_nodes(grammar, source@) == Err::<Seq<RawNodeView>, ParseErrorView>(
                e.deep_view(),
            ),
        }),
{
    let language = match grammar {
        Grammar::Rust => tree_sitter_rust::LANGUAGE,
        Grammar::TypeScript => tree_sitter_typescript::LANGUAGE_TYPESCRIPT,
        Grammar::Tsx => tree_sitter_typescript::LANGUAGE_TSX,
    };
    let mut parser = tree_sitter::Parser::new();
    parser.set_language(&language.into()).map_err(|e| ParseError::Language(e.to_string()))?;
    parser.parse(source, None).ok_or(ParseError::Parse)
}

/// The nodes that `TreeCursor::goto_descendant` reaches, in that order, each with what `Node` and
/// the cursor say of it.
#[verifier::external_body]
fn read_nodes(tree: &tree_sitter::Tree) -> (r: Vec<RawNode>)
    ensures
        r.deep_view() == tree_nodes(*tree),
{
    let mut cursor = tree.walk();
    let node_at = |i| {
        cursor.goto_descendant(i);
        let (n, r) = (cursor.node(), cursor.node().range());
        RawNode {
            kind: n.kind().to_owned(), named: n.is_named(), has_error: n.has_error(),
            field: cursor.field_name().map(str::to_owned), depth: cursor.depth(),
            start_byte: r.start_byte, start_row: r.start_point.row, start_column: r.start_point.column,
            end_byte: r.end_byte, end_row: r.end_point.row, end_column: r.end_point.column,
        }
    };
    (0..tree.root_node().descendant_count()).map(node_at).collect()
}

/// A node with its text, which is the part of the source between its two ends.
pub open spec fn with_text(n: RawNodeView, source: Seq<char>) -> SyntaxNodeView {
    SyntaxNodeView {
        kind: n.kind,
        named: n.named,
        field: n.field,
        depth: n.depth,
        has_error: n.has_error,
        text: bytes_or_nothing(source, n.start_byte as int, n.end_byte as int),
        start_byte: n.start_byte,
        end_byte: n.end_byte,
        start_row: n.start_row,
        end_row: n.end_row,
        start_column: n.start_column,
        end_column: n.end_column,
    }
}

pub open spec fn with_texts(nodes: Seq<RawNodeView>, source: Seq<char>) -> Seq<SyntaxNodeView> {
    nodes.map_values(|n: RawNodeView| with_text(n, source))
}

/// The syntax tree of a source text.
pub open spec fn syntax_of(grammar: Grammar, source: Seq<char>) -> Result<
    Seq<SyntaxNodeView>,
    ParseErrorView,
> {
    match parsed_nodes(grammar, source) {
        Ok(nodes) => Ok(with_texts(nodes, source)),
        Err(e) => Err(e),
    }
}

/// Gives the nodes of a tree their texts.
pub fn attach_texts(nodes: &Vec<RawNode>, source: &str) -> (r: Vec<SyntaxNode>)
    ensures
        r.deep_view() == with_texts(nodes.deep_view(), source@),
{
    let index: ByteIndex = ByteIndex::of(source);
    let ghost all = with_texts(nodes.deep_view(), source@);
    let mut out: Vec<SyntaxNode> = Vec::new();
    let mut i: usize = 0;
    assert(out.deep_view() =~= all.take(0));
    while i < nodes.len()
        invariant
            i <= nodes.len(),
            index.valid(),
            index.cs@ == source@,
            all == with_texts(nodes.deep_view(), source@),
            out.deep_view() == all.take(i as int),
        decreases nodes.len() - i,
    {
        let n: &RawNode = &nodes[i];
        let ghost before = out;
        out.push(
            SyntaxNode {
                kind: n.kind.clone(),
                named: n.named,
                field: duplicate_opt(&n.field),
                depth: n.depth,
                has_error: n.has_error,
                text: index.slice(n.start_byte, n.end_byte),
                start_byte: n.start_byte,
                end_byte: n.end_byte,
                start_row: n.start_row,
                end_row: n.end_row,
                start_column: n.start_column,
                end_column: n.end_column,
            },
        );
        proof {
            lemma_push(before, out);
            assert(nodes.deep_view()[i as int] == nodes@[i as int].deep_view());
            assert(all.take(i + 1) =~= all.take(i as int).push(all[i as int]));
        }
        i += 1;
    }
    assert(all.take(nodes.len() as int) =~= all);
    out
}

/// Parses a source text.
pub fn parse(grammar: Grammar, source: &str) -> (r: Result<Vec<SyntaxNode>, ParseError>)
    requires
        byte_len(source@) <= u32::MAX,
    ensures
        (match r {
            Ok(nodes) => syntax_of(grammar, source@) == Ok::<Seq<SyntaxNodeView>, ParseErrorView>(
                nodes.deep_view(),
            ),
            Err(e) => syntax_of(grammar, source@) == Err::<Seq<SyntaxNodeView>, ParseErrorView>(
                e.deep_view(),
            ),
        }),
{
    match parse_tree(grammar, source) {
        Ok(tree) => Ok(attach_texts(&read_nodes(&tree), source)),
        Err(e) => Err(e),
    }
}

// ── Reading nodes ───────────────────────────────────────────────────────────

/// Whether the node at `i` is of a kind.
pub open spec fn is_a(t: Seq<SyntaxNodeView>, i: int, kind: Seq<char>) -> bool {
    0 <= i < t.len() && t[i].kind == kind
}

pub fn has_kind(t: &Vec<SyntaxNode>, i: usize, kind: &str) -> (r: bool)
    ensures
        r == is_a(t.deep_view(), i as int, kind@),
{
    i < t.len() && same(t[i].kind.as_str(), kind)
}

/// The text of the node at `i`.
pub open spec fn text_at(t: Seq<SyntaxNodeView>, i: int) -> Seq<char> {
    if 0 <= i < t.len() {
        t[i].text
    } else {
        Seq::empty()
    }
}

pub fn node_text(t: &Vec<SyntaxNode>, i: usize) -> (r: &str)
    ensures
        r@ == text_at(t.deep_view(), i as int),
{
    if i < t.len() {
        t[i].text.as_str()
    } else {
        proof {
            reveal_strlit("");
            assert(""@ =~= Seq::<char>::empty());
        }
        ""
    }
}

/// The sum, or the largest number where it would be larger.
pub open spec fn plus(a: usize, b: usize) -> usize {
    if a + b <= usize::MAX {
        (a + b) as usize
    } else {
        usize::MAX
    }
}

pub fn saturating_plus(a: usize, b: usize) -> (r: usize)
    ensures
        r == plus(a, b),
{
    if a <= usize::MAX - b {
        a + b
    } else {
        usize::MAX
    }
}

/// The place of a node: lines count from one.
pub open spec fn span_of(n: SyntaxNodeView) -> SourceSpan {
    SourceSpan {
        start_byte: n.start_byte,
        end_byte: n.end_byte,
        start_line: plus(n.start_row, 1),
        end_line: plus(n.end_row, 1),
        start_column: Some(n.start_column),
        end_column: Some(n.end_column),
    }
}

pub fn span(n: &SyntaxNode) -> (r: SourceSpan)
    ensures
        r == span_of(n.deep_view()),
{
    SourceSpan {
        start_byte: n.start_byte,
        end_byte: n.end_byte,
        start_line: saturating_plus(n.start_row, 1),
        end_line: saturating_plus(n.end_row, 1),
        start_column: Some(n.start_column),
        end_column: Some(n.end_column),
    }
}

// ── Children ────────────────────────────────────────────────────────────────

/// The children of the node at `i` from position `j` on, or only those that are named.
pub open spec fn children_from(t: Seq<SyntaxNodeView>, i: int, j: int, named: bool) -> Seq<int>
    decreases t.len() - j,
{
    if j <= i || j >= t.len() || t[j].depth <= t[i].depth {
        Seq::empty()
    } else if t[j].depth == t[i].depth + 1 && (t[j].named || !named) {
        seq![j] + children_from(t, i, j + 1, named)
    } else {
        children_from(t, i, j + 1, named)
    }
}

pub open spec fn children(t: Seq<SyntaxNodeView>, i: int) -> Seq<int> {
    children_from(t, i, i + 1, false)
}

pub open spec fn named_children(t: Seq<SyntaxNodeView>, i: int) -> Seq<int> {
    children_from(t, i, i + 1, true)
}

/// Children come behind their parent.
pub proof fn lemma_children(t: Seq<SyntaxNodeView>, i: int, j: int, named: bool)
    requires
        0 <= i < j,
    ensures
        forall|k: int|
            0 <= k < children_from(t, i, j, named).len() ==> j <= #[trigger] children_from(
                t,
                i,
                j,
                named,
            )[k] < t.len(),
    decreases t.len() - j,
{
    if j < t.len() && t[j].depth > t[i].depth {
        lemma_children(t, i, j + 1, named);
        let rest = children_from(t, i, j + 1, named);
        let all = children_from(t, i, j, named);
        assert forall|k: int| 0 <= k < all.len() implies j <= #[trigger] all[k] < t.len() by {
            if all != rest {
                assert(all =~= seq![j] + rest);
                if k > 0 {
                    assert(all[k] == rest[k - 1]);
                }
            } else {
                assert(j + 1 <= rest[k]);
            }
        }
    }
}

/// Positions as mathematical numbers.
pub open spec fn positions(v: Seq<usize>) -> Seq<int> {
    v.map_values(|x: usize| x as int)
}

fn collect_children(t: &Vec<SyntaxNode>, i: usize, named: bool) -> (r: Vec<usize>)
    requires
        i < t.len(),
    ensures
        positions(r@) == children_from(t.deep_view(), i as int, i + 1, named),
        forall|k: int| 0 <= k < r@.len() ==> i < #[trigger] r@[k] < t.len(),
{
    let ghost tv = t.deep_view();
    let ghost all = children_from(tv, i as int, i + 1, named);
    let mut out: Vec<usize> = Vec::new();
    let mut j: usize = i + 1;
    assert(positions(out@) + all =~= all);
    while j < t.len() && t[j].depth > t[i].depth
        invariant
            i < j <= t.len(),
            tv == t.deep_view(),
            all == children_from(tv, i as int, i + 1, named),
            all == positions(out@) + children_from(tv, i as int, j as int, named),
            forall|k: int| 0 <= k < out@.len() ==> i < #[trigger] out@[k] < t.len(),
        decreases t.len() - j,
    {
        assert(tv[j as int] == t@[j as int].deep_view());
        assert(tv[i as int] == t@[i as int].deep_view());
        if t[j].depth - t[i].depth == 1 && (t[j].named || !named) {
            let ghost before = positions(out@);
            let ghost rest = children_from(tv, i as int, j + 1, named);
            out.push(j);
            proof {
                assert(positions(out@) =~= before.push(j as int));
                assert(before + (seq![j as int] + rest) =~= positions(out@) + rest);
            }
        }
        j += 1;
    }
    proof {
        if j < t.len() {
            assert(tv[j as int] == t@[j as int].deep_view());
            assert(tv[i as int] == t@[i as int].deep_view());
        }
        assert(positions(out@) + Seq::<int>::empty() =~= positions(out@));
    }
    out
}

pub fn child_list(t: &Vec<SyntaxNode>, i: usize) -> (r: Vec<usize>)
    requires
        i < t.len(),
    ensures
        positions(r@) == children(t.deep_view(), i as int),
        forall|k: int| 0 <= k < r@.len() ==> i < #[trigger] r@[k] < t.len(),
{
    collect_children(t, i, false)
}

pub fn named_child_list(t: &Vec<SyntaxNode>, i: usize) -> (r: Vec<usize>)
    requires
        i < t.len(),
    ensures
        positions(r@) == named_children(t.deep_view(), i as int),
        forall|k: int| 0 <= k < r@.len() ==> i < #[trigger] r@[k] < t.len(),
{
    collect_children(t, i, true)
}

/// The first child from position `j` on that fills a field.
pub open spec fn field_from(t: Seq<SyntaxNodeView>, i: int, j: int, field: Seq<char>) -> Option<int>
    decreases t.len() - j,
{
    if j <= i || j >= t.len() || t[j].depth <= t[i].depth {
        None
    } else if t[j].depth == t[i].depth + 1 && t[j].field == Some(field) {
        Some(j)
    } else {
        field_from(t, i, j + 1, field)
    }
}

/// The child of the node at `i` that fills a field.
pub open spec fn field_child(t: Seq<SyntaxNodeView>, i: int, field: Seq<char>) -> Option<int> {
    field_from(t, i, i + 1, field)
}

pub fn find_field(t: &Vec<SyntaxNode>, i: usize, field: &str) -> (r: Option<usize>)
    requires
        i < t.len(),
    ensures
        (match r {
            Some(j) => field_child(t.deep_view(), i as int, field@) == Some(j as int) && i < j
                < t.len(),
            None => field_child(t.deep_view(), i as int, field@) is None,
        }),
{
    let ghost tv = t.deep_view();
    let mut j: usize = i + 1;
    while j < t.len() && t[j].depth > t[i].depth
        invariant
            i < j <= t.len(),
            tv == t.deep_view(),
            field_child(tv, i as int, field@) == field_from(tv, i as int, j as int, field@),
        decreases t.len() - j,
    {
        assert(tv[j as int] == t@[j as int].deep_view());
        assert(tv[i as int] == t@[i as int].deep_view());
        if t[j].depth - t[i].depth == 1 {
            if let Some(f) = &t[j].field {
                if same(f.as_str(), field) {
                    return Some(j);
                }
            }
        }
        j += 1;
    }
    proof {
        if j < t.len() {
            assert(tv[j as int] == t@[j as int].deep_view());
            assert(tv[i as int] == t@[i as int].deep_view());
        }
    }
    None
}

/// The first child of a kind among some positions.
pub open spec fn first_of_kind(t: Seq<SyntaxNodeView>, of: Seq<int>, kind: Seq<char>) -> Option<int>
    decreases of.len(),
{
    if of.len() == 0 {
        None
    } else if is_a(t, of[0], kind) {
        Some(of[0])
    } else {
        first_of_kind(t, of.drop_first(), kind)
    }
}

pub fn find_first_of_kind(t: &Vec<SyntaxNode>, of: &Vec<usize>, kind: &str) -> (r: Option<usize>)
    ensures
        (match r {
            Some(j) => first_of_kind(t.deep_view(), positions(of@), kind@) == Some(j as int)
                && of@.contains(j) && j < t.len(),
            None => first_of_kind(t.deep_view(), positions(of@), kind@) is None,
        }),
{
    let ghost tv = t.deep_view();
    let ghost all = positions(of@);
    let mut k: usize = 0;
    assert(all.skip(0) =~= all);
    while k < of.len()
        invariant
            k <= of.len(),
            tv == t.deep_view(),
            all == positions(of@),
            first_of_kind(tv, all, kind@) == first_of_kind(tv, all.skip(k as int), kind@),
        decreases of.len() - k,
    {
        proof {
            assert(all.skip(k as int)[0] == of@[k as int] as int);
            assert(all.skip(k as int).drop_first() =~= all.skip(k + 1));
        }
        if has_kind(t, of[k], kind) {
            assert(of@.contains(of@[k as int]));
            return Some(of[k]);
        }
        k += 1;
    }
    None
}

// ── Neighbours ──────────────────────────────────────────────────────────────

/// The nearest node in front of position `j` that is less deep than the node at `i`.
pub open spec fn parent_from(t: Seq<SyntaxNodeView>, i: int, j: int) -> Option<int>
    decreases j,
{
    if j <= 0 || j > t.len() {
        None
    } else if t[j - 1].depth < t[i].depth {
        Some(j - 1)
    } else {
        parent_from(t, i, j - 1)
    }
}

/// The parent of the node at `i`.
pub open spec fn parent(t: Seq<SyntaxNodeView>, i: int) -> Option<int> {
    parent_from(t, i, i)
}

pub fn find_parent(t: &Vec<SyntaxNode>, i: usize) -> (r: Option<usize>)
    requires
        i < t.len(),
    ensures
        (match r {
            Some(j) => parent(t.deep_view(), i as int) == Some(j as int) && j < i,
            None => parent(t.deep_view(), i as int) is None,
        }),
{
    let ghost tv = t.deep_view();
    let mut j: usize = i;
    while j > 0
        invariant
            j <= i < t.len(),
            tv == t.deep_view(),
            parent(tv, i as int) == parent_from(tv, i as int, j as int),
        decreases j,
    {
        assert(tv[j - 1] == t@[j - 1].deep_view());
        assert(tv[i as int] == t@[i as int].deep_view());
        if t[j - 1].depth < t[i].depth {
            return Some(j - 1);
        }
        j -= 1;
    }
    None
}

/// The nearest sibling in front of position `j` of the node at `i`, or the nearest named one.
pub open spec fn sibling_from(t: Seq<SyntaxNodeView>, i: int, j: int, named: bool) -> Option<int>
    decreases j,
{
    if j <= 0 || j > t.len() || t[j - 1].depth < t[i].depth {
        None
    } else if t[j - 1].depth == t[i].depth && (t[j - 1].named || !named) {
        Some(j - 1)
    } else {
        sibling_from(t, i, j - 1, named)
    }
}

/// The sibling just in front of the node at `i`.
pub open spec fn prev_sibling(t: Seq<SyntaxNodeView>, i: int) -> Option<int> {
    sibling_from(t, i, i, false)
}

pub open spec fn prev_named_sibling(t: Seq<SyntaxNodeView>, i: int) -> Option<int> {
    sibling_from(t, i, i, true)
}

pub fn find_sibling(t: &Vec<SyntaxNode>, i: usize, named: bool) -> (r: Option<usize>)
    requires
        i < t.len(),
    ensures
        (match r {
            Some(j) => sibling_from(t.deep_view(), i as int, i as int, named) == Some(j as int)
                && j < i,
            None => sibling_from(t.deep_view(), i as int, i as int, named) is None,
        }),
{
    let ghost tv = t.deep_view();
    let mut j: usize = i;
    while j > 0
        invariant
            j <= i < t.len(),
            tv == t.deep_view(),
            sibling_from(tv, i as int, i as int, named) == sibling_from(
                tv,
                i as int,
                j as int,
                named,
            ),
        decreases j,
    {
        assert(tv[j - 1] == t@[j - 1].deep_view());
        assert(tv[i as int] == t@[i as int].deep_view());
        if t[j - 1].depth < t[i].depth {
            return None;
        }
        if t[j - 1].depth == t[i].depth && (t[j - 1].named || !named) {
            return Some(j - 1);
        }
        j -= 1;
    }
    None
}

// ── Descendants ─────────────────────────────────────────────────────────────

/// The first named node of a kind below the node at `i`, from position `j` on. Nodes below one
/// that is not named do not count.
pub open spec fn descendant_from(
    t: Seq<SyntaxNodeView>,
    i: int,
    j: int,
    hidden: Option<int>,
    kind: Seq<char>,
) -> Option<int>
    decreases t.len() - j,
{
    if j <= i || j >= t.len() || t[j].depth <= t[i].depth {
        None
    } else if hidden is Some && t[j].depth > hidden->0 {
        descendant_from(t, i, j + 1, hidden, kind)
    } else if !t[j].named {
        descendant_from(t, i, j + 1, Some(t[j].depth), kind)
    } else if t[j].kind == kind {
        Some(j)
    } else {
        descendant_from(t, i, j + 1, None, kind)
    }
}

pub open spec fn first_descendant(t: Seq<SyntaxNodeView>, i: int, kind: Seq<char>) -> Option<int> {
    descendant_from(t, i, i + 1, None, kind)
}

pub fn first_descendant_of_kind(t: &Vec<SyntaxNode>, i: usize, kind: &str) -> (r: Option<usize>)
    requires
        i < t.len(),
    ensures
        (match r {
            Some(j) => first_descendant(t.deep_view(), i as int, kind@) == Some(j as int) && i < j
                < t.len(),
            None => first_descendant(t.deep_view(), i as int, kind@) is None,
        }),
{
    let ghost tv = t.deep_view();
    let mut hidden: Option<u32> = None;
    let mut j: usize = i + 1;
    while j < t.len() && t[j].depth > t[i].depth
        invariant
            i < j <= t.len(),
            tv == t.deep_view(),
            first_descendant(tv, i as int, kind@) == descendant_from(
                tv,
                i as int,
                j as int,
                match hidden {
                    Some(d) => Some(d as int),
                    None => None,
                },
                kind@,
            ),
        decreases t.len() - j,
    {
        assert(tv[j as int] == t@[j as int].deep_view());
        assert(tv[i as int] == t@[i as int].deep_view());
        let below: bool = match hidden {
            Some(d) => t[j].depth > d,
            None => false,
        };
        if !below {
            if !t[j].named {
                hidden = Some(t[j].depth);
            } else if same(t[j].kind.as_str(), kind) {
                return Some(j);
            } else {
                hidden = None;
            }
        }
        j += 1;
    }
    proof {
        if j < t.len() {
            assert(tv[j as int] == t@[j as int].deep_view());
            assert(tv[i as int] == t@[i as int].deep_view());
        }
    }
    None
}

} // verus!
