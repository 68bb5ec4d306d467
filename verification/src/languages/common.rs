//! What the extractors share.
use vstd::prelude::*;

use crate::ir::{Graph, GraphRecord, RecordView};
use crate::languages::syntax::{
    field_child, find_field, has_kind, is_a, node_text, text_at, Grammar, SyntaxNode, SyntaxNodeView,
};
use crate::policy::CodePolicy;
use crate::text::same;

verus! {

/// The body of a function, for the search for references. What lies in a comment or a literal is
/// none of it.
#[derive(Debug, PartialEq, Eq)]
pub struct SymbolBody {
    pub id: String,
    pub name: String,
    pub text: String,
    pub start_byte: usize,
    /// The bytes of the file that do not count, as start and end.
    pub excluded: Vec<(usize, usize)>,
}

#[verifier::ext_equal]
pub struct SymbolBodyView {
    pub id: Seq<char>,
    pub name: Seq<char>,
    pub text: Seq<char>,
    pub start_byte: usize,
    pub excluded: Seq<(usize, usize)>,
}

impl DeepView for SymbolBody {
    type V = SymbolBodyView;

    open spec fn deep_view(&self) -> SymbolBodyView {
        SymbolBodyView {
            id: self.id@,
            name: self.name@,
            text: self.text@,
            start_byte: self.start_byte,
            excluded: self.excluded@,
        }
    }
}

/// How often a name has been numbered in a class.
pub open spec fn ordinal(
    counted: Seq<(Seq<char>, Seq<char>)>,
    class: Seq<char>,
    name: Seq<char>,
) -> nat
    decreases counted.len(),
{
    if counted.len() == 0 {
        0
    } else {
        ordinal(counted.drop_last(), class, name) + if counted.last() == (class, name) {
            1nat
        } else {
            0
        }
    }
}

pub fn count_ordinal(counted: &Vec<(String, String)>, class: &str, name: &str) -> (n: u64)
    ensures
        n == ordinal(counted.deep_view(), class@, name@),
{
    let ghost all = counted.deep_view();
    let mut n: u64 = 0;
    let mut i: usize = 0;
    while i < counted.len()
        invariant
            i <= counted.len(),
            all == counted.deep_view(),
            n <= i,
            n == ordinal(all.take(i as int), class@, name@),
        decreases counted.len() - i,
    {
        proof {
            assert(all.take(i + 1).drop_last() =~= all.take(i as int));
            assert(all.take(i + 1).last() == counted@[i as int].deep_view());
        }
        if same(counted[i].0.as_str(), class) && same(counted[i].1.as_str(), name) {
            n += 1;
        }
        i += 1;
    }
    assert(all.take(all.len() as int) =~= all);
    n
}

/// The name of an item.
pub open spec fn item_name(t: Seq<SyntaxNodeView>, i: int) -> Option<Seq<char>> {
    match field_child(t, i, "name"@) {
        Some(n) => Some(text_at(t, n)),
        None => None,
    }
}

pub fn node_name(t: &Vec<SyntaxNode>, i: usize) -> (r: Option<String>)
    requires
        i < t.len(),
    ensures
        r.deep_view() == item_name(t.deep_view(), i as int),
{
    match find_field(t, i, "name") {
        Some(n) => Some(node_text(t, n).to_owned()),
        None => None,
    }
}

/// A comment or a literal: what it says is no reference. What a template inserts is.
pub open spec fn unreferenced(g: Grammar, t: Seq<SyntaxNodeView>, i: int) -> bool {
    match g {
        Grammar::Rust => is_a(t, i, "line_comment"@) || is_a(t, i, "block_comment"@) || is_a(
            t,
            i,
            "string_literal"@,
        ) || is_a(t, i, "raw_string_literal"@) || is_a(t, i, "char_literal"@),
        _ => is_a(t, i, "comment"@) || is_a(t, i, "string_fragment"@) || is_a(t, i, "regex_pattern"@),
    }
}

fn is_unreferenced(g: Grammar, t: &Vec<SyntaxNode>, i: usize) -> (r: bool)
    ensures
        r == unreferenced(g, t.deep_view(), i as int),
{
    match g {
        Grammar::Rust => has_kind(t, i, "line_comment") || has_kind(t, i, "block_comment")
            || has_kind(t, i, "string_literal") || has_kind(t, i, "raw_string_literal") || has_kind(
            t,
            i,
            "char_literal",
        ),
        _ => has_kind(t, i, "comment") || has_kind(t, i, "string_fragment") || has_kind(
            t,
            i,
            "regex_pattern",
        ),
    }
}

/// The comments and literals below the node at `i`, from position `j` on.
pub open spec fn excluded_from(
    g: Grammar,
    t: Seq<SyntaxNodeView>,
    i: int,
    j: int,
) -> Seq<(usize, usize)>
    decreases t.len() - j,
{
    if j <= i || j >= t.len() || t[j].depth <= t[i].depth {
        Seq::empty()
    } else if unreferenced(g, t, j) {
        seq![(t[j].start_byte, t[j].end_byte)] + excluded_from(g, t, i, j + 1)
    } else {
        excluded_from(g, t, i, j + 1)
    }
}

pub fn collect_excluded(g: Grammar, t: &Vec<SyntaxNode>, i: usize) -> (r: Vec<(usize, usize)>)
    requires
        i < t.len(),
    ensures
        r@ == excluded_from(g, t.deep_view(), i as int, i + 1),
{
    let ghost tv = t.deep_view();
    let ghost all = excluded_from(g, tv, i as int, i + 1);
    let mut out: Vec<(usize, usize)> = Vec::new();
    let mut j: usize = i + 1;
    assert(out@ + all =~= all);
    while j < t.len() && t[j].depth > t[i].depth
        invariant
            i < j <= t.len(),
            tv == t.deep_view(),
            all == excluded_from(g, tv, i as int, i + 1),
            all == out@ + excluded_from(g, tv, i as int, j as int),
        decreases t.len() - j,
    {
        assert(tv[j as int] == t@[j as int].deep_view());
        assert(tv[i as int] == t@[i as int].deep_view());
        if is_unreferenced(g, t, j) {
            let ghost before = out@;
            let ghost rest = excluded_from(g, tv, i as int, j + 1);
            out.push((t[j].start_byte, t[j].end_byte));
            assert(before + (seq![(t@[j as int].start_byte, t@[j as int].end_byte)] + rest) =~= out@
                + rest);
        }
        j += 1;
    }
    proof {
        if j < t.len() {
            assert(tv[j as int] == t@[j as int].deep_view());
            assert(tv[i as int] == t@[i as int].deep_view());
        }
        assert(out@ + Seq::<(usize, usize)>::empty() =~= out@);
    }
    out
}

// ── References ──────────────────────────────────────────────────────────────

/// The records with the references inside the file behind them.
pub open spec fn with_references<P: CodePolicy>(
    policy: P,
    records: Seq<RecordView>,
    definitions: Seq<(Seq<char>, Seq<char>)>,
    bodies: Seq<SymbolBodyView>,
) -> Seq<RecordView> {
    records + policy.references(records, definitions, bodies)
}

pub fn emit_reference_edges<P: CodePolicy>(
    policy: &P,
    graph: &mut Graph,
    definitions: &Vec<(String, String)>,
    bodies: &Vec<SymbolBody>,
)
    ensures
        final(graph)@ == with_references(
            *policy,
            old(graph)@,
            definitions.deep_view(),
            bodies.deep_view(),
        ),
{
    let ghost before = graph@;
    let mut edges: Vec<GraphRecord> = policy.reference_edges(&graph.records, definitions, bodies);
    let ghost added = edges.deep_view();
    graph.records.append(&mut edges);
    assert(graph@ =~= before + added);
}

} // verus!
