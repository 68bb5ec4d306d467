//! What a Rust item shows of itself, and what an impl leads to.
use vstd::prelude::*;

use crate::ir::{EdgeLabel, EdgeRecordView, NodeKind, NodeRecordView, RecordView};
use crate::languages::rust::extract::{
    enter, with_markers, with_named, with_symbol, with_unsafe_item, FileSourceView, FindingsView,
    PendingImplEdgeView,
};
use crate::languages::rust::file::tree_findings;
use crate::languages::rust::impls::ImplTargetDecisionView;
use crate::languages::rust::items::documentation;
use crate::languages::rust::markers::{category_of, marker, markers_from, CommentMarkerView};
use crate::languages::rust::resolve::resolve_one;
use crate::languages::rust::scope::{qualified, ScopeView};
use crate::languages::rust::tree::{modifier, negative_impl};
use crate::languages::syntax::{
    children, field_child, first_of_kind, is_a, prev_sibling, text_at, SyntaxNodeView,
};
use crate::laws::languages::{law_markers_are_whole_words, whole_word};
use crate::laws::rust_items::{lemma_kinds_differ, lemma_stays};
use crate::laws::rust_sites::lemma_enter_impl;
use crate::laws::rust_walk::{
    grows, in_the_open, lemma_visit, lemma_visited,
};
use crate::policy::Redactor;
use crate::text::{has, joined, lowered, right_trimmed, starts, trimmed, without_white};

verus! {

// ── Visibility ──────────────────────────────────────────────────────────────

/// The item has no modifier of its visibility.
pub open spec fn is_unmodified(t: Seq<SyntaxNodeView>, i: int) -> bool {
    forall|k: int|
        0 <= k < children(t, i).len() ==> !is_a(
            t,
            #[trigger] children(t, i)[k],
            "visibility_modifier"@,
        )
}

proof fn lemma_unmodified(t: Seq<SyntaxNodeView>, kids: Seq<int>)
    requires
        forall|k: int| 0 <= k < kids.len() ==> !is_a(t, #[trigger] kids[k], "visibility_modifier"@),
    ensures
        first_of_kind(t, kids, "visibility_modifier"@) is None,
    decreases kids.len(),
{
    if kids.len() > 0 {
        assert(!is_a(t, kids[0], "visibility_modifier"@));
        let tail = kids.drop_first();
        assert forall|k: int| 0 <= k < tail.len() implies !is_a(
            t,
            #[trigger] tail[k],
            "visibility_modifier"@,
        ) by {
            assert(tail[k] == kids[k + 1]);
        }
        lemma_unmodified(t, tail);
    }
}

/// A symbol of an item says who sees it.
pub proof fn law_symbols_say_who_sees_them<R: Redactor>(
    e: FileSourceView<R>,
    t: Seq<SyntaxNodeView>,
    i: int,
    kind: Seq<char>,
    name: Seq<char>,
    sc: ScopeView,
    out: FindingsView,
)
    requires
        kind == "function"@ || kind == "method"@ || kind == "struct"@ || kind == "enum"@ || kind
            == "trait"@ || kind == "const"@ || kind == "static"@ || kind == "type_alias"@ || kind
            == "test"@,
    ensures
        with_symbol(e, t, i, kind, name, sc, out).records[out.records.len() as int] matches
            RecordView::Node(n) && {
            &&& is_unmodified(t, i) ==> n.code.visibility == Some("private"@)
            &&& modifier(t, i) matches Some(m) ==> {
                let text = without_white(text_at(t, m));
                &&& text == "pub"@ ==> n.code.visibility == Some("public"@)
                &&& text == "pub(crate)"@ ==> n.code.visibility == Some("crate"@)
                &&& text == "pub(self)"@ ==> n.code.visibility == Some("private"@)
                &&& text == "pub(super)"@ ==> n.code.visibility == Some("restricted"@)
            }
            &&& n.code.doc == documentation(e.redact, t, i)
        },
{
    reveal_strlit("pub");
    reveal_strlit("pub(crate)");
    reveal_strlit("pub(self)");
    reveal_strlit("pub(super)");
    assert("pub"@.len() == 3 && "pub(crate)"@.len() == 10 && "pub(self)"@.len() == 9);
    assert("pub(super)"@.len() == 10 && "pub(super)"@[4] == 's' && "pub(crate)"@[4] == 'c');
    if is_unmodified(t, i) {
        lemma_unmodified(t, children(t, i));
    }
}

/// A line of documentation in front of an item is its documentation.
pub proof fn law_doc_lines_are_kept<R: Redactor>(
    redact: R,
    t: Seq<SyntaxNodeView>,
    i: int,
    s: int,
    line: Seq<char>,
)
    requires
        prev_sibling(t, i) == Some(s),
        0 <= s < i,
        is_a(t, s, "line_comment"@),
        text_at(t, s) == "/// "@ + line,
        right_trimmed("/// "@ + line) == "/// "@ + line,
        prev_sibling(t, s) is None,
        trimmed(line).len() > 0,
    ensures
        documentation(redact, t, i) == Some(redact.redacted(trimmed(line))),
{
    let text = "/// "@ + line;
    reveal_strlit("/// ");
    reveal_strlit("///");
    reveal_strlit("/");
    reveal_strlit(" ");
    assert(text.subrange(0, 3) =~= "///"@);
    let rest = text.skip(3);
    assert(rest[0] == ' ');
    assert(rest.subrange(0, 1)[0] == ' ');
    assert(starts(rest, "/"@) == false);
    assert(rest.subrange(0, 1) =~= " "@);
    assert(rest.skip(1) =~= line);
    let parts = crate::languages::rust::items::doc_parts(t, i);
    assert(crate::languages::rust::items::doc_parts(t, s) =~= Seq::empty());
    assert(parts =~= seq![line]);
    assert(parts.drop_last() =~= Seq::empty());
    assert(joined(parts, "\n"@) == line);
}

// ── Markers ─────────────────────────────────────────────────────────────────

/// The words that mark a debt.
pub open spec fn is_debt(word: Seq<char>) -> bool {
    word == "todo"@ || word == "fixme"@ || word == "hack"@ || word == "xxx"@
}

proof fn lemma_marker_recorded<R: Redactor>(
    e: FileSourceView<R>,
    n: SyntaxNodeView,
    ms: Seq<CommentMarkerView>,
    out: FindingsView,
    k: int,
) -> (r: (NodeRecordView, EdgeRecordView))
    requires
        0 <= k < ms.len(),
    ensures
        with_markers(e, n, ms, out).records.contains(RecordView::Node(r.0)),
        with_markers(e, n, ms, out).records.contains(RecordView::Edge(r.1)),
        is_debt_node(e, r.0, r.1, ms[k].category, ms[k].note),
    decreases ms.len(),
{
    let rest = ms.drop_last();
    let before = with_markers(e, n, rest, out);
    let all = with_markers(e, n, ms, out);
    let m = before.records.len() as int;
    if k < rest.len() {
        assert(rest[k] == ms[k]);
        let (node, edge) = lemma_marker_recorded(e, n, rest, out, k);
        assert(grows(before.records, all.records));
        let a = choose|a: int|
            0 <= a < before.records.len() && before.records[a] == RecordView::Node(node);
        let b = choose|b: int|
            0 <= b < before.records.len() && before.records[b] == RecordView::Edge(edge);
        lemma_stays(before.records, all.records, a);
        lemma_stays(before.records, all.records, b);
        (node, edge)
    } else {
        let node = all.records[m]->Node_0;
        let edge = all.records[m + 1]->Edge_0;
        assert(all.records[m] == RecordView::Node(node));
        assert(all.records[m + 1] == RecordView::Edge(edge));
        (node, edge)
    }
}

/// The record of a marker, and the edge of the file to it.
pub open spec fn is_debt_node<R: Redactor>(
    e: FileSourceView<R>,
    n: NodeRecordView,
    edge: EdgeRecordView,
    word: Seq<char>,
    note: Seq<char>,
) -> bool {
    &&& n.kind == NodeKind::DebtMarker
    &&& n.name == Some(word)
    &&& n.code.note == Some(e.redact.redacted(note))
    &&& edge.label == EdgeLabel::Contains
    &&& edge.source == e.file_id
    &&& edge.target == n.id
}

proof fn lemma_enter_comment<R: Redactor>(
    e: FileSourceView<R>,
    t: Seq<SyntaxNodeView>,
    j: int,
    sc: ScopeView,
    out: FindingsView,
)
    requires
        is_a(t, j, "line_comment"@) || is_a(t, j, "block_comment"@),
    ensures
        enter(e, t, j, sc, out).out == with_markers(
            e,
            t[j],
            markers_from(text_at(t, j), 0),
            out,
        ),
{
    reveal(enter);
    lemma_kinds_differ();
}

/// Every word in a comment that marks a debt, in whatever case, is recorded with its note.
pub proof fn law_debt_markers_are_recorded<R: Redactor>(
    e: FileSourceView<R>,
    t: Seq<SyntaxNodeView>,
    j: int,
    a: int,
    b: int,
)
    requires
        in_the_open(t, j),
        is_a(t, j, "line_comment"@) || is_a(t, j, "block_comment"@),
        whole_word(text_at(t, j), a, b),
        is_debt(lowered(text_at(t, j).subrange(a, b))),
    ensures
        exists|n: NodeRecordView, edge: EdgeRecordView|
            {
                &&& tree_findings(e, t).records.contains(RecordView::Node(n))
                &&& tree_findings(e, t).records.contains(RecordView::Edge(edge))
                &&& #[trigger] is_debt_node(
                    e,
                    n,
                    edge,
                    lowered(text_at(t, j).subrange(a, b)),
                    marker(
                        text_at(t, j),
                        a,
                        b,
                        lowered(text_at(t, j).subrange(a, b)),
                    ).note,
                )
            },
{
    let found = tree_findings(e, t);
    let (sc, out) = lemma_visited(e, t, j);
    lemma_visit(e, t, j, sc, out, found);
    lemma_enter_comment(e, t, j, sc, out);
    let text = text_at(t, j);
    let word = lowered(text.subrange(a, b));
    lemma_debts(text.subrange(a, b));
    law_markers_are_whole_words(text);
    let ms = markers_from(text, 0);
    let m = marker(text, a, b, word);
    assert(ms.contains(m));
    let k = choose|k: int| 0 <= k < ms.len() && ms[k] == m;
    let (n, edge) = lemma_marker_recorded(e, t[j], ms, out, k);
    let step = enter(e, t, j, sc, out).out;
    let x = choose|x: int| 0 <= x < step.records.len() && step.records[x] == RecordView::Node(n);
    let y = choose|y: int| 0 <= y < step.records.len() && step.records[y] == RecordView::Edge(edge);
    lemma_stays(step.records, found.records, x);
    lemma_stays(step.records, found.records, y);
    assert(is_debt_node(e, n, edge, word, m.note));
}

proof fn lemma_debts(word: Seq<char>)
    requires
        is_debt(lowered(word)),
    ensures
        category_of(word) == Some(lowered(word)),
{
    reveal_strlit("todo");
    reveal_strlit("fixme");
    reveal_strlit("hack");
    reveal_strlit("xxx");
    assert("todo"@.len() == 4 && "hack"@.len() == 4 && "fixme"@.len() == 5 && "xxx"@.len() == 3);
    assert("todo"@[0] == 't' && "hack"@[0] == 'h');
}

// ── Impls ───────────────────────────────────────────────────────────────────

/// An impl of a type, without parameters, leads to that type; an impl of a trait for a type that
/// has a name leads to the trait.
pub proof fn law_impls_lead_to_their_target<R: Redactor>(
    e: FileSourceView<R>,
    t: Seq<SyntaxNodeView>,
    i: int,
    ty: int,
    sc: ScopeView,
    out: FindingsView,
)
    requires
        is_a(t, i, "impl_item"@),
        field_child(t, i, "type"@) == Some(ty),
        0 <= ty < t.len(),
        is_a(t, ty, "type_identifier"@),
        !t[ty].has_error,
        field_child(t, i, "type_parameters"@) is None,
    ensures
        ({
            let next = with_unsafe_item(e, t, i, "impl"@, out);
            let all = enter(e, t, i, sc, out).out;
            let p = all.pending.last();
            &&& all.pending.len() == out.pending.len() + 1
            &&& all.records[next.records.len() as int] matches RecordView::Node(n) && p.source_id
                == n.id
            &&& p.module_names == sc.modules
            &&& field_child(t, i, "trait"@) is None ==> p.decision
                == ImplTargetDecisionView::Resolve(trimmed(t[ty].text))
            &&& field_child(t, i, "trait"@) matches Some(tr) ==> (0 <= tr < t.len() && is_a(
                t,
                tr,
                "type_identifier"@,
            ) && trimmed(t[tr].text).len() > 0 && !negative_impl(t, i) ==> p.decision
                == ImplTargetDecisionView::Resolve(trimmed(t[tr].text)))
        }),
{
    lemma_enter_impl(e, t, i, sc, out);
    reveal_strlit("type_identifier");
    reveal_strlit("generic_type");
    reveal_strlit("reference_type");
    reveal_strlit("pointer_type");
    assert("type_identifier"@.len() == 15 && "generic_type"@.len() == 12);
    assert("reference_type"@.len() == 14 && "pointer_type"@.len() == 12);
    let next = with_unsafe_item(e, t, i, "impl"@, out);
    assert(next.pending == out.pending);
}

/// An impl whose target the module itself declares gets an edge to it.
pub proof fn law_declared_targets_get_an_edge(
    crate_root: Seq<char>,
    p: PendingImplEdgeView,
    out: FindingsView,
    target: Seq<char>,
    id: Seq<char>,
)
    requires
        p.decision == ImplTargetDecisionView::Resolve(target),
        has(target, "::"@) == false,
        crate::assoc::lookup(out.qualified, qualified(p.module_names, target)) == Some(id),
    ensures
        ({
            let all = resolve_one(crate_root, p, out).records;
            all.len() == out.records.len() + 1 && (all.last() matches RecordView::Edge(edge)
                && edge.label == EdgeLabel::Implements && edge.source == p.source_id && edge.target
                == id)
        }),
{
}

/// A struct, an enum, a trait or an alias can be led to under its qualified name.
pub proof fn law_types_can_be_led_to<R: Redactor>(
    e: FileSourceView<R>,
    t: Seq<SyntaxNodeView>,
    i: int,
    kind: Seq<char>,
    local: Seq<char>,
    sc: ScopeView,
    out: FindingsView,
)
    requires
        kind == "struct"@ || kind == "enum"@ || kind == "trait"@ || kind == "type_alias"@,
    ensures
        ({
            let all = with_named(e, t, i, kind, local, sc, out);
            all.records[out.records.len() as int] matches RecordView::Node(n)
                && crate::assoc::lookup(all.qualified, qualified(sc.modules, local)) == Some(n.id)
                && crate::assoc::lookup(all.types, local) == Some(n.id)
        }),
{
}

} // verus!
