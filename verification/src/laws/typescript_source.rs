//! What extraction from TypeScript source keeps.
use vstd::prelude::*;

use crate::ir::{EdgeLabel, NodeKind, RecordView};
use crate::languages::common::item_name;
use crate::languages::syntax::{named_children, SyntaxNodeView};
use crate::languages::typescript::{
    enter, enter_named, inherited, is_declaration, tree_findings, walk_over, walked,
    with_declarator, with_declarators, with_import, PendingHeritageView, TsFileView,
    TsFindingsView, TsScopeView,
};
use crate::laws::rust_source::{has_value, lemma_lookup};

verus! {

/// A record as extraction emits it: an import or a symbol that names its file, its place and its
/// language, or an edge.
pub open spec fn well_made(path: Seq<char>, r: RecordView) -> bool {
    match r {
        RecordView::Node(n) => {
            &&& n.kind == NodeKind::Import || n.kind == NodeKind::Symbol
            &&& n.repo_relative_path == Some(path)
            &&& n.span is Some
            &&& n.code.language == Some("typescript"@)
            &&& n.code.content_signature is None
        },
        RecordView::Edge(e) => e.label == EdgeLabel::Defines || e.label == EdgeLabel::Imports
            || e.label == EdgeLabel::Implements,
        RecordView::Tombstone(_) => false,
    }
}

pub open spec fn all_well_made(path: Seq<char>, s: Seq<RecordView>) -> bool {
    forall|i: int| 0 <= i < s.len() ==> well_made(path, #[trigger] s[i])
}

proof fn lemma_named(
    f: TsFileView,
    t: Seq<SyntaxNodeView>,
    i: int,
    local: Seq<char>,
    stack: Seq<TsScopeView>,
    out: TsFindingsView,
)
    requires
        all_well_made(f.path, out.records),
    ensures
        all_well_made(f.path, enter_named(f, t, i, local, stack, out).out.records),
{
    reveal(enter_named);
}

proof fn lemma_declarators(
    f: TsFileView,
    t: Seq<SyntaxNodeView>,
    kids: Seq<int>,
    stack: Seq<TsScopeView>,
    out: TsFindingsView,
)
    requires
        all_well_made(f.path, out.records),
    ensures
        all_well_made(f.path, with_declarators(f, t, kids, stack, out).records),
    decreases kids.len(),
{
    if kids.len() > 0 {
        lemma_declarators(f, t, kids.drop_last(), stack, out);
        let before = with_declarators(f, t, kids.drop_last(), stack, out);
        assert(all_well_made(f.path, with_declarator(f, t, kids.last(), stack, before).records));
    }
}

proof fn lemma_enter(
    f: TsFileView,
    t: Seq<SyntaxNodeView>,
    i: int,
    stack: Seq<TsScopeView>,
    out: TsFindingsView,
)
    requires
        all_well_made(f.path, out.records),
    ensures
        all_well_made(f.path, enter(f, t, i, stack, out).out.records),
{
    reveal(enter);
    assert(all_well_made(f.path, with_import(f, t, i, stack, out).records));
    if is_declaration(t, i, stack) {
        if let Some(local) = item_name(t, i) {
            lemma_named(f, t, i, local, stack, out);
        }
    }
    lemma_declarators(f, t, named_children(t, i), stack, out);
}

proof fn lemma_walk_over(
    f: TsFileView,
    t: Seq<SyntaxNodeView>,
    i: int,
    kids: Seq<int>,
    stack: Seq<TsScopeView>,
    out: TsFindingsView,
)
    requires
        all_well_made(f.path, out.records),
    ensures
        all_well_made(f.path, walk_over(f, t, i, kids, stack, out).records),
    decreases t.len() - i, kids.len(),
{
    if kids.len() > 0 && 0 <= i < t.len() {
        let k = kids.last();
        lemma_walk_over(f, t, i, kids.drop_last(), stack, out);
        let next = walk_over(f, t, i, kids.drop_last(), stack, out);
        if i < k < t.len() {
            lemma_enter(f, t, k, stack, next);
            let step = enter(f, t, k, stack, next);
            if step.descend {
                lemma_walk_over(f, t, k, named_children(t, k), step.stack, step.out);
            }
        }
    }
}

/// The edges that heritage adds lead to what the file defines, and nothing else is added.
pub open spec fn leads_to_definition(out: TsFindingsView, r: RecordView) -> bool {
    r matches RecordView::Edge(e) && e.label == EdgeLabel::Implements && has_value(
        out.definitions,
        e.target,
    )
}

/// A class or an interface leads to bases that the file defines, in whatever order they stand, and
/// to no others.
pub proof fn law_heritage_leads_to_definitions(
    ps: Seq<PendingHeritageView>,
    out: TsFindingsView,
)
    ensures
        ({
            let after = inherited(ps, out);
            &&& after.definitions == out.definitions
            &&& out.records.len() <= after.records.len()
            &&& forall|i: int|
                0 <= i < out.records.len() ==> after.records[i] == #[trigger] out.records[i]
            &&& forall|i: int|
                out.records.len() <= i < after.records.len() ==> leads_to_definition(
                    out,
                    #[trigger] after.records[i],
                )
        }),
    decreases ps.len(),
{
    if ps.len() > 0 {
        law_heritage_leads_to_definitions(ps.drop_last(), out);
        let before = inherited(ps.drop_last(), out);
        lemma_lookup(before.definitions, ps.last().base_name);
        let after = inherited(ps, out);
        assert forall|i: int| out.records.len() <= i < after.records.len() implies
            leads_to_definition(out, #[trigger] after.records[i]) by {
            if i < before.records.len() {
                assert(after.records[i] == before.records[i]);
            }
        }
        assert forall|i: int| 0 <= i < out.records.len() implies after.records[i]
            == #[trigger] out.records[i] by {
            assert(after.records[i] == before.records[i]);
        }
    }
}

/// Every record that a syntax tree yields is well made.
pub proof fn law_records_are_well_made(f: TsFileView, t: Seq<SyntaxNodeView>)
    ensures
        all_well_made(f.path, tree_findings(f, t).records),
{
    let none = TsFindingsView::none();
    let found = if t.len() == 0 {
        none
    } else {
        walked(f, t, 0, Seq::empty(), none)
    };
    if t.len() > 0 {
        lemma_enter(f, t, 0, Seq::empty(), none);
        let step = enter(f, t, 0, Seq::empty(), none);
        if step.descend {
            lemma_walk_over(f, t, 0, named_children(t, 0), step.stack, step.out);
        }
    }
    let open = TsFindingsView { pending: Seq::empty(), ..found };
    law_heritage_leads_to_definitions(found.pending, open);
    let all = tree_findings(f, t).records;
    assert forall|i: int| 0 <= i < all.len() implies well_made(f.path, #[trigger] all[i]) by {
        if i < open.records.len() {
            assert(all[i] == open.records[i]);
        } else {
            assert(leads_to_definition(open, all[i]));
        }
    }
}

} // verus!
