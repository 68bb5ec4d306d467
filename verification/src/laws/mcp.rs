//! Every answer of a tool conforms to the schema that is published for it.
use vstd::prelude::*;

use crate::ir::{
    EvidenceLinkView, NodeRecordView, OutputHandleView, PatchHandleView, RecordView,
    SnapshotHeadView, SourceSnapshotPayloadView, SourceSpan, TemporalMetadataView,
};
use crate::json::{member, no_elements, no_members, set_member, text_array, text_or_null, JsonView};
use crate::mcp::{
    commit_json, counts, coverage_json, criterion_row, criterion_rows, daemon_refusal,
    decision_json, decision_rows, domain_counts, drift_json, drift_rows, freshness_answer,
    freshness_stamp, handle_json, handle_rows, head_json, inspection, kinds_in, known_categories,
    known_keys, link_json, linked_item_json, links_json, missing_symbol_name, observation_json,
    opt_int_json, opt_size_json, opt_span_json, opt_texts_json, opt_uint_json, output_citation,
    patch_citation, refusal, repository_row, repository_rows, row_json, rows, snapshot_json,
    source_fact_json, span_json, stamped, symbol_answer, task_answer, unknown_keys, unresolved_json,
    unresolved_rows, valid_time_json, verification_row, ClassifiedRecordView, DecisionRowView,
    DriftRowView, EvidenceHandleView, FreshnessReportView, RecordVersionView, Section,
    StoreCoverage, SymbolEvidenceView, TaskEvidenceView, TaskLookupView, TrustClass,
    UnresolvedRefView, VersionedRecordView,
};
use crate::mcp_contract::{
    acceptance_criterion_schema_json, bool_schema_json, decision_schema_json, drift_row_schema_json,
    error_schema_json, evidence_link_schema_json, evidence_links_schema_json, freshness_schema_json,
    inspect_store_properties_json, inspect_store_schema_json, int_or_null_json, integer_schema_json,
    linked_item_properties_json, linked_item_schema_json, observation_schema_json,
    output_handle_citation_schema_json, patch_handle_citation_schema_json,
    snapshot_head_schema_json, source_fact_schema_json, span_schema_json,
    store_coverage_schema_json, store_freshness_schema_json, stored_snapshot_schema_json,
    str_or_null_json, string_schema_json, symbol_context_properties_json,
    symbol_context_schema_json, task_evidence_properties_json, task_evidence_schema_json,
    topology_edge_schema_json, trust_schema_json, unresolved_schema_json,
};
use crate::order::{distinct, occurrences};
use crate::text::{ascending, text_le};

verus! {

// ── Validation ──────────────────────────────────────────────────────────────

/// One of the members has this key.
pub open spec fn has_key(m: Seq<(Seq<char>, JsonView)>, key: Seq<char>) -> bool {
    exists|i: int| 0 <= i < m.len() && (#[trigger] m[i]).0 == key
}

/// The answer has a field of this name.
pub open spec fn carries(answer: JsonView, key: Seq<char>) -> bool {
    answer matches JsonView::Obj(m) && has_key(m, key)
}

/// The list names the key.
pub open spec fn lists(v: JsonView, key: Seq<char>) -> bool {
    v matches JsonView::Arr(names) && names.contains(JsonView::Str(key))
}

/// The value is of the type that goes by this name.
pub open spec fn is_of_type(name: Seq<char>, v: JsonView) -> bool {
    match v {
        JsonView::Null => name == "null"@,
        JsonView::Bool(_) => name == "boolean"@,
        JsonView::UInt(_) => name == "integer"@ || name == "number"@,
        JsonView::Int(_) => name == "integer"@ || name == "number"@,
        JsonView::Float(_) => name == "number"@,
        JsonView::Str(_) => name == "string"@,
        JsonView::Arr(_) => name == "array"@,
        JsonView::Obj(_) => name == "object"@,
    }
}

/// The value is of the type, or of one of the types.
pub open spec fn meets_type(rule: JsonView, v: JsonView) -> bool {
    match rule {
        JsonView::Str(name) => is_of_type(name, v),
        JsonView::Arr(names) => exists|i: int|
            0 <= i < names.len() && ((#[trigger] names[i]) matches JsonView::Str(name)
                && is_of_type(name, v)),
        _ => false,
    }
}

/// One of the rules is a table of properties that has this key.
pub open spec fn tables_key(rules: Seq<(Seq<char>, JsonView)>, key: Seq<char>) -> bool {
    exists|i: int|
        0 <= i < rules.len() && (#[trigger] rules[i]).0 == "properties"@ && has_property(
            rules[i].1,
            key,
        )
}

pub open spec fn has_property(table: JsonView, key: Seq<char>) -> bool {
    table matches JsonView::Obj(p) && exists|j: int| 0 <= j < p.len() && (#[trigger] p[j]).0 == key
}

/// The value validates against the schema, by those keywords of JSON Schema that the published
/// schemas use. As in every JSON object, the names in a table of properties are distinct.
#[verifier::opaque]
pub open spec fn validates(schema: JsonView, v: JsonView) -> bool
    decreases schema,
{
    match schema {
        JsonView::Bool(b) => b,
        JsonView::Obj(rules) => forall|i: int|
            #![trigger rules[i]]
            0 <= i < rules.len() ==> {
                &&& rules[i].0 == "type"@ ==> meets_type(rules[i].1, v)
                &&& rules[i].0 == "const"@ ==> v == rules[i].1
                &&& rules[i].0 == "enum"@ ==> (rules[i].1 matches JsonView::Arr(vs)
                    && vs.contains(v))
                &&& rules[i].0 == "required"@ ==> v is Obj ==> forall|key: Seq<char>| #[trigger]
                    lists(rules[i].1, key) ==> carries(v, key)
                &&& rules[i].0 == "properties"@ ==> match (rules[i].1, v) {
                    (JsonView::Obj(p), JsonView::Obj(m)) => forall|k: int|
                        #![trigger m[k]]
                        0 <= k < m.len() && has_property(rules[i].1, m[k].0) ==> exists|j: int|
                            #![trigger p[j]]
                            0 <= j < p.len() && p[j].0 == m[k].0 && validates(p[j].1, m[k].1),
                    _ => true,
                }
                &&& rules[i].0 == "additionalProperties"@ ==> match v {
                    JsonView::Obj(m) => forall|k: int|
                        #![trigger m[k]]
                        0 <= k < m.len() && !tables_key(rules, m[k].0) ==> validates(
                            rules[i].1,
                            m[k].1,
                        ),
                    _ => true,
                }
                &&& rules[i].0 == "items"@ ==> match v {
                    JsonView::Arr(vs) => forall|k: int|
                        #![trigger vs[k]]
                        0 <= k < vs.len() ==> validates(rules[i].1, vs[k]),
                    _ => true,
                }
                &&& rules[i].0 == "anyOf"@ ==> match rules[i].1 {
                    JsonView::Arr(ss) => exists|k: int|
                        #![trigger ss[k]]
                        0 <= k < ss.len() && validates(ss[k], v),
                    _ => false,
                }
            },
        _ => false,
    }
}

// ── Rules ───────────────────────────────────────────────────────────────────

/// The member has a property of its name that it validates against.
pub open spec fn fits(p: Seq<(Seq<char>, JsonView)>, x: (Seq<char>, JsonView)) -> bool {
    exists|j: int|
        #![trigger p[j]]
        0 <= j < p.len() && p[j].0 == x.0 && validates(p[j].1, x.1)
}

#[verifier::opaque]
pub open spec fn covered(p: Seq<(Seq<char>, JsonView)>, m: Seq<(Seq<char>, JsonView)>) -> bool {
    forall|k: int| 0 <= k < m.len() ==> fits(p, #[trigger] m[k])
}

/// All the names are keys.
#[verifier::opaque]
pub open spec fn all_there(names: Seq<JsonView>, m: Seq<(Seq<char>, JsonView)>) -> bool {
    forall|i: int|
        0 <= i < names.len() ==> (#[trigger] names[i]) is Str && has_key(m, names[i]->Str_0)
}

#[verifier::opaque]
pub open spec fn all_validate(schema: JsonView, vs: Seq<JsonView>) -> bool {
    forall|k: int| 0 <= k < vs.len() ==> validates(schema, #[trigger] vs[k])
}

pub open spec fn is_one_valid(forms: Seq<JsonView>, v: JsonView) -> bool {
    exists|k: int| 0 <= k < forms.len() && validates(#[trigger] forms[k], v)
}

/// What makes a value pass one rule of a schema.
#[verifier::opaque]
pub open spec fn passes(rule: (Seq<char>, JsonView), v: JsonView) -> bool {
    &&& rule.0 == "type"@ ==> meets_type(rule.1, v)
    &&& rule.0 == "const"@ ==> v == rule.1
    &&& rule.0 == "enum"@ ==> (rule.1 matches JsonView::Arr(vs) && vs.contains(v))
    &&& rule.0 == "required"@ ==> v is Obj ==> rule.1 is Arr && all_there(rule.1->Arr_0, v->Obj_0)
    &&& rule.0 == "properties"@ ==> v is Obj ==> rule.1 is Obj && covered(rule.1->Obj_0, v->Obj_0)
    &&& rule.0 == "additionalProperties"@ ==> match v {
        JsonView::Obj(m) => forall|k: int|
            #![trigger m[k]]
            0 <= k < m.len() ==> validates(rule.1, m[k].1),
        _ => true,
    }
    &&& rule.0 == "items"@ ==> v is Arr ==> all_validate(rule.1, v->Arr_0)
    &&& rule.0 == "anyOf"@ ==> rule.1 is Arr && is_one_valid(rule.1->Arr_0, v)
}

#[verifier::opaque]
pub open spec fn passes_all(rules: Seq<(Seq<char>, JsonView)>, v: JsonView) -> bool {
    forall|i: int| 0 <= i < rules.len() ==> passes(#[trigger] rules[i], v)
}

broadcast proof fn lemma_no_rules(v: JsonView)
    ensures
        #[trigger] passes_all(no_members(), v),
{
    reveal(passes_all);
}

broadcast proof fn lemma_one_rule_more(
    rules: Seq<(Seq<char>, JsonView)>,
    rule: (Seq<char>, JsonView),
    v: JsonView,
)
    requires
        passes_all(rules, v),
        passes(rule, v),
    ensures
        #[trigger] passes_all(rules.push(rule), v),
{
    reveal(passes_all);
}

broadcast proof fn lemma_validates(rules: Seq<(Seq<char>, JsonView)>, v: JsonView)
    requires
        passes_all(rules, v),
    ensures
        #[trigger] validates(JsonView::Obj(rules), v),
{
    reveal(passes_all);
    reveal(passes);
    reveal(covered);
    reveal(all_there);
    reveal(all_validate);
    reveal_with_fuel(validates, 1);
    let schema = JsonView::Obj(rules);
    assert(schema->Obj_0 == rules);
    assert forall|i: int| 0 <= i < rules.len() implies passes(#[trigger] rules[i], v) by {}
    assert forall|i: int, key: Seq<char>|
        0 <= i < rules.len() && rules[i].0 == "required"@ && v is Obj && #[trigger] lists(
            rules[i].1,
            key,
        ) implies carries(v, key) by {
        assert(passes(rules[i], v));
        let names = rules[i].1->Arr_0;
        let j = choose|j: int| 0 <= j < names.len() && names[j] == JsonView::Str(key);
        assert(has_key(v->Obj_0, names[j]->Str_0));
    }
    assert forall|i: int, k: int|
        #![trigger rules[i], v->Obj_0[k]]
        0 <= i < rules.len() && rules[i].0 == "properties"@ && v is Obj && 0 <= k
            < v->Obj_0.len() implies fits(rules[i].1->Obj_0, v->Obj_0[k]) by {
        assert(passes(rules[i], v));
    }
}

proof fn lemma_keywords()
    ensures
        distinct_keywords(),
{
    reveal_strlit("$schema");
    reveal_strlit("title");
    reveal_strlit("description");
    reveal_strlit("type");
    reveal_strlit("const");
    reveal_strlit("enum");
    reveal_strlit("required");
    reveal_strlit("properties");
    reveal_strlit("additionalProperties");
    reveal_strlit("items");
    reveal_strlit("anyOf");
    assert("type"@[0] != "enum"@[0]);
    assert("const"@[0] != "title"@[0]);
    assert("const"@[0] != "items"@[0]);
    assert("const"@[0] != "anyOf"@[0]);
    assert("items"@[0] != "title"@[0]);
    assert("items"@[0] != "anyOf"@[0]);
    assert("title"@[0] != "anyOf"@[0]);
}

/// The keywords are told apart by their length and first letter.
pub open spec fn distinct_keywords() -> bool {
    &&& "$schema"@.len() == 7
    &&& "title"@.len() == 5
    &&& "description"@.len() == 11
    &&& "type"@.len() == 4
    &&& "const"@.len() == 5
    &&& "enum"@.len() == 4
    &&& "required"@.len() == 8
    &&& "properties"@.len() == 10
    &&& "additionalProperties"@.len() == 20
    &&& "items"@.len() == 5
    &&& "anyOf"@.len() == 5
    &&& "type"@[0] == 't'
    &&& "enum"@[0] == 'e'
    &&& "const"@[0] == 'c'
    &&& "title"@[0] == 't'
    &&& "items"@[0] == 'i'
    &&& "anyOf"@[0] == 'a'
}

broadcast proof fn lemma_type(rule: JsonView, v: JsonView)
    requires
        meets_type(rule, v),
    ensures
        #[trigger] passes(("type"@, rule), v),
{
    reveal(passes);
    lemma_keywords();
}

broadcast proof fn lemma_const(rule: JsonView)
    ensures
        #[trigger] passes(("const"@, rule), rule),
{
    reveal(passes);
    lemma_keywords();
}

broadcast proof fn lemma_enum(vs: Seq<JsonView>, v: JsonView)
    requires
        vs.contains(v),
    ensures
        #[trigger] passes(("enum"@, JsonView::Arr(vs)), v),
{
    reveal(passes);
    lemma_keywords();
}

broadcast proof fn lemma_required(names: Seq<JsonView>, m: Seq<(Seq<char>, JsonView)>)
    requires
        all_there(names, m),
    ensures
        #[trigger] passes(("required"@, JsonView::Arr(names)), JsonView::Obj(m)),
{
    reveal(passes);
    lemma_keywords();
}

broadcast proof fn lemma_properties(
    p: Seq<(Seq<char>, JsonView)>,
    m: Seq<(Seq<char>, JsonView)>,
)
    requires
        covered(p, m),
    ensures
        #[trigger] passes(("properties"@, JsonView::Obj(p)), JsonView::Obj(m)),
{
    reveal(passes);
    lemma_keywords();
}

/// What speaks of members or elements says nothing about a value that has none.
broadcast proof fn lemma_null_required(rule: JsonView)
    ensures
        #[trigger] passes(("required"@, rule), JsonView::Null),
{
    reveal(passes);
    lemma_keywords();
}

broadcast proof fn lemma_null_properties(rule: JsonView)
    ensures
        #[trigger] passes(("properties"@, rule), JsonView::Null),
{
    reveal(passes);
    lemma_keywords();
}

broadcast proof fn lemma_null_items(rule: JsonView)
    ensures
        #[trigger] passes(("items"@, rule), JsonView::Null),
{
    reveal(passes);
    lemma_keywords();
}

broadcast proof fn lemma_open(v: JsonView)
    ensures
        #[trigger] passes(("additionalProperties"@, JsonView::Bool(true)), v),
{
    reveal(passes);
    reveal_with_fuel(validates, 1);
    lemma_keywords();
}

broadcast proof fn lemma_items(schema: JsonView, vs: Seq<JsonView>)
    requires
        all_validate(schema, vs),
    ensures
        #[trigger] passes(("items"@, schema), JsonView::Arr(vs)),
{
    reveal(passes);
    lemma_keywords();
}

proof fn lemma_any_of(forms: Seq<JsonView>, k: int, v: JsonView)
    requires
        0 <= k < forms.len(),
        validates(forms[k], v),
    ensures
        passes(("anyOf"@, JsonView::Arr(forms)), v),
{
    reveal(passes);
    lemma_keywords();
    assert(is_one_valid(forms, v));
}

broadcast proof fn lemma_dialect(rule: JsonView, v: JsonView)
    ensures
        #[trigger] passes(("$schema"@, rule), v),
{
    reveal(passes);
    lemma_keywords();
}

broadcast proof fn lemma_title(rule: JsonView, v: JsonView)
    ensures
        #[trigger] passes(("title"@, rule), v),
{
    reveal(passes);
    lemma_keywords();
}

broadcast proof fn lemma_description(rule: JsonView, v: JsonView)
    ensures
        #[trigger] passes(("description"@, rule), v),
{
    reveal(passes);
    lemma_keywords();
}

broadcast proof fn lemma_either(a: Seq<char>, b: Seq<char>, v: JsonView)
    requires
        is_of_type(a, v) || is_of_type(b, v),
    ensures
        #[trigger] meets_type(
            JsonView::Arr(no_elements().push(JsonView::Str(a)).push(JsonView::Str(b))),
            v,
        ),
{
    let names = no_elements().push(JsonView::Str(a)).push(JsonView::Str(b));
    assert(names[0] == JsonView::Str(a));
    assert(names[1] == JsonView::Str(b));
}

// ── Members ─────────────────────────────────────────────────────────────────

broadcast proof fn lemma_no_members_covered(p: Seq<(Seq<char>, JsonView)>)
    ensures
        #[trigger] covered(p, no_members()),
{
    reveal(covered);
}

/// A member that comes with its property.
broadcast proof fn lemma_member_covered(
    p: Seq<(Seq<char>, JsonView)>,
    m: Seq<(Seq<char>, JsonView)>,
    key: Seq<char>,
    schema: JsonView,
    v: JsonView,
)
    requires
        covered(p, m),
        validates(schema, v),
    ensures
        #[trigger] covered(p.push((key, schema)), m.push((key, v))),
{
    reveal(covered);
    let (q, n) = (p.push((key, schema)), m.push((key, v)));
    assert forall|k: int| 0 <= k < n.len() implies fits(q, #[trigger] n[k]) by {
        if k < m.len() {
            assert(n[k] == m[k]);
            assert(fits(p, m[k]));
            let j = choose|j: int|
                #![trigger p[j]]
                0 <= j < p.len() && p[j].0 == m[k].0 && validates(p[j].1, m[k].1);
            assert(q[j] == p[j]);
        } else {
            assert(q[p.len() as int] == (key, schema));
        }
    }
}

/// A property that no member has.
broadcast proof fn lemma_property_unused(
    p: Seq<(Seq<char>, JsonView)>,
    m: Seq<(Seq<char>, JsonView)>,
    extra: (Seq<char>, JsonView),
)
    requires
        covered(p, m),
    ensures
        #[trigger] covered(p.push(extra), m),
{
    reveal(covered);
    let q = p.push(extra);
    assert forall|k: int| 0 <= k < m.len() implies fits(q, #[trigger] m[k]) by {
        assert(fits(p, m[k]));
        let j = choose|j: int|
            #![trigger p[j]]
            0 <= j < p.len() && p[j].0 == m[k].0 && validates(p[j].1, m[k].1);
        assert(q[j] == p[j]);
    }
}

broadcast proof fn lemma_none_there(m: Seq<(Seq<char>, JsonView)>)
    ensures
        #[trigger] all_there(no_elements(), m),
{
    reveal(all_there);
}

broadcast proof fn lemma_one_more_there(
    names: Seq<JsonView>,
    key: Seq<char>,
    m: Seq<(Seq<char>, JsonView)>,
)
    requires
        all_there(names, m),
        has_key(m, key),
    ensures
        #[trigger] all_there(names.push(JsonView::Str(key)), m),
{
    reveal(all_there);
}

broadcast proof fn lemma_last_key(m: Seq<(Seq<char>, JsonView)>, key: Seq<char>, v: JsonView)
    ensures
        #[trigger] has_key(m.push((key, v)), key),
{
    assert(m.push((key, v))[m.len() as int].0 == key);
}

broadcast proof fn lemma_earlier_key(
    m: Seq<(Seq<char>, JsonView)>,
    x: (Seq<char>, JsonView),
    key: Seq<char>,
)
    requires
        has_key(m, key),
    ensures
        #[trigger] has_key(m.push(x), key),
{
    let i = choose|i: int| 0 <= i < m.len() && (#[trigger] m[i]).0 == key;
    assert(m.push(x)[i].0 == key);
}

broadcast group group_rules {
    lemma_no_rules,
    lemma_one_rule_more,
    lemma_validates,
    lemma_type,
    lemma_const,
    lemma_enum,
    lemma_required,
    lemma_properties,
    lemma_null_required,
    lemma_null_properties,
    lemma_null_items,
    lemma_open,
    lemma_items,
    lemma_dialect,
    lemma_title,
    lemma_description,
    lemma_either,
    lemma_no_members_covered,
    lemma_member_covered,
    lemma_none_there,
    lemma_one_more_there,
    lemma_last_key,
    lemma_earlier_key,
}

// ── Fragments ───────────────────────────────────────────────────────────────

broadcast proof fn lemma_string(s: Seq<char>)
    ensures
        #[trigger] validates(string_schema_json(), JsonView::Str(s)),
{
    broadcast use group_rules;

    assert(string_schema_json() == JsonView::Obj(
        no_members().push(("type"@, JsonView::Str("string"@))),
    ));
}

broadcast proof fn lemma_integer(n: u64)
    ensures
        #[trigger] validates(integer_schema_json(), JsonView::UInt(n)),
{
    broadcast use group_rules;

    assert(integer_schema_json() == JsonView::Obj(
        no_members().push(("type"@, JsonView::Str("integer"@))),
    ));
}

broadcast proof fn lemma_bool(b: bool)
    ensures
        #[trigger] validates(bool_schema_json(), JsonView::Bool(b)),
{
    broadcast use group_rules;

}

broadcast proof fn lemma_nullable(o: Option<Seq<char>>)
    ensures
        #[trigger] validates(str_or_null_json(), text_or_null(o)),
{
    broadcast use group_rules;

}

broadcast proof fn lemma_nullable_string(s: Seq<char>)
    ensures
        #[trigger] validates(str_or_null_json(), JsonView::Str(s)),
{
    broadcast use group_rules;

}

broadcast proof fn lemma_span(s: SourceSpan)
    ensures
        #[trigger] validates(span_schema_json(), span_json(s)),
{
    broadcast use {group_rules, lemma_integer};

    assert(validates(int_or_null_json(), opt_size_json(s.start_column)));
    assert(validates(int_or_null_json(), opt_size_json(s.end_column)));
}

broadcast proof fn lemma_opt_span(s: Option<SourceSpan>)
    ensures
        #[trigger] validates(span_schema_json(), opt_span_json(s)),
{
    broadcast use {group_rules, lemma_span};

}

broadcast proof fn lemma_opt_int(n: Option<i64>)
    ensures
        #[trigger] validates(int_or_null_json(), opt_int_json(n)),
{
    broadcast use group_rules;

}

broadcast proof fn lemma_opt_uint(n: Option<u64>)
    ensures
        #[trigger] validates(int_or_null_json(), opt_uint_json(n)),
{
    broadcast use group_rules;

}

broadcast proof fn lemma_commit(t: Option<TemporalMetadataView>)
    ensures
        #[trigger] validates(str_or_null_json(), commit_json(t)),
{
    broadcast use group_rules;

}

broadcast proof fn lemma_valid_time(own: Option<Seq<char>>, t: Option<TemporalMetadataView>)
    ensures
        #[trigger] validates(str_or_null_json(), valid_time_json(own, t)),
{
    broadcast use group_rules;

}

broadcast proof fn lemma_first_of(vs: Seq<JsonView>, v: JsonView)
    ensures
        #[trigger] vs.push(v).contains(v),
{
    assert(vs.push(v)[vs.len() as int] == v);
}

broadcast proof fn lemma_one_of(vs: Seq<JsonView>, x: JsonView, v: JsonView)
    requires
        vs.contains(v),
    ensures
        #[trigger] vs.push(x).contains(v),
{
    let i = choose|i: int| 0 <= i < vs.len() && vs[i] == v;
    assert(vs.push(x)[i] == v);
}

broadcast proof fn lemma_trust(t: TrustClass)
    ensures
        #[trigger] validates(trust_schema_json(), JsonView::Str(t.name())),
{
    broadcast use {group_rules, lemma_first_of, lemma_one_of};

}

proof fn lemma_link(l: EvidenceLinkView)
    ensures
        validates(evidence_link_schema_json(), link_json(l)),
{
    broadcast use {group_rules, lemma_string, lemma_nullable};

}

broadcast proof fn lemma_links(o: Option<Seq<EvidenceLinkView>>)
    ensures
        #[trigger] validates(evidence_links_schema_json(), links_json(o)),
{
    broadcast use group_rules;

    let vs = links_json(o)->Arr_0;
    assert(all_validate(evidence_link_schema_json(), vs)) by {
        reveal(all_validate);
        assert forall|k: int| 0 <= k < vs.len() implies validates(
            evidence_link_schema_json(),
            #[trigger] vs[k],
        ) by {
            lemma_link(o->0[k]);
        }
    }
}

broadcast proof fn lemma_output(h: Option<OutputHandleView>)
    ensures
        #[trigger] validates(output_handle_citation_schema_json(), output_citation(h)),
{
    broadcast use {group_rules, lemma_string, lemma_integer};

}

broadcast proof fn lemma_patch(h: Option<PatchHandleView>)
    ensures
        #[trigger] validates(patch_handle_citation_schema_json(), patch_citation(h)),
{
    broadcast use {group_rules, lemma_string};

}

proof fn lemma_texts(v: Seq<Seq<char>>)
    ensures
        all_validate(string_schema_json(), text_array(v)->Arr_0),
{
    reveal(all_validate);
    let vs = text_array(v)->Arr_0;
    assert forall|k: int| 0 <= k < vs.len() implies validates(
        string_schema_json(),
        #[trigger] vs[k],
    ) by {
        lemma_string(v[k]);
    }
}

broadcast proof fn lemma_opt_texts(o: Option<Seq<Seq<char>>>)
    ensures
        #[trigger] validates(
            JsonView::Obj(
                no_members().push(
                    (
                        "type"@,
                        JsonView::Arr(
                            no_elements().push(JsonView::Str("array"@)).push(
                                JsonView::Str("null"@),
                            ),
                        ),
                    ),
                ).push(("items"@, string_schema_json())),
            ),
            opt_texts_json(o),
        ),
{
    broadcast use group_rules;

    if let Some(v) = o {
        lemma_texts(v);
    }
}

broadcast group group_fragments {
    group_rules,
    lemma_string,
    lemma_integer,
    lemma_bool,
    lemma_nullable,
    lemma_nullable_string,
    lemma_opt_span,
    lemma_opt_int,
    lemma_opt_uint,
    lemma_commit,
    lemma_valid_time,
    lemma_trust,
    lemma_links,
    lemma_output,
    lemma_patch,
    lemma_opt_texts,
}

// ── Rows ────────────────────────────────────────────────────────────────────

proof fn lemma_source_fact(n: NodeRecordView, t: TrustClass)
    ensures
        validates(source_fact_schema_json(), source_fact_json(n, t.name())),
{
    broadcast use group_fragments;

}

proof fn lemma_observation(n: NodeRecordView, t: TrustClass)
    ensures
        validates(observation_schema_json(), observation_json(n, t.name())),
{
    broadcast use group_fragments;

}

proof fn lemma_linked_item(n: NodeRecordView, t: TrustClass)
    ensures
        validates(linked_item_schema_json(), linked_item_json(n, t.name())),
        covered(linked_item_properties_json(), linked_item_json(n, t.name())->Obj_0),
{
    broadcast use group_fragments;

}

proof fn lemma_topology_edge(c: ClassifiedRecordView)
    ensures
        row_json(Section::TopologyEdges, c) matches Some(row) ==> validates(
            topology_edge_schema_json(),
            row,
        ),
{
    broadcast use group_fragments;

}

/// What a row of a section has to look like.
pub open spec fn row_schema(section: Section) -> JsonView {
    match section {
        Section::SourceFacts => source_fact_schema_json(),
        Section::TopologyEdges => topology_edge_schema_json(),
        Section::Observations => observation_schema_json(),
        Section::LinkedItems => linked_item_schema_json(),
    }
}

proof fn lemma_row(section: Section, c: ClassifiedRecordView)
    ensures
        row_json(section, c) matches Some(row) ==> validates(row_schema(section), row),
{
    lemma_topology_edge(c);
    if let RecordView::Node(n) = c.record {
        lemma_source_fact(n, c.trust);
        lemma_observation(n, c.trust);
        lemma_linked_item(n, c.trust);
    }
}

broadcast proof fn lemma_rows(section: Section, s: Seq<ClassifiedRecordView>)
    ensures
        #[trigger] all_validate(row_schema(section), rows(section, s)),
    decreases s.len(),
{
    reveal(all_validate);
    if s.len() > 0 {
        lemma_rows(section, s.drop_last());
        lemma_row(section, s.last());
    }
}

proof fn lemma_handle(h: EvidenceHandleView)
    ensures
        validates(handle_schema(), handle_json(h)),
{
    broadcast use group_fragments;

}

/// What the published schema says of a handle that a decision rests on.
pub open spec fn handle_schema() -> JsonView {
    JsonView::Obj(
        no_members()
            .push(("type"@, JsonView::Str("object"@)))
            .push(("additionalProperties"@, JsonView::Bool(true)))
            .push(("required"@, JsonView::Arr(
                no_elements()
                    .push(JsonView::Str("relation"@))
                    .push(JsonView::Str("target_record_id"@))
                    .push(JsonView::Str("target_kind"@)),
            )))
            .push(("properties"@, JsonView::Obj(
                no_members()
                    .push(("relation"@, string_schema_json()))
                    .push(("target_record_id"@, string_schema_json()))
                    .push(("target_kind"@, string_schema_json())),
            ))),
    )
}

proof fn lemma_decision(d: DecisionRowView)
    ensures
        decision_json(d) matches Some(row) ==> validates(decision_schema_json(), row),
{
    broadcast use group_fragments;

    let vs = handle_rows(d.evidence_handles)->Arr_0;
    assert(all_validate(handle_schema(), vs)) by {
        reveal(all_validate);
        assert forall|k: int| 0 <= k < vs.len() implies validates(
            handle_schema(),
            #[trigger] vs[k],
        ) by {
            lemma_handle(d.evidence_handles[k]);
        }
    }
}

broadcast proof fn lemma_decisions(s: Seq<DecisionRowView>)
    ensures
        #[trigger] all_validate(decision_schema_json(), decision_rows(s)),
    decreases s.len(),
{
    reveal(all_validate);
    if s.len() > 0 {
        lemma_decisions(s.drop_last());
        lemma_decision(s.last());
    }
}

proof fn lemma_criterion(records: Seq<ClassifiedRecordView>, c: ClassifiedRecordView)
    ensures
        criterion_row(records, c) matches Some(row) ==> validates(
            acceptance_criterion_schema_json(),
            row,
        ),
{
    broadcast use {group_fragments, lemma_property_unused};

    if let RecordView::Node(n) = c.record {
        lemma_linked_item(n, c.trust);
        if let Some(row) = verification_row(records, n) {
            assert(row is Obj);
        }
    }
}

broadcast proof fn lemma_criteria(
    records: Seq<ClassifiedRecordView>,
    s: Seq<ClassifiedRecordView>,
)
    ensures
        #[trigger] all_validate(acceptance_criterion_schema_json(), criterion_rows(records, s)),
    decreases s.len(),
{
    reveal(all_validate);
    if s.len() > 0 {
        lemma_criteria(records, s.drop_last());
        lemma_criterion(records, s.last());
    }
}

proof fn lemma_drift(d: DriftRowView)
    ensures
        drift_json(d) matches Some(row) ==> validates(drift_row_schema_json(), row),
{
    broadcast use {group_fragments, lemma_property_unused, lemma_span};

}

broadcast proof fn lemma_drifts(s: Seq<DriftRowView>)
    ensures
        #[trigger] all_validate(drift_row_schema_json(), drift_rows(s)),
    decreases s.len(),
{
    reveal(all_validate);
    if s.len() > 0 {
        lemma_drifts(s.drop_last());
        lemma_drift(s.last());
    }
}

proof fn lemma_unresolved_ref(u: UnresolvedRefView)
    ensures
        validates(unresolved_schema_json(), unresolved_json(u)),
{
    broadcast use group_fragments;

}

proof fn lemma_unresolved(s: Seq<UnresolvedRefView>)
    ensures
        all_validate(unresolved_schema_json(), unresolved_rows(s)->Arr_0),
{
    reveal(all_validate);
    let vs = unresolved_rows(s)->Arr_0;
    assert forall|k: int| 0 <= k < vs.len() implies validates(
        unresolved_schema_json(),
        #[trigger] vs[k],
    ) by {
        lemma_unresolved_ref(s[k]);
    }
}

broadcast proof fn lemma_coverage(c: StoreCoverage)
    ensures
        #[trigger] validates(store_coverage_schema_json(), coverage_json(c)),
{
    broadcast use group_fragments;

}

broadcast proof fn lemma_head(h: SnapshotHeadView)
    ensures
        #[trigger] validates(snapshot_head_schema_json(), head_json(h)),
{
    broadcast use {group_fragments, lemma_property_unused, lemma_first_of, lemma_one_of};

}

broadcast proof fn lemma_snapshot(s: Option<SourceSnapshotPayloadView>)
    ensures
        #[trigger] validates(stored_snapshot_schema_json(), snapshot_json(s)),
{
    broadcast use {group_fragments, lemma_head};

    let forms = stored_snapshot_schema_json()->Obj_0[0].1->Arr_0;
    match s {
        Some(_) => lemma_any_of(forms, 0, snapshot_json(s)),
        None => lemma_any_of(forms, 1, snapshot_json(s)),
    }
}

/// A freshness stamp conforms to its schema.
pub proof fn law_stamp_conforms(report: FreshnessReportView, repo_path: Seq<char>)
    ensures
        validates(freshness_schema_json(), freshness_stamp(report, repo_path)),
{
    broadcast use {group_fragments, lemma_head, lemma_snapshot, lemma_first_of, lemma_one_of};

}

// ── Answers ─────────────────────────────────────────────────────────────────

/// A stamped answer has what it had, and its freshness.
proof fn lemma_stamp_covered(
    p: Seq<(Seq<char>, JsonView)>,
    m: Seq<(Seq<char>, JsonView)>,
    key: Seq<char>,
    v: JsonView,
)
    requires
        covered(p, m),
        fits(p, (key, v)),
    ensures
        covered(p, set_member(m, key, v)),
    decreases m.len(),
{
    reveal(covered);
    let out = set_member(m, key, v);
    if m.len() > 0 {
        let rest = m.drop_first();
        assert forall|k: int| 0 <= k < rest.len() implies fits(p, #[trigger] rest[k]) by {
            assert(rest[k] == m[k + 1]);
        }
        lemma_stamp_covered(p, rest, key, v);
        let after = set_member(rest, key, v);
        assert forall|k: int| 0 <= k < out.len() implies fits(p, #[trigger] out[k]) by {
            if k == 0 {
                assert(fits(p, m[0]));
            } else if m[0].0 == key {
                assert(out[k] == rest[k - 1]);
            } else {
                assert(out[k] == after[k - 1]);
            }
        }
    }
}

proof fn lemma_set_member_keys(
    o: Seq<(Seq<char>, JsonView)>,
    key: Seq<char>,
    value: JsonView,
    k: Seq<char>,
)
    requires
        k == key || has_key(o, k),
    ensures
        has_key(set_member(o, key, value), k),
    decreases o.len(),
{
    let out = set_member(o, key, value);
    if o.len() == 0 || o[0].0 == key {
        if k == key {
            assert(out[0].0 == k);
        } else {
            let i = choose|i: int| 0 <= i < o.len() && (#[trigger] o[i]).0 == k;
            assert(out[i] == o[i]);
        }
    } else {
        let rest = o.drop_first();
        let after = set_member(rest, key, value);
        if k != key && o[0].0 == k {
            assert(out[0].0 == k);
        } else {
            if k != key {
                let i = choose|i: int| 0 <= i < o.len() && (#[trigger] o[i]).0 == k;
                assert(rest[i - 1].0 == k);
            }
            lemma_set_member_keys(rest, key, value, k);
            let j = choose|j: int| 0 <= j < after.len() && (#[trigger] after[j]).0 == k;
            assert(out[j + 1] == after[j]);
        }
    }
}

broadcast proof fn lemma_stamp_has(
    m: Seq<(Seq<char>, JsonView)>,
    key: Seq<char>,
    v: JsonView,
    k: Seq<char>,
)
    requires
        k == key || has_key(m, k),
    ensures
        #[trigger] has_key(set_member(m, key, v), k),
{
    lemma_set_member_keys(m, key, v, k);
}

broadcast proof fn lemma_fits_last(
    p: Seq<(Seq<char>, JsonView)>,
    key: Seq<char>,
    schema: JsonView,
    v: JsonView,
)
    requires
        validates(schema, v),
    ensures
        #[trigger] fits(p.push((key, schema)), (key, v)),
{
    assert(p.push((key, schema))[p.len() as int] == (key, schema));
}

broadcast proof fn lemma_freshness_unused(
    p: Seq<(Seq<char>, JsonView)>,
    schema: JsonView,
    m: Seq<(Seq<char>, JsonView)>,
)
    requires
        covered(p, m),
    ensures
        #[trigger] covered(p.push(("freshness"@, schema)), m),
{
    lemma_property_unused(p, m, ("freshness"@, schema));
}

broadcast group group_answers {
    group_fragments,
    lemma_decisions,
    lemma_criteria,
    lemma_drifts,
    lemma_coverage,
    lemma_stamp_has,
    lemma_fits_last,
    lemma_freshness_unused,
}

/// The context of a symbol, with its freshness, conforms to the schema of `symbol_context`.
pub proof fn law_symbol_context_conforms(
    context: SymbolEvidenceView,
    symbol_name: Seq<char>,
    report: FreshnessReportView,
    repo_path: Seq<char>,
)
    ensures
        validates(
            symbol_context_schema_json(),
            stamped(
                symbol_answer(Some(context), symbol_name),
                freshness_stamp(report, repo_path),
            ),
        ),
{
    broadcast use group_answers;

    let stamp = freshness_stamp(report, repo_path);
    law_stamp_conforms(report, repo_path);
    lemma_rows(Section::SourceFacts, context.source_facts);
    lemma_rows(Section::TopologyEdges, context.topology_edges);
    lemma_rows(Section::Observations, context.observations);
    lemma_rows(Section::LinkedItems, context.project_state);
    lemma_rows(Section::LinkedItems, context.artifacts);
    lemma_rows(Section::LinkedItems, context.verification_evidence);
    lemma_unresolved(context.unresolved);
    let m = symbol_answer(Some(context), symbol_name)->Obj_0;
    let p = symbol_context_properties_json()->Obj_0;
    assert(member(m, "ok"@) == Some(JsonView::Bool(true)));
    assert(covered(p, m));
    lemma_stamp_covered(p, m, "freshness"@, stamp);
}

/// The evidence of a task, with its freshness, conforms to the schema of `task_evidence`.
pub proof fn law_task_evidence_conforms(
    records: Seq<ClassifiedRecordView>,
    evidence: TaskEvidenceView,
    handle: Seq<char>,
    report: FreshnessReportView,
    repo_path: Seq<char>,
)
    ensures
        validates(
            task_evidence_schema_json(),
            stamped(
                task_answer(records, TaskLookupView::Found { evidence }, handle),
                freshness_stamp(report, repo_path),
            ),
        ),
{
    broadcast use group_answers;

    let stamp = freshness_stamp(report, repo_path);
    law_stamp_conforms(report, repo_path);
    lemma_rows(Section::LinkedItems, evidence.tasks);
    lemma_rows(Section::SourceFacts, evidence.source_facts);
    lemma_rows(Section::Observations, evidence.observations);
    lemma_rows(Section::LinkedItems, evidence.artifacts);
    lemma_rows(Section::LinkedItems, evidence.verification_evidence);
    lemma_rows(Section::LinkedItems, evidence.reviews);
    lemma_rows(Section::LinkedItems, evidence.external_links);
    lemma_unresolved(evidence.unresolved);
    let m = task_answer(records, TaskLookupView::Found { evidence }, handle)->Obj_0;
    let p = task_evidence_properties_json()->Obj_0;
    assert(member(m, "ok"@) == Some(JsonView::Bool(true)));
    assert(covered(p, m));
    lemma_stamp_covered(p, m, "freshness"@, stamp);
}

/// The freshness of a store conforms to the schema of `store_freshness`.
pub proof fn law_store_freshness_conforms(report: FreshnessReportView, repo_path: Seq<char>)
    ensures
        validates(
            store_freshness_schema_json(),
            freshness_answer(freshness_stamp(report, repo_path)),
        ),
{
    broadcast use group_fragments;

    law_stamp_conforms(report, repo_path);
}

proof fn lemma_additional(schema: JsonView, m: Seq<(Seq<char>, JsonView)>)
    requires
        forall|k: int| 0 <= k < m.len() ==> validates(schema, (#[trigger] m[k]).1),
    ensures
        passes(("additionalProperties"@, schema), JsonView::Obj(m)),
{
    reveal(passes);
    lemma_keywords();
}

/// An object whose members all follow one schema.
pub open spec fn map_schema(schema: JsonView) -> JsonView {
    JsonView::Obj(
        no_members()
            .push(("type"@, JsonView::Str("object"@)))
            .push(("additionalProperties"@, schema)),
    )
}

proof fn lemma_counts(keys: Seq<Seq<char>>)
    ensures
        validates(map_schema(integer_schema_json()), JsonView::Obj(counts(keys))),
{
    broadcast use group_rules;

    let m = counts(keys);
    assert forall|k: int| 0 <= k < m.len() implies validates(
        integer_schema_json(),
        (#[trigger] m[k]).1,
    ) by {
        lemma_integer(occurrences(keys, distinct(keys)[k]) as u64);
    }
    lemma_additional(integer_schema_json(), m);
}

proof fn lemma_domain_counts(s: Seq<VersionedRecordView>)
    ensures
        validates(
            map_schema(map_schema(integer_schema_json())),
            JsonView::Obj(domain_counts(s)),
        ),
{
    broadcast use group_rules;

    let m = domain_counts(s);
    assert forall|k: int| 0 <= k < m.len() implies validates(
        map_schema(integer_schema_json()),
        (#[trigger] m[k]).1,
    ) by {
        lemma_counts(kinds_in(s, distinct(known_categories(s))[k]));
    }
    lemma_additional(map_schema(integer_schema_json()), m);
}

/// What the published schema says of a repository in an inspection.
pub open spec fn repository_schema() -> JsonView {
    JsonView::Obj(
        no_members()
            .push(("type"@, JsonView::Str("object"@)))
            .push(("additionalProperties"@, JsonView::Bool(true)))
            .push(("required"@, JsonView::Arr(
                no_elements()
                    .push(JsonView::Str("id"@))
                    .push(JsonView::Str("identity_summary"@)),
            )))
            .push(("properties"@, JsonView::Obj(
                no_members()
                    .push(("id"@, string_schema_json()))
                    .push(("identity_summary"@, string_schema_json())),
            ))),
    )
}

proof fn lemma_repository(r: VersionedRecordView)
    ensures
        repository_row(r) matches Some(row) ==> validates(repository_schema(), row),
{
    broadcast use group_fragments;

}

proof fn lemma_repositories(s: Seq<VersionedRecordView>)
    ensures
        all_validate(repository_schema(), repository_rows(s)),
    decreases s.len(),
{
    reveal(all_validate);
    if s.len() > 0 {
        lemma_repositories(s.drop_last());
        lemma_repository(s.last());
    }
}

/// An inspection, with its freshness, conforms to the schema of `inspect_store`.
pub proof fn law_inspection_conforms(
    records: Seq<VersionedRecordView>,
    unknown: Seq<RecordVersionView>,
    timestamp: Seq<char>,
    report: FreshnessReportView,
    repo_path: Seq<char>,
)
    ensures
        validates(
            inspect_store_schema_json(),
            stamped(
                JsonView::Obj(inspection(records, unknown, timestamp)),
                freshness_stamp(report, repo_path),
            ),
        ),
{
    broadcast use group_answers;

    let stamp = freshness_stamp(report, repo_path);
    law_stamp_conforms(report, repo_path);
    lemma_domain_counts(records);
    lemma_counts(known_keys(records));
    lemma_counts(unknown_keys(unknown, records));
    lemma_repositories(records);
    let m = inspection(records, unknown, timestamp);
    let p = inspect_store_properties_json()->Obj_0;
    assert(member(m, "ok"@) == Some(JsonView::Bool(true)));
    assert(covered(p, m));
    lemma_stamp_covered(p, m, "freshness"@, stamp);
}

// ── Refusals ────────────────────────────────────────────────────────────────

broadcast proof fn lemma_fits_earlier(
    p: Seq<(Seq<char>, JsonView)>,
    extra: (Seq<char>, JsonView),
    x: (Seq<char>, JsonView),
)
    requires
        fits(p, x),
    ensures
        #[trigger] fits(p.push(extra), x),
{
    let j = choose|j: int|
        #![trigger p[j]]
        0 <= j < p.len() && p[j].0 == x.0 && validates(p[j].1, x.1);
    assert(p.push(extra)[j] == p[j]);
}

broadcast proof fn lemma_fitting_member(
    p: Seq<(Seq<char>, JsonView)>,
    m: Seq<(Seq<char>, JsonView)>,
    x: (Seq<char>, JsonView),
)
    requires
        covered(p, m),
        fits(p, x),
    ensures
        #[trigger] covered(p, m.push(x)),
{
    reveal(covered);
}

/// A text where a text or an object may stand.
proof fn lemma_candidates(v: Seq<Seq<char>>)
    ensures
        validates(candidates_schema(), text_array(v)),
{
    broadcast use group_rules;

    let vs = text_array(v)->Arr_0;
    let one = JsonView::Obj(
        no_members().push(
            (
                "type"@,
                JsonView::Arr(
                    no_elements().push(JsonView::Str("string"@)).push(JsonView::Str("object"@)),
                ),
            ),
        ),
    );
    assert(all_validate(one, vs)) by {
        reveal(all_validate);
        assert forall|k: int| 0 <= k < vs.len() implies validates(one, #[trigger] vs[k]) by {
            assert(vs[k] == JsonView::Str(v[k]));
        }
    }
}

/// What the published schema says of candidates.
pub open spec fn candidates_schema() -> JsonView {
    JsonView::Obj(
        no_members()
            .push(("type"@, JsonView::Str("array"@)))
            .push(("items"@, JsonView::Obj(
                no_members()
                    .push(("type"@, JsonView::Arr(
                        no_elements()
                            .push(JsonView::Str("string"@))
                            .push(JsonView::Str("object"@)),
                    ))),
            ))),
    )
}

/// What the published schema says of the fields of an error.
pub open spec fn error_properties() -> Seq<(Seq<char>, JsonView)> {
    no_members()
        .push(("code"@, string_schema_json()))
        .push(("message"@, string_schema_json()))
        .push(("field"@, string_schema_json()))
        .push(("symbol_name"@, string_schema_json()))
        .push(("id_or_handle"@, string_schema_json()))
        .push(("handle"@, string_schema_json()))
        .push(("candidates"@, candidates_schema()))
}

proof fn lemma_refusal(error: Seq<(Seq<char>, JsonView)>)
    requires
        covered(error_properties(), error),
        has_key(error, "code"@),
    ensures
        validates(error_schema_json(), refusal(error)),
{
    broadcast use group_rules;

}

/// Every refusal conforms to the schema of the error envelope.
pub proof fn law_refusals_conform(
    message: Seq<char>,
    symbol_name: Seq<char>,
    records: Seq<ClassifiedRecordView>,
    lookup: TaskLookupView,
    handle: Seq<char>,
)
    ensures
        validates(error_schema_json(), daemon_refusal(message)),
        validates(error_schema_json(), missing_symbol_name()),
        validates(error_schema_json(), symbol_answer(None, symbol_name)),
        !(lookup is Found) ==> validates(
            error_schema_json(),
            task_answer(records, lookup, handle),
        ),
{
    broadcast use {
        group_rules,
        lemma_string,
        lemma_fits_last,
        lemma_fits_earlier,
        lemma_fitting_member,
    };

    lemma_refusal(daemon_refusal(message)->Obj_0[1].1->Obj_0);
    lemma_refusal(missing_symbol_name()->Obj_0[1].1->Obj_0);
    lemma_refusal(symbol_answer(None, symbol_name)->Obj_0[1].1->Obj_0);
    if let TaskLookupView::Ambiguous { handle: h, candidates } = lookup {
        lemma_candidates(candidates);
    }
    if !(lookup is Found) {
        lemma_refusal(task_answer(records, lookup, handle)->Obj_0[1].1->Obj_0);
    }
}

// ── Order ───────────────────────────────────────────────────────────────────

/// The record that a row speaks of.
pub open spec fn row_id(row: JsonView) -> Seq<char> {
    row->Obj_0[0].1->Str_0
}

pub open spec fn row_ids(rows: Seq<JsonView>) -> Seq<Seq<char>> {
    rows.map_values(|r: JsonView| row_id(r))
}

proof fn lemma_rows_in_order(section: Section, s: Seq<ClassifiedRecordView>)
    requires
        ascending(s.map_values(|c: ClassifiedRecordView| c.record.id())),
    ensures
        ascending(row_ids(rows(section, s))),
        forall|k: int|
            0 <= k < rows(section, s).len() ==> s.map_values(
                |c: ClassifiedRecordView| c.record.id(),
            ).contains(#[trigger] row_ids(rows(section, s))[k]),
    decreases s.len(),
{
    if s.len() > 0 {
        let ids = s.map_values(|c: ClassifiedRecordView| c.record.id());
        let before = s.drop_last();
        let earlier = before.map_values(|c: ClassifiedRecordView| c.record.id());
        assert(earlier =~= ids.drop_last());
        assert(ascending(earlier)) by {
            assert forall|i: int, j: int| 0 <= i < j < earlier.len() implies text_le(
                #[trigger] earlier[i],
                #[trigger] earlier[j],
            ) by {
                assert(earlier[i] == ids[i] && earlier[j] == ids[j]);
            }
        }
        lemma_rows_in_order(section, before);
        let old_ids = row_ids(rows(section, before));
        let new_ids = row_ids(rows(section, s));
        assert forall|k: int| 0 <= k < old_ids.len() implies ids.contains(
            #[trigger] old_ids[k],
        ) && text_le(old_ids[k], ids.last()) by {
            let m = choose|m: int| 0 <= m < earlier.len() && earlier[m] == old_ids[k];
            assert(ids[m] == old_ids[k]);
            assert(text_le(ids[m], ids[ids.len() - 1]));
        }
        match row_json(section, s.last()) {
            Some(row) => {
                assert(new_ids =~= old_ids.push(row_id(row)));
                assert(row_id(row) == ids.last());
                assert(ids[ids.len() - 1] == row_id(row));
            },
            None => {
                assert(new_ids =~= old_ids);
            },
        }
    }
}

proof fn lemma_decisions_in_order(s: Seq<DecisionRowView>)
    requires
        ascending(s.map_values(|c: DecisionRowView| c.record.id())),
    ensures
        ascending(row_ids(decision_rows(s))),
        forall|k: int|
            0 <= k < decision_rows(s).len() ==> s.map_values(
                |c: DecisionRowView| c.record.id(),
            ).contains(#[trigger] row_ids(decision_rows(s))[k]),
    decreases s.len(),
{
    if s.len() > 0 {
        let ids = s.map_values(|c: DecisionRowView| c.record.id());
        let before = s.drop_last();
        let earlier = before.map_values(|c: DecisionRowView| c.record.id());
        assert(earlier =~= ids.drop_last());
        assert(ascending(earlier)) by {
            assert forall|i: int, j: int| 0 <= i < j < earlier.len() implies text_le(
                #[trigger] earlier[i],
                #[trigger] earlier[j],
            ) by {
                assert(earlier[i] == ids[i] && earlier[j] == ids[j]);
            }
        }
        lemma_decisions_in_order(before);
        let old_ids = row_ids(decision_rows(before));
        let new_ids = row_ids(decision_rows(s));
        assert forall|k: int| 0 <= k < old_ids.len() implies ids.contains(
            #[trigger] old_ids[k],
        ) && text_le(old_ids[k], ids.last()) by {
            let m = choose|m: int| 0 <= m < earlier.len() && earlier[m] == old_ids[k];
            assert(ids[m] == old_ids[k]);
            assert(text_le(ids[m], ids[ids.len() - 1]));
        }
        match decision_json(s.last()) {
            Some(row) => {
                assert(new_ids =~= old_ids.push(row_id(row)));
                assert(row_id(row) == ids.last());
                assert(ids[ids.len() - 1] == row_id(row));
            },
            None => {
                assert(new_ids =~= old_ids);
            },
        }
    }
}

proof fn lemma_drifts_in_order(s: Seq<DriftRowView>)
    requires
        ascending(s.map_values(|c: DriftRowView| c.record.id())),
    ensures
        ascending(row_ids(drift_rows(s))),
        forall|k: int|
            0 <= k < drift_rows(s).len() ==> s.map_values(
                |c: DriftRowView| c.record.id(),
            ).contains(#[trigger] row_ids(drift_rows(s))[k]),
    decreases s.len(),
{
    if s.len() > 0 {
        let ids = s.map_values(|c: DriftRowView| c.record.id());
        let before = s.drop_last();
        let earlier = before.map_values(|c: DriftRowView| c.record.id());
        assert(earlier =~= ids.drop_last());
        assert(ascending(earlier)) by {
            assert forall|i: int, j: int| 0 <= i < j < earlier.len() implies text_le(
                #[trigger] earlier[i],
                #[trigger] earlier[j],
            ) by {
                assert(earlier[i] == ids[i] && earlier[j] == ids[j]);
            }
        }
        lemma_drifts_in_order(before);
        let old_ids = row_ids(drift_rows(before));
        let new_ids = row_ids(drift_rows(s));
        assert forall|k: int| 0 <= k < old_ids.len() implies ids.contains(
            #[trigger] old_ids[k],
        ) && text_le(old_ids[k], ids.last()) by {
            let m = choose|m: int| 0 <= m < earlier.len() && earlier[m] == old_ids[k];
            assert(ids[m] == old_ids[k]);
            assert(text_le(ids[m], ids[ids.len() - 1]));
        }
        match drift_json(s.last()) {
            Some(row) => {
                assert(new_ids =~= old_ids.push(row_id(row)));
                assert(row_id(row) == ids.last());
                assert(ids[ids.len() - 1] == row_id(row));
            },
            None => {
                assert(new_ids =~= old_ids);
            },
        }
    }
}

proof fn lemma_criteria_in_order(
    records: Seq<ClassifiedRecordView>,
    s: Seq<ClassifiedRecordView>,
)
    requires
        ascending(s.map_values(|c: ClassifiedRecordView| c.record.id())),
    ensures
        ascending(row_ids(criterion_rows(records, s))),
        forall|k: int|
            0 <= k < criterion_rows(records, s).len() ==> s.map_values(
                |c: ClassifiedRecordView| c.record.id(),
            ).contains(#[trigger] row_ids(criterion_rows(records, s))[k]),
    decreases s.len(),
{
    if s.len() > 0 {
        let ids = s.map_values(|c: ClassifiedRecordView| c.record.id());
        let before = s.drop_last();
        let earlier = before.map_values(|c: ClassifiedRecordView| c.record.id());
        assert(earlier =~= ids.drop_last());
        assert(ascending(earlier)) by {
            assert forall|i: int, j: int| 0 <= i < j < earlier.len() implies text_le(
                #[trigger] earlier[i],
                #[trigger] earlier[j],
            ) by {
                assert(earlier[i] == ids[i] && earlier[j] == ids[j]);
            }
        }
        lemma_criteria_in_order(records, before);
        let old_ids = row_ids(criterion_rows(records, before));
        let new_ids = row_ids(criterion_rows(records, s));
        assert forall|k: int| 0 <= k < old_ids.len() implies ids.contains(
            #[trigger] old_ids[k],
        ) && text_le(old_ids[k], ids.last()) by {
            let m = choose|m: int| 0 <= m < earlier.len() && earlier[m] == old_ids[k];
            assert(ids[m] == old_ids[k]);
            assert(text_le(ids[m], ids[ids.len() - 1]));
        }
        match criterion_row(records, s.last()) {
            Some(row) => {
                assert(new_ids =~= old_ids.push(row_id(row)));
                assert(row_id(row) == ids.last());
                assert(ids[ids.len() - 1] == row_id(row));
            },
            None => {
                assert(new_ids =~= old_ids);
            },
        }
    }
}

/// Where the records of a section come in the order of their identities, so do its rows.
pub proof fn law_rows_keep_the_order_of_records(
    section: Section,
    records: Seq<ClassifiedRecordView>,
    s: Seq<ClassifiedRecordView>,
    decisions: Seq<DecisionRowView>,
    drifts: Seq<DriftRowView>,
)
    ensures
        ascending(s.map_values(|c: ClassifiedRecordView| c.record.id())) ==> ascending(
            row_ids(rows(section, s)),
        ) && ascending(row_ids(criterion_rows(records, s))),
        ascending(decisions.map_values(|c: DecisionRowView| c.record.id())) ==> ascending(
            row_ids(decision_rows(decisions)),
        ),
        ascending(drifts.map_values(|c: DriftRowView| c.record.id())) ==> ascending(
            row_ids(drift_rows(drifts)),
        ),
{
    if ascending(s.map_values(|c: ClassifiedRecordView| c.record.id())) {
        lemma_rows_in_order(section, s);
        lemma_criteria_in_order(records, s);
    }
    if ascending(decisions.map_values(|c: DecisionRowView| c.record.id())) {
        lemma_decisions_in_order(decisions);
    }
    if ascending(drifts.map_values(|c: DriftRowView| c.record.id())) {
        lemma_drifts_in_order(drifts);
    }
}

} // verus!
