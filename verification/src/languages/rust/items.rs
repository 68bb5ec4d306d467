//! What the attributes, comments and modifiers of a Rust item say of it.
use vstd::prelude::*;

use crate::duplicate::lemma_push;
use crate::ir::{RouteAnnotation, RouteAnnotationView};
use crate::languages::rust::docs::{
    doc_attribute, doc_attribute_text, doc_comment, doc_comment_text, literal_text,
    string_literal_text,
};
use crate::languages::rust::normalize::{normalize_code, normalized};
use crate::languages::rust::tree::{modifier, trimmed_at, trimmed_text, visibility_modifier};
use crate::languages::syntax::{
    field_child, find_field, find_sibling, first_descendant, first_descendant_of_kind, has_kind,
    is_a, named_child_list, named_children, node_text, positions, prev_named_sibling, prev_sibling,
    text_at, SyntaxNode, SyntaxNodeView,
};
use crate::policy::Redactor;
use crate::text::{
    after, after_last, before_first, before, byte_range, cat, contains, drop_whitespace, ends,
    ends_with, has, join, joined, lower_ascii, lowered, same, slice_bytes, split_first, split_once,
    starts, starts_with, strip_prefix, strip_suffix, trim, trim_trailing, trimmed, without_prefix,
    without_suffix, without_trailing, without_white,
};

verus! {

// ── Words ───────────────────────────────────────────────────────────────────

/// The text without the `use` words that stand at its front.
pub open spec fn without_uses(s: Seq<char>) -> Seq<char>
    decreases s.len(),
{
    match without_prefix(s, "use"@) {
        Some(x) => if x.len() < s.len() {
            without_uses(x)
        } else {
            s
        },
        None => s,
    }
}

fn strip_uses(s: &str) -> (r: String)
    ensures
        r@ == without_uses(s@),
{
    let mut out: String = s.to_owned();
    loop
        invariant_except_break
            without_uses(s@) == without_uses(out@),
        ensures
            without_uses(s@) == out@,
        decreases out@.len(),
    {
        proof {
            reveal_strlit("use");
        }
        match strip_prefix(out.as_str(), "use") {
            Some(x) => {
                out = x;
            },
            None => {
                break;
            },
        }
    }
    out
}

/// The name of an import: its declaration without `use` and the semicolon.
pub open spec fn import_text(text: Seq<char>) -> Seq<char> {
    trimmed(without_trailing(trimmed(without_uses(trimmed(text))), ';'))
}

pub fn import_name(text: &str) -> (r: String)
    ensures
        r@ == import_text(text@),
{
    let bare: String = trim(strip_uses(trim(text).as_str()).as_str());
    trim(trim_trailing(bare.as_str(), ';').as_str())
}

/// The name of a macro that is called, with its exclamation mark.
pub open spec fn macro_name(text: Seq<char>) -> Seq<char> {
    without_trailing(
        match split_first(trimmed(text), "!"@) {
            Some((name, _)) => trimmed(name),
            None => trimmed(text),
        },
        ';',
    ) + "!"@
}

pub fn macro_invocation_name(text: &str) -> (r: String)
    ensures
        r@ == macro_name(text@),
{
    let t: String = trim(text);
    let name: String = match split_once(t.as_str(), "!") {
        Some((name, _)) => trim(name.as_str()),
        None => t,
    };
    cat(trim_trailing(name.as_str(), ';').as_str(), "!")
}

/// A test attribute: `#[test]`, or a path that ends in `::test`, with or without arguments.
pub open spec fn test_attribute(text: Seq<char>) -> bool {
    match without_prefix(without_white(text), "#["@) {
        Some(a) => match without_suffix(a, "]"@) {
            Some(inner) => {
                let name = before_first(inner, "("@);
                name == "test"@ || ends(name, "::test"@)
            },
            None => false,
        },
        None => false,
    }
}

pub fn attribute_is_test(text: &str) -> (r: bool)
    ensures
        r == test_attribute(text@),
{
    match strip_prefix(drop_whitespace(text).as_str(), "#[") {
        Some(a) => match strip_suffix(a.as_str(), "]") {
            Some(inner) => {
                let name: String = before(inner.as_str(), "(");
                same(name.as_str(), "test") || ends_with(name.as_str(), "::test")
            },
            None => false,
        },
        None => false,
    }
}

/// The HTTP method that an attribute name stands for, in whatever case it is written.
pub open spec fn http_method(name: Seq<char>) -> Option<Seq<char>> {
    if lowered(name) == "get"@ {
        Some("GET"@)
    } else if lowered(name) == "post"@ {
        Some("POST"@)
    } else if lowered(name) == "put"@ {
        Some("PUT"@)
    } else if lowered(name) == "delete"@ {
        Some("DELETE"@)
    } else if lowered(name) == "patch"@ {
        Some("PATCH"@)
    } else if lowered(name) == "head"@ {
        Some("HEAD"@)
    } else if lowered(name) == "options"@ {
        Some("OPTIONS"@)
    } else {
        None
    }
}

pub fn http_method_from_attribute_name(name: &str) -> (r: Option<&'static str>)
    ensures
        (match r {
            Some(m) => http_method(name@) == Some(m@),
            None => http_method(name@) is None,
        }),
{
    let low: String = lower_ascii(name);
    let low: &str = low.as_str();
    if same(low, "get") {
        Some("GET")
    } else if same(low, "post") {
        Some("POST")
    } else if same(low, "put") {
        Some("PUT")
    } else if same(low, "delete") {
        Some("DELETE")
    } else if same(low, "patch") {
        Some("PATCH")
    } else if same(low, "head") {
        Some("HEAD")
    } else if same(low, "options") {
        Some("OPTIONS")
    } else {
        None
    }
}

/// The macros that register routes: only `routes`.
pub fn is_route_registration_macro(name: &str) -> (r: bool)
    ensures
        r == (name@ == "routes"@),
{
    same(name, "routes")
}

/// A kind of symbol that has a visibility and a signature of its own.
pub open spec fn has_surface(kind: Seq<char>) -> bool {
    kind == "function"@ || kind == "method"@ || kind == "test"@ || kind == "struct"@ || kind
        == "enum"@ || kind == "trait"@ || kind == "type_alias"@ || kind == "const"@ || kind
        == "static"@
}

pub fn carries_declaration_surface(symbol_kind: &str) -> (r: bool)
    ensures
        r == has_surface(symbol_kind@),
{
    same(symbol_kind, "function") || same(symbol_kind, "method") || same(symbol_kind, "test")
        || same(symbol_kind, "struct") || same(symbol_kind, "enum") || same(symbol_kind, "trait")
        || same(symbol_kind, "type_alias") || same(symbol_kind, "const") || same(
        symbol_kind,
        "static",
    )
}

// ── Attributes in front of an item ──────────────────────────────────────────

pub open spec fn is_comment(t: Seq<SyntaxNodeView>, i: int) -> bool {
    is_a(t, i, "line_comment"@) || is_a(t, i, "block_comment"@)
}

fn check_comment(t: &Vec<SyntaxNode>, i: usize) -> (r: bool)
    ensures
        r == is_comment(t.deep_view(), i as int),
{
    has_kind(t, i, "line_comment") || has_kind(t, i, "block_comment")
}

/// The attributes just in front of the node at `i`, the nearest first. Comments between them do
/// not matter.
pub open spec fn attributes(t: Seq<SyntaxNodeView>, i: int) -> Seq<int>
    decreases i,
{
    match prev_sibling(t, i) {
        Some(s) => if s < 0 || s >= i {
            Seq::empty()
        } else if is_a(t, s, "attribute_item"@) {
            seq![s] + attributes(t, s)
        } else if is_comment(t, s) {
            attributes(t, s)
        } else {
            Seq::empty()
        },
        None => Seq::empty(),
    }
}

pub fn attribute_list(t: &Vec<SyntaxNode>, i: usize) -> (r: Vec<usize>)
    requires
        i < t.len(),
    ensures
        positions(r@) == attributes(t.deep_view(), i as int),
        forall|k: int| 0 <= k < r@.len() ==> #[trigger] r@[k] < t.len(),
{
    let ghost tv = t.deep_view();
    let ghost all = attributes(tv, i as int);
    let mut out: Vec<usize> = Vec::new();
    let mut at: usize = i;
    assert(positions(out@) + all =~= all);
    loop
        invariant_except_break
            tv == t.deep_view(),
            at < t.len(),
            all == positions(out@) + attributes(tv, at as int),
            forall|k: int| 0 <= k < out@.len() ==> #[trigger] out@[k] < t.len(),
        ensures
            all == positions(out@),
            forall|k: int| 0 <= k < out@.len() ==> #[trigger] out@[k] < t.len(),
        decreases at,
    {
        assert(positions(out@) + Seq::<int>::empty() =~= positions(out@));
        match find_sibling(t, at, false) {
            Some(s) => {
                if has_kind(t, s, "attribute_item") {
                    let ghost before = positions(out@);
                    let ghost rest = attributes(tv, s as int);
                    out.push(s);
                    proof {
                        assert(positions(out@) =~= before.push(s as int));
                        assert(before + (seq![s as int] + rest) =~= positions(out@) + rest);
                    }
                } else if !check_comment(t, s) {
                    break;
                }
                at = s;
            },
            None => {
                break;
            },
        }
    }
    out
}

/// What is looked for among attributes.
#[derive(Debug, Clone, Copy, PartialEq, Eq, Structural)]
pub enum Wanted {
    /// A test attribute.
    Test,
    /// Exactly `#[cfg(test)]`.
    CfgTest,
    /// A `#[path]` attribute of any form.
    Path,
}

pub open spec fn meets(w: Wanted, text: Seq<char>) -> bool {
    let bare = without_white(text);
    match w {
        Wanted::Test => test_attribute(text),
        Wanted::CfgTest => bare == "#[cfg(test)]"@,
        Wanted::Path => starts(bare, "#[path="@) || starts(bare, "#[path]"@),
    }
}

fn check_wanted(w: Wanted, text: &str) -> (r: bool)
    ensures
        r == meets(w, text@),
{
    match w {
        Wanted::Test => attribute_is_test(text),
        Wanted::CfgTest => same(drop_whitespace(text).as_str(), "#[cfg(test)]"),
        Wanted::Path => {
            let bare: String = drop_whitespace(text);
            starts_with(bare.as_str(), "#[path=") || starts_with(bare.as_str(), "#[path]")
        },
    }
}

/// One of the attributes in front of the node at `i` is what is looked for.
pub open spec fn has_attribute(t: Seq<SyntaxNodeView>, i: int, w: Wanted) -> bool {
    exists|k: int|
        0 <= k < attributes(t, i).len() && meets(w, text_at(t, #[trigger] attributes(t, i)[k]))
}

pub fn check_attribute(t: &Vec<SyntaxNode>, i: usize, w: Wanted) -> (r: bool)
    requires
        i < t.len(),
    ensures
        r == has_attribute(t.deep_view(), i as int, w),
{
    let ghost tv = t.deep_view();
    let list: Vec<usize> = attribute_list(t, i);
    let ghost all = attributes(tv, i as int);
    let mut k: usize = 0;
    while k < list.len()
        invariant
            tv == t.deep_view(),
            all == attributes(tv, i as int),
            all == positions(list@),
            k <= list.len(),
            forall|j: int| 0 <= j < k ==> !meets(w, text_at(tv, #[trigger] all[j])),
        decreases list.len() - k,
    {
        assert(all[k as int] == list@[k as int] as int);
        if check_wanted(w, node_text(t, list[k])) {
            return true;
        }
        k += 1;
    }
    false
}

/// The file that a `#[path = "..."]` attribute names.
pub open spec fn path_literal(text: Seq<char>) -> Option<Seq<char>> {
    match without_prefix(without_white(text), "#[path=\""@) {
        Some(a) => match without_suffix(a, "\"]"@) {
            Some(l) => if l.len() > 0 && has(l, "\""@) == false {
                Some(l)
            } else {
                None
            },
            None => None,
        },
        None => None,
    }
}

fn read_path_literal(text: &str) -> (r: Option<String>)
    ensures
        r.deep_view() == path_literal(text@),
{
    match strip_prefix(drop_whitespace(text).as_str(), "#[path=\"") {
        Some(a) => match strip_suffix(a.as_str(), "\"]") {
            Some(l) => if !l.as_str().is_empty() && !contains(l.as_str(), "\"") {
                Some(l)
            } else {
                None
            },
            None => None,
        },
        None => None,
    }
}

/// The first path literal among some attributes.
pub open spec fn first_path(t: Seq<SyntaxNodeView>, of: Seq<int>) -> Option<Seq<char>>
    decreases of.len(),
{
    if of.len() == 0 {
        None
    } else {
        match path_literal(text_at(t, of[0])) {
            Some(l) => Some(l),
            None => first_path(t, of.drop_first()),
        }
    }
}

/// The file that a module declaration is moved to.
pub fn mod_path_override(t: &Vec<SyntaxNode>, i: usize) -> (r: Option<String>)
    requires
        i < t.len(),
    ensures
        r.deep_view() == first_path(t.deep_view(), attributes(t.deep_view(), i as int)),
{
    let ghost tv = t.deep_view();
    let list: Vec<usize> = attribute_list(t, i);
    let ghost all = attributes(tv, i as int);
    let mut k: usize = 0;
    assert(all.skip(0) =~= all);
    while k < list.len()
        invariant
            tv == t.deep_view(),
            all == attributes(tv, i as int),
            all == positions(list@),
            k <= list.len(),
            first_path(tv, all) == first_path(tv, all.skip(k as int)),
        decreases list.len() - k,
    {
        proof {
            assert(all.skip(k as int)[0] == list@[k as int] as int);
            assert(all.skip(k as int).drop_first() =~= all.skip(k + 1));
        }
        if let Some(l) = read_path_literal(node_text(t, list[k])) {
            return Some(l);
        }
        k += 1;
    }
    None
}

// ── Routes ──────────────────────────────────────────────────────────────────

/// The route that an attribute declares: its name is, behind any path, an HTTP method, and the
/// first string in it is the path.
pub open spec fn route_of(t: Seq<SyntaxNodeView>, i: int) -> Option<RouteAnnotationView> {
    match first_descendant(t, i, "attribute"@) {
        Some(a) => if named_children(t, a).len() == 0 {
            None
        } else {
            let name = trimmed(after_last(trimmed_at(t, named_children(t, a)[0]), "::"@));
            match (http_method(name), first_descendant(t, a, "string_literal"@)) {
                (Some(method), Some(l)) => match literal_text(trimmed_at(t, l)) {
                    Some(path) => Some(RouteAnnotationView { method, path }),
                    None => None,
                },
                _ => None,
            }
        },
        None => None,
    }
}

pub fn route_annotation_from_attribute(t: &Vec<SyntaxNode>, i: usize) -> (r: Option<
    RouteAnnotation,
>)
    requires
        i < t.len(),
    ensures
        r.deep_view() == route_of(t.deep_view(), i as int),
{
    let ghost tv = t.deep_view();
    match first_descendant_of_kind(t, i, "attribute") {
        Some(a) => {
            let kids: Vec<usize> = named_child_list(t, a);
            assert(positions(kids@).len() == kids@.len());
            if kids.len() == 0 {
                return None;
            }
            assert(named_children(tv, a as int)[0] == kids@[0] as int);
            let raw: String = trimmed_text(t, kids[0]);
            let name: String = trim(after(raw.as_str(), "::").as_str());
            match http_method_from_attribute_name(name.as_str()) {
                Some(method) => match first_descendant_of_kind(t, a, "string_literal") {
                    Some(l) => match string_literal_text(trimmed_text(t, l).as_str()) {
                        Some(path) => Some(RouteAnnotation { method: method.to_owned(), path }),
                        None => None,
                    },
                    None => None,
                },
                None => None,
            }
        },
        None => None,
    }
}

/// The routes of some attributes, which stand in reverse order.
pub open spec fn routes_of(t: Seq<SyntaxNodeView>, of: Seq<int>) -> Seq<RouteAnnotationView>
    decreases of.len(),
{
    if of.len() == 0 {
        Seq::empty()
    } else {
        match route_of(t, of[0]) {
            Some(r) => routes_of(t, of.drop_first()).push(r),
            None => routes_of(t, of.drop_first()),
        }
    }
}

/// The routes that the attributes of an item declare, in the order of the source.
pub fn route_annotations(t: &Vec<SyntaxNode>, i: usize) -> (r: Vec<RouteAnnotation>)
    requires
        i < t.len(),
    ensures
        r.deep_view() == routes_of(t.deep_view(), attributes(t.deep_view(), i as int)),
{
    let ghost tv = t.deep_view();
    let list: Vec<usize> = attribute_list(t, i);
    let ghost all = attributes(tv, i as int);
    let mut out: Vec<RouteAnnotation> = Vec::new();
    let mut k: usize = list.len();
    assert(all.skip(k as int).len() == 0);
    assert(out.deep_view() =~= routes_of(tv, all.skip(k as int)));
    while k > 0
        invariant
            tv == t.deep_view(),
            all == positions(list@),
            k <= list.len(),
            forall|k: int| 0 <= k < list@.len() ==> #[trigger] list@[k] < t.len(),
            out.deep_view() == routes_of(tv, all.skip(k as int)),
        decreases k,
    {
        k -= 1;
        proof {
            assert(all.skip(k as int)[0] == list@[k as int] as int);
            assert(all.skip(k as int).drop_first() =~= all.skip(k + 1));
        }
        if let Some(r) = route_annotation_from_attribute(t, list[k]) {
            let ghost before = out;
            out.push(r);
            proof {
                lemma_push(before, out);
            }
        }
    }
    assert(all.skip(0) =~= all);
    out
}

// ── Declarations ────────────────────────────────────────────────────────────

/// Who sees an item: `public`, `crate`, `restricted` or `private`.
pub open spec fn visibility(t: Seq<SyntaxNodeView>, i: int) -> Seq<char> {
    match modifier(t, i) {
        None => "private"@,
        Some(m) => {
            let text = without_white(text_at(t, m));
            if text == "pub"@ {
                "public"@
            } else if text == "pub(crate)"@ {
                "crate"@
            } else if text == "pub(self)"@ {
                "private"@
            } else {
                "restricted"@
            }
        },
    }
}

pub fn symbol_visibility(t: &Vec<SyntaxNode>, i: usize) -> (r: &'static str)
    requires
        i < t.len(),
    ensures
        r@ == visibility(t.deep_view(), i as int),
{
    match visibility_modifier(t, i) {
        None => "private",
        Some(m) => {
            let text: String = drop_whitespace(node_text(t, m));
            if same(text.as_str(), "pub") {
                "public"
            } else if same(text.as_str(), "pub(crate)") {
                "crate"
            } else if same(text.as_str(), "pub(self)") {
                "private"
            } else {
                "restricted"
            }
        },
    }
}

/// A body that is no part of a signature.
pub open spec fn is_body(t: Seq<SyntaxNodeView>, i: int) -> bool {
    is_a(t, i, "block"@) || is_a(t, i, "field_declaration_list"@) || is_a(t, i, "enum_variant_list"@)
        || is_a(t, i, "declaration_list"@)
}

/// The header of a declaration, from behind its visibility up to its body, normalized.
pub open spec fn signature(source: Seq<char>, t: Seq<SyntaxNodeView>, i: int) -> Seq<char> {
    let start = match modifier(t, i) {
        Some(m) => t[m].end_byte,
        None => t[i].start_byte,
    };
    let end = match field_child(t, i, "body"@) {
        Some(b) => if is_body(t, b) {
            t[b].start_byte
        } else {
            t[i].end_byte
        },
        None => t[i].end_byte,
    };
    match byte_range(source, start as int, end as int) {
        Some(text) => normalized(text),
        None => normalized(Seq::empty()),
    }
}

pub fn symbol_signature(source: &str, t: &Vec<SyntaxNode>, i: usize) -> (r: String)
    requires
        i < t.len(),
    ensures
        r@ == signature(source@, t.deep_view(), i as int),
{
    let ghost tv = t.deep_view();
    assert(tv[i as int] == t@[i as int].deep_view());
    let start: usize = match visibility_modifier(t, i) {
        Some(m) => {
            assert(tv[m as int] == t@[m as int].deep_view());
            t[m].end_byte
        },
        None => t[i].start_byte,
    };
    let end: usize = match find_field(t, i, "body") {
        Some(b) => {
            assert(tv[b as int] == t@[b as int].deep_view());
            if has_kind(t, b, "block") || has_kind(t, b, "field_declaration_list") || has_kind(
                t,
                b,
                "enum_variant_list",
            ) || has_kind(t, b, "declaration_list") {
                t[b].start_byte
            } else {
                t[i].end_byte
            }
        },
        None => t[i].end_byte,
    };
    match slice_bytes(source, start, end) {
        Some(text) => normalize_code(text.as_str()),
        None => {
            proof {
                reveal_strlit("");
                assert(""@ =~= Seq::<char>::empty());
            }
            normalize_code("")
        },
    }
}

/// The documentation in front of the node at `i`, in the order of the source. Attributes that say
/// nothing do not matter; a comment that is no documentation ends it.
pub open spec fn doc_parts(t: Seq<SyntaxNodeView>, i: int) -> Seq<Seq<char>>
    decreases i,
{
    match prev_sibling(t, i) {
        Some(s) => if s < 0 || s >= i {
            Seq::empty()
        } else if is_comment(t, s) {
            match doc_comment(text_at(t, s)) {
                Some(text) => doc_parts(t, s).push(text),
                None => Seq::empty(),
            }
        } else if is_a(t, s, "attribute_item"@) {
            match doc_attribute(text_at(t, s)) {
                Some(text) => doc_parts(t, s).push(text),
                None => doc_parts(t, s),
            }
        } else {
            Seq::empty()
        },
        None => Seq::empty(),
    }
}

fn collect_doc_parts(t: &Vec<SyntaxNode>, i: usize) -> (r: Vec<String>)
    requires
        i < t.len(),
    ensures
        r.deep_view() == doc_parts(t.deep_view(), i as int),
    decreases i,
{
    let none: Vec<String> = Vec::new();
    assert(none.deep_view() =~= Seq::empty());
    match find_sibling(t, i, false) {
        Some(s) => {
            if check_comment(t, s) {
                match doc_comment_text(node_text(t, s)) {
                    Some(text) => {
                        let mut out: Vec<String> = collect_doc_parts(t, s);
                        let ghost before = out;
                        out.push(text);
                        proof {
                            lemma_push(before, out);
                        }
                        out
                    },
                    None => none,
                }
            } else if has_kind(t, s, "attribute_item") {
                let mut out: Vec<String> = collect_doc_parts(t, s);
                if let Some(text) = doc_attribute_text(node_text(t, s)) {
                    let ghost before = out;
                    out.push(text);
                    proof {
                        lemma_push(before, out);
                    }
                }
                out
            } else {
                none
            }
        },
        None => none,
    }
}

/// The documentation of an item, redacted; none where it says nothing.
pub open spec fn documentation<R: Redactor>(redact: R, t: Seq<SyntaxNodeView>, i: int) -> Option<
    Seq<char>,
> {
    let parts = doc_parts(t, i);
    let text = trimmed(joined(parts, "\n"@));
    if parts.len() == 0 || text.len() == 0 {
        None
    } else {
        Some(redact.redacted(text))
    }
}

pub fn symbol_doc<R: Redactor>(redact: &R, t: &Vec<SyntaxNode>, i: usize) -> (r: Option<String>)
    requires
        i < t.len(),
    ensures
        r.deep_view() == documentation(*redact, t.deep_view(), i as int),
{
    let parts: Vec<String> = collect_doc_parts(t, i);
    assert(parts.deep_view().len() == parts@.len());
    if parts.len() == 0 {
        return None;
    }
    let text: String = trim(join(&parts, "\n").as_str());
    if text.as_str().is_empty() {
        None
    } else {
        Some(redact.redact(text.as_str()))
    }
}

/// A function that is a test: its text, or the attribute just in front of it, says so.
pub open spec fn test_function(t: Seq<SyntaxNodeView>, i: int) -> bool {
    has(text_at(t, i), "#[test]"@) || match prev_named_sibling(t, i) {
        Some(s) => is_a(t, s, "attribute_item"@) && has(text_at(t, s), "test"@),
        None => false,
    }
}

pub fn is_test_function(t: &Vec<SyntaxNode>, i: usize) -> (r: bool)
    requires
        i < t.len(),
    ensures
        r == test_function(t.deep_view(), i as int),
{
    contains(node_text(t, i), "#[test]") || match find_sibling(t, i, true) {
        Some(s) => has_kind(t, s, "attribute_item") && contains(node_text(t, s), "test"),
        None => false,
    }
}

} // verus!
