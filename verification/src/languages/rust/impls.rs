//! Headers of `impl` blocks, read as text.
use vstd::prelude::*;

use crate::duplicate::lemma_push;
use crate::order::{distinct, distinct_texts};
use crate::text::{
    after, after_last, before, before_first, chars_of, collapse_whitespace, collapsed,
    contains_text, ident_char, is_ident, left_trimmed, right_trimmed, same, slice_text, split_first,
    split_once, starts, starts_with, strip_prefix, strip_suffix, trim, trim_end, trim_start,
    trimmed, without_prefix, without_suffix,
};

verus! {

/// What becomes of an `impl` block: the trait or type it leads to, the block itself, or nothing.
#[derive(Debug, PartialEq, Eq)]
pub enum ImplTargetDecision {
    /// The bare name of a trait or type, to be resolved.
    Resolve(String),
    /// A generic inherent impl: it names no trait.
    Verbatim,
    /// A blanket impl, or one for a type without a name: there is no single implementing type.
    NoEdge,
}

#[verifier::ext_equal]
pub enum ImplTargetDecisionView {
    Resolve(Seq<char>),
    Verbatim,
    NoEdge,
}

impl DeepView for ImplTargetDecision {
    type V = ImplTargetDecisionView;

    open spec fn deep_view(&self) -> ImplTargetDecisionView {
        match self {
            ImplTargetDecision::Resolve(s) => ImplTargetDecisionView::Resolve(s@),
            ImplTargetDecision::Verbatim => ImplTargetDecisionView::Verbatim,
            ImplTargetDecision::NoEdge => ImplTargetDecisionView::NoEdge,
        }
    }
}

// ── Identifiers ─────────────────────────────────────────────────────────────

/// A plain identifier: letters, digits and underscores.
pub open spec fn simple_ident(s: Seq<char>) -> bool {
    s.len() > 0 && forall|i: int| 0 <= i < s.len() ==> is_ident(#[trigger] s[i])
}

pub fn is_simple_ident(text: &str) -> (r: bool)
    ensures
        r == simple_ident(text@),
{
    let cs: Vec<char> = chars_of(text);
    let mut i: usize = 0;
    while i < cs.len()
        invariant
            cs@ == text@,
            i <= cs.len(),
            forall|k: int| 0 <= k < i ==> is_ident(#[trigger] cs@[k]),
        decreases cs.len() - i,
    {
        if !ident_char(cs[i]) {
            return false;
        }
        i += 1;
    }
    cs.len() > 0
}

/// Where the identifier at `i` ends.
pub open spec fn ident_end(s: Seq<char>, i: int) -> int
    decreases s.len() - i,
{
    if 0 <= i < s.len() && is_ident(s[i]) {
        ident_end(s, i + 1)
    } else {
        i
    }
}

fn find_ident_end(cs: &[char], from: usize) -> (r: usize)
    requires
        from <= cs.len(),
    ensures
        r == ident_end(cs@, from as int),
        from <= r <= cs.len(),
{
    let mut i: usize = from;
    while i < cs.len() && ident_char(cs[i])
        invariant
            from <= i <= cs.len(),
            ident_end(cs@, from as int) == ident_end(cs@, i as int),
        decreases cs.len() - i,
    {
        i += 1;
    }
    i
}

/// The identifier that a text begins with.
pub open spec fn leading_ident(s: Seq<char>) -> Seq<char> {
    s.take(ident_end(s, 0))
}

/// What follows the identifier that a text begins with.
pub open spec fn behind_ident(s: Seq<char>) -> Seq<char> {
    s.skip(ident_end(s, 0))
}

fn take_ident(s: &str) -> (r: (String, String))
    ensures
        r.0@ == leading_ident(s@),
        r.1@ == behind_ident(s@),
{
    let cs: Vec<char> = chars_of(s);
    let e: usize = find_ident_end(cs.as_slice(), 0);
    assert(s@.subrange(0, e as int) =~= s@.take(e as int));
    assert(s@.subrange(e as int, s@.len() as int) =~= s@.skip(e as int));
    (slice_text(cs.as_slice(), 0, e), slice_text(cs.as_slice(), e, cs.len()))
}

// ── Binders ─────────────────────────────────────────────────────────────────

/// The `>` at `i` is the head of an arrow, which closes nothing.
pub open spec fn arrow_head(s: Seq<char>, i: int) -> bool {
    0 < i < s.len() && s[i] == '>' && s[i - 1] == '-'
}

/// Where the angle brackets that are `depth` deep at `i` close.
pub open spec fn angle_end(s: Seq<char>, i: int, depth: int) -> Option<int>
    decreases s.len() - i,
{
    if i < 0 || i >= s.len() {
        None
    } else if s[i] == '<' {
        angle_end(s, i + 1, depth + 1)
    } else if s[i] == '>' && !arrow_head(s, i) {
        if depth <= 1 {
            Some(i)
        } else {
            angle_end(s, i + 1, depth - 1)
        }
    } else {
        angle_end(s, i + 1, depth)
    }
}

fn find_angle_end(cs: &[char], from: usize) -> (r: Option<usize>)
    requires
        from <= cs.len(),
    ensures
        (match r {
            Some(e) => angle_end(cs@, from as int, 1) == Some(e as int) && from <= e < cs.len(),
            None => angle_end(cs@, from as int, 1) is None,
        }),
{
    let mut i: usize = from;
    let mut nested: usize = 0;
    while i < cs.len()
        invariant
            from <= i <= cs.len(),
            nested <= i - from,
            angle_end(cs@, from as int, 1) == angle_end(cs@, i as int, nested + 1),
        decreases cs.len() - i,
    {
        if cs[i] == '<' {
            nested += 1;
        } else if cs[i] == '>' && !(i > 0 && cs[i - 1] == '-') {
            if nested == 0 {
                return Some(i);
            }
            nested -= 1;
        }
        i += 1;
    }
    None
}

/// How deep brackets are behind position `i`; a bracket that closes nothing does not count, nor
/// does an arrow.
pub open spec fn bracket_depth(s: Seq<char>, i: int, depth: int) -> int {
    if s[i] == '<' || s[i] == '(' || s[i] == '[' {
        depth + 1
    } else if ((s[i] == '>' && !arrow_head(s, i)) || s[i] == ')' || s[i] == ']') && depth > 0 {
        depth - 1
    } else {
        depth
    }
}

/// The text from `start` on, cut at the commas outside all brackets.
pub open spec fn comma_parts(s: Seq<char>, start: int, i: int, depth: int) -> Seq<Seq<char>>
    decreases s.len() - i,
{
    if i < 0 || i >= s.len() {
        seq![s.skip(start)]
    } else if s[i] == ',' && depth == 0 {
        seq![s.subrange(start, i)] + comma_parts(s, i + 1, i + 1, 0)
    } else {
        comma_parts(s, start, i + 1, bracket_depth(s, i, depth))
    }
}

fn split_commas(inner: &str) -> (r: Vec<String>)
    ensures
        r.deep_view() == comma_parts(inner@, 0, 0, 0),
{
    let cs: Vec<char> = chars_of(inner);
    let ghost s = inner@;
    let mut out: Vec<String> = Vec::new();
    let mut start: usize = 0;
    let mut depth: usize = 0;
    let mut i: usize = 0;
    assert(out.deep_view() + comma_parts(s, 0, 0, 0) =~= comma_parts(s, 0, 0, 0));
    while i < cs.len()
        invariant
            cs@ == s,
            s == inner@,
            start <= i <= cs.len(),
            depth <= i,
            comma_parts(s, 0, 0, 0) == out.deep_view() + comma_parts(
                s,
                start as int,
                i as int,
                depth as int,
            ),
        decreases cs.len() - i,
    {
        let c: char = cs[i];
        if c == ',' && depth == 0 {
            let ghost before = out;
            let ghost rest = comma_parts(s, i + 1, i + 1, 0);
            out.push(slice_text(cs.as_slice(), start, i));
            proof {
                lemma_push(before, out);
                assert(before.deep_view() + (seq![s.subrange(start as int, i as int)] + rest)
                    =~= out.deep_view() + rest);
            }
            start = i + 1;
        } else if c == '<' || c == '(' || c == '[' {
            depth += 1;
        } else if ((c == '>' && !(i > 0 && cs[i - 1] == '-')) || c == ')' || c == ']') && depth
            > 0 {
            depth -= 1;
        }
        i += 1;
    }
    let ghost before = out;
    out.push(slice_text(cs.as_slice(), start, cs.len()));
    proof {
        lemma_push(before, out);
        assert(s.subrange(start as int, s.len() as int) =~= s.skip(start as int));
        assert(before.deep_view() + seq![s.skip(start as int)] =~= out.deep_view());
    }
    out
}

/// The parameter that one part of a binder declares. A lifetime declares none.
pub open spec fn binder_param(part: Seq<char>) -> Option<Seq<char>> {
    let seg = trimmed(part);
    if seg.len() == 0 || starts(seg, "'"@) {
        None
    } else {
        let name = leading_ident(
            match without_prefix(seg, "const "@) {
                Some(x) => left_trimmed(x),
                None => seg,
            },
        );
        if simple_ident(name) {
            Some(name)
        } else {
            None
        }
    }
}

fn read_binder_param(part: &str) -> (r: Option<String>)
    ensures
        r.deep_view() == binder_param(part@),
{
    let seg: String = trim(part);
    if seg.as_str().is_empty() || starts_with(seg.as_str(), "'") {
        return None;
    }
    let body: String = match strip_prefix(seg.as_str(), "const ") {
        Some(x) => trim_start(x.as_str()),
        None => seg,
    };
    let name: String = take_ident(body.as_str()).0;
    if is_simple_ident(name.as_str()) {
        Some(name)
    } else {
        None
    }
}

pub open spec fn params_of(parts: Seq<Seq<char>>) -> Seq<Seq<char>>
    decreases parts.len(),
{
    if parts.len() == 0 {
        Seq::empty()
    } else {
        match binder_param(parts.last()) {
            Some(p) => params_of(parts.drop_last()).push(p),
            None => params_of(parts.drop_last()),
        }
    }
}

/// The parameters that the inside of a binder declares.
pub open spec fn binder_params(inner: Seq<char>) -> Seq<Seq<char>> {
    params_of(comma_parts(inner, 0, 0, 0))
}

pub fn parse_binder_params(inner: &str) -> (r: Vec<String>)
    ensures
        r.deep_view() == binder_params(inner@),
{
    let parts: Vec<String> = split_commas(inner);
    let ghost all = parts.deep_view();
    let mut out: Vec<String> = Vec::new();
    let mut i: usize = 0;
    assert(out.deep_view() =~= params_of(all.take(0)));
    while i < parts.len()
        invariant
            i <= parts.len(),
            all == parts.deep_view(),
            out.deep_view() == params_of(all.take(i as int)),
        decreases parts.len() - i,
    {
        proof {
            assert(all.take(i + 1).drop_last() =~= all.take(i as int));
            assert(all.take(i + 1).last() == parts@[i as int].deep_view());
        }
        if let Some(p) = read_binder_param(parts[i].as_str()) {
            let ghost before = out;
            out.push(p);
            proof {
                lemma_push(before, out);
            }
        }
        i += 1;
    }
    assert(all.take(parts.len() as int) =~= all);
    out
}

/// A text that begins with `<`, taken apart: the parameters of that binder, and what follows it. A
/// binder that does not close leaves neither.
pub open spec fn split_binder(s: Seq<char>) -> (Seq<Seq<char>>, Seq<char>) {
    match angle_end(s, 1, 1) {
        Some(e) => (binder_params(s.subrange(1, e)), s.skip(e + 1)),
        None => (Seq::empty(), Seq::empty()),
    }
}

pub fn split_generic_binder(s: &str) -> (r: (Vec<String>, String))
    requires
        s@.len() > 0,
    ensures
        (r.0.deep_view(), r.1@) == split_binder(s@),
{
    let cs: Vec<char> = chars_of(s);
    match find_angle_end(cs.as_slice(), 1) {
        Some(e) => {
            let inner: String = slice_text(cs.as_slice(), 1, e);
            assert(s@.subrange(e + 1, s@.len() as int) =~= s@.skip(e + 1));
            (
                parse_binder_params(inner.as_str()),
                slice_text(cs.as_slice(), e + 1, cs.len()),
            )
        },
        None => {
            let none: Vec<String> = Vec::new();
            assert(none.deep_view() =~= Seq::empty());
            (none, String::new())
        },
    }
}

// ── Targets ─────────────────────────────────────────────────────────────────

/// A trait path without its generic arguments, and without the `::` of a turbofish.
pub open spec fn without_generics(seg: Seq<char>) -> Seq<char> {
    let base = trimmed(before_first(seg, "<"@));
    match without_suffix(base, "::"@) {
        Some(x) => right_trimmed(x),
        None => base,
    }
}

pub fn strip_trait_generics(trait_seg: &str) -> (r: String)
    ensures
        r@ == without_generics(trait_seg@),
{
    let base: String = trim(before(trait_seg, "<").as_str());
    match strip_suffix(base.as_str(), "::") {
        Some(x) => trim_end(x.as_str()),
        None => base,
    }
}

/// What follows the lifetime of a reference, if it has one.
pub open spec fn behind_lifetime(s: Seq<char>) -> Seq<char> {
    match without_prefix(s, "'"@) {
        Some(x) => left_trimmed(behind_ident(x)),
        None => s,
    }
}

fn skip_lifetime(s: &str) -> (r: String)
    ensures
        r@ == behind_lifetime(s@),
{
    match strip_prefix(s, "'") {
        Some(x) => trim_start(take_ident(x.as_str()).1.as_str()),
        None => s.to_owned(),
    }
}

/// The type behind one reference or pointer; none where there is no such sign.
pub open spec fn pointee(s: Seq<char>) -> Option<Seq<char>> {
    match without_prefix(s, "&"@) {
        Some(x) => {
            let rest = behind_lifetime(left_trimmed(x));
            Some(
                match without_prefix(rest, "mut "@) {
                    Some(y) => left_trimmed(y),
                    None => rest,
                },
            )
        },
        None => match (without_prefix(s, "*const "@), without_prefix(s, "*mut "@)) {
            (Some(x), _) => Some(left_trimmed(x)),
            (None, Some(x)) => Some(left_trimmed(x)),
            (None, None) => None,
        },
    }
}

fn find_pointee(s: &str) -> (r: Option<String>)
    ensures
        r.deep_view() == pointee(s@),
{
    if let Some(x) = strip_prefix(s, "&") {
        let rest: String = skip_lifetime(trim_start(x.as_str()).as_str());
        return match strip_prefix(rest.as_str(), "mut ") {
            Some(y) => Some(trim_start(y.as_str())),
            None => Some(rest),
        };
    }
    if let Some(x) = strip_prefix(s, "*const ") {
        return Some(trim_start(x.as_str()));
    }
    match strip_prefix(s, "*mut ") {
        Some(x) => Some(trim_start(x.as_str())),
        None => None,
    }
}

/// The type behind all references and pointers.
pub open spec fn core_of(s: Seq<char>) -> Seq<char>
    decreases s.len(),
{
    match pointee(s) {
        Some(t) => if t.len() < s.len() {
            core_of(t)
        } else {
            s
        },
        None => s,
    }
}

/// The innermost type that an impl is for, its where clause left off.
pub open spec fn target_core(for_target: Seq<char>) -> Seq<char> {
    core_of(trimmed(before_first(for_target, " where "@)))
}

proof fn lemma_left_trimmed_len(s: Seq<char>)
    ensures
        left_trimmed(s).len() <= s.len(),
    decreases s.len(),
{
    if s.len() > 0 {
        lemma_left_trimmed_len(s.drop_first());
    }
}

proof fn lemma_ident_end(s: Seq<char>, i: int)
    requires
        0 <= i <= s.len(),
    ensures
        i <= ident_end(s, i) <= s.len(),
    decreases s.len() - i,
{
    if i < s.len() && is_ident(s[i]) {
        lemma_ident_end(s, i + 1);
    }
}

proof fn lemma_pointee_is_shorter(s: Seq<char>)
    ensures
        pointee(s) matches Some(t) ==> t.len() < s.len(),
{
    reveal_strlit("&");
    reveal_strlit("*const ");
    reveal_strlit("*mut ");
    reveal_strlit("mut ");
    reveal_strlit("'");
    if let Some(x) = without_prefix(s, "&"@) {
        lemma_left_trimmed_len(x);
        let a = left_trimmed(x);
        if let Some(y) = without_prefix(a, "'"@) {
            lemma_ident_end(y, 0);
            lemma_left_trimmed_len(behind_ident(y));
        }
        let rest = behind_lifetime(a);
        if let Some(y) = without_prefix(rest, "mut "@) {
            lemma_left_trimmed_len(y);
        }
    }
    if let Some(x) = without_prefix(s, "*const "@) {
        lemma_left_trimmed_len(x);
    }
    if let Some(x) = without_prefix(s, "*mut "@) {
        lemma_left_trimmed_len(x);
    }
}

pub fn for_target_core(for_target: &str) -> (r: String)
    ensures
        r@ == target_core(for_target@),
{
    let mut core: String = trim(before(for_target, " where ").as_str());
    loop
        invariant_except_break
            target_core(for_target@) == core_of(core@),
        ensures
            target_core(for_target@) == core@,
        decreases core@.len(),
    {
        proof {
            lemma_pointee_is_shorter(core@);
        }
        match find_pointee(core.as_str()) {
            Some(t) => {
                core = t;
            },
            None => {
                break;
            },
        }
    }
    core
}

/// A type without a name of its own: a slice, an array, a tuple, a trait object or an opaque type.
pub open spec fn non_nominal(core: Seq<char>) -> bool {
    starts(core, "["@) || starts(core, "("@) || core == "dyn"@ || core == "impl"@ || starts(
        core,
        "dyn "@,
    ) || starts(core, "impl "@)
}

pub fn is_non_nominal_target(core: &str) -> (r: bool)
    ensures
        r == non_nominal(core@),
{
    starts_with(core, "[") || starts_with(core, "(") || same(core, "dyn") || same(core, "impl")
        || starts_with(core, "dyn ") || starts_with(core, "impl ")
}

/// What follows the `impl` of a header; none where it is no header.
pub open spec fn behind_impl(display: Seq<char>) -> Option<Seq<char>> {
    let header = trimmed(
        match without_prefix(display, "unsafe "@) {
            Some(x) => x,
            None => display,
        },
    );
    match without_prefix(header, "impl"@) {
        Some(x) => if starts(x, " "@) || starts(x, "<"@) {
            Some(left_trimmed(x))
        } else {
            None
        },
        None => None,
    }
}

fn find_behind_impl(display: &str) -> (r: Option<String>)
    ensures
        r.deep_view() == behind_impl(display@),
{
    let header: String = match strip_prefix(display, "unsafe ") {
        Some(x) => trim(x.as_str()),
        None => trim(display),
    };
    match strip_prefix(header.as_str(), "impl") {
        Some(x) => if starts_with(x.as_str(), " ") || starts_with(x.as_str(), "<") {
            Some(trim_start(x.as_str()))
        } else {
            None
        },
        None => None,
    }
}

/// What a header leads to. `rest` is what follows its binder, which declares `params`.
pub open spec fn rest_target(params: Seq<Seq<char>>, rest: Seq<char>) -> ImplTargetDecisionView {
    match split_first(rest, " for "@) {
        Some((seg, target)) => {
            let bare = without_generics(trimmed(seg));
            let core = target_core(target);
            if bare.len() == 0 || params.contains(core) || non_nominal(core) {
                ImplTargetDecisionView::NoEdge
            } else {
                ImplTargetDecisionView::Resolve(bare)
            }
        },
        None => if params.len() == 0 {
            ImplTargetDecisionView::Resolve(trimmed(rest))
        } else {
            ImplTargetDecisionView::Verbatim
        },
    }
}

/// What an impl header leads to: with a `for` clause its trait without generics, unless it is for
/// a bare parameter of its binder or for a type without a name; without one its type, unless it is
/// generic.
pub open spec fn header_target(display: Seq<char>) -> ImplTargetDecisionView {
    match behind_impl(display) {
        None => ImplTargetDecisionView::Verbatim,
        Some(t) => if starts(t, "<"@) {
            let (params, rest) = split_binder(t);
            rest_target(params, left_trimmed(rest))
        } else {
            rest_target(Seq::empty(), t)
        },
    }
}

fn decide_rest(params: &Vec<String>, rest: &str) -> (r: ImplTargetDecision)
    ensures
        r.deep_view() == rest_target(params.deep_view(), rest@),
{
    match split_once(rest, " for ") {
        Some((seg, target)) => {
            let bare: String = strip_trait_generics(trim(seg.as_str()).as_str());
            let core: String = for_target_core(target.as_str());
            if bare.as_str().is_empty() || contains_text(params, core.as_str())
                || is_non_nominal_target(core.as_str()) {
                ImplTargetDecision::NoEdge
            } else {
                ImplTargetDecision::Resolve(bare)
            }
        },
        None => if params.len() == 0 {
            ImplTargetDecision::Resolve(trim(rest))
        } else {
            ImplTargetDecision::Verbatim
        },
    }
}

pub fn impl_trait_target(display: &str) -> (r: ImplTargetDecision)
    ensures
        r.deep_view() == header_target(display@),
{
    match find_behind_impl(display) {
        None => ImplTargetDecision::Verbatim,
        Some(t) => if starts_with(t.as_str(), "<") {
            proof {
                reveal_strlit("<");
            }
            let (params, rest) = split_generic_binder(t.as_str());
            decide_rest(&params, trim_start(rest.as_str()).as_str())
        } else {
            let none: Vec<String> = Vec::new();
            assert(none.deep_view() =~= Seq::empty());
            decide_rest(&none, t.as_str())
        },
    }
}

// ── Owners ──────────────────────────────────────────────────────────────────

/// The header of an impl block, on one line.
pub open spec fn header_of(text: Seq<char>) -> Seq<char> {
    collapsed(before_first(text, "{"@))
}

pub fn impl_display(text: &str) -> (r: String)
    ensures
        r@ == header_of(text@),
{
    collapse_whitespace(before(text, "{").as_str())
}

pub open spec fn owner_text(display: Seq<char>) -> Seq<char> {
    match without_prefix(display, "impl "@) {
        Some(x) => trimmed(x),
        None => trimmed(display),
    }
}

pub fn method_owner(display: &str) -> (r: String)
    ensures
        r@ == owner_text(display@),
{
    match strip_prefix(display, "impl ") {
        Some(x) => trim(x.as_str()),
        None => trim(display),
    }
}

/// A text without a leading keyword `impl` and the binder behind it.
pub open spec fn without_impl(owner: Seq<char>) -> Seq<char> {
    match without_prefix(owner, "impl"@) {
        None => owner,
        Some(x) => if begins_ident(x) {
            owner
        } else {
            match without_prefix(left_trimmed(x), "<"@) {
                None => left_trimmed(x),
                Some(generics) => match angle_end(generics, 0, 1) {
                    Some(e) => generics.skip(e + 1),
                    None => Seq::empty(),
                },
            }
        },
    }
}

pub open spec fn begins_ident(s: Seq<char>) -> bool {
    s.len() > 0 && is_ident(s[0])
}

fn check_begins_ident(s: &str) -> (r: bool)
    ensures
        r == begins_ident(s@),
{
    let cs: Vec<char> = chars_of(s);
    cs.len() > 0 && ident_char(cs[0])
}

pub fn strip_impl_prefix(owner: &str) -> (r: String)
    ensures
        r@ == without_impl(owner@),
{
    match strip_prefix(owner, "impl") {
        None => owner.to_owned(),
        Some(x) => {
            if check_begins_ident(x.as_str()) {
                return owner.to_owned();
            }
            let rest: String = trim_start(x.as_str());
            match strip_prefix(rest.as_str(), "<") {
                None => rest,
                Some(generics) => {
                    let cs: Vec<char> = chars_of(generics.as_str());
                    match find_angle_end(cs.as_slice(), 0) {
                        Some(e) => {
                            assert(cs@.subrange(e + 1, cs@.len() as int) =~= cs@.skip(e + 1));
                            slice_text(cs.as_slice(), e + 1, cs.len())
                        },
                        None => String::new(),
                    }
                },
            }
        },
    }
}

/// The path of the implementing type as it is written, without generics; it may be empty.
pub open spec fn type_path(owner: Seq<char>) -> Seq<char> {
    trimmed(before_first(trimmed(without_impl(trimmed(after_last(owner, " for "@)))), "<"@))
}

fn find_type_path(owner: &str) -> (r: String)
    ensures
        r@ == type_path(owner@),
{
    let last: String = trim(after(owner, " for ").as_str());
    let bare: String = trim(strip_impl_prefix(last.as_str()).as_str());
    trim(before(bare.as_str(), "<").as_str())
}

/// A type that goes by a path: no reference, pointer, slice, tuple or trait object.
pub open spec fn goes_by_path(t: Seq<char>) -> bool {
    (begins_ident(t) || starts(t, "::"@)) && !starts(t, "dyn "@)
}

/// The simple name of the implementing type, where it has one.
pub open spec fn owner_name_of(owner: Seq<char>) -> Option<Seq<char>> {
    let path = type_path(owner);
    let name = trimmed(after_last(path, "::"@));
    if goes_by_path(path) && simple_ident(name) {
        Some(name)
    } else {
        None
    }
}

pub fn normalize_impl_owner(owner: &str) -> (r: Option<String>)
    ensures
        r.deep_view() == owner_name_of(owner@),
{
    let path: String = find_type_path(owner);
    let name: String = trim(after(path.as_str(), "::").as_str());
    let by_path: bool = (check_begins_ident(path.as_str()) || starts_with(path.as_str(), "::"))
        && !starts_with(path.as_str(), "dyn ");
    if by_path && is_simple_ident(name.as_str()) {
        Some(name)
    } else {
        None
    }
}

/// The path of the implementing type, where there is one.
pub open spec fn owner_path_of(owner: Seq<char>) -> Option<Seq<char>> {
    if type_path(owner).len() == 0 {
        None
    } else {
        Some(type_path(owner))
    }
}

pub fn normalize_impl_owner_path(owner: &str) -> (r: Option<String>)
    ensures
        r.deep_view() == owner_path_of(owner@),
{
    let path: String = find_type_path(owner);
    if path.as_str().is_empty() {
        None
    } else {
        Some(path)
    }
}

// ── Names ───────────────────────────────────────────────────────────────────

/// A kind of symbol that an impl can lead to.
pub open spec fn impl_target_kind(kind: Seq<char>) -> bool {
    kind == "trait"@ || kind == "struct"@ || kind == "enum"@ || kind == "type_alias"@
}

pub fn is_impl_target_kind(symbol_kind: &str) -> (r: bool)
    ensures
        r == impl_target_kind(symbol_kind@),
{
    same(symbol_kind, "trait") || same(symbol_kind, "struct") || same(symbol_kind, "enum") || same(
        symbol_kind,
        "type_alias",
    )
}

/// How many qualified names end in a simple name.
pub open spec fn names_ending_in(qualified: Seq<Seq<char>>, simple: Seq<char>) -> nat
    decreases qualified.len(),
{
    if qualified.len() == 0 {
        0
    } else {
        names_ending_in(qualified.drop_last(), simple) + if after_last(qualified.last(), "::"@)
            == simple {
            1nat
        } else {
            0
        }
    }
}

proof fn lemma_names_ending_in_grows(qualified: Seq<Seq<char>>, simple: Seq<char>, n: int)
    requires
        0 <= n <= qualified.len(),
    ensures
        names_ending_in(qualified.take(n), simple) <= names_ending_in(qualified, simple),
    decreases qualified.len(),
{
    if n < qualified.len() {
        lemma_names_ending_in_grows(qualified.drop_last(), simple, n);
        assert(qualified.drop_last().take(n) =~= qualified.take(n));
    } else {
        assert(qualified.take(n) =~= qualified);
    }
}

/// More than one distinct qualified name ends in the simple name.
pub open spec fn ambiguous_name(qualified: Seq<Seq<char>>, simple: Seq<char>) -> bool {
    names_ending_in(distinct(qualified), simple) > 1
}

/// Whether more than one distinct qualified name ends in the simple name.
pub fn bare_simple_name_is_ambiguous(simple: &str, qualified_names: &Vec<String>) -> (r: bool)
    ensures
        r == ambiguous_name(qualified_names.deep_view(), simple@),
{
    let names: Vec<String> = distinct_texts(qualified_names);
    let ghost all = names.deep_view();
    let mut found: usize = 0;
    let mut i: usize = 0;
    while i < names.len()
        invariant
            i <= names.len(),
            all == names.deep_view(),
            all == distinct(qualified_names.deep_view()),
            found <= 1,
            found == names_ending_in(all.take(i as int), simple@),
        decreases names.len() - i,
    {
        proof {
            assert(all.take(i + 1).drop_last() =~= all.take(i as int));
            assert(all.take(i + 1).last() == names@[i as int].deep_view());
        }
        if same(after(names[i].as_str(), "::").as_str(), simple) {
            if found == 1 {
                proof {
                    lemma_names_ending_in_grows(all, simple@, i + 1);
                }
                return true;
            }
            found += 1;
        }
        i += 1;
    }
    assert(all.take(names.len() as int) =~= all);
    false
}

} // verus!
