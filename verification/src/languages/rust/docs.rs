//! Documentation text in comments and attributes.
use vstd::prelude::*;

use crate::duplicate::lemma_push;
use crate::languages::lexer::{at, check_hashes, hashes_at};
use crate::text::{
    cat3, chars_of, join, joined, left_trimmed, lines, lines_of, right_trimmed, same, slice_text,
    starts, starts_with, string_of, strip_prefix, strip_suffix, trim, trim_end, trim_start, trimmed,
    without_prefix, without_suffix,
};

verus! {

/// `char::from_u32`: the character with a code point, unless that lies beyond the last one or
/// among the surrogates.
pub assume_specification[ char::from_u32 ](i: u32) -> (r: Option<char>)
    ensures
        r == (if is_scalar(i as int) {
            Some(i as char)
        } else {
            None
        }),
;

pub open spec fn is_scalar(i: int) -> bool {
    0 <= i < 0xD800 || 0xE000 <= i <= 0x10FFFF
}

// ── Comments ────────────────────────────────────────────────────────────────

pub open spec fn drop_prefix(s: Seq<char>, p: Seq<char>) -> Seq<char> {
    match without_prefix(s, p) {
        Some(x) => x,
        None => s,
    }
}

fn without_optional_prefix(s: &str, p: &str) -> (r: String)
    ensures
        r@ == drop_prefix(s@, p@),
{
    match strip_prefix(s, p) {
        Some(x) => x,
        None => s.to_owned(),
    }
}

/// A line of a block comment without its gutter: a `*` and one space behind it.
pub open spec fn without_gutter(line: Seq<char>) -> Seq<char> {
    match without_prefix(trimmed(line), "*"@) {
        Some(rest) => drop_prefix(rest, " "@),
        None => trimmed(line),
    }
}

fn strip_gutter(line: &str) -> (r: String)
    ensures
        r@ == without_gutter(line@),
{
    let t: String = trim(line);
    match strip_prefix(t.as_str(), "*") {
        Some(rest) => without_optional_prefix(rest.as_str(), " "),
        None => t,
    }
}

/// The text of a block comment: its lines without their gutters, and without blank lines at
/// either end.
pub open spec fn block_doc(inner: Seq<char>) -> Seq<char> {
    trimmed(joined(lines_of(inner).map_values(|l: Seq<char>| without_gutter(l)), "\n"@))
}

pub fn block_doc_text(inner: &str) -> (r: String)
    ensures
        r@ == block_doc(inner@),
{
    let ls: Vec<String> = lines(inner);
    let ghost all = lines_of(inner@).map_values(|l: Seq<char>| without_gutter(l));
    let mut out: Vec<String> = Vec::new();
    let mut i: usize = 0;
    assert(out.deep_view() =~= all.take(0));
    while i < ls.len()
        invariant
            i <= ls.len(),
            ls.deep_view() == lines_of(inner@),
            all == lines_of(inner@).map_values(|l: Seq<char>| without_gutter(l)),
            out.deep_view() == all.take(i as int),
        decreases ls.len() - i,
    {
        let ghost before = out;
        out.push(strip_gutter(ls[i].as_str()));
        proof {
            lemma_push(before, out);
            assert(ls.deep_view()[i as int] == ls@[i as int].deep_view());
            assert(all.take(i + 1) =~= all.take(i as int).push(all[i as int]));
        }
        i += 1;
    }
    assert(all.take(ls.len() as int) =~= all);
    trim(join(&out, "\n").as_str())
}

/// What an outer doc comment says: `///` but not `////`, or `/** */` but neither `/***` nor the
/// empty `/**/`. Any other comment says nothing.
pub open spec fn doc_comment(text: Seq<char>) -> Option<Seq<char>> {
    let t = right_trimmed(text);
    match (without_prefix(t, "///"@), without_prefix(t, "/**"@)) {
        (Some(rest), _) => if starts(rest, "/"@) {
            None
        } else {
            Some(drop_prefix(rest, " "@))
        },
        (None, Some(rest)) => if starts(rest, "*"@) || rest == "/"@ {
            None
        } else {
            Some(
                block_doc(
                    match without_suffix(rest, "*/"@) {
                        Some(inner) => inner,
                        None => rest,
                    },
                ),
            )
        },
        (None, None) => None,
    }
}

pub fn doc_comment_text(text: &str) -> (r: Option<String>)
    ensures
        r.deep_view() == doc_comment(text@),
{
    let t: String = trim_end(text);
    if let Some(rest) = strip_prefix(t.as_str(), "///") {
        if starts_with(rest.as_str(), "/") {
            return None;
        }
        return Some(without_optional_prefix(rest.as_str(), " "));
    }
    if let Some(rest) = strip_prefix(t.as_str(), "/**") {
        if starts_with(rest.as_str(), "*") || same(rest.as_str(), "/") {
            return None;
        }
        return match strip_suffix(rest.as_str(), "*/") {
            Some(inner) => Some(block_doc_text(inner.as_str())),
            None => Some(block_doc_text(rest.as_str())),
        };
    }
    None
}

// ── Escapes ─────────────────────────────────────────────────────────────────

pub open spec fn is_hex(c: char) -> bool {
    ('0' <= c && c <= '9') || ('a' <= c && c <= 'f') || ('A' <= c && c <= 'F')
}

pub open spec fn hex_value(c: char) -> int {
    if '0' <= c && c <= '9' {
        c as int - '0' as int
    } else if 'a' <= c && c <= 'f' {
        c as int - 'a' as int + 10
    } else {
        c as int - 'A' as int + 10
    }
}

/// The value of hexadecimal digits.
pub open spec fn hex_sum(s: Seq<char>) -> int
    decreases s.len(),
{
    if s.len() == 0 {
        0
    } else {
        16 * hex_sum(s.drop_last()) + hex_value(s.last())
    }
}

/// The digits of a number that may carry a plus sign.
pub open spec fn unsigned(s: Seq<char>) -> Seq<char> {
    if s.len() > 0 && s[0] == '+' {
        s.skip(1)
    } else {
        s
    }
}

/// The character whose code point a text gives in hexadecimal.
pub open spec fn hex_char(s: Seq<char>) -> Option<char> {
    let d = unsigned(s);
    if d.len() > 0 && (forall|i: int| 0 <= i < d.len() ==> is_hex(#[trigger] d[i])) && is_scalar(
        hex_sum(d),
    ) {
        Some(hex_sum(d) as char)
    } else {
        None
    }
}

proof fn lemma_hex_sum_grows(s: Seq<char>, n: int)
    requires
        0 <= n <= s.len(),
        forall|i: int| 0 <= i < s.len() ==> is_hex(#[trigger] s[i]),
    ensures
        0 <= hex_sum(s.take(n)) <= hex_sum(s),
    decreases s.len(),
{
    if n < s.len() {
        lemma_hex_sum_grows(s.drop_last(), n);
        assert(s.drop_last().take(n) =~= s.take(n));
        assert(is_hex(s[s.len() - 1]));
    } else {
        assert(s.take(n) =~= s);
        if s.len() > 0 {
            lemma_hex_sum_grows(s.drop_last(), n - 1);
            assert(s.drop_last().take(n - 1) =~= s.drop_last());
            assert(is_hex(s[s.len() - 1]));
        }
    }
}

fn hex_digit_value(c: char) -> (r: Option<u32>)
    ensures
        (match r {
            Some(v) => is_hex(c) && v == hex_value(c) && v < 16,
            None => !is_hex(c),
        }),
{
    let n: u32 = c as u32;
    if '0' <= c && c <= '9' {
        Some(n - 48)
    } else if 'a' <= c && c <= 'f' {
        Some(n - 87)
    } else if 'A' <= c && c <= 'F' {
        Some(n - 55)
    } else {
        None
    }
}

/// Reads `cs[from..to]` as the hexadecimal code point of a character.
fn read_hex_char(cs: &[char], from: usize, to: usize) -> (r: Option<char>)
    requires
        from <= to <= cs.len(),
    ensures
        r == hex_char(cs@.subrange(from as int, to as int)),
{
    let ghost whole = cs@.subrange(from as int, to as int);
    let ghost d = unsigned(whole);
    let mut start: usize = from;
    if from < to && cs[from] == '+' {
        start = from + 1;
    }
    assert(d =~= cs@.subrange(start as int, to as int));
    if start == to {
        return None;
    }
    let mut value: u32 = 0;
    let mut i: usize = start;
    while i < to
        invariant
            from <= start <= i <= to <= cs.len(),
            whole == cs@.subrange(from as int, to as int),
            d == unsigned(whole),
            d == cs@.subrange(start as int, to as int),
            forall|k: int| 0 <= k < i - start ==> is_hex(#[trigger] d[k]),
            value <= 0x10FFFF,
            value == hex_sum(d.take(i - start)),
        decreases to - i,
    {
        proof {
            assert(d[i - start] == cs@[i as int]);
            assert(d.take(i + 1 - start).drop_last() =~= d.take(i - start));
            assert(d.take(i + 1 - start).last() == cs@[i as int]);
        }
        match hex_digit_value(cs[i]) {
            Some(v) => {
                let next: u32 = value * 16 + v;
                if next > 0x10FFFF {
                    proof {
                        if forall|k: int| 0 <= k < d.len() ==> is_hex(#[trigger] d[k]) {
                            lemma_hex_sum_grows(d, i + 1 - start);
                        }
                    }
                    return None;
                }
                value = next;
            },
            None => {
                return None;
            },
        }
        i += 1;
    }
    assert(d.take(to - start) =~= d);
    char::from_u32(value)
}

/// White space that a continued line begins with.
pub open spec fn is_blank(c: char) -> bool {
    c == ' ' || c == '\t' || c == '\n' || c == '\r'
}

pub open spec fn blank_end(s: Seq<char>, i: int) -> int
    decreases s.len() - i,
{
    if 0 <= i < s.len() && is_blank(s[i]) {
        blank_end(s, i + 1)
    } else {
        i
    }
}

pub open spec fn brace_at(s: Seq<char>, i: int) -> Option<int>
    decreases s.len() - i,
{
    if i < 0 || i >= s.len() {
        None
    } else if s[i] == '}' {
        Some(i)
    } else {
        brace_at(s, i + 1)
    }
}

/// What an escape with one letter stands for.
pub open spec fn simple_escape(c: char) -> Option<char> {
    if c == 'n' {
        Some('\n')
    } else if c == 't' {
        Some('\t')
    } else if c == 'r' {
        Some('\r')
    } else if c == '0' {
        Some('\0')
    } else if c == '\\' || c == '\'' || c == '"' {
        Some(c)
    } else {
        None
    }
}

/// The escape whose backslash stands at `i`: what it stands for, and where the text goes on. A
/// backslash at the end of a line takes the line break and the white space behind it away.
pub open spec fn escape(s: Seq<char>, i: int) -> Option<(Seq<char>, int)> {
    if i + 1 >= s.len() {
        None
    } else {
        let c = s[i + 1];
        if simple_escape(c) is Some {
            Some((seq![simple_escape(c)->0], i + 2))
        } else if c == 'x' {
            let e = if i + 4 <= s.len() {
                i + 4
            } else {
                s.len() as int
            };
            match hex_char(s.subrange(i + 2, e)) {
                Some(x) => Some((seq![x], e)),
                None => None,
            }
        } else if c == 'u' {
            if i + 2 < s.len() && s[i + 2] == '{' {
                match brace_at(s, i + 3) {
                    Some(e) => match hex_char(s.subrange(i + 3, e)) {
                        Some(x) => Some((seq![x], e + 1)),
                        None => None,
                    },
                    None => None,
                }
            } else {
                None
            }
        } else if c == '\n' || (c == '\r' && i + 2 < s.len() && s[i + 2] == '\n') {
            Some((Seq::empty(), blank_end(s, i + 2)))
        } else {
            None
        }
    }
}

/// The text from `i` on with its escapes replaced; none where one of them is no escape.
pub open spec fn decoded(s: Seq<char>, i: int) -> Option<Seq<char>>
    decreases s.len() - i,
{
    if i < 0 || i >= s.len() {
        Some(Seq::empty())
    } else if s[i] != '\\' {
        match decoded(s, i + 1) {
            Some(rest) => Some(seq![s[i]] + rest),
            None => None,
        }
    } else {
        match escape(s, i) {
            Some((x, e)) => if e <= i || e > s.len() {
                None
            } else {
                match decoded(s, e) {
                    Some(rest) => Some(x + rest),
                    None => None,
                }
            },
            None => None,
        }
    }
}

/// The inside of a string literal with its escapes replaced. Where one of them cannot be, the text
/// stays as it is throughout.
pub open spec fn unescaped(inner: Seq<char>) -> Seq<char> {
    match decoded(inner, 0) {
        Some(x) => x,
        None => inner,
    }
}

proof fn lemma_blank_end(s: Seq<char>, i: int)
    requires
        0 <= i <= s.len(),
    ensures
        i <= blank_end(s, i) <= s.len(),
    decreases s.len() - i,
{
    if i < s.len() && is_blank(s[i]) {
        lemma_blank_end(s, i + 1);
    }
}

fn find_blank_end(cs: &[char], from: usize) -> (r: usize)
    requires
        from <= cs.len(),
    ensures
        r == blank_end(cs@, from as int),
        from <= r <= cs.len(),
{
    let mut i: usize = from;
    while i < cs.len() && (cs[i] == ' ' || cs[i] == '\t' || cs[i] == '\n' || cs[i] == '\r')
        invariant
            from <= i <= cs.len(),
            blank_end(cs@, from as int) == blank_end(cs@, i as int),
        decreases cs.len() - i,
    {
        i += 1;
    }
    i
}

fn find_brace(cs: &[char], from: usize) -> (r: Option<usize>)
    requires
        from <= cs.len(),
    ensures
        (match r {
            Some(e) => brace_at(cs@, from as int) == Some(e as int) && from <= e < cs.len(),
            None => brace_at(cs@, from as int) is None,
        }),
{
    let mut i: usize = from;
    while i < cs.len()
        invariant
            from <= i <= cs.len(),
            brace_at(cs@, from as int) == brace_at(cs@, i as int),
        decreases cs.len() - i,
    {
        if cs[i] == '}' {
            return Some(i);
        }
        i += 1;
    }
    None
}

fn simple_escape_of(c: char) -> (r: Option<char>)
    ensures
        r == simple_escape(c),
{
    if c == 'n' {
        Some('\n')
    } else if c == 't' {
        Some('\t')
    } else if c == 'r' {
        Some('\r')
    } else if c == '0' {
        Some('\0')
    } else if c == '\\' || c == '\'' || c == '"' {
        Some(c)
    } else {
        None
    }
}

/// Reads the escape at `i`: the character it stands for, if any, and where the text goes on.
fn read_escape(cs: &[char], i: usize) -> (r: Option<(Option<char>, usize)>)
    requires
        i < cs.len(),
    ensures
        (match r {
            Some((Some(c), e)) => escape(cs@, i as int) == Some((seq![c], e as int)) && i < e
                <= cs.len(),
            Some((None, e)) => escape(cs@, i as int) == Some((Seq::<char>::empty(), e as int)) && i
                < e <= cs.len(),
            None => escape(cs@, i as int) is None,
        }),
{
    let n: usize = cs.len();
    if n - i <= 1 {
        return None;
    }
    let c: char = cs[i + 1];
    if let Some(x) = simple_escape_of(c) {
        return Some((Some(x), i + 2));
    }
    if c == 'x' {
        let e: usize = if n - i >= 4 {
            i + 4
        } else {
            n
        };
        return match read_hex_char(cs, i + 2, e) {
            Some(x) => Some((Some(x), e)),
            None => None,
        };
    }
    if c == 'u' {
        if n - i <= 2 || cs[i + 2] != '{' {
            return None;
        }
        return match find_brace(cs, i + 3) {
            Some(e) => match read_hex_char(cs, i + 3, e) {
                Some(x) => Some((Some(x), e + 1)),
                None => None,
            },
            None => None,
        };
    }
    if c == '\n' || (c == '\r' && n - i > 2 && cs[i + 2] == '\n') {
        return Some((None, find_blank_end(cs, i + 2)));
    }
    None
}

pub fn unescape_string_literal(inner: &str) -> (r: String)
    ensures
        r@ == unescaped(inner@),
{
    let cs: Vec<char> = chars_of(inner);
    let ghost s = inner@;
    let mut out: Vec<char> = Vec::new();
    let mut i: usize = 0;
    proof {
        if decoded(s, 0) is Some {
            assert(out@ + decoded(s, 0)->0 =~= decoded(s, 0)->0);
        }
    }
    while i < cs.len()
        invariant
            cs@ == s,
            s == inner@,
            i <= cs.len(),
            decoded(s, 0) is Some <==> decoded(s, i as int) is Some,
            decoded(s, 0) is Some ==> decoded(s, 0)->0 == out@ + decoded(s, i as int)->0,
        decreases cs.len() - i,
    {
        let ghost before = out@;
        let ghost at = i as int;
        if cs[i] != '\\' {
            out.push(cs[i]);
            i += 1;
            proof {
                if decoded(s, 0) is Some {
                    assert(before + (seq![s[at]] + decoded(s, at + 1)->0) =~= out@ + decoded(
                        s,
                        at + 1,
                    )->0);
                }
            }
        } else {
            match read_escape(cs.as_slice(), i) {
                Some((Some(c), e)) => {
                    out.push(c);
                    i = e;
                    proof {
                        if decoded(s, 0) is Some {
                            assert(before + (seq![c] + decoded(s, e as int)->0) =~= out@ + decoded(
                                s,
                                e as int,
                            )->0);
                        }
                    }
                },
                Some((None, e)) => {
                    i = e;
                    proof {
                        if decoded(s, 0) is Some {
                            assert(before + (Seq::<char>::empty() + decoded(s, e as int)->0)
                                =~= out@ + decoded(s, e as int)->0);
                        }
                    }
                },
                None => {
                    return inner.to_owned();
                },
            }
        }
    }
    assert(out@ + Seq::<char>::empty() =~= out@);
    string_of(out.as_slice())
}

// ── Literals ────────────────────────────────────────────────────────────────

/// How many `#` a text begins with.
pub open spec fn leading_hashes(s: Seq<char>) -> nat
    decreases s.len(),
{
    if s.len() > 0 && s[0] == '#' {
        1 + leading_hashes(s.drop_first())
    } else {
        0
    }
}

/// Where the first quotation mark from `i` on stands that no backslash escapes.
pub open spec fn close_at(s: Seq<char>, i: int) -> Option<int>
    decreases s.len() + 1 - i,
{
    if i < 0 || i >= s.len() {
        None
    } else if s[i] == '\\' {
        close_at(s, i + 2)
    } else if s[i] == '"' {
        Some(i)
    } else {
        close_at(s, i + 1)
    }
}

/// Where the first quotation mark from `i` on stands that `h` hashes follow.
pub open spec fn raw_close_at(s: Seq<char>, i: int, h: int) -> Option<int>
    decreases s.len() - i,
{
    if i < 0 || i >= s.len() {
        None
    } else if s[i] == '"' && hashes_at(s, i + 1, h) {
        Some(i)
    } else {
        raw_close_at(s, i + 1, h)
    }
}

/// What a string literal says. A raw one is taken as it is written; of another the escapes are
/// replaced. The literal is the whole of the text: it opens at the start and closes at the end.
pub open spec fn literal_text(literal: Seq<char>) -> Option<Seq<char>> {
    match without_prefix(literal, "r"@) {
        Some(raw) => {
            let h = leading_hashes(raw) as int;
            let end = raw.len() - 1 - h;
            if at(raw, h, '"') && raw_close_at(raw, h + 1, h) == Some(end) {
                Some(raw.subrange(h + 1, end))
            } else {
                None
            }
        },
        None => {
            let end = literal.len() - 1;
            if at(literal, 0, '"') && close_at(literal, 1) == Some(end) {
                Some(unescaped(literal.subrange(1, end)))
            } else {
                None
            }
        },
    }
}

fn count_hashes(cs: &[char]) -> (h: usize)
    ensures
        h == leading_hashes(cs@),
        h <= cs.len(),
{
    let mut h: usize = 0;
    assert(cs@.skip(0) =~= cs@);
    while h < cs.len() && cs[h] == '#'
        invariant
            h <= cs.len(),
            leading_hashes(cs@) == h + leading_hashes(cs@.skip(h as int)),
        decreases cs.len() - h,
    {
        proof {
            assert(cs@.skip(h as int)[0] == cs@[h as int]);
            assert(cs@.skip(h as int).drop_first() =~= cs@.skip(h + 1));
        }
        h += 1;
    }
    h
}

fn find_close(cs: &[char], from: usize) -> (r: Option<usize>)
    requires
        from <= cs.len(),
    ensures
        (match r {
            Some(e) => close_at(cs@, from as int) == Some(e as int) && from <= e < cs.len(),
            None => close_at(cs@, from as int) is None,
        }),
{
    let mut i: usize = from;
    while i < cs.len()
        invariant
            from <= i <= cs.len(),
            close_at(cs@, from as int) == close_at(cs@, i as int),
        decreases cs.len() - i,
    {
        if cs[i] == '\\' {
            if cs.len() - i == 1 {
                assert(close_at(cs@, i + 2) is None);
                return None;
            }
            i += 2;
        } else if cs[i] == '"' {
            return Some(i);
        } else {
            i += 1;
        }
    }
    None
}

fn find_raw_close(cs: &[char], from: usize, h: usize) -> (r: Option<usize>)
    requires
        from <= cs.len(),
    ensures
        (match r {
            Some(e) => raw_close_at(cs@, from as int, h as int) == Some(e as int) && from <= e
                && e + h < cs.len(),
            None => raw_close_at(cs@, from as int, h as int) is None,
        }),
{
    let mut i: usize = from;
    while i < cs.len()
        invariant
            from <= i <= cs.len(),
            raw_close_at(cs@, from as int, h as int) == raw_close_at(cs@, i as int, h as int),
        decreases cs.len() - i,
    {
        if cs[i] == '"' && check_hashes(cs, i + 1, h) {
            return Some(i);
        }
        i += 1;
    }
    None
}

pub fn string_literal_text(literal: &str) -> (r: Option<String>)
    ensures
        r.deep_view() == literal_text(literal@),
{
    if let Some(raw) = strip_prefix(literal, "r") {
        let cs: Vec<char> = chars_of(raw.as_str());
        let h: usize = count_hashes(cs.as_slice());
        if h == cs.len() || cs[h] != '"' {
            return None;
        }
        return match find_raw_close(cs.as_slice(), h + 1, h) {
            Some(e) => if cs.len() - e - 1 == h {
                Some(slice_text(cs.as_slice(), h + 1, e))
            } else {
                None
            },
            None => None,
        };
    }
    let cs: Vec<char> = chars_of(literal);
    if cs.len() == 0 || cs[0] != '"' {
        return None;
    }
    match find_close(cs.as_slice(), 1) {
        Some(e) => if e == cs.len() - 1 {
            Some(unescape_string_literal(slice_text(cs.as_slice(), 1, e).as_str()))
        } else {
            None
        },
        None => None,
    }
}

// ── Attributes ──────────────────────────────────────────────────────────────

/// The value of a `#[doc = ...]` attribute as it is written.
pub open spec fn doc_value(text: Seq<char>) -> Option<Seq<char>> {
    match without_prefix(trimmed(text), "#["@) {
        Some(a) => match without_suffix(a, "]"@) {
            Some(b) => match without_prefix(trimmed(b), "doc"@) {
                Some(c) => match without_prefix(left_trimmed(c), "="@) {
                    Some(d) => Some(trimmed(d)),
                    None => None,
                },
                None => None,
            },
            None => None,
        },
        None => None,
    }
}

fn find_doc_value(text: &str) -> (r: Option<String>)
    ensures
        r.deep_view() == doc_value(text@),
{
    match strip_prefix(trim(text).as_str(), "#[") {
        Some(a) => match strip_suffix(a.as_str(), "]") {
            Some(b) => match strip_prefix(trim(b.as_str()).as_str(), "doc") {
                Some(c) => match strip_prefix(trim_start(c.as_str()).as_str(), "=") {
                    Some(d) => Some(trim(d.as_str())),
                    None => None,
                },
                None => None,
            },
            None => None,
        },
        None => None,
    }
}

/// What a doc attribute says. A value that is no literal documents the item all the same: it is
/// cited, never expanded. Any other attribute says nothing.
pub open spec fn doc_attribute(text: Seq<char>) -> Option<Seq<char>> {
    match doc_value(text) {
        Some(inner) => match literal_text(inner) {
            Some(x) => Some(x),
            None => if inner.len() == 0 {
                None
            } else {
                Some("[unexpanded doc attribute: "@ + inner + "]"@)
            },
        },
        None => None,
    }
}

pub fn doc_attribute_text(text: &str) -> (r: Option<String>)
    ensures
        r.deep_view() == doc_attribute(text@),
{
    match find_doc_value(text) {
        Some(inner) => match string_literal_text(inner.as_str()) {
            Some(x) => Some(x),
            None => if inner.as_str().is_empty() {
                None
            } else {
                Some(cat3("[unexpanded doc attribute: ", inner.as_str(), "]"))
            },
        },
        None => None,
    }
}

} // verus!
