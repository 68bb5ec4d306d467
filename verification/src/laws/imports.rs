//! The order of a file's imports.
//!
//! Reading source code looks forward, up to the end of what is read, and one character back. So an
//! import is read the same way wherever it stands on lines of its own, and so is the rest of a file
//! whatever stands before it.
use vstd::prelude::*;

use crate::languages::lexer::{
    at, block_end, char_closes, hashes_at, hashes_end, lexeme, line_end, literal_lexeme,
    pair_at, quoted_end, raw_end, raw_open, raw_prefix, Lexeme,
};
use crate::languages::rust::normalize::{
    attributes_end, brace_depth, file_parts, file_parts_from, group_end, normalized_file,
    semicolon, top_level_use, uncommented, uncommented_from, use_statement, visibility_end,
    white_end, word3, FileParts,
};
use crate::laws::languages::{
    law_import_order_does_not_matter, lemma_block_end, lemma_hashes_end, lemma_line_end,
    lemma_quoted_end, lemma_raw_end,
};
use crate::text::{is_ident, is_white, left_trimmed, trimmed};

verus! {

// ── A text inside another ───────────────────────────────────────────────────

/// `w` stands in `s` at `p`: no word runs into it from the front, and it reaches to the end of `s`
/// or is followed by a line feed.
pub open spec fn stands_in(s: Seq<char>, w: Seq<char>, p: int) -> bool {
    &&& 0 <= p
    &&& p + w.len() <= s.len()
    &&& forall|k: int| #![trigger w[k]] 0 <= k < w.len() ==> s[p + k] == w[k]
    &&& p > 0 ==> !is_ident(s[p - 1])
    &&& p + w.len() < s.len() ==> s[p + w.len()] == '\n'
}

/// `w` reaches to the end of `s`.
pub open spec fn reaches_end(s: Seq<char>, w: Seq<char>, p: int) -> bool {
    p + w.len() == s.len()
}

pub open spec fn moved(e: Option<int>, p: int) -> Option<int> {
    match e {
        Some(e) => Some(p + e),
        None => None,
    }
}

proof fn lemma_at(s: Seq<char>, w: Seq<char>, p: int, i: int, c: char)
    requires
        stands_in(s, w, p),
        0 <= i,
        i <= w.len() || reaches_end(s, w, p),
        c != '\n',
    ensures
        at(s, p + i, c) == at(w, i, c),
{
    if i < w.len() {
        assert(s[p + i] == w[i]);
    }
}

// ── Lexemes ─────────────────────────────────────────────────────────────────

proof fn lemma_line_end_in(s: Seq<char>, w: Seq<char>, p: int, i: int)
    requires
        stands_in(s, w, p),
        reaches_end(s, w, p),
        0 <= i,
    ensures
        line_end(s, p + i) == p + line_end(w, i),
    decreases w.len() - i,
{
    if i < w.len() {
        assert(s[p + i] == w[i]);
        if w[i] != '\n' {
            lemma_line_end_in(s, w, p, i + 1);
        }
    }
}

proof fn lemma_block_end_in(s: Seq<char>, w: Seq<char>, p: int, i: int, depth: int)
    requires
        stands_in(s, w, p),
        reaches_end(s, w, p),
        0 <= i,
    ensures
        block_end(s, p + i, depth) == moved(block_end(w, i, depth), p),
    decreases w.len() - i,
{
    if i < w.len() {
        lemma_at(s, w, p, i, '*');
        lemma_at(s, w, p, i, '/');
        lemma_at(s, w, p, i + 1, '*');
        lemma_at(s, w, p, i + 1, '/');
        if i + 2 <= w.len() {
            lemma_block_end_in(s, w, p, i + 2, depth - 1);
            lemma_block_end_in(s, w, p, i + 2, depth + 1);
        }
        lemma_block_end_in(s, w, p, i + 1, depth);
    }
}

proof fn lemma_quoted_end_in(s: Seq<char>, w: Seq<char>, p: int, i: int, q: char)
    requires
        stands_in(s, w, p),
        0 <= i,
        reaches_end(s, w, p) || quoted_end(w, i, q) < w.len(),
    ensures
        quoted_end(s, p + i, q) == p + quoted_end(w, i, q),
    decreases w.len() + 1 - i,
{
    if i < w.len() {
        assert(s[p + i] == w[i]);
        if w[i] == '\\' {
            lemma_quoted_end_in(s, w, p, i + 2, q);
        } else if w[i] != q {
            lemma_quoted_end_in(s, w, p, i + 1, q);
        }
    }
}

proof fn lemma_hashes_end_in(s: Seq<char>, w: Seq<char>, p: int, i: int)
    requires
        stands_in(s, w, p),
        0 <= i <= w.len(),
    ensures
        hashes_end(s, p + i) == p + hashes_end(w, i),
        hashes_end(w, i) <= w.len(),
    decreases w.len() - i,
{
    lemma_at(s, w, p, i, '#');
    if at(w, i, '#') {
        lemma_hashes_end_in(s, w, p, i + 1);
    }
}

proof fn lemma_hashes_at_in(s: Seq<char>, w: Seq<char>, p: int, i: int, h: int)
    requires
        stands_in(s, w, p),
        0 <= i <= w.len(),
    ensures
        hashes_at(s, p + i, h) == hashes_at(w, i, h),
{
    if hashes_at(w, i, h) {
        assert forall|k: int| p + i <= k < p + i + h implies at(s, k, '#') by {
            assert(at(w, k - p, '#'));
            lemma_at(s, w, p, k - p, '#');
        }
    }
    if hashes_at(s, p + i, h) {
        assert forall|k: int| i <= k < i + h implies at(w, k, '#') by {
            if k >= w.len() {
                assert(at(s, p + w.len(), '#'));
                lemma_at(s, w, p, w.len() as int, '#');
            } else {
                assert(at(s, p + k, '#'));
                lemma_at(s, w, p, k, '#');
            }
        }
    }
}

proof fn lemma_raw_end_in(s: Seq<char>, w: Seq<char>, p: int, i: int, h: int)
    requires
        stands_in(s, w, p),
        0 <= i <= w.len(),
        0 <= h,
        reaches_end(s, w, p) || raw_end(w, i, h) < w.len(),
    ensures
        raw_end(s, p + i, h) == p + raw_end(w, i, h),
    decreases w.len() - i,
{
    if i < w.len() {
        assert(s[p + i] == w[i]);
        lemma_hashes_at_in(s, w, p, i + 1, h);
        if !(w[i] == '"' && hashes_at(w, i + 1, h)) {
            lemma_raw_end_in(s, w, p, i + 1, h);
        }
    }
}

proof fn lemma_raw_open_in(s: Seq<char>, w: Seq<char>, p: int, i: int)
    requires
        stands_in(s, w, p),
        0 <= i < w.len(),
    ensures
        raw_open(s, p + i) == (match raw_open(w, i) {
            Some((body, h)) => Some((p + body, h)),
            None => None::<(int, int)>,
        }),
        raw_open(w, i) matches Some((body, h)) ==> i < body <= w.len() && 0 <= h,
{
    lemma_at(s, w, p, i, 'r');
    lemma_at(s, w, p, i, 'b');
    lemma_at(s, w, p, i, 'c');
    lemma_at(s, w, p, i + 1, 'r');
    let body = i + raw_prefix(w, i);
    lemma_hashes_end(w, body);
    lemma_hashes_end_in(s, w, p, body);
    lemma_at(s, w, p, hashes_end(w, body), '"');
    if i > 0 {
        assert(s[p + (i - 1)] == w[i - 1]);
    }
}

proof fn lemma_char_closes_in(s: Seq<char>, w: Seq<char>, p: int, i: int, j: int)
    requires
        stands_in(s, w, p),
        0 <= i < j <= w.len(),
    ensures
        char_closes(s, p + i, p + j) == char_closes(w, i, j),
    decreases w.len() - j,
{
    if j < w.len() {
        assert(s[p + j] == w[j]);
        if j == i + 1 {
            lemma_at(s, w, p, i + 2, '\'');
        }
        lemma_char_closes_in(s, w, p, i, j + 1);
    }
}

/// A lexeme that is one character or ends before the text does.
pub open spec fn is_settled(w: Seq<char>, l: (Lexeme, int)) -> bool {
    l.0 == Lexeme::Plain || (l.0 == Lexeme::Literal && l.1 < w.len())
}

proof fn lemma_literal_lexeme_in(s: Seq<char>, w: Seq<char>, p: int, i: int)
    requires
        stands_in(s, w, p),
        0 <= i < w.len(),
        reaches_end(s, w, p) || is_settled(w, literal_lexeme(w, i)),
    ensures
        literal_lexeme(s, p + i) == (literal_lexeme(w, i).0, p + literal_lexeme(w, i).1),
        i < literal_lexeme(w, i).1 <= w.len(),
{
    lemma_raw_open_in(s, w, p, i);
    match raw_open(w, i) {
        Some((body, h)) => {
            lemma_raw_end(w, body, h);
            lemma_raw_end_in(s, w, p, body, h);
        },
        None => {
            lemma_at(s, w, p, i, '"');
            lemma_at(s, w, p, i, '\'');
            lemma_char_closes_in(s, w, p, i, i + 1);
            lemma_quoted_end(w, i + 1, '"');
            lemma_quoted_end(w, i + 1, '\'');
            if at(w, i, '"') {
                lemma_quoted_end_in(s, w, p, i + 1, '"');
            } else if at(w, i, '\'') && char_closes(w, i, i + 1) {
                lemma_quoted_end_in(s, w, p, i + 1, '\'');
            }
        },
    }
}

proof fn lemma_lexeme_in(s: Seq<char>, w: Seq<char>, p: int, i: int)
    requires
        stands_in(s, w, p),
        0 <= i < w.len(),
        reaches_end(s, w, p) || is_settled(w, lexeme(w, i)),
    ensures
        lexeme(s, p + i) == (lexeme(w, i).0, p + lexeme(w, i).1),
        i < lexeme(w, i).1 <= w.len(),
{
    lemma_at(s, w, p, i, '/');
    lemma_at(s, w, p, i + 1, '/');
    lemma_at(s, w, p, i + 1, '*');
    if pair_at(w, i, '/', '/') {
        lemma_line_end(w, i + 2);
        lemma_line_end_in(s, w, p, i + 2);
    } else if pair_at(w, i, '/', '*') {
        lemma_block_end(w, i + 2, 1);
        lemma_block_end_in(s, w, p, i + 2, 1);
    } else {
        lemma_literal_lexeme_in(s, w, p, i);
    }
}

// ── Import declarations ─────────────────────────────────────────────────────

proof fn lemma_white_end_in(s: Seq<char>, w: Seq<char>, p: int, i: int)
    requires
        stands_in(s, w, p),
        0 <= i <= w.len(),
    ensures
        reaches_end(s, w, p) || white_end(w, i) < w.len() ==> white_end(s, p + i) == p + white_end(
            w,
            i,
        ),
        i <= white_end(w, i) <= w.len(),
    decreases w.len() - i,
{
    if i < w.len() {
        assert(s[p + i] == w[i]);
        if is_white(w[i]) {
            lemma_white_end_in(s, w, p, i + 1);
        }
    }
}

proof fn lemma_group_end_in(
    s: Seq<char>,
    w: Seq<char>,
    p: int,
    i: int,
    open: char,
    close: char,
    depth: int,
)
    requires
        stands_in(s, w, p),
        0 <= i <= w.len(),
    ensures
        reaches_end(s, w, p) || group_end(w, i, open, close, depth) is Some ==> group_end(
            s,
            p + i,
            open,
            close,
            depth,
        ) == moved(group_end(w, i, open, close, depth), p),
        group_end(w, i, open, close, depth) matches Some(e) ==> i < e <= w.len(),
    decreases w.len() - i,
{
    if i < w.len() {
        assert(s[p + i] == w[i]);
        if w[i] == '"' || w[i] == '\'' {
            let e = quoted_end(w, i + 1, w[i]);
            lemma_quoted_end(w, i + 1, w[i]);
            if reaches_end(s, w, p) || e < w.len() {
                lemma_quoted_end_in(s, w, p, i + 1, w[i]);
            }
            lemma_group_end_in(s, w, p, e, open, close, depth);
        } else {
            lemma_group_end_in(s, w, p, i + 1, open, close, depth);
            lemma_group_end_in(s, w, p, i + 1, open, close, depth + 1);
            lemma_group_end_in(s, w, p, i + 1, open, close, depth - 1);
        }
    }
}

proof fn lemma_attributes_end_in(s: Seq<char>, w: Seq<char>, p: int, i: int)
    requires
        stands_in(s, w, p),
        0 <= i <= w.len(),
    ensures
        attributes_end(w, i) matches Some(a) ==> i <= a <= w.len(),
        reaches_end(s, w, p) || (attributes_end(w, i) matches Some(a) && a < w.len() && w[a] != '#')
            ==> attributes_end(s, p + i) == moved(attributes_end(w, i), p),
    decreases w.len() - i,
{
    lemma_at(s, w, p, i, '#');
    if at(w, i, '#') {
        let bracket = white_end(w, i + 1);
        lemma_white_end_in(s, w, p, i + 1);
        lemma_at(s, w, p, bracket, '[');
        if at(w, bracket, '[') {
            lemma_group_end_in(s, w, p, bracket + 1, '[', ']', 1);
            if let Some(e) = group_end(w, bracket + 1, '[', ']', 1) {
                lemma_white_end_in(s, w, p, e);
                lemma_attributes_end_in(s, w, p, white_end(w, e));
            }
        }
    }
}

proof fn lemma_word3_in(s: Seq<char>, w: Seq<char>, p: int, i: int, a: char, b: char, c: char)
    requires
        stands_in(s, w, p),
        0 <= i <= w.len(),
        a != '\n',
        b != '\n',
        c != '\n',
    ensures
        word3(s, p + i, a, b, c) == word3(w, i, a, b, c),
{
    lemma_at(s, w, p, i, a);
    if at(w, i, a) {
        lemma_at(s, w, p, i + 1, b);
        if at(w, i + 1, b) {
            lemma_at(s, w, p, i + 2, c);
            if at(w, i + 2, c) && i + 3 < w.len() {
                assert(s[p + (i + 3)] == w[i + 3]);
            }
        }
    }
}

proof fn lemma_visibility_end_in(s: Seq<char>, w: Seq<char>, p: int, i: int)
    requires
        stands_in(s, w, p),
        0 <= i <= w.len(),
    ensures
        visibility_end(w, i) matches Some(v) ==> i <= v <= w.len(),
        reaches_end(s, w, p) || (visibility_end(w, i) matches Some(v) && v < w.len())
            ==> visibility_end(s, p + i) == moved(visibility_end(w, i), p),
{
    lemma_word3_in(s, w, p, i, 'p', 'u', 'b');
    if word3(w, i, 'p', 'u', 'b') {
        let j = white_end(w, i + 3);
        lemma_white_end_in(s, w, p, i + 3);
        lemma_at(s, w, p, j, '(');
        if at(w, j, '(') {
            lemma_group_end_in(s, w, p, j + 1, '(', ')', 1);
            if let Some(e) = group_end(w, j + 1, '(', ')', 1) {
                lemma_white_end_in(s, w, p, e);
            }
        }
    }
}

proof fn lemma_semicolon_in(s: Seq<char>, w: Seq<char>, p: int, i: int, depth: int)
    requires
        stands_in(s, w, p),
        0 <= i <= w.len(),
    ensures
        semicolon(w, i, depth) matches Some(e) ==> i <= e < w.len(),
        reaches_end(s, w, p) || semicolon(w, i, depth) is Some ==> semicolon(s, p + i, depth)
            == moved(semicolon(w, i, depth), p),
    decreases w.len() - i,
{
    if i < w.len() {
        let (kind, end) = literal_lexeme(w, i);
        assert(s[p + i] == w[i]);
        if reaches_end(s, w, p) || is_settled(w, (kind, end)) {
            lemma_literal_lexeme_in(s, w, p, i);
        }
        if i < end <= w.len() {
            lemma_semicolon_in(s, w, p, end, depth);
        }
        lemma_semicolon_in(s, w, p, i + 1, depth);
        lemma_semicolon_in(s, w, p, i + 1, depth + 1);
        lemma_semicolon_in(s, w, p, i + 1, depth - 1);
    }
}

proof fn lemma_use_statement_in(s: Seq<char>, w: Seq<char>, p: int, i: int)
    requires
        stands_in(s, w, p),
        0 <= i <= w.len(),
    ensures
        use_statement(w, i) matches Some(e) ==> i <= e < w.len(),
        reaches_end(s, w, p) || use_statement(w, i) is Some ==> use_statement(s, p + i) == moved(
            use_statement(w, i),
            p,
        ),
{
    let start = white_end(w, i);
    lemma_white_end_in(s, w, p, i);
    lemma_attributes_end_in(s, w, p, start);
    if let Some(a) = attributes_end(w, start) {
        lemma_visibility_end_in(s, w, p, a);
        if let Some(v) = visibility_end(w, a) {
            lemma_word3_in(s, w, p, v, 'u', 's', 'e');
            if word3(w, v, 'u', 's', 'e') {
                lemma_semicolon_in(s, w, p, v + 3, 0);
            }
        }
    }
}

// ── The rest of a file ──────────────────────────────────────────────────────

proof fn lemma_uncommented_in(s: Seq<char>, w: Seq<char>, p: int, i: int)
    requires
        stands_in(s, w, p),
        reaches_end(s, w, p),
        0 <= i <= w.len(),
    ensures
        uncommented_from(s, p + i) == uncommented_from(w, i),
    decreases w.len() - i,
{
    if i < w.len() {
        let (kind, end) = lexeme(w, i);
        lemma_lexeme_in(s, w, p, i);
        assert(s.subrange(p + i, p + end) =~= w.subrange(i, end));
        lemma_uncommented_in(s, w, p, end);
    }
}

proof fn lemma_file_parts_in(
    s: Seq<char>,
    w: Seq<char>,
    p: int,
    i: int,
    depth: int,
    parts: FileParts,
)
    requires
        stands_in(s, w, p),
        reaches_end(s, w, p),
        0 <= i <= w.len(),
    ensures
        file_parts_from(s, p + i, depth, parts) == file_parts_from(w, i, depth, parts),
    decreases w.len() - i,
{
    if i < w.len() {
        assert(s[p + i] == w[i]);
        if i > 0 {
            assert(s[p + (i - 1)] == w[i - 1]);
        }
        lemma_use_statement_in(s, w, p, i);
        assert(top_level_use(s, p + i, depth) == moved(top_level_use(w, i, depth), p));
        match top_level_use(w, i, depth) {
            Some(e) => {
                let import = trimmed(w.subrange(i, e + 1));
                assert(s.subrange(p + i, p + e + 1) =~= w.subrange(i, e + 1));
                let next = FileParts {
                    imports: if import.len() > 0 {
                        parts.imports.push(import)
                    } else {
                        parts.imports
                    },
                    ..parts
                };
                lemma_file_parts_in(s, w, p, e + 1, depth, next);
            },
            None => {
                let (kind, end) = literal_lexeme(w, i);
                lemma_literal_lexeme_in(s, w, p, i);
                assert(s.subrange(p + i, p + end) =~= w.subrange(i, end));
                let next = FileParts { rest: parts.rest + w.subrange(i, end), ..parts };
                lemma_file_parts_in(s, w, p, end, brace_depth(depth, kind, w[i]), next);
            },
        }
    }
}

/// What is found from a place on does not depend on what was found before.
proof fn lemma_parts_add_up(s: Seq<char>, i: int, depth: int, parts: FileParts)
    ensures
        file_parts_from(s, i, depth, parts) == (FileParts {
            imports: parts.imports + file_parts_from(s, i, depth, nothing()).imports,
            rest: parts.rest + file_parts_from(s, i, depth, nothing()).rest,
        }),
    decreases s.len() - i,
{
    let none = nothing();
    if i < 0 || i >= s.len() {
        assert(parts.imports + none.imports =~= parts.imports);
        assert(parts.rest + none.rest =~= parts.rest);
    } else {
        match top_level_use(s, i, depth) {
            Some(e) => if i <= e < s.len() {
                let import = trimmed(s.subrange(i, e + 1));
                let own = if import.len() > 0 {
                    seq![import]
                } else {
                    Seq::empty()
                };
                let after = file_parts_from(s, e + 1, depth, none);
                let here = FileParts { imports: own, rest: Seq::empty() };
                let next = FileParts {
                    imports: if import.len() > 0 {
                        parts.imports.push(import)
                    } else {
                        parts.imports
                    },
                    ..parts
                };
                lemma_parts_add_up(s, e + 1, depth, next);
                lemma_parts_add_up(s, e + 1, depth, here);
                assert(none.imports.push(import) =~= seq![import]);
                assert(file_parts_from(s, i, depth, none) == file_parts_from(
                    s,
                    e + 1,
                    depth,
                    here,
                ));
                assert(next.imports + after.imports =~= parts.imports + (own + after.imports));
                assert(next.rest + after.rest =~= parts.rest + (here.rest + after.rest));
            } else {
                assert(parts.imports + none.imports =~= parts.imports);
                assert(parts.rest + none.rest =~= parts.rest);
            },
            None => {
                let (kind, end) = literal_lexeme(s, i);
                if i < end <= s.len() {
                    let text = s.subrange(i, end);
                    let d = brace_depth(depth, kind, s[i]);
                    let after = file_parts_from(s, end, d, none);
                    let here = FileParts { imports: Seq::empty(), rest: none.rest + text };
                    let next = FileParts { rest: parts.rest + text, ..parts };
                    lemma_parts_add_up(s, end, d, next);
                    lemma_parts_add_up(s, end, d, here);
                    assert(next.imports + after.imports =~= parts.imports + (here.imports
                        + after.imports));
                    assert(next.rest + after.rest =~= parts.rest + (here.rest + after.rest));
                } else {
                    assert(parts.imports + none.imports =~= parts.imports);
                    assert(parts.rest + none.rest =~= parts.rest);
                }
            },
        }
    }
}

pub open spec fn nothing() -> FileParts {
    FileParts { imports: Seq::empty(), rest: Seq::empty() }
}

// ── Imports on lines of their own ───────────────────────────────────────────

/// From `i` on, `u` holds no comment, and its last character is in no literal.
pub open spec fn is_plain_code(u: Seq<char>, i: int) -> bool
    decreases u.len() - i,
{
    let l = lexeme(u, i);
    if 0 <= i < u.len() {
        is_settled(u, l) && i < l.1 && is_plain_code(u, l.1)
    } else {
        true
    }
}

/// One import declaration, attributes and visibility allowed, up to its `;` and without a comment.
pub open spec fn is_import(u: Seq<char>) -> bool {
    &&& use_statement(u, 0) == Some(u.len() - 1)
    &&& is_plain_code(u, 0)
}

/// The texts, each with a line feed behind it.
pub open spec fn as_lines(us: Seq<Seq<char>>) -> Seq<char>
    decreases us.len(),
{
    if us.len() == 0 {
        Seq::empty()
    } else {
        as_lines(us.drop_last()) + us.last().push('\n')
    }
}

proof fn lemma_plain_code_stays(s: Seq<char>, u: Seq<char>, p: int, i: int)
    requires
        stands_in(s, u, p),
        0 <= i <= u.len(),
        is_plain_code(u, i),
    ensures
        uncommented_from(s, p + i) == u.skip(i) + uncommented_from(s, p + u.len()),
    decreases u.len() - i,
{
    let tail = uncommented_from(s, p + u.len());
    if i < u.len() {
        let (kind, end) = lexeme(u, i);
        lemma_lexeme_in(s, u, p, i);
        assert(s.subrange(p + i, p + end) =~= u.subrange(i, end));
        lemma_plain_code_stays(s, u, p, end);
        assert(u.subrange(i, end) + (u.skip(end) + tail) =~= u.skip(i) + tail);
    } else {
        assert(u.skip(i) + tail =~= tail);
    }
}

proof fn lemma_line_feed_stays(s: Seq<char>, i: int)
    requires
        0 <= i < s.len(),
        s[i] == '\n',
    ensures
        uncommented_from(s, i) == seq!['\n'] + uncommented_from(s, i + 1),
{
    assert(s.subrange(i, i + 1) =~= seq!['\n']);
    assert(lexeme(s, i) == (Lexeme::Plain, i + 1));
}

proof fn lemma_is_import(u: Seq<char>)
    requires
        is_import(u),
    ensures
        u.len() > 0,
        u.last() == ';',
        trimmed(u).len() > 0,
{
    lemma_use_statement_in(u, u, 0, 0);
    lemma_ends_import(u);
    lemma_left_trimmed(u);
}

/// An import ends in its semicolon.
proof fn lemma_ends_import(u: Seq<char>)
    requires
        use_statement(u, 0) is Some,
    ensures
        u[use_statement(u, 0)->0] == ';',
{
    let a = attributes_end(u, white_end(u, 0))->0;
    let v = visibility_end(u, a)->0;
    lemma_semicolon(u, v + 3, 0);
}

proof fn lemma_semicolon(s: Seq<char>, i: int, depth: int)
    ensures
        semicolon(s, i, depth) matches Some(e) ==> s[e] == ';',
    decreases s.len() - i,
{
    let (kind, end) = literal_lexeme(s, i);
    if 0 <= i < s.len() && i < end <= s.len() {
        lemma_semicolon(s, end, depth);
        lemma_semicolon(s, i + 1, depth);
        lemma_semicolon(s, i + 1, depth + 1);
        lemma_semicolon(s, i + 1, depth - 1);
    }
}

proof fn lemma_left_trimmed(u: Seq<char>)
    requires
        u.len() > 0,
        u.last() == ';',
    ensures
        left_trimmed(u).len() > 0,
        left_trimmed(u).last() == ';',
        trimmed(u).len() > 0,
    decreases u.len(),
{
    if is_white(u[0]) {
        assert(u.len() > 1);
        lemma_left_trimmed(u.skip(1));
    }
}

pub open spec fn are_imports(us: Seq<Seq<char>>) -> bool {
    forall|k: int| 0 <= k < us.len() ==> is_import(#[trigger] us[k])
}

proof fn lemma_as_lines_split(us: Seq<Seq<char>>, k: int)
    requires
        0 <= k <= us.len(),
    ensures
        as_lines(us) == as_lines(us.take(k)) + as_lines(us.skip(k)),
    decreases us.len(),
{
    if k == us.len() {
        assert(us.take(k) =~= us);
        assert(us.skip(k) =~= Seq::empty());
        assert(as_lines(us) + Seq::empty() =~= as_lines(us));
    } else {
        let rest = us.drop_last();
        lemma_as_lines_split(rest, k);
        assert(rest.take(k) =~= us.take(k));
        assert(us.skip(k).drop_last() =~= rest.skip(k));
        assert(us.skip(k).last() == us.last());
        let line = us.last().push('\n');
        assert((as_lines(us.take(k)) + as_lines(rest.skip(k))) + line =~= as_lines(us.take(k)) + (
        as_lines(rest.skip(k)) + line));
    }
}

/// Where a text stands among its lines.
proof fn lemma_place(us: Seq<Seq<char>>, rest: Seq<char>, k: int)
    requires
        0 <= k < us.len(),
    ensures
        ({
            let s = as_lines(us) + rest;
            let p = as_lines(us.take(k)).len() as int;
            &&& stands_in(s, us[k], p)
            &&& p + us[k].len() < s.len()
            &&& p > 0 ==> s[p - 1] == '\n'
            &&& as_lines(us.take(k + 1)).len() == p + us[k].len() + 1
        }),
{
    let s = as_lines(us) + rest;
    let (head, u) = (as_lines(us.take(k)), us[k]);
    let p = head.len() as int;
    lemma_as_lines_split(us, k + 1);
    assert(us.take(k + 1).drop_last() =~= us.take(k));
    assert(us.take(k + 1).last() == u);
    let line = u.push('\n');
    assert(as_lines(us.take(k + 1)) == head + line);
    assert forall|j: int| 0 <= j < line.len() implies s[p + j] == #[trigger] line[j] by {
        assert((head + line)[p + j] == line[j]);
        assert(s[p + j] == (head + line)[p + j]);
    }
    assert forall|j: int| #![trigger u[j]] 0 <= j < u.len() implies s[p + j] == u[j] by {
        assert(line[j] == u[j]);
    }
    assert(line[u.len() as int] == '\n');
    if k > 0 {
        assert(us.take(k).len() > 0);
        assert(head.last() == '\n');
        assert(s[p - 1] == head[p - 1]);
    }
}

/// Imports on lines of their own stay when comments go.
proof fn lemma_lines_stay(us: Seq<Seq<char>>, rest: Seq<char>, k: int)
    requires
        are_imports(us),
        0 <= k <= us.len(),
    ensures
        ({
            let s = as_lines(us) + rest;
            let head = as_lines(us.take(k));
            uncommented(s) == head + uncommented_from(s, head.len() as int)
        }),
    decreases k,
{
    let s = as_lines(us) + rest;
    let head = as_lines(us.take(k));
    if k == 0 {
        assert(head + uncommented(s) =~= uncommented(s));
    } else {
        let u = us[k - 1];
        let before = as_lines(us.take(k - 1));
        let p = before.len() as int;
        lemma_lines_stay(us, rest, k - 1);
        lemma_place(us, rest, k - 1);
        lemma_plain_code_stays(s, u, p, 0);
        lemma_line_feed_stays(s, p + u.len());
        assert(us.take(k).drop_last() =~= us.take(k - 1));
        assert(us.take(k).last() == u);
        assert(u.skip(0) =~= u);
        let tail = uncommented_from(s, head.len() as int);
        assert(before + (u + (seq!['\n'] + tail)) =~= (before + u.push('\n')) + tail);
    }
}

pub open spec fn all_trimmed(us: Seq<Seq<char>>) -> Seq<Seq<char>> {
    us.map_values(|u: Seq<char>| trimmed(u))
}

/// Imports on lines of their own are found one after the other.
proof fn lemma_lines_are_imports(us: Seq<Seq<char>>, rest: Seq<char>, k: int)
    requires
        are_imports(us),
        1 <= k <= us.len(),
    ensures
        ({
            let s = as_lines(us) + rest;
            file_parts(s) == file_parts_from(
                s,
                as_lines(us.take(k)).len() - 1,
                0,
                (FileParts { imports: all_trimmed(us.take(k)), rest: Seq::empty() }),
            )
        }),
    decreases k,
{
    let s = as_lines(us) + rest;
    let u = us[k - 1];
    let p = as_lines(us.take(k - 1)).len() as int;
    lemma_place(us, rest, k - 1);
    lemma_is_import(u);
    lemma_use_statement_in(s, u, p, 0);
    assert(all_trimmed(us.take(k)) =~= all_trimmed(us.take(k - 1)).push(trimmed(u)));
    if k == 1 {
        assert(us.take(0) =~= Seq::empty());
        assert(s.subrange(0, u.len() as int) =~= u);
        assert(top_level_use(s, 0, 0) == Some(u.len() - 1));
        assert(all_trimmed(us.take(0)) =~= Seq::empty());
    } else {
        lemma_lines_are_imports(us, rest, k - 1);
        let last = us[k - 2];
        lemma_place(us, rest, k - 2);
        lemma_is_import(last);
        let q = p - 1;
        assert(last[last.len() - 1] == ';');
        assert(s[q - 1] == ';');
        assert(s[q] == '\n');
        assert(white_end(s, q) == white_end(s, q + 1));
        assert(use_statement(s, q) == use_statement(s, p));
        assert(top_level_use(s, q, 0) == Some(q + u.len()));
        let line = s.subrange(q, q + u.len() + 1);
        assert(line.skip(1) =~= u);
        assert(line[0] == '\n');
        assert(left_trimmed(line) == left_trimmed(u));
    }
}

/// Where the rest of a file stands, with the line feed before it.
proof fn lemma_rest_place(us: Seq<Seq<char>>, rest: Seq<char>)
    requires
        are_imports(us),
        us.len() > 0,
    ensures
        stands_in(as_lines(us) + rest, seq!['\n'] + rest, as_lines(us).len() - 1),
{
    let n = us.len() as int;
    let s = as_lines(us) + rest;
    let w = seq!['\n'] + rest;
    let q = as_lines(us).len() - 1;
    assert(us.take(n) =~= us);
    lemma_place(us, rest, n - 1);
    let u = us[n - 1];
    lemma_is_import(u);
    assert(u[u.len() - 1] == ';');
    assert(s[q - 1] == ';');
    assert(s[q] == '\n');
    assert forall|k: int| #![trigger w[k]] 0 <= k < w.len() implies s[q + k] == w[k] by {
        if k > 0 {
            assert(s[q + k] == rest[k - 1]);
        }
    }
}

proof fn lemma_uncommented_file(us: Seq<Seq<char>>, rest: Seq<char>)
    requires
        are_imports(us),
        us.len() > 0,
    ensures
        uncommented(as_lines(us) + rest) == as_lines(us) + uncommented_from(seq!['\n'] + rest, 1),
{
    let n = us.len() as int;
    assert(us.take(n) =~= us);
    lemma_rest_place(us, rest);
    lemma_lines_stay(us, rest, n);
    lemma_uncommented_in(as_lines(us) + rest, seq!['\n'] + rest, as_lines(us).len() - 1, 1);
}

proof fn lemma_file_of_imports(us: Seq<Seq<char>>, rest: Seq<char>)
    requires
        are_imports(us),
        us.len() > 0,
    ensures
        ({
            let parts = file_parts(as_lines(us) + rest);
            let more = file_parts_from(seq!['\n'] + rest, 0, 0, nothing());
            parts.imports == all_trimmed(us) + more.imports && parts.rest == more.rest
        }),
{
    let n = us.len() as int;
    let w = seq!['\n'] + rest;
    let parts = FileParts { imports: all_trimmed(us), rest: Seq::empty() };
    assert(us.take(n) =~= us);
    lemma_rest_place(us, rest);
    lemma_lines_are_imports(us, rest, n);
    lemma_file_parts_in(as_lines(us) + rest, w, as_lines(us).len() - 1, 0, 0, parts);
    lemma_parts_add_up(w, 0, 0, parts);
    assert(parts.rest + file_parts_from(w, 0, 0, nothing()).rest =~= file_parts_from(
        w,
        0,
        0,
        nothing(),
    ).rest);
}

proof fn lemma_trimmed_multiset(us: Seq<Seq<char>>, vs: Seq<Seq<char>>)
    requires
        us.to_multiset() == vs.to_multiset(),
    ensures
        all_trimmed(us).to_multiset() == all_trimmed(vs).to_multiset(),
    decreases us.len(),
{
    broadcast use vstd::seq_lib::group_to_multiset_ensures;

    us.to_multiset_ensures();
    vs.to_multiset_ensures();
    if us.len() == 0 {
        assert(us =~= vs);
    } else {
        let u = us.last();
        assert(us.contains(u));
        assert(vs.to_multiset().count(u) > 0);
        assert(vs.contains(u));
        let j = choose|j: int| 0 <= j < vs.len() && vs[j] == u;
        let (a, b) = (us.drop_last(), vs.remove(j));
        assert(us =~= a.push(u));
        assert(a.to_multiset() =~= us.to_multiset().remove(u));
        assert(b.to_multiset() =~= vs.to_multiset().remove(u));
        lemma_trimmed_multiset(a, b);
        assert(all_trimmed(us) =~= all_trimmed(a).push(trimmed(u)));
        all_trimmed(vs).to_multiset_ensures();
        assert(all_trimmed(vs)[j] == trimmed(u));
        assert(all_trimmed(vs).remove(j) =~= all_trimmed(b));
        assert(all_trimmed(vs).contains(trimmed(u)));
        assert(all_trimmed(vs).to_multiset() =~= all_trimmed(b).to_multiset().insert(trimmed(u)));
    }
}

/// Files that hold the same imports on lines of their own, in whatever order, and then the same
/// text, are normalized to the same text.
pub proof fn law_imports_in_any_order(us: Seq<Seq<char>>, vs: Seq<Seq<char>>, rest: Seq<char>)
    requires
        are_imports(us),
        us.to_multiset() == vs.to_multiset(),
    ensures
        normalized_file(as_lines(us) + rest) == normalized_file(as_lines(vs) + rest),
{
    broadcast use vstd::seq_lib::group_to_multiset_ensures;

    us.to_multiset_ensures();
    vs.to_multiset_ensures();
    if us.len() == 0 {
        assert(us =~= vs);
    } else {
        assert forall|k: int| 0 <= k < vs.len() implies is_import(#[trigger] vs[k]) by {
            assert(vs.contains(vs[k]));
            assert(us.to_multiset().count(vs[k]) > 0);
            assert(us.contains(vs[k]));
        }
        let tail = uncommented_from(seq!['\n'] + rest, 1);
        lemma_uncommented_file(us, rest);
        lemma_uncommented_file(vs, rest);
        lemma_file_of_imports(us, tail);
        lemma_file_of_imports(vs, tail);
        let (a, b) = (as_lines(us) + rest, as_lines(vs) + rest);
        let more = file_parts_from(seq!['\n'] + tail, 0, 0, nothing()).imports;
        lemma_trimmed_multiset(us, vs);
        vstd::seq_lib::lemma_multiset_commutative(all_trimmed(us), more);
        vstd::seq_lib::lemma_multiset_commutative(all_trimmed(vs), more);
        law_import_order_does_not_matter(a, b);
    }
}

} // verus!
