//! Rust source with comments, layout and the order of imports taken out.
use vstd::prelude::*;

use crate::languages::lexer::{
    at, find_quoted_end, lexeme, lexeme_at, literal_lexeme, literal_lexeme_at, quoted_end, Dialect,
    Lexeme,
};
use crate::languages::spacing::{normalize_in, normalized_in};
use crate::text::{
    chars_of, ident_char, is_ident, is_white, join, joined, push_chars, slice_text,
    sort_texts, sorted_texts, string_of, trim, trimmed,
};

verus! {

/// The source without comments, and without the white space that separates nothing.
pub open spec fn normalized(s: Seq<char>) -> Seq<char> {
    normalized_in(Dialect::Rust, s)
}

/// Normalizes source code by stripping comments and collapsing whitespace.
pub fn normalize_code(code: &str) -> (r: String)
    ensures
        r@ == normalized(code@),
{
    normalize_in(Dialect::Rust, code)
}

// ── Comment stripping ───────────────────────────────────────────────────────

/// The line feeds of `s`.
pub open spec fn line_feeds(s: Seq<char>) -> Seq<char> {
    s.filter(|c: char| c == '\n')
}

/// What is left of one lexeme that covers `text` when comments go: a block comment leaves its
/// line feeds and, where it is closed, a space.
pub open spec fn uncommented_lexeme(kind: Lexeme, text: Seq<char>) -> Seq<char> {
    match kind {
        Lexeme::LineComment => Seq::empty(),
        Lexeme::OpenComment => line_feeds(text),
        Lexeme::BlockComment => line_feeds(text).push(' '),
        Lexeme::Literal => text,
        Lexeme::Plain => text,
    }
}

pub open spec fn uncommented_from(s: Seq<char>, i: int) -> Seq<char>
    decreases s.len() - i,
{
    let (kind, end) = lexeme(s, i);
    if 0 <= i < end <= s.len() {
        uncommented_lexeme(kind, s.subrange(i, end)) + uncommented_from(s, end)
    } else {
        Seq::empty()
    }
}

/// The source without its comments; every line feed that no line comment swallows stays.
pub open spec fn uncommented(s: Seq<char>) -> Seq<char> {
    uncommented_from(s, 0)
}

fn push_line_feeds(out: &mut Vec<char>, cs: &[char], from: usize, to: usize)
    requires
        from <= to <= cs@.len(),
    ensures
        final(out)@ == old(out)@ + line_feeds(cs@.subrange(from as int, to as int)),
{
    let mut i: usize = from;
    let ghost feed = |c: char| c == '\n';
    proof {
        reveal(Seq::filter);
    }
    while i < to
        invariant
            from <= i <= to <= cs@.len(),
            feed == (|c: char| c == '\n'),
            out@ == old(out)@ + cs@.subrange(from as int, i as int).filter(feed),
        decreases to - i,
    {
        proof {
            reveal(Seq::filter);
            assert(cs@.subrange(from as int, i + 1).drop_last() =~= cs@.subrange(
                from as int,
                i as int,
            ));
        }
        if cs[i] == '\n' {
            out.push('\n');
        }
        i += 1;
    }
}

pub fn strip_comments_keep_newlines(code: &str) -> (r: String)
    ensures
        r@ == uncommented(code@),
{
    let cs: Vec<char> = chars_of(code);
    let mut out: Vec<char> = Vec::new();
    let mut i: usize = 0;
    while i < cs.len()
        invariant
            i <= cs@.len(),
            out@ + uncommented_from(cs@, i as int) == uncommented_from(cs@, 0),
        decreases cs.len() - i,
    {
        let (kind, end) = lexeme_at(&cs, i);
        let ghost before = out@;
        let ghost text = cs@.subrange(i as int, end as int);
        match kind {
            Lexeme::LineComment => {},
            Lexeme::OpenComment => {
                push_line_feeds(&mut out, &cs, i, end);
            },
            Lexeme::BlockComment => {
                push_line_feeds(&mut out, &cs, i, end);
                out.push(' ');
            },
            Lexeme::Literal => {
                push_chars(&mut out, &cs, i, end);
            },
            Lexeme::Plain => {
                push_chars(&mut out, &cs, i, end);
            },
        }
        assert(out@ =~= before + uncommented_lexeme(kind, text));
        assert(out@ + uncommented_from(cs@, end as int) =~= before + uncommented_from(
            cs@,
            i as int,
        ));
        i = end;
    }
    string_of(&out)
}

// ── Import declarations ─────────────────────────────────────────────────────

pub open spec fn white_end(s: Seq<char>, i: int) -> int
    decreases s.len() - i,
{
    if 0 <= i < s.len() && is_white(s[i]) {
        white_end(s, i + 1)
    } else {
        i
    }
}

/// The position behind the bracket that closes `depth` open ones, quoted text skipped.
pub open spec fn group_end(s: Seq<char>, i: int, open: char, close: char, depth: int) -> Option<int>
    decreases s.len() - i,
{
    if i < 0 || i >= s.len() {
        None
    } else if s[i] == '"' || s[i] == '\'' {
        let e = quoted_end(s, i + 1, s[i]);
        if i < e <= s.len() {
            group_end(s, e, open, close, depth)
        } else {
            None
        }
    } else if s[i] == open {
        group_end(s, i + 1, open, close, depth + 1)
    } else if s[i] == close {
        if depth <= 1 {
            Some(i + 1)
        } else {
            group_end(s, i + 1, open, close, depth - 1)
        }
    } else {
        group_end(s, i + 1, open, close, depth)
    }
}

/// The position behind the outer attributes at `i` and the white space that follows them; none
/// where an attribute is never closed.
pub open spec fn attributes_end(s: Seq<char>, i: int) -> Option<int>
    decreases s.len() - i,
{
    let bracket = white_end(s, i + 1);
    if at(s, i, '#') && at(s, bracket, '[') {
        match group_end(s, bracket + 1, '[', ']', 1) {
            None => None,
            Some(e) => if i < white_end(s, e) <= s.len() {
                attributes_end(s, white_end(s, e))
            } else {
                None
            },
        }
    } else {
        Some(i)
    }
}

/// The three letters at `i` are the word `abc`, and it ends there.
pub open spec fn word3(s: Seq<char>, i: int, a: char, b: char, c: char) -> bool {
    at(s, i, a) && at(s, i + 1, b) && at(s, i + 2, c) && !(i + 3 < s.len() && is_ident(s[i + 3]))
}

/// The position behind a visibility modifier at `i`; `i` where there is none, and none where its
/// parenthesis is never closed.
pub open spec fn visibility_end(s: Seq<char>, i: int) -> Option<int> {
    if word3(s, i, 'p', 'u', 'b') {
        let j = white_end(s, i + 3);
        if at(s, j, '(') {
            match group_end(s, j + 1, '(', ')', 1) {
                Some(e) => Some(white_end(s, e)),
                None => None,
            }
        } else {
            Some(j)
        }
    } else {
        Some(i)
    }
}

/// The position of the `;` outside braces and literals that ends an import, from `i` on.
pub open spec fn semicolon(s: Seq<char>, i: int, depth: int) -> Option<int>
    decreases s.len() - i,
{
    let (kind, end) = literal_lexeme(s, i);
    if i < 0 || i >= s.len() || !(i < end <= s.len()) {
        None
    } else if kind == Lexeme::Literal {
        semicolon(s, end, depth)
    } else if s[i] == '{' {
        semicolon(s, i + 1, depth + 1)
    } else if s[i] == '}' {
        semicolon(s, i + 1, if depth > 0 { depth - 1 } else { depth })
    } else if s[i] == ';' && depth == 0 {
        Some(i)
    } else {
        semicolon(s, i + 1, depth)
    }
}

/// Where an import declaration starts at `i`, white space, attributes and a visibility modifier
/// allowed in front: the position of its `;`.
pub open spec fn use_statement(s: Seq<char>, i: int) -> Option<int> {
    match attributes_end(s, white_end(s, i)) {
        None => None,
        Some(a) => match visibility_end(s, a) {
            None => None,
            Some(v) => if word3(s, v, 'u', 's', 'e') {
                semicolon(s, v + 3, 0)
            } else {
                None
            },
        },
    }
}

fn skip_white(cs: &[char], from: usize) -> (r: usize)
    requires
        from <= cs@.len(),
    ensures
        r == white_end(cs@, from as int),
        from <= r <= cs@.len(),
{
    let mut i: usize = from;
    while i < cs.len() && cs[i].is_whitespace()
        invariant
            from <= i <= cs@.len(),
            white_end(cs@, from as int) == white_end(cs@, i as int),
        decreases cs.len() - i,
    {
        i += 1;
    }
    i
}

fn find_group_end(cs: &[char], from: usize, open: char, close: char) -> (r: Option<usize>)
    requires
        1 <= from <= cs@.len(),
        open != close,
    ensures
        (match r {
            Some(e) => group_end(cs@, from as int, open, close, 1) == Some(e as int) && from < e
                <= cs@.len(),
            None => group_end(cs@, from as int, open, close, 1) is None,
        }),
{
    let mut i: usize = from;
    let mut depth: usize = 1;
    while i < cs.len()
        invariant
            from <= i <= cs@.len(),
            open != close,
            1 <= depth <= i,
            group_end(cs@, from as int, open, close, 1) == group_end(
                cs@,
                i as int,
                open,
                close,
                depth as int,
            ),
        decreases cs.len() - i,
    {
        if cs[i] == '"' || cs[i] == '\'' {
            i = find_quoted_end(cs, i + 1, cs[i]);
        } else if cs[i] == open {
            depth += 1;
            i += 1;
        } else if cs[i] == close {
            if depth == 1 {
                return Some(i + 1);
            }
            depth -= 1;
            i += 1;
        } else {
            i += 1;
        }
    }
    None
}

fn find_attributes_end(cs: &[char], from: usize) -> (r: Option<usize>)
    requires
        from <= cs@.len(),
    ensures
        (match r {
            Some(e) => attributes_end(cs@, from as int) == Some(e as int) && from <= e <= cs@.len(),
            None => attributes_end(cs@, from as int) is None,
        }),
{
    let mut i: usize = from;
    while i < cs.len() && cs[i] == '#'
        invariant
            from <= i <= cs@.len(),
            attributes_end(cs@, from as int) == attributes_end(cs@, i as int),
        decreases cs.len() - i,
    {
        let bracket: usize = skip_white(cs, i + 1);
        if bracket >= cs.len() || cs[bracket] != '[' {
            return Some(i);
        }
        match find_group_end(cs, bracket + 1, '[', ']') {
            Some(e) => {
                i = skip_white(cs, e);
            },
            None => {
                return None;
            },
        }
    }
    Some(i)
}

fn check_word3(cs: &[char], i: usize, a: char, b: char, c: char) -> (r: bool)
    requires
        i <= cs@.len(),
    ensures
        r == word3(cs@, i as int, a, b, c),
        r ==> i + 3 <= cs.len(),
{
    let n: usize = cs.len();
    n - i >= 3 && cs[i] == a && cs[i + 1] == b && cs[i + 2] == c && !(n - i > 3 && ident_char(
        cs[i + 3],
    ))
}

fn find_visibility_end(cs: &[char], i: usize) -> (r: Option<usize>)
    requires
        i <= cs@.len(),
    ensures
        (match r {
            Some(e) => visibility_end(cs@, i as int) == Some(e as int) && i <= e <= cs@.len(),
            None => visibility_end(cs@, i as int) is None,
        }),
{
    if !check_word3(cs, i, 'p', 'u', 'b') {
        return Some(i);
    }
    let j: usize = skip_white(cs, i + 3);
    if j < cs.len() && cs[j] == '(' {
        match find_group_end(cs, j + 1, '(', ')') {
            Some(e) => Some(skip_white(cs, e)),
            None => None,
        }
    } else {
        Some(j)
    }
}

fn find_semicolon(cs: &[char], from: usize) -> (r: Option<usize>)
    requires
        from <= cs@.len(),
    ensures
        (match r {
            Some(e) => semicolon(cs@, from as int, 0) == Some(e as int) && from <= e < cs@.len(),
            None => semicolon(cs@, from as int, 0) is None,
        }),
{
    let mut i: usize = from;
    let mut depth: usize = 0;
    while i < cs.len()
        invariant
            from <= i <= cs@.len(),
            depth <= i,
            semicolon(cs@, from as int, 0) == semicolon(cs@, i as int, depth as int),
        decreases cs.len() - i,
    {
        let (kind, end) = literal_lexeme_at(cs, i);
        if kind == Lexeme::Literal {
            i = end;
        } else if cs[i] == '{' {
            depth += 1;
            i += 1;
        } else if cs[i] == '}' {
            if depth > 0 {
                depth -= 1;
            }
            i += 1;
        } else if cs[i] == ';' && depth == 0 {
            return Some(i);
        } else {
            i += 1;
        }
    }
    None
}

/// Recognizes an import declaration at `idx` and returns the position of its semicolon.
pub fn parse_use_statement(chars: &[char], idx: usize) -> (r: Option<usize>)
    ensures
        (match r {
            Some(e) => use_statement(chars@, idx as int) == Some(e as int) && idx < e
                < chars@.len(),
            None => use_statement(chars@, idx as int) is None,
        }),
{
    if idx > chars.len() {
        return None;
    }
    let start: usize = skip_white(chars, idx);
    match find_attributes_end(chars, start) {
        None => None,
        Some(a) => match find_visibility_end(chars, a) {
            None => None,
            Some(v) => if check_word3(chars, v, 'u', 's', 'e') {
                find_semicolon(chars, v + 3)
            } else {
                None
            },
        },
    }
}

// ── Whole files ─────────────────────────────────────────────────────────────

/// A file taken apart: its top-level import declarations and the rest of its text.
pub struct FileParts {
    pub imports: Seq<Seq<char>>,
    pub rest: Seq<char>,
}

pub open spec fn brace_depth(depth: int, kind: Lexeme, c: char) -> int {
    if kind == Lexeme::Plain && c == '{' {
        depth + 1
    } else if kind == Lexeme::Plain && c == '}' && depth > 0 {
        depth - 1
    } else {
        depth
    }
}

/// The import declaration that starts at `i`, outside every brace and not inside a word.
pub open spec fn top_level_use(s: Seq<char>, i: int, depth: int) -> Option<int> {
    if depth == 0 && !(0 < i <= s.len() && is_ident(s[i - 1])) {
        use_statement(s, i)
    } else {
        None
    }
}

pub open spec fn file_parts_from(s: Seq<char>, i: int, depth: int, parts: FileParts) -> FileParts
    decreases s.len() - i,
{
    if i < 0 || i >= s.len() {
        parts
    } else {
        match top_level_use(s, i, depth) {
            Some(e) => if i <= e < s.len() {
                let import = trimmed(s.subrange(i, e + 1));
                file_parts_from(
                    s,
                    e + 1,
                    depth,
                    FileParts {
                        imports: if import.len() > 0 {
                            parts.imports.push(import)
                        } else {
                            parts.imports
                        },
                        ..parts
                    },
                )
            } else {
                parts
            },
            None => {
                let (kind, end) = literal_lexeme(s, i);
                if i < end <= s.len() {
                    file_parts_from(
                        s,
                        end,
                        brace_depth(depth, kind, s[i]),
                        FileParts { rest: parts.rest + s.subrange(i, end), ..parts },
                    )
                } else {
                    parts
                }
            },
        }
    }
}

pub open spec fn file_parts(s: Seq<char>) -> FileParts {
    file_parts_from(s, 0, 0, FileParts { imports: Seq::empty(), rest: Seq::empty() })
}

/// A file with its top-level imports moved to the front, in order.
pub open spec fn imports_first(parts: FileParts) -> Seq<char> {
    let block = joined(sorted_texts(parts.imports), seq!['\n']);
    if block.len() > 0 {
        block.push('\n') + parts.rest
    } else {
        block + parts.rest
    }
}

/// A file without comments, its top-level imports sorted and in front, normalized.
pub open spec fn normalized_file(s: Seq<char>) -> Seq<char> {
    normalized(imports_first(file_parts(uncommented(s))))
}

fn take_apart(cs: &[char]) -> (r: (Vec<String>, Vec<char>))
    ensures
        r.0.deep_view() == file_parts(cs@).imports,
        r.1@ == file_parts(cs@).rest,
{
    let mut imports: Vec<String> = Vec::new();
    let mut rest: Vec<char> = Vec::new();
    let mut depth: usize = 0;
    let mut i: usize = 0;
    assert(imports.deep_view() =~= Seq::<Seq<char>>::empty());
    while i < cs.len()
        invariant
            i <= cs@.len(),
            depth <= i,
            file_parts(cs@) == file_parts_from(
                cs@,
                i as int,
                depth as int,
                (FileParts { imports: imports.deep_view(), rest: rest@ }),
            ),
        decreases cs.len() - i,
    {
        let inside_word: bool = i > 0 && ident_char(cs[i - 1]);
        let parsed: Option<usize> = if depth == 0 && !inside_word {
            parse_use_statement(cs, i)
        } else {
            None
        };
        match parsed {
            Some(e) => {
                let import: String = trim(slice_text(cs, i, e + 1).as_str());
                let ghost before = imports;
                if !import.as_str().is_empty() {
                    imports.push(import);
                    proof {
                        crate::text::lemma_push_text(before, imports, import);
                    }
                }
                i = e + 1;
            },
            None => {
                let (kind, end) = literal_lexeme_at(cs, i);
                push_chars(&mut rest, cs, i, end);
                if kind == Lexeme::Plain && cs[i] == '{' {
                    depth += 1;
                } else if kind == Lexeme::Plain && cs[i] == '}' && depth > 0 {
                    depth -= 1;
                }
                i = end;
            },
        }
    }
    (imports, rest)
}

/// Normalizes file content: comments go, top-level `use` declarations are sorted to the front,
/// whitespace is collapsed.
pub fn normalize_file_code(code: &str) -> (r: String)
    ensures
        r@ == normalized_file(code@),
{
    let clean: Vec<char> = chars_of(strip_comments_keep_newlines(code).as_str());
    let (imports, rest) = take_apart(&clean);
    let block: String = join(&sort_texts(imports), "\n");
    let mut combined: Vec<char> = chars_of(block.as_str());
    proof {
        reveal_strlit("\n");
        assert("\n"@ =~= seq!['\n']);
    }
    if combined.len() > 0 {
        combined.push('\n');
    }
    push_chars(&mut combined, &rest, 0, rest.len());
    assert(combined@ =~= imports_first(file_parts(clean@)));
    normalize_code(string_of(&combined).as_str())
}

} // verus!
