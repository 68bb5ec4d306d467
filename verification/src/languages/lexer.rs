//! The lexemes that matter when Rust source is stripped or normalized: comments, literals, and
//! everything else one character at a time.
use vstd::prelude::*;

use crate::text::{ident_char, is_ident, is_white};

verus! {

#[derive(Debug, Clone, Copy, PartialEq, Eq, Structural)]
pub enum Lexeme {
    /// `//` up to, but not including, the end of the line.
    LineComment,
    /// `/* ... */`, nested comments included.
    BlockComment,
    /// A block comment that the source never closes.
    OpenComment,
    /// A string, raw string or character literal, delimiters included.
    Literal,
    /// One character of anything else.
    Plain,
}

/// The character at `i` of `s` is there and is `c`.
pub open spec fn at(s: Seq<char>, i: int, c: char) -> bool {
    0 <= i < s.len() && s[i] == c
}

pub open spec fn pair_at(s: Seq<char>, i: int, a: char, b: char) -> bool {
    at(s, i, a) && at(s, i + 1, b)
}

/// The first line feed from `i` on, or the end of the text.
pub open spec fn line_end(s: Seq<char>, i: int) -> int
    decreases s.len() - i,
{
    if i >= s.len() {
        s.len() as int
    } else if s[i] == '\n' {
        i
    } else {
        line_end(s, i + 1)
    }
}

/// The position behind the `*/` that closes `depth` open comments, reading from `i` on.
pub open spec fn block_end(s: Seq<char>, i: int, depth: int) -> Option<int>
    decreases s.len() - i,
{
    if i >= s.len() {
        None
    } else if pair_at(s, i, '*', '/') {
        if depth <= 1 {
            Some(i + 2)
        } else {
            block_end(s, i + 2, depth - 1)
        }
    } else if pair_at(s, i, '/', '*') {
        block_end(s, i + 2, depth + 1)
    } else {
        block_end(s, i + 1, depth)
    }
}

/// The position behind the first unescaped `q` from `i` on, or the end of the text.
pub open spec fn quoted_end(s: Seq<char>, i: int, q: char) -> int
    decreases s.len() + 1 - i,
{
    if i >= s.len() {
        s.len() as int
    } else if s[i] == '\\' {
        quoted_end(s, i + 2, q)
    } else if s[i] == q {
        i + 1
    } else {
        quoted_end(s, i + 1, q)
    }
}

/// The position of the first character from `i` on that is no `#`.
pub open spec fn hashes_end(s: Seq<char>, i: int) -> int
    decreases s.len() - i,
{
    if at(s, i, '#') {
        hashes_end(s, i + 1)
    } else {
        i
    }
}

/// `h` hash signs stand at `i`.
pub open spec fn hashes_at(s: Seq<char>, i: int, h: int) -> bool {
    forall|k: int| i <= k < i + h ==> at(s, k, '#')
}

/// The position behind the `"` and `h` hashes that close a raw string, or the end of the text.
pub open spec fn raw_end(s: Seq<char>, i: int, h: int) -> int
    decreases s.len() - i,
{
    if i >= s.len() {
        s.len() as int
    } else if s[i] == '"' && hashes_at(s, i + 1, h) {
        i + 1 + h
    } else {
        raw_end(s, i + 1, h)
    }
}

pub open spec fn preceded_by_ident(s: Seq<char>, i: int) -> bool {
    0 < i <= s.len() && is_ident(s[i - 1])
}

/// The length of the raw-string prefix (`r`, `br` or `cr`) at `i`; 0 where there is none.
pub open spec fn raw_prefix(s: Seq<char>, i: int) -> int {
    if at(s, i, 'r') {
        1
    } else if (at(s, i, 'b') || at(s, i, 'c')) && at(s, i + 1, 'r') {
        2
    } else {
        0
    }
}

/// Where a raw string opens at `i`: the position behind its opening quote, and its hash count.
pub open spec fn raw_open(s: Seq<char>, i: int) -> Option<(int, int)> {
    let body = i + raw_prefix(s, i);
    let quote = hashes_end(s, body);
    if raw_prefix(s, i) > 0 && !preceded_by_ident(s, i) && at(s, quote, '"') {
        Some((quote + 1, quote - body))
    } else {
        None
    }
}

/// Whether the `'` at `i` opens a character literal rather than a lifetime: another `'` follows
/// within ten characters of the same line, with no white space between, `' '` excepted.
pub open spec fn char_closes(s: Seq<char>, i: int, j: int) -> bool
    decreases s.len() - j,
{
    if j >= s.len() || j > i + 10 || s[j] == '\n' {
        false
    } else if s[j] == '\'' {
        true
    } else if is_white(s[j]) && !(j == i + 1 && at(s, i + 2, '\'')) {
        false
    } else {
        char_closes(s, i, j + 1)
    }
}

/// The lexeme at `i` and the position behind it, where comments have no meaning.
pub open spec fn literal_lexeme(s: Seq<char>, i: int) -> (Lexeme, int) {
    match raw_open(s, i) {
        Some((body, h)) => (Lexeme::Literal, raw_end(s, body, h)),
        None => if at(s, i, '"') {
            (Lexeme::Literal, quoted_end(s, i + 1, '"'))
        } else if at(s, i, '\'') && char_closes(s, i, i + 1) {
            (Lexeme::Literal, quoted_end(s, i + 1, '\''))
        } else {
            (Lexeme::Plain, i + 1)
        },
    }
}

/// The lexeme at `i` and the position behind it.
pub open spec fn lexeme(s: Seq<char>, i: int) -> (Lexeme, int) {
    if pair_at(s, i, '/', '/') {
        (Lexeme::LineComment, line_end(s, i + 2))
    } else if pair_at(s, i, '/', '*') {
        match block_end(s, i + 2, 1) {
            Some(e) => (Lexeme::BlockComment, e),
            None => (Lexeme::OpenComment, s.len() as int),
        }
    } else {
        literal_lexeme(s, i)
    }
}

fn find_line_end(cs: &[char], from: usize) -> (r: usize)
    requires
        from <= cs@.len(),
    ensures
        r == line_end(cs@, from as int),
        from <= r <= cs@.len(),
{
    let mut i: usize = from;
    while i < cs.len() && cs[i] != '\n'
        invariant
            from <= i <= cs@.len(),
            line_end(cs@, from as int) == line_end(cs@, i as int),
        decreases cs.len() - i,
    {
        i += 1;
    }
    i
}

fn find_block_end(cs: &[char], from: usize) -> (r: Option<usize>)
    requires
        from <= cs@.len(),
    ensures
        (match r {
            Some(e) => block_end(cs@, from as int, 1) == Some(e as int) && from < e <= cs@.len(),
            None => block_end(cs@, from as int, 1) is None,
        }),
{
    let mut i: usize = from;
    let mut depth: usize = 1;
    while i < cs.len()
        invariant
            from <= i <= cs@.len(),
            1 <= depth <= i + 1,
            block_end(cs@, from as int, 1) == block_end(cs@, i as int, depth as int),
        decreases cs.len() - i,
    {
        let n: usize = cs.len();
        if n - i > 1 && cs[i] == '*' && cs[i + 1] == '/' {
            if depth == 1 {
                return Some(i + 2);
            }
            depth -= 1;
            i += 2;
        } else if n - i > 1 && cs[i] == '/' && cs[i + 1] == '*' {
            depth += 1;
            i += 2;
        } else {
            i += 1;
        }
    }
    None
}

pub fn find_quoted_end(cs: &[char], from: usize, q: char) -> (r: usize)
    requires
        from <= cs@.len(),
        q != '\\',
    ensures
        r == quoted_end(cs@, from as int, q),
        from <= r <= cs@.len(),
{
    let mut i: usize = from;
    while i < cs.len()
        invariant
            from <= i <= cs@.len(),
            quoted_end(cs@, from as int, q) == quoted_end(cs@, i as int, q),
        decreases cs.len() - i,
    {
        if cs[i] == '\\' {
            if cs.len() - i == 1 {
                assert(quoted_end(cs@, i + 2, q) == cs@.len());
                return cs.len();
            }
            i += 2;
        } else if cs[i] == q {
            return i + 1;
        } else {
            i += 1;
        }
    }
    i
}

pub fn check_hashes(cs: &[char], from: usize, h: usize) -> (r: bool)
    requires
        from <= cs@.len(),
    ensures
        r == hashes_at(cs@, from as int, h as int),
        r ==> from + h <= cs@.len(),
{
    if h > cs.len() - from {
        assert(!at(cs@, cs@.len() as int, '#'));
        return false;
    }
    let mut k: usize = 0;
    while k < h
        invariant
            k <= h,
            from + h <= cs.len(),
            forall|j: int| from <= j < from + k ==> at(cs@, j, '#'),
        decreases h - k,
    {
        if cs[from + k] != '#' {
            assert(!at(cs@, from + k, '#'));
            return false;
        }
        k += 1;
    }
    true
}

fn find_raw_end(cs: &[char], from: usize, h: usize) -> (r: usize)
    requires
        from <= cs@.len(),
    ensures
        r == raw_end(cs@, from as int, h as int),
        from <= r <= cs@.len(),
{
    let mut i: usize = from;
    while i < cs.len()
        invariant
            from <= i <= cs@.len(),
            raw_end(cs@, from as int, h as int) == raw_end(cs@, i as int, h as int),
        decreases cs.len() - i,
    {
        if cs[i] == '"' && check_hashes(cs, i + 1, h) {
            return i + 1 + h;
        }
        i += 1;
    }
    i
}

fn find_raw_open(cs: &[char], i: usize) -> (r: Option<(usize, usize)>)
    requires
        i < cs@.len(),
    ensures
        (match r {
            Some((body, h)) => raw_open(cs@, i as int) == Some((body as int, h as int)) && i < body
                <= cs@.len(),
            None => raw_open(cs@, i as int) is None,
        }),
{
    let n: usize = cs.len();
    let prefix: usize = if cs[i] == 'r' {
        1
    } else if (cs[i] == 'b' || cs[i] == 'c') && n - i > 1 && cs[i + 1] == 'r' {
        2
    } else {
        0
    };
    if prefix == 0 || (i > 0 && ident_char(cs[i - 1])) {
        return None;
    }
    let body: usize = i + prefix;
    let mut quote: usize = body;
    while quote < n && cs[quote] == '#'
        invariant
            body <= quote <= n == cs@.len(),
            hashes_end(cs@, body as int) == hashes_end(cs@, quote as int),
        decreases n - quote,
    {
        quote += 1;
    }
    if quote < n && cs[quote] == '"' {
        Some((quote + 1, quote - body))
    } else {
        None
    }
}

fn check_char_closes(cs: &[char], i: usize) -> (r: bool)
    requires
        i < cs@.len(),
    ensures
        r == char_closes(cs@, i as int, i + 1),
{
    let n: usize = cs.len();
    let mut j: usize = i + 1;
    while j < n && j - i <= 10 && cs[j] != '\n'
        invariant
            i < j <= n == cs@.len(),
            char_closes(cs@, i as int, i + 1) == char_closes(cs@, i as int, j as int),
        decreases n - j,
    {
        if cs[j] == '\'' {
            return true;
        }
        let alone: bool = j == i + 1 && n - i > 2 && cs[i + 2] == '\'';
        if cs[j].is_whitespace() && !alone {
            return false;
        }
        j += 1;
    }
    false
}

pub fn literal_lexeme_at(cs: &[char], i: usize) -> (r: (Lexeme, usize))
    requires
        i < cs@.len(),
    ensures
        (r.0, r.1 as int) == literal_lexeme(cs@, i as int),
        i < r.1 <= cs@.len(),
{
    match find_raw_open(cs, i) {
        Some((body, h)) => (Lexeme::Literal, find_raw_end(cs, body, h)),
        None => if cs[i] == '"' {
            (Lexeme::Literal, find_quoted_end(cs, i + 1, '"'))
        } else if cs[i] == '\'' && check_char_closes(cs, i) {
            (Lexeme::Literal, find_quoted_end(cs, i + 1, '\''))
        } else {
            (Lexeme::Plain, i + 1)
        },
    }
}

pub fn lexeme_at(cs: &[char], i: usize) -> (r: (Lexeme, usize))
    requires
        i < cs@.len(),
    ensures
        (r.0, r.1 as int) == lexeme(cs@, i as int),
        i < r.1 <= cs@.len(),
{
    let n: usize = cs.len();
    if n - i > 1 && cs[i] == '/' && cs[i + 1] == '/' {
        (Lexeme::LineComment, find_line_end(cs, i + 2))
    } else if n - i > 1 && cs[i] == '/' && cs[i + 1] == '*' {
        match find_block_end(cs, i + 2) {
            Some(e) => (Lexeme::BlockComment, e),
            None => (Lexeme::OpenComment, n),
        }
    } else {
        literal_lexeme_at(cs, i)
    }
}

// ── Dialects ────────────────────────────────────────────────────────────────

/// How comments and literals are written.
#[derive(Debug, Clone, Copy, PartialEq, Eq, Structural)]
pub enum Dialect {
    /// Block comments nest, and there are raw literals.
    Rust,
    /// Block comments do not nest; single and double quotes and backticks all quote, with escapes.
    CLike,
}

/// The position behind the first `*/` from `i` on.
pub open spec fn plain_block_end(s: Seq<char>, i: int) -> Option<int>
    decreases s.len() - i,
{
    if i >= s.len() {
        None
    } else if pair_at(s, i, '*', '/') {
        Some(i + 2)
    } else {
        plain_block_end(s, i + 1)
    }
}

/// The lexeme at `i` of C-like source, and the position behind it.
pub open spec fn c_lexeme(s: Seq<char>, i: int) -> (Lexeme, int) {
    if pair_at(s, i, '/', '/') {
        (Lexeme::LineComment, line_end(s, i + 2))
    } else if pair_at(s, i, '/', '*') {
        match plain_block_end(s, i + 2) {
            Some(e) => (Lexeme::BlockComment, e),
            None => (Lexeme::OpenComment, s.len() as int),
        }
    } else if at(s, i, '"') || at(s, i, '\'') || at(s, i, '`') {
        (Lexeme::Literal, quoted_end(s, i + 1, s[i]))
    } else {
        (Lexeme::Plain, i + 1)
    }
}

pub open spec fn lexeme_in(d: Dialect, s: Seq<char>, i: int) -> (Lexeme, int) {
    match d {
        Dialect::Rust => lexeme(s, i),
        Dialect::CLike => c_lexeme(s, i),
    }
}

fn find_plain_block_end(cs: &[char], from: usize) -> (r: Option<usize>)
    requires
        from <= cs@.len(),
    ensures
        (match r {
            Some(e) => plain_block_end(cs@, from as int) == Some(e as int) && from < e <= cs@.len(),
            None => plain_block_end(cs@, from as int) is None,
        }),
{
    let mut i: usize = from;
    while i < cs.len()
        invariant
            from <= i <= cs@.len(),
            plain_block_end(cs@, from as int) == plain_block_end(cs@, i as int),
        decreases cs.len() - i,
    {
        if cs.len() - i > 1 && cs[i] == '*' && cs[i + 1] == '/' {
            return Some(i + 2);
        }
        i += 1;
    }
    None
}

fn c_lexeme_at(cs: &[char], i: usize) -> (r: (Lexeme, usize))
    requires
        i < cs@.len(),
    ensures
        (r.0, r.1 as int) == c_lexeme(cs@, i as int),
        i < r.1 <= cs@.len(),
{
    let n: usize = cs.len();
    let c: char = cs[i];
    if n - i > 1 && c == '/' && cs[i + 1] == '/' {
        (Lexeme::LineComment, find_line_end(cs, i + 2))
    } else if n - i > 1 && c == '/' && cs[i + 1] == '*' {
        match find_plain_block_end(cs, i + 2) {
            Some(e) => (Lexeme::BlockComment, e),
            None => (Lexeme::OpenComment, n),
        }
    } else if c == '"' || c == '\'' || c == '`' {
        (Lexeme::Literal, find_quoted_end(cs, i + 1, c))
    } else {
        (Lexeme::Plain, i + 1)
    }
}

pub fn lexeme_at_in(d: Dialect, cs: &[char], i: usize) -> (r: (Lexeme, usize))
    requires
        i < cs@.len(),
    ensures
        (r.0, r.1 as int) == lexeme_in(d, cs@, i as int),
        i < r.1 <= cs@.len(),
{
    match d {
        Dialect::Rust => lexeme_at(cs, i),
        Dialect::CLike => c_lexeme_at(cs, i),
    }
}

} // verus!
