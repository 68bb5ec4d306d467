//! What reading source code keeps, and what it does not depend on.
use vstd::prelude::*;

use crate::languages::lexer::{
    at, block_end, hashes_at, hashes_end, lexeme, lexeme_in, line_end, quoted_end, raw_end,
    raw_open, Dialect, Lexeme,
};
use crate::languages::rust::markers::{
    breaks, category_of, is_word, marker, markers_from, run_end, CommentMarkerView,
};
use crate::languages::rust::normalize::{
    file_parts, line_feeds, normalized_file, uncommented, uncommented_from, uncommented_lexeme,
};
use crate::languages::rust::tree::{
    declared_bindings, declared_names, is_name, use_bindings, use_bindings_of, use_names,
    use_names_of,
};
use crate::languages::spacing::{
    normalized_in, spaced_char, spaced_from, spaced_lexeme, spaced_literal, Spaced,
};
use crate::languages::syntax::{children, field_child, is_a, SyntaxNodeView};
use crate::text::{
    ascending, is_white, law_sorted_texts, lemma_text_le_antisym, sorted_texts, text_le,
};

verus! {

// ── Names and bindings ──────────────────────────────────────────────────────

/// Every clause that names an alias says what it stands for.
pub open spec fn aliases_have_paths(t: Seq<SyntaxNodeView>) -> bool {
    forall|i: int|
        0 <= i < t.len() && #[trigger] is_a(t, i, "use_as_clause"@) && field_child(t, i, "alias"@)
            is Some ==> field_child(t, i, "path"@) is Some
}

/// The first of each pair.
pub open spec fn bound_names(s: Seq<(Seq<char>, Seq<char>)>) -> Seq<Seq<char>> {
    s.map_values(|b: (Seq<char>, Seq<char>)| b.0)
}

proof fn lemma_names_of_tree(t: Seq<SyntaxNodeView>, i: int, prefix: Seq<char>)
    requires
        aliases_have_paths(t),
    ensures
        use_names(t, i) == bound_names(use_bindings(t, i, prefix)),
    decreases t.len() - i, 1nat, 0nat,
{
    let bound = use_bindings(t, i, prefix);
    if i < 0 || i >= t.len() || is_name(t, i) || is_a(t, i, "scoped_identifier"@) {
        assert(use_names(t, i) =~= bound_names(bound));
    } else if is_a(t, i, "use_as_clause"@) {
        assert(use_names(t, i) =~= bound_names(bound));
    } else if is_a(t, i, "scoped_use_list"@) {
        let inner = match field_child(t, i, "path"@) {
            Some(path) => crate::languages::rust::tree::joined_path(
                prefix,
                crate::languages::rust::tree::trimmed_at(t, path),
            ),
            None => prefix,
        };
        match field_child(t, i, "list"@) {
            Some(list) => {
                if i < list < t.len() {
                    lemma_names_of_tree(t, list, inner);
                }
            },
            None => {},
        }
        assert(use_names(t, i) =~= bound_names(bound));
    } else if is_a(t, i, "use_list"@) {
        lemma_names_of_list(t, i, children(t, i), prefix);
    } else {
        assert(use_names(t, i) =~= bound_names(bound));
    }
}

proof fn lemma_names_of_list(
    t: Seq<SyntaxNodeView>,
    i: int,
    kids: Seq<int>,
    prefix: Seq<char>,
)
    requires
        aliases_have_paths(t),
    ensures
        use_names_of(t, i, kids) == bound_names(use_bindings_of(t, i, kids, prefix)),
    decreases t.len() - i, 0nat, kids.len(),
{
    if kids.len() > 0 && 0 <= i < t.len() {
        lemma_names_of_list(t, i, kids.drop_last(), prefix);
        if i < kids.last() < t.len() {
            lemma_names_of_tree(t, kids.last(), prefix);
        }
    }
    assert(use_names_of(t, i, kids) =~= bound_names(use_bindings_of(t, i, kids, prefix)));
}

/// The names that a `use` declaration brings into scope are those that it binds to paths.
pub proof fn law_imported_names_are_bound(t: Seq<SyntaxNodeView>, i: int)
    requires
        aliases_have_paths(t),
    ensures
        declared_names(t, i) == bound_names(declared_bindings(t, i)),
{
    match field_child(t, i, "argument"@) {
        Some(a) => {
            lemma_names_of_tree(t, a, Seq::empty());
        },
        None => {
            assert(declared_names(t, i) =~= bound_names(declared_bindings(t, i)));
        },
    }
}

// ── Markers ─────────────────────────────────────────────────────────────────

/// `s[i..e]` is a word, and no character beside it belongs to it.
pub open spec fn whole_word(s: Seq<char>, i: int, e: int) -> bool {
    &&& 0 <= i < e <= s.len()
    &&& forall|k: int| i <= k < e ==> is_word(#[trigger] s[k])
    &&& i == 0 || !is_word(s[i - 1])
    &&& e == s.len() || !is_word(s[e])
}

proof fn lemma_run(s: Seq<char>, i: int)
    requires
        0 <= i <= s.len(),
    ensures
        i <= run_end(s, i) <= s.len(),
        forall|k: int| i <= k < run_end(s, i) ==> is_word(#[trigger] s[k]),
        run_end(s, i) == s.len() || !is_word(s[run_end(s, i)]),
    decreases s.len() - i,
{
    if i < s.len() && is_word(s[i]) {
        lemma_run(s, i + 1);
    }
}

/// The marker that some whole word of `s` is.
pub open spec fn marks(s: Seq<char>, m: CommentMarkerView) -> bool {
    exists|i: int, e: int|
        #[trigger] whole_word(s, i, e) && category_of(s.subrange(i, e)) == Some(m.category) && m
            == marker(s, i, e, m.category)
}

proof fn lemma_markers(s: Seq<char>, i: int)
    requires
        0 <= i <= s.len(),
        i == 0 || i == s.len() || !(is_word(s[i - 1]) && is_word(s[i])),
    ensures
        forall|m: CommentMarkerView| #[trigger] markers_from(s, i).contains(m) ==> marks(s, m),
        forall|a: int, e: int|
            i <= a && #[trigger] whole_word(s, a, e) && category_of(s.subrange(a, e)) is Some
                ==> markers_from(s, i).contains(marker(s, a, e, category_of(s.subrange(a, e))->0)),
    decreases s.len() - i,
{
    let all = markers_from(s, i);
    if i < s.len() {
        if !is_word(s[i]) {
            lemma_markers(s, i + 1);
            assert(all == markers_from(s, i + 1));
            assert forall|a: int, e: int|
                i <= a && #[trigger] whole_word(s, a, e) && category_of(s.subrange(a, e)) is Some implies
                all.contains(marker(s, a, e, category_of(s.subrange(a, e))->0)) by {
                assert(is_word(s[a]));
            }
        } else {
            lemma_run(s, i);
            let end = run_end(s, i);
            lemma_markers(s, end);
            assert(whole_word(s, i, end));
            let more = markers_from(s, end);
            assert forall|m: CommentMarkerView| #[trigger] all.contains(m) implies marks(s, m) by {
                let k = choose|k: int| 0 <= k < all.len() && all[k] == m;
                match category_of(s.subrange(i, end)) {
                    Some(c) => {
                        if k > 0 {
                            assert(more[k - 1] == m);
                            assert(more.contains(m));
                        } else {
                            assert(m == marker(s, i, end, c));
                        }
                    },
                    None => {
                        assert(more.contains(m));
                    },
                }
            }
            assert forall|a: int, e: int|
                i <= a && #[trigger] whole_word(s, a, e) && category_of(s.subrange(a, e)) is Some implies
                all.contains(marker(s, a, e, category_of(s.subrange(a, e))->0)) by {
                let m = marker(s, a, e, category_of(s.subrange(a, e))->0);
                if a < end {
                    if a > i {
                        assert(is_word(s[a - 1]));
                    }
                    if e < end {
                        assert(is_word(s[e]));
                    }
                    if e > end {
                        assert(is_word(s[end]));
                    }
                    assert(all[0] == m);
                } else {
                    assert(more.contains(m));
                    let k = choose|k: int| 0 <= k < more.len() && more[k] == m;
                    match category_of(s.subrange(i, end)) {
                        Some(c) => {
                            assert(all[k + 1] == m);
                        },
                        None => {},
                    }
                }
            }
        }
    }
}

/// The debt markers of a comment are exactly its whole words that name one, in any case: a word
/// that only holds one is none.
pub proof fn law_markers_are_whole_words(s: Seq<char>)
    ensures
        forall|m: CommentMarkerView| #[trigger] markers_from(s, 0).contains(m) ==> marks(s, m),
        forall|a: int, e: int| #[trigger]
            whole_word(s, a, e) && category_of(s.subrange(a, e)) is Some ==> markers_from(
                s,
                0,
            ).contains(marker(s, a, e, category_of(s.subrange(a, e))->0)),
{
    lemma_markers(s, 0);
    assert forall|a: int, e: int| #[trigger]
        whole_word(s, a, e) && category_of(s.subrange(a, e)) is Some implies markers_from(
        s,
        0,
    ).contains(marker(s, a, e, category_of(s.subrange(a, e))->0)) by {
        assert(0 <= a);
    }
}

// ── Lexemes ─────────────────────────────────────────────────────────────────

pub proof fn lemma_line_end(s: Seq<char>, i: int)
    requires
        0 <= i,
    ensures
        i <= s.len() ==> i <= line_end(s, i) <= s.len(),
        forall|k: int| i <= k < line_end(s, i) ==> #[trigger] s[k] != '\n',
    decreases s.len() - i,
{
    if i < s.len() && s[i] != '\n' {
        lemma_line_end(s, i + 1);
    }
}

pub proof fn lemma_block_end(s: Seq<char>, i: int, depth: int)
    requires
        0 <= i,
    ensures
        block_end(s, i, depth) matches Some(e) ==> i < e <= s.len(),
    decreases s.len() - i,
{
    if i < s.len() {
        if i + 2 <= s.len() {
            lemma_block_end(s, i + 2, depth - 1);
            lemma_block_end(s, i + 2, depth + 1);
        }
        lemma_block_end(s, i + 1, depth);
    }
}

pub proof fn lemma_quoted_end(s: Seq<char>, i: int, q: char)
    requires
        0 <= i,
    ensures
        i <= s.len() ==> i <= quoted_end(s, i, q),
        quoted_end(s, i, q) <= s.len(),
    decreases s.len() + 1 - i,
{
    if i < s.len() {
        if s[i] == '\\' {
            lemma_quoted_end(s, i + 2, q);
        } else if s[i] != q {
            lemma_quoted_end(s, i + 1, q);
        }
    }
}

pub proof fn lemma_hashes_end(s: Seq<char>, i: int)
    ensures
        i <= hashes_end(s, i),
    decreases s.len() - i,
{
    if at(s, i, '#') {
        lemma_hashes_end(s, i + 1);
    }
}

pub proof fn lemma_raw_end(s: Seq<char>, i: int, h: int)
    requires
        0 <= i,
        0 <= h,
    ensures
        i <= s.len() ==> i <= raw_end(s, i, h),
        raw_end(s, i, h) <= s.len(),
    decreases s.len() - i,
{
    if i < s.len() {
        if s[i] == '"' && hashes_at(s, i + 1, h) {
            if h > 0 {
                assert(at(s, i + h, '#'));
            }
        } else {
            lemma_raw_end(s, i + 1, h);
        }
    }
}

/// A lexeme covers at least one character and ends within the text.
pub proof fn lemma_lexeme(s: Seq<char>, i: int)
    requires
        0 <= i < s.len(),
    ensures
        i < lexeme(s, i).1 <= s.len(),
        lexeme(s, i).0 == Lexeme::LineComment ==> forall|k: int|
            i <= k < lexeme(s, i).1 ==> #[trigger] s[k] != '\n',
{
    lemma_line_end(s, i + 2);
    lemma_block_end(s, i + 2, 1);
    lemma_quoted_end(s, i + 1, '"');
    lemma_quoted_end(s, i + 1, '\'');
    if let Some((body, h)) = raw_open(s, i) {
        let prefix = crate::languages::lexer::raw_prefix(s, i);
        lemma_hashes_end(s, i + prefix);
        lemma_raw_end(s, body, h);
    }
}

// ── Line numbers ────────────────────────────────────────────────────────────

proof fn lemma_breaks_add(a: Seq<char>, b: Seq<char>)
    ensures
        breaks(a + b) == breaks(a) + breaks(b),
    decreases b.len(),
{
    if b.len() == 0 {
        assert(a + b =~= a);
    } else {
        lemma_breaks_add(a, b.drop_last());
        assert((a + b).drop_last() =~= a + b.drop_last());
    }
}

proof fn lemma_no_breaks(s: Seq<char>)
    requires
        forall|k: int| 0 <= k < s.len() ==> #[trigger] s[k] != '\n',
    ensures
        breaks(s) == 0,
    decreases s.len(),
{
    if s.len() > 0 {
        let rest = s.drop_last();
        assert forall|k: int| 0 <= k < rest.len() implies #[trigger] rest[k] != '\n' by {
            assert(rest[k] == s[k]);
        }
        lemma_no_breaks(rest);
    }
}

proof fn lemma_line_feeds(s: Seq<char>)
    ensures
        breaks(line_feeds(s)) == breaks(s),
    decreases s.len(),
{
    reveal(Seq::filter);
    if s.len() > 0 {
        lemma_line_feeds(s.drop_last());
        if s.last() == '\n' {
            assert(line_feeds(s).drop_last() =~= line_feeds(s.drop_last()));
        }
    }
}

proof fn lemma_uncommented(s: Seq<char>, i: int)
    requires
        0 <= i <= s.len(),
    ensures
        breaks(uncommented_from(s, i)) == breaks(s.skip(i)),
    decreases s.len() - i,
{
    if i < s.len() {
        lemma_lexeme(s, i);
        let (kind, end) = lexeme(s, i);
        let text = s.subrange(i, end);
        lemma_uncommented(s, end);
        let left = uncommented_lexeme(kind, text);
        lemma_breaks_add(left, uncommented_from(s, end));
        assert(s.skip(i) =~= text + s.skip(end));
        lemma_breaks_add(text, s.skip(end));
        lemma_line_feeds(text);
        if kind == Lexeme::LineComment {
            assert forall|k: int| 0 <= k < text.len() implies #[trigger] text[k] != '\n' by {
                assert(text[k] == s[i + k]);
            }
            lemma_no_breaks(text);
        }
        if kind == Lexeme::BlockComment {
            assert(left.drop_last() =~= line_feeds(text));
        }
    } else {
        assert(s.skip(i) =~= Seq::<char>::empty());
    }
}

/// Stripping comments keeps the number of lines.
pub proof fn law_stripping_keeps_lines(s: Seq<char>)
    ensures
        breaks(uncommented(s)) == breaks(s),
{
    lemma_uncommented(s, 0);
    assert(s.skip(0) =~= s);
}

// ── Layout ──────────────────────────────────────────────────────────────────

/// What a source says: its characters and literals, and where some layout stands between them.
pub enum Piece {
    Letter(char),
    Literal(Seq<char>),
    Gap,
}

pub open spec fn piece_of(c: char) -> Piece {
    if is_white(c) {
        Piece::Gap
    } else {
        Piece::Letter(c)
    }
}

/// A gap behind a gap adds nothing.
pub open spec fn add_piece(s: Seq<Piece>, p: Piece) -> Seq<Piece> {
    if p is Gap && s.len() > 0 && s.last() is Gap {
        s
    } else {
        s.push(p)
    }
}

/// The pieces after one lexeme that covers `text`: line comments leave nothing, white space and
/// block comments a gap.
pub open spec fn pieces_lexeme(s: Seq<Piece>, kind: Lexeme, text: Seq<char>) -> Seq<Piece> {
    match kind {
        Lexeme::LineComment => s,
        Lexeme::OpenComment => s,
        Lexeme::BlockComment => add_piece(s, Piece::Gap),
        Lexeme::Literal => s.push(Piece::Literal(text)),
        Lexeme::Plain => add_piece(s, piece_of(text[0])),
    }
}

pub open spec fn pieces_from(d: Dialect, s: Seq<char>, i: int, before: Seq<Piece>) -> Seq<Piece>
    decreases s.len() - i,
{
    let (kind, end) = lexeme_in(d, s, i);
    if 0 <= i < end <= s.len() {
        pieces_from(d, s, end, pieces_lexeme(before, kind, s.subrange(i, end)))
    } else {
        before
    }
}

/// The pieces of a source: the same for any two that differ only in comments, in how much white
/// space stands where there is some, and in which.
pub open spec fn pieces(d: Dialect, s: Seq<char>) -> Seq<Piece> {
    pieces_from(d, s, 0, Seq::empty())
}

/// What is written of some pieces.
pub open spec fn spaced_pieces(s: Seq<Piece>) -> Spaced
    decreases s.len(),
{
    if s.len() == 0 {
        Spaced { out: Seq::empty(), pending: false }
    } else {
        let before = spaced_pieces(s.drop_last());
        match s.last() {
            Piece::Letter(c) => spaced_char(before, c, false),
            Piece::Literal(text) => spaced_literal(before, text),
            Piece::Gap => Spaced { out: before.out, pending: true },
        }
    }
}

proof fn lemma_spaced_push(before: Seq<Piece>, p: Piece)
    ensures
        spaced_pieces(before.push(p)) == (match p {
            Piece::Letter(c) => spaced_char(spaced_pieces(before), c, false),
            Piece::Literal(text) => spaced_literal(spaced_pieces(before), text),
            Piece::Gap => Spaced { out: spaced_pieces(before).out, pending: true },
        }),
        spaced_pieces(add_piece(before, Piece::Gap)) == (Spaced {
            out: spaced_pieces(before).out,
            pending: true,
        }),
{
    assert(before.push(p).drop_last() =~= before);
    assert(before.push(Piece::Gap).drop_last() =~= before);
}

proof fn lemma_spaced_pieces(d: Dialect, s: Seq<char>, i: int, before: Seq<Piece>)
    ensures
        spaced_from(d, s, i, spaced_pieces(before)) == spaced_pieces(
            pieces_from(d, s, i, before),
        ),
    decreases s.len() - i,
{
    let (kind, end) = lexeme_in(d, s, i);
    if 0 <= i < end <= s.len() {
        let text = s.subrange(i, end);
        let after = pieces_lexeme(before, kind, text);
        assert(is_white(' '));
        match kind {
            Lexeme::LineComment => {},
            Lexeme::OpenComment => {},
            Lexeme::BlockComment => {
                lemma_spaced_push(before, Piece::Gap);
            },
            Lexeme::Literal => {
                lemma_spaced_push(before, Piece::Literal(text));
            },
            Lexeme::Plain => {
                lemma_spaced_push(before, piece_of(text[0]));
            },
        }
        assert(spaced_pieces(after) == spaced_lexeme(spaced_pieces(before), kind, text));
        lemma_spaced_pieces(d, s, end, after);
    }
}

/// Comments and layout do not matter: sources of the same pieces are normalized to the same text.
pub proof fn law_layout_does_not_matter(d: Dialect, a: Seq<char>, b: Seq<char>)
    requires
        pieces(d, a) == pieces(d, b),
    ensures
        normalized_in(d, a) == normalized_in(d, b),
{
    lemma_spaced_pieces(d, a, 0, Seq::empty());
    lemma_spaced_pieces(d, b, 0, Seq::empty());
}

// ── Imports ─────────────────────────────────────────────────────────────────

proof fn lemma_sorted_unique(a: Seq<Seq<char>>, b: Seq<Seq<char>>)
    requires
        ascending(a),
        ascending(b),
        a.to_multiset() == b.to_multiset(),
    ensures
        a == b,
    decreases a.len(),
{
    broadcast use vstd::seq_lib::group_to_multiset_ensures;

    a.to_multiset_ensures();
    b.to_multiset_ensures();
    if a.len() > 0 {
        let (x, y) = (a.last(), b.last());
        assert(a.contains(x) && b.contains(y));
        assert(b.to_multiset().count(x) > 0);
        assert(a.to_multiset().count(y) > 0);
        assert(b.contains(x) && a.contains(y));
        let i = choose|i: int| 0 <= i < a.len() && a[i] == y;
        let j = choose|j: int| 0 <= j < b.len() && b[j] == x;
        if i < a.len() - 1 && j < b.len() - 1 {
            assert(text_le(a[i], a[a.len() - 1]));
            assert(text_le(b[j], b[b.len() - 1]));
            lemma_text_le_antisym(x, y);
        }
        let (s, t) = (a.drop_last(), b.drop_last());
        assert(a =~= s.push(x));
        assert(b =~= t.push(x));
        assert(s.to_multiset() =~= a.to_multiset().remove(x));
        assert(t.to_multiset() =~= b.to_multiset().remove(x));
        assert forall|i: int, j: int| 0 <= i < j < s.len() implies text_le(
            #[trigger] s[i],
            #[trigger] s[j],
        ) by {
            assert(s[i] == a[i] && s[j] == a[j]);
        }
        assert forall|i: int, j: int| 0 <= i < j < t.len() implies text_le(
            #[trigger] t[i],
            #[trigger] t[j],
        ) by {
            assert(t[i] == b[i] && t[j] == b[j]);
        }
        lemma_sorted_unique(s, t);
    } else {
        assert(a =~= b);
    }
}

/// The order of top-level imports does not matter: files that hold the same imports and the same
/// rest, comments apart, are normalized to the same text.
pub proof fn law_import_order_does_not_matter(a: Seq<char>, b: Seq<char>)
    requires
        file_parts(uncommented(a)).rest == file_parts(uncommented(b)).rest,
        file_parts(uncommented(a)).imports.to_multiset() == file_parts(
            uncommented(b),
        ).imports.to_multiset(),
    ensures
        normalized_file(a) == normalized_file(b),
{
    let (x, y) = (file_parts(uncommented(a)).imports, file_parts(uncommented(b)).imports);
    law_sorted_texts(x);
    law_sorted_texts(y);
    lemma_sorted_unique(sorted_texts(x), sorted_texts(y));
}

} // verus!
