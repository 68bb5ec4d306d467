//! Debt markers in comments.
use vstd::prelude::*;

use crate::duplicate::lemma_push;
use crate::text::{
    byte_len, chars_of, is_ascii_alnum, left_trimmed, lemma_byte_len_concat, lower_ascii, lowered,
    right_trimmed, same, slice_text, strip_prefix, strip_suffix, text_bytes, trim, trim_end,
    trim_start, trimmed, without_prefix, without_suffix,
};

verus! {

/// A debt marker in the text of a comment.
#[derive(Debug, PartialEq, Eq)]
pub struct CommentMarker {
    /// One of `todo`, `fixme`, `hack` and `xxx`.
    pub category: &'static str,
    /// What follows the marker on its line.
    pub note: String,
    /// The byte at which the marker begins.
    pub token_start: usize,
    /// The byte behind the note, white space in front of it included.
    pub note_end: usize,
    /// How many line breaks come before the marker.
    pub line_offset: usize,
}

#[verifier::ext_equal]
pub struct CommentMarkerView {
    pub category: Seq<char>,
    pub note: Seq<char>,
    pub token_start: int,
    pub note_end: int,
    pub line_offset: int,
}

impl DeepView for CommentMarker {
    type V = CommentMarkerView;

    open spec fn deep_view(&self) -> CommentMarkerView {
        CommentMarkerView {
            category: self.category@,
            note: self.note@,
            token_start: self.token_start as int,
            note_end: self.note_end as int,
            line_offset: self.line_offset as int,
        }
    }
}

/// A character that belongs to a word: only whole words are markers.
pub open spec fn is_word(c: char) -> bool {
    is_ascii_alnum(c) || c == '_'
}

fn word_char(c: char) -> (r: bool)
    ensures
        r == is_word(c),
{
    ('a' <= c && c <= 'z') || ('A' <= c && c <= 'Z') || ('0' <= c && c <= '9') || c == '_'
}

/// Where the word at `i` ends.
pub open spec fn run_end(s: Seq<char>, i: int) -> int
    decreases s.len() - i,
{
    if 0 <= i < s.len() && is_word(s[i]) {
        run_end(s, i + 1)
    } else {
        i
    }
}

/// The marker that a word is, in whatever case it is written.
pub open spec fn category_of(word: Seq<char>) -> Option<Seq<char>> {
    if lowered(word) == "fixme"@ {
        Some("fixme"@)
    } else if lowered(word) == "hack"@ {
        Some("hack"@)
    } else if lowered(word) == "todo"@ {
        Some("todo"@)
    } else if lowered(word) == "xxx"@ {
        Some("xxx"@)
    } else {
        None
    }
}

fn find_category(word: &str) -> (r: Option<&'static str>)
    ensures
        (match r {
            Some(c) => category_of(word@) == Some(c@),
            None => category_of(word@) is None,
        }),
{
    let low: String = lower_ascii(word);
    let low: &str = low.as_str();
    if same(low, "fixme") {
        Some("fixme")
    } else if same(low, "hack") {
        Some("hack")
    } else if same(low, "todo") {
        Some("todo")
    } else if same(low, "xxx") {
        Some("xxx")
    } else {
        None
    }
}

/// Where the line at `i` ends.
pub open spec fn break_at(s: Seq<char>, i: int) -> int
    decreases s.len() - i,
{
    if 0 <= i < s.len() && s[i] != '\n' {
        break_at(s, i + 1)
    } else {
        i
    }
}

/// The rest of a line without the end of a block comment.
pub open spec fn unterminated(rest: Seq<char>) -> Seq<char> {
    let raw = right_trimmed(rest);
    match without_suffix(raw, "*/"@) {
        Some(x) => right_trimmed(x),
        None => right_trimmed(raw),
    }
}

/// The note in the rest of a marker's line: one separator in front of it is dropped.
pub open spec fn note_of(rest: Seq<char>) -> Seq<char> {
    let cleaned = left_trimmed(unterminated(rest));
    match (without_prefix(cleaned, ":"@), without_prefix(cleaned, "-"@)) {
        (Some(x), _) => trimmed(x),
        (None, Some(x)) => trimmed(x),
        (None, None) => trimmed(cleaned),
    }
}

/// How many line breaks are in a text.
pub open spec fn breaks(s: Seq<char>) -> nat
    decreases s.len(),
{
    if s.len() == 0 {
        0
    } else {
        breaks(s.drop_last()) + if s.last() == '\n' {
            1nat
        } else {
            0
        }
    }
}

/// The marker of a category whose word is `s[i..e]`.
pub open spec fn marker(s: Seq<char>, i: int, e: int, category: Seq<char>) -> CommentMarkerView {
    let rest = s.subrange(e, break_at(s, e));
    CommentMarkerView {
        category,
        note: note_of(rest),
        token_start: byte_len(s.take(i)) as int,
        note_end: (byte_len(s.take(e)) + byte_len(unterminated(rest))) as int,
        line_offset: breaks(s.take(i)) as int,
    }
}

/// The markers from position `i` on, one for each word that is one.
pub open spec fn markers_from(s: Seq<char>, i: int) -> Seq<CommentMarkerView>
    decreases s.len() - i,
{
    if i < 0 || i >= s.len() {
        Seq::empty()
    } else if !is_word(s[i]) {
        markers_from(s, i + 1)
    } else {
        let e = run_end(s, i);
        if e <= i || e > s.len() {
            Seq::empty()
        } else {
            match category_of(s.subrange(i, e)) {
                Some(c) => seq![marker(s, i, e, c)] + markers_from(s, e),
                None => markers_from(s, e),
            }
        }
    }
}

proof fn lemma_run_end(s: Seq<char>, i: int)
    requires
        0 <= i <= s.len(),
    ensures
        i <= run_end(s, i) <= s.len(),
        i < s.len() && is_word(s[i]) ==> i < run_end(s, i),
    decreases s.len() - i,
{
    if i < s.len() && is_word(s[i]) {
        lemma_run_end(s, i + 1);
    }
}

proof fn lemma_break_at(s: Seq<char>, i: int)
    requires
        0 <= i <= s.len(),
    ensures
        i <= break_at(s, i) <= s.len(),
    decreases s.len() - i,
{
    if i < s.len() && s[i] != '\n' {
        lemma_break_at(s, i + 1);
    }
}

fn find_run_end(cs: &[char], from: usize) -> (r: usize)
    requires
        from <= cs.len(),
    ensures
        r == run_end(cs@, from as int),
        from <= r <= cs.len(),
        from < cs.len() && is_word(cs@[from as int]) ==> from < r,
{
    let mut i: usize = from;
    proof {
        lemma_run_end(cs@, from as int);
    }
    while i < cs.len() && word_char(cs[i])
        invariant
            from <= i <= cs.len(),
            run_end(cs@, from as int) == run_end(cs@, i as int),
        decreases cs.len() - i,
    {
        i += 1;
    }
    i
}

fn find_break(cs: &[char], from: usize) -> (r: usize)
    requires
        from <= cs.len(),
    ensures
        r == break_at(cs@, from as int),
        from <= r <= cs.len(),
{
    let mut i: usize = from;
    proof {
        lemma_break_at(cs@, from as int);
    }
    while i < cs.len() && cs[i] != '\n'
        invariant
            from <= i <= cs.len(),
            break_at(cs@, from as int) == break_at(cs@, i as int),
        decreases cs.len() - i,
    {
        i += 1;
    }
    i
}

fn strip_terminator(rest: &str) -> (r: String)
    ensures
        r@ == unterminated(rest@),
{
    let raw: String = trim_end(rest);
    match strip_suffix(raw.as_str(), "*/") {
        Some(x) => trim_end(x.as_str()),
        None => trim_end(raw.as_str()),
    }
}

fn clean_note(rest: &str) -> (r: String)
    ensures
        r@ == note_of(rest@),
{
    let stripped: String = strip_terminator(rest);
    let cleaned: String = trim_start(stripped.as_str());
    match strip_prefix(cleaned.as_str(), ":") {
        Some(x) => trim(x.as_str()),
        None => match strip_prefix(cleaned.as_str(), "-") {
            Some(x) => trim(x.as_str()),
            None => trim(cleaned.as_str()),
        },
    }
}

/// The debt markers in the text of a comment, in their order. A marker is a whole word of ASCII
/// letters, digits and underscores that is, in any case, one of the four categories.
pub fn comment_debt_markers(text: &str) -> (r: Vec<CommentMarker>)
    ensures
        r.deep_view() == markers_from(text@, 0),
{
    let cs: Vec<char> = chars_of(text);
    let ghost s = text@;
    let mut out: Vec<CommentMarker> = Vec::new();
    let mut newlines: usize = 0;
    let mut i: usize = 0;
    proof {
        assert(s.take(0).len() == 0);
        assert(out.deep_view() + markers_from(s, 0) =~= markers_from(s, 0));
    }
    while i < cs.len()
        invariant
            cs@ == s,
            s == text@,
            i <= cs.len(),
            newlines <= i,
            newlines == breaks(s.take(i as int)),
            markers_from(s, 0) == out.deep_view() + markers_from(s, i as int),
        decreases cs.len() - i,
    {
        let c: char = cs[i];
        if !word_char(c) {
            proof {
                assert(s.take(i + 1).drop_last() =~= s.take(i as int));
                assert(s.take(i + 1).last() == s[i as int]);
            }
            if c == '\n' {
                newlines += 1;
            }
            i += 1;
        } else {
            let e: usize = find_run_end(cs.as_slice(), i);
            let word: String = slice_text(cs.as_slice(), i, e);
            proof {
                lemma_word_has_no_break(s, i as int, e as int);
            }
            match find_category(word.as_str()) {
                Some(category) => {
                    let end: usize = find_break(cs.as_slice(), e);
                    let rest: String = slice_text(cs.as_slice(), e, end);
                    let head: usize = text_bytes(slice_text(cs.as_slice(), 0, i).as_str());
                    let note_end: usize = bytes_through(text, &cs, e, end, rest.as_str());
                    let ghost before = out;
                    out.push(
                        CommentMarker {
                            category,
                            note: clean_note(rest.as_str()),
                            token_start: head,
                            note_end,
                            line_offset: newlines,
                        },
                    );
                    proof {
                        assert(s.subrange(0, i as int) =~= s.take(i as int));
                        lemma_push(before, out);
                        let m = marker(s, i as int, e as int, category@);
                        assert(out.deep_view() + markers_from(s, e as int) =~= before.deep_view()
                            + (seq![m] + markers_from(s, e as int)));
                    }
                },
                None => {},
            }
            i = e;
        }
    }
    assert(markers_from(s, i as int) =~= Seq::empty());
    assert(out.deep_view() + Seq::<CommentMarkerView>::empty() =~= out.deep_view());
    out
}

proof fn lemma_word_has_no_break(s: Seq<char>, i: int, e: int)
    requires
        0 <= i <= e <= s.len(),
        e == run_end(s, i),
    ensures
        breaks(s.take(e)) == breaks(s.take(i)),
    decreases e - i,
{
    if i < e {
        lemma_run_end(s, i + 1);
        lemma_word_has_no_break(s, i + 1, e);
        assert(s.take(i + 1).drop_last() =~= s.take(i));
        assert(s.take(i + 1).last() == s[i]);
    }
}

/// The byte behind the rest of a line that begins at `e`, its terminator left off.
fn bytes_through(text: &str, cs: &Vec<char>, e: usize, end: usize, rest: &str) -> (r: usize)
    requires
        cs@ == text@,
        e <= end <= cs.len(),
        rest@ == text@.subrange(e as int, end as int),
    ensures
        r == byte_len(text@.take(e as int)) + byte_len(unterminated(rest@)),
{
    let head: usize = text_bytes(slice_text(cs.as_slice(), 0, e).as_str());
    let stripped: String = strip_terminator(rest);
    let tail: usize = text_bytes(stripped.as_str());
    let whole: usize = text_bytes(text);
    proof {
        let s = text@;
        assert(s.subrange(0, e as int) =~= s.take(e as int));
        lemma_unterminated_prefix(rest@);
        let u = unterminated(rest@);
        let covered = s.take(e as int) + u;
        assert(covered =~= s.take(e + u.len()));
        lemma_bytes_of_prefix(s, e as int, u);
    }
    head + tail
}

proof fn lemma_right_trimmed_prefix(s: Seq<char>)
    ensures
        right_trimmed(s).is_prefix_of(s),
    decreases s.len(),
{
    if s.len() > 0 && right_trimmed(s) != s {
        lemma_right_trimmed_prefix(s.drop_last());
    }
}

proof fn lemma_unterminated_prefix(rest: Seq<char>)
    ensures
        unterminated(rest).is_prefix_of(rest),
{
    let raw = right_trimmed(rest);
    lemma_right_trimmed_prefix(rest);
    lemma_right_trimmed_prefix(raw);
    if let Some(x) = without_suffix(raw, "*/"@) {
        lemma_right_trimmed_prefix(x);
    }
}

proof fn lemma_bytes_of_prefix(s: Seq<char>, e: int, u: Seq<char>)
    requires
        0 <= e <= s.len(),
        u.is_prefix_of(s.skip(e)),
    ensures
        byte_len(s.take(e)) + byte_len(u) <= byte_len(s),
{
    let tail = s.skip(e + u.len());
    assert(s =~= s.take(e) + u + tail);
    lemma_byte_len_concat(s.take(e), u);
    lemma_byte_len_concat(s.take(e) + u, tail);
}

} // verus!
