//! Source code without comments and without the layout that means nothing.
use vstd::prelude::*;

use crate::languages::lexer::{lexeme_at_in, lexeme_in, Dialect, Lexeme};
use crate::text::{chars_of, ident_char, is_ident, is_white, string_of, trim, trimmed};

verus! {

/// Normalized text under construction: what is written, and whether white space is owed.
pub struct Spaced {
    pub out: Seq<char>,
    pub pending: bool,
}

/// Writes one character. White space in a literal is kept; elsewhere it is only remembered, and
/// becomes one space where it keeps two identifier characters apart.
pub open spec fn spaced_char(st: Spaced, c: char, in_literal: bool) -> Spaced {
    if is_white(c) {
        if in_literal {
            Spaced { out: st.out.push(c), pending: st.pending }
        } else {
            Spaced { out: st.out, pending: true }
        }
    } else if st.pending && !in_literal && is_ident(c) && st.out.len() > 0 && is_ident(
        st.out.last(),
    ) {
        Spaced { out: st.out.push(' ').push(c), pending: false }
    } else {
        Spaced { out: st.out.push(c), pending: false }
    }
}

pub open spec fn spaced_literal(st: Spaced, text: Seq<char>) -> Spaced
    decreases text.len(),
{
    if text.len() == 0 {
        st
    } else {
        spaced_char(spaced_literal(st, text.drop_last()), text.last(), true)
    }
}

/// `st` after one lexeme that covers `text`: comments leave nothing but, where a block comment
/// ends, white space.
pub open spec fn spaced_lexeme(st: Spaced, kind: Lexeme, text: Seq<char>) -> Spaced {
    match kind {
        Lexeme::LineComment => st,
        Lexeme::OpenComment => st,
        Lexeme::BlockComment => spaced_char(st, ' ', false),
        Lexeme::Literal => spaced_literal(st, text),
        Lexeme::Plain => spaced_char(st, text[0], false),
    }
}

/// `st` after the lexemes of `s` from `i` on.
pub open spec fn spaced_from(d: Dialect, s: Seq<char>, i: int, st: Spaced) -> Spaced
    decreases s.len() - i,
{
    let (kind, end) = lexeme_in(d, s, i);
    if 0 <= i < end <= s.len() {
        spaced_from(d, s, end, spaced_lexeme(st, kind, s.subrange(i, end)))
    } else {
        st
    }
}

/// The source without comments, and without the white space that separates nothing.
pub open spec fn normalized_in(d: Dialect, s: Seq<char>) -> Seq<char> {
    trimmed(spaced_from(d, s, 0, Spaced { out: Seq::empty(), pending: false }).out)
}

fn push_spaced(out: &mut Vec<char>, pending: bool, c: char, in_literal: bool) -> (r: bool)
    ensures
        (Spaced { out: final(out)@, pending: r }) == spaced_char(
            (Spaced { out: old(out)@, pending }),
            c,
            in_literal,
        ),
{
    if c.is_whitespace() {
        if in_literal {
            out.push(c);
            pending
        } else {
            true
        }
    } else {
        let apart: bool = pending && !in_literal && ident_char(c) && out.len() > 0 && ident_char(
            out[out.len() - 1],
        );
        if apart {
            out.push(' ');
        }
        out.push(c);
        false
    }
}

/// Normalizes source code by stripping comments and collapsing whitespace.
pub fn normalize_in(d: Dialect, code: &str) -> (r: String)
    ensures
        r@ == normalized_in(d, code@),
{
    let cs: Vec<char> = chars_of(code);
    let ghost start = Spaced { out: Seq::empty(), pending: false };
    let mut out: Vec<char> = Vec::new();
    let mut pending: bool = false;
    let mut i: usize = 0;
    while i < cs.len()
        invariant
            i <= cs@.len(),
            spaced_from(d, cs@, 0, start) == spaced_from(
                d,
                cs@,
                i as int,
                (Spaced { out: out@, pending }),
            ),
        decreases cs.len() - i,
    {
        let (kind, end) = lexeme_at_in(d, &cs, i);
        let ghost st = Spaced { out: out@, pending };
        let ghost text = cs@.subrange(i as int, end as int);
        match kind {
            Lexeme::LineComment => {},
            Lexeme::OpenComment => {},
            Lexeme::BlockComment => {
                pending = push_spaced(&mut out, pending, ' ', false);
            },
            Lexeme::Plain => {
                pending = push_spaced(&mut out, pending, cs[i], false);
            },
            Lexeme::Literal => {
                let mut k: usize = i;
                while k < end
                    invariant
                        i <= k <= end <= cs@.len(),
                        (Spaced { out: out@, pending }) == spaced_literal(
                            st,
                            cs@.subrange(i as int, k as int),
                        ),
                    decreases end - k,
                {
                    assert(cs@.subrange(i as int, k + 1).drop_last() =~= cs@.subrange(
                        i as int,
                        k as int,
                    ));
                    pending = push_spaced(&mut out, pending, cs[k], true);
                    k += 1;
                }
            },
        }
        assert((Spaced { out: out@, pending }) == spaced_lexeme(st, kind, text));
        i = end;
    }
    trim(string_of(&out).as_str())
}

} // verus!
