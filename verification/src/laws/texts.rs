//! What taking texts apart keeps.
use vstd::prelude::*;

use crate::languages::rust::impls::simple_ident;
use crate::laws::backtrace::{is_free_of, lemma_first};
use crate::text::{
    all_digits, decimal_of, digit, digit_value, find, is_white, joined, left_trimmed,
    lemma_find_from, lines_of, lines_of_parts, number_of, right_trimmed, split_on, trimmed,
    without_cr,
};

verus! {

/// Letters, digits and underscores make an identifier.
pub proof fn law_plain_words_are_identifiers(s: Seq<char>)
    requires
        s.len() > 0,
        forall|i: int|
            0 <= i < s.len() ==> ('a' <= #[trigger] s[i] <= 'z' || 'A' <= s[i] <= 'Z' || '0' <= s[i]
                <= '9' || s[i] == '_'),
    ensures
        simple_ident(s),
{
}

/// A number is read back from its digits.
pub proof fn law_decimals_are_read_back(n: nat)
    ensures
        all_digits(decimal_of(n)),
        number_of(decimal_of(n)) == n,
    decreases n,
{
    let s = decimal_of(n);
    if n < 10 {
        assert(s.drop_last() =~= Seq::empty());
        assert(number_of(s.drop_last()) == 0);
        assert(digit_value(digit(n as int)) == n);
    } else {
        law_decimals_are_read_back(n / 10);
        let d = (n % 10) as int;
        assert(s.drop_last() =~= decimal_of(n / 10));
        assert(digit_value(digit(d)) == d);
        assert(n == (n / 10) * 10 + n % 10);
    }
}

/// Nothing but white space.
pub open spec fn all_white(s: Seq<char>) -> bool {
    forall|i: int| 0 <= i < s.len() ==> is_white(#[trigger] s[i])
}

proof fn lemma_left(s: Seq<char>) -> (a: Seq<char>)
    ensures
        all_white(a),
        s == a + left_trimmed(s),
        left_trimmed(s).len() > 0 ==> !is_white(left_trimmed(s)[0]),
    decreases s.len(),
{
    if s.len() > 0 && is_white(s[0]) {
        let rest = lemma_left(s.skip(1));
        let a = seq![s[0]] + rest;
        assert forall|i: int| 0 <= i < a.len() implies is_white(#[trigger] a[i]) by {
            if i > 0 {
                assert(a[i] == rest[i - 1]);
            }
        }
        assert(s =~= seq![s[0]] + s.skip(1));
        assert(s =~= a + left_trimmed(s));
        a
    } else {
        assert(s =~= Seq::<char>::empty() + s);
        Seq::empty()
    }
}

proof fn lemma_right(s: Seq<char>) -> (b: Seq<char>)
    ensures
        all_white(b),
        s == right_trimmed(s) + b,
        right_trimmed(s).len() > 0 ==> !is_white(right_trimmed(s).last()),
        right_trimmed(s).len() > 0 ==> right_trimmed(s)[0] == s[0],
    decreases s.len(),
{
    if s.len() > 0 && is_white(s.last()) {
        let rest = lemma_right(s.drop_last());
        let b = rest.push(s.last());
        let front = s.drop_last();
        assert(right_trimmed(s) == right_trimmed(front));
        assert(front == right_trimmed(front) + rest);
        assert(s =~= front.push(s.last()));
        assert(s =~= right_trimmed(s) + b);
        b
    } else {
        assert(s =~= s + Seq::<char>::empty());
        Seq::empty()
    }
}

/// Trimming takes white space off both ends, all of it and nothing else.
pub proof fn law_trimmed(s: Seq<char>)
    ensures
        exists|a: Seq<char>, b: Seq<char>|
            all_white(a) && all_white(b) && s == #[trigger] (a + trimmed(s) + b),
        trimmed(s).len() > 0 ==> !is_white(trimmed(s)[0]) && !is_white(trimmed(s).last()),
{
    let a = lemma_left(s);
    let b = lemma_right(left_trimmed(s));
    assert(s =~= a + trimmed(s) + b);
}

/// The parts of a text, joined again by what they were split on, are the text.
pub proof fn law_parts_join(s: Seq<char>, p: Seq<char>)
    requires
        p.len() > 0,
    ensures
        split_on(s, p).len() > 0,
        rejoined(split_on(s, p), p) == s,
    decreases s.len(),
{
    lemma_find_from(s, p, 0);
    if let Some(i) = find(s, p) {
        let rest = s.skip(i + p.len());
        law_parts_join(rest, p);
        let parts = split_on(s, p);
        assert(parts.drop_first() =~= split_on(rest, p));
        assert(s.subrange(i, i + p.len()) == p);
        assert(s =~= s.take(i) + p + rest);
    } else {
        assert(split_on(s, p) =~= seq![s]);
    }
}

/// The parts with the separator between them.
pub open spec fn rejoined(parts: Seq<Seq<char>>, p: Seq<char>) -> Seq<char>
    decreases parts.len(),
{
    if parts.len() == 0 {
        Seq::empty()
    } else if parts.len() == 1 {
        parts[0]
    } else {
        parts[0] + p + rejoined(parts.drop_first(), p)
    }
}

/// A text begins with its first line; what follows the line feed has the others.
pub proof fn law_lines(first: Seq<char>, rest: Seq<char>)
    requires
        is_free_of(first, '\n'),
    ensures
        lines_of(first + seq!['\n'] + rest) == seq![without_cr(first)] + lines_of(rest),
        first.len() > 0 ==> lines_of(first) == seq![first],
        lines_of(Seq::empty()).len() == 0,
{
    let p = seq!['\n'];
    let s = first + p + rest;
    lemma_first(first, p, rest, '\n');
    assert(s.take(first.len() as int) =~= first);
    assert(s.skip(first.len() as int + 1) =~= rest);
    law_parts_join(rest, p);
    let parts = split_on(s, p);
    let others = split_on(rest, p);
    assert(parts =~= seq![first] + others);
    assert(parts.last() == others.last());
    assert(parts.drop_last() =~= seq![first] + others.drop_last());
    assert(lines_of_parts(parts) =~= seq![without_cr(first)] + lines_of_parts(others));
    lemma_find_from(first, p, 0);
    if let Some(k) = find(first, p) {
        assert(first.subrange(k, k + 1)[0] == p[0]);
    }
    assert(split_on(first, p) =~= seq![first]);
    assert(seq![first].drop_last() =~= Seq::<Seq<char>>::empty());
    if first.len() > 0 {
        assert(lines_of(first) =~= seq![first]);
    }
    let none = Seq::<char>::empty();
    lemma_find_from(none, p, 0);
    if let Some(k) = find(none, p) {
        assert(none.subrange(k, k + 1)[0] == p[0]);
    }
    assert(split_on(none, p) =~= seq![none]);
    assert(seq![none].drop_last() =~= Seq::<Seq<char>>::empty());
}

} // verus!
