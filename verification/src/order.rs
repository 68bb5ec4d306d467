//! Sorting by keys, and sorted sets of texts.
use vstd::prelude::*;

use crate::duplicate::{lemma_push, Duplicate};
use crate::text::{
    le, lemma_text_le_antisym, lemma_text_le_refl, lemma_text_le_total, lemma_text_le_trans, same,
    text_le,
};

verus! {

// ── Keys ────────────────────────────────────────────────────────────────────

/// One part of a sort key.
#[derive(Debug, PartialEq, Eq)]
pub enum KeyPart {
    Num(u64),
    Text(String),
}

#[verifier::ext_equal]
pub enum KeyPartView {
    Num(u64),
    Text(Seq<char>),
}

impl DeepView for KeyPart {
    type V = KeyPartView;

    open spec fn deep_view(&self) -> KeyPartView {
        match self {
            KeyPart::Num(n) => KeyPartView::Num(*n),
            KeyPart::Text(s) => KeyPartView::Text(s@),
        }
    }
}

/// Numbers in front of texts, numbers by value, texts by their characters.
pub open spec fn part_le(a: KeyPartView, b: KeyPartView) -> bool {
    match (a, b) {
        (KeyPartView::Num(x), KeyPartView::Num(y)) => x <= y,
        (KeyPartView::Num(_), KeyPartView::Text(_)) => true,
        (KeyPartView::Text(_), KeyPartView::Num(_)) => false,
        (KeyPartView::Text(x), KeyPartView::Text(y)) => text_le(x, y),
    }
}

/// Keys compare by the first part in which they differ; a prefix comes first.
pub open spec fn key_le(a: Seq<KeyPartView>, b: Seq<KeyPartView>) -> bool
    decreases a.len(),
{
    if a.len() == 0 {
        true
    } else if b.len() == 0 {
        false
    } else if a[0] == b[0] {
        key_le(a.skip(1), b.skip(1))
    } else {
        part_le(a[0], b[0])
    }
}

pub proof fn lemma_key_le_total(a: Seq<KeyPartView>, b: Seq<KeyPartView>)
    ensures
        key_le(a, b) || key_le(b, a),
    decreases a.len(),
{
    if a.len() > 0 && b.len() > 0 {
        lemma_key_le_total(a.skip(1), b.skip(1));
        match (a[0], b[0]) {
            (KeyPartView::Text(x), KeyPartView::Text(y)) => {
                lemma_text_le_total(x, y);
            },
            _ => {},
        }
    }
}

pub proof fn lemma_key_le_trans(a: Seq<KeyPartView>, b: Seq<KeyPartView>, c: Seq<KeyPartView>)
    requires
        key_le(a, b),
        key_le(b, c),
    ensures
        key_le(a, c),
    decreases a.len(),
{
    if a.len() > 0 && b.len() > 0 && c.len() > 0 {
        if a[0] == b[0] && b[0] == c[0] {
            lemma_key_le_trans(a.skip(1), b.skip(1), c.skip(1));
        } else {
            match (a[0], b[0], c[0]) {
                (KeyPartView::Text(x), KeyPartView::Text(y), KeyPartView::Text(z)) => {
                    lemma_text_le_refl(x);
                    lemma_text_le_refl(z);
                    lemma_text_le_trans(x, y, z);
                    if x == z {
                        lemma_text_le_antisym(x, y);
                    }
                },
                _ => {},
            }
        }
    }
}

fn same_part(a: &KeyPart, b: &KeyPart) -> (r: bool)
    ensures
        r == (a.deep_view() == b.deep_view()),
{
    match (a, b) {
        (KeyPart::Num(x), KeyPart::Num(y)) => *x == *y,
        (KeyPart::Text(x), KeyPart::Text(y)) => same(x.as_str(), y.as_str()),
        _ => false,
    }
}

fn part_in_order(a: &KeyPart, b: &KeyPart) -> (r: bool)
    ensures
        r == part_le(a.deep_view(), b.deep_view()),
{
    match (a, b) {
        (KeyPart::Num(x), KeyPart::Num(y)) => *x <= *y,
        (KeyPart::Num(_), KeyPart::Text(_)) => true,
        (KeyPart::Text(_), KeyPart::Num(_)) => false,
        (KeyPart::Text(x), KeyPart::Text(y)) => le(x.as_str(), y.as_str()),
    }
}

pub fn in_order(a: &Vec<KeyPart>, b: &Vec<KeyPart>) -> (r: bool)
    ensures
        r == key_le(a.deep_view(), b.deep_view()),
{
    let ghost x = a.deep_view();
    let ghost y = b.deep_view();
    let mut i: usize = 0;
    assert(x.skip(0) =~= x);
    assert(y.skip(0) =~= y);
    while i < a.len() && i < b.len() && same_part(&a[i], &b[i])
        invariant
            i <= a.len(),
            i <= b.len(),
            x == a.deep_view(),
            y == b.deep_view(),
            key_le(x, y) == key_le(x.skip(i as int), y.skip(i as int)),
        decreases a.len() - i,
    {
        assert(x.skip(i as int).skip(1) =~= x.skip(i + 1));
        assert(y.skip(i as int).skip(1) =~= y.skip(i + 1));
        assert(x.skip(i as int)[0] == a@[i as int].deep_view());
        assert(y.skip(i as int)[0] == b@[i as int].deep_view());
        i += 1;
    }
    if i == a.len() {
        return true;
    }
    if i == b.len() {
        return false;
    }
    assert(x.skip(i as int)[0] == a@[i as int].deep_view());
    assert(y.skip(i as int)[0] == b@[i as int].deep_view());
    part_in_order(&a[i], &b[i])
}

// ── Sorting ─────────────────────────────────────────────────────────────────

/// `order` with position `k` put in behind every position whose key is no greater.
pub open spec fn insert_position(
    order: Seq<int>,
    keys: Seq<Seq<KeyPartView>>,
    k: int,
) -> Seq<int>
    decreases order.len(),
{
    if order.len() == 0 {
        seq![k]
    } else if key_le(keys[order.last()], keys[k]) {
        order.push(k)
    } else {
        insert_position(order.drop_last(), keys, k).push(order.last())
    }
}

/// The first `n` positions of `keys`, by ascending key; equal keys keep their order.
pub open spec fn order_of(keys: Seq<Seq<KeyPartView>>, n: nat) -> Seq<int>
    decreases n,
{
    if n == 0 {
        Seq::empty()
    } else {
        insert_position(order_of(keys, (n - 1) as nat), keys, n - 1)
    }
}

/// `items` by ascending key, where `keys[i]` is the key of `items[i]`; equal keys keep their order.
pub open spec fn sorted_by<A>(items: Seq<A>, keys: Seq<Seq<KeyPartView>>) -> Seq<A> {
    order_of(keys, items.len()).map_values(|i: int| items[i])
}

/// The positions in `order` are below `n`, each occurs once, their keys ascend, and equal keys
/// stand in the order of their positions.
pub open spec fn is_stable_order(order: Seq<int>, keys: Seq<Seq<KeyPartView>>, n: int) -> bool {
    &&& order.len() == n
    &&& forall|i: int| 0 <= i < n ==> 0 <= #[trigger] order[i] < n
    &&& order.no_duplicates()
    &&& forall|i: int, j: int|
        0 <= i < j < n ==> key_le(keys[#[trigger] order[i]], keys[#[trigger] order[j]])
    &&& forall|i: int, j: int|
        0 <= i < j < n && key_le(keys[#[trigger] order[j]], keys[#[trigger] order[i]]) ==> order[i]
            < order[j]
}

proof fn lemma_insert_position(order: Seq<int>, keys: Seq<Seq<KeyPartView>>, k: int)
    requires
        forall|i: int| 0 <= i < order.len() ==> 0 <= #[trigger] order[i] < k,
        order.no_duplicates(),
        forall|i: int, j: int|
            0 <= i < j < order.len() ==> key_le(keys[#[trigger] order[i]], keys[#[trigger] order[j]]),
        forall|i: int, j: int|
            0 <= i < j < order.len() && key_le(
                keys[#[trigger] order[j]],
                keys[#[trigger] order[i]],
            ) ==> order[i] < order[j],
    ensures
        insert_position(order, keys, k).len() == order.len() + 1,
        forall|i: int|
            0 <= i <= order.len() ==> (#[trigger] insert_position(order, keys, k)[i] == k
                || order.contains(insert_position(order, keys, k)[i])),
        insert_position(order, keys, k).no_duplicates(),
        forall|i: int, j: int|
            0 <= i < j <= order.len() ==> key_le(
                keys[#[trigger] insert_position(order, keys, k)[i]],
                keys[#[trigger] insert_position(order, keys, k)[j]],
            ),
        forall|i: int, j: int|
            0 <= i < j <= order.len() && key_le(
                keys[#[trigger] insert_position(order, keys, k)[j]],
                keys[#[trigger] insert_position(order, keys, k)[i]],
            ) ==> insert_position(order, keys, k)[i] < insert_position(order, keys, k)[j],
    decreases order.len(),
{
    if order.len() == 0 {
    } else if key_le(keys[order.last()], keys[k]) {
        assert forall|i: int| 0 <= i < order.len() implies key_le(
            keys[#[trigger] order[i]],
            keys[k],
        ) by {
            if i < order.len() - 1 {
                lemma_key_le_trans(keys[order[i]], keys[order.last()], keys[k]);
            }
        }
    } else {
        let rest = order.drop_last();
        lemma_insert_position(rest, keys, k);
        lemma_key_le_total(keys[k], keys[order.last()]);
        let t = insert_position(rest, keys, k);
        let out = t.push(order.last());
        assert(forall|i: int| 0 <= i < rest.len() ==> rest[i] == order[i]);
        assert forall|i: int| 0 <= i < t.len() implies t[i] != order.last() && key_le(
            keys[#[trigger] t[i]],
            keys[order.last()],
        ) && (key_le(keys[order.last()], keys[t[i]]) ==> t[i] < order.last()) by {
            if t[i] != k {
                assert(rest.contains(t[i]));
                let m = choose|m: int| 0 <= m < rest.len() && rest[m] == t[i];
                assert(order[m] == t[i]);
            }
        }
        assert forall|i: int| 0 <= i <= order.len() implies (#[trigger] out[i] == k
            || order.contains(out[i])) by {
            if i < t.len() {
                if t[i] != k {
                    assert(rest.contains(t[i]));
                    let m = choose|m: int| 0 <= m < rest.len() && rest[m] == t[i];
                    assert(order[m] == t[i]);
                }
            } else {
                assert(order[order.len() - 1] == out[i]);
            }
        }
    }
}

/// Sorting is a stable permutation: every position occurs once, keys ascend, and items with equal
/// keys keep their order.
pub proof fn law_order_of(keys: Seq<Seq<KeyPartView>>, n: nat)
    ensures
        is_stable_order(order_of(keys, n), keys, n as int),
    decreases n,
{
    if n > 0 {
        law_order_of(keys, (n - 1) as nat);
        let before = order_of(keys, (n - 1) as nat);
        lemma_insert_position(before, keys, n - 1);
        let after = order_of(keys, n);
        assert forall|i: int| 0 <= i < n implies 0 <= #[trigger] after[i] < n by {
            assert(after[i] == n - 1 || before.contains(after[i]));
            if after[i] != n - 1 {
                let m = choose|m: int| 0 <= m < before.len() && before[m] == after[i];
                assert(0 <= before[m] < n - 1);
            }
        }
    }
}

pub open spec fn positions(order: Seq<usize>) -> Seq<int> {
    order.map_values(|i: usize| i as int)
}

fn insert_position_into(order: &mut Vec<usize>, keys: &Vec<Vec<KeyPart>>, k: usize)
    requires
        k < keys.len(),
        forall|i: int| 0 <= i < old(order)@.len() ==> #[trigger] old(order)@[i] < keys.len(),
    ensures
        positions(final(order)@) == insert_position(
            positions(old(order)@),
            keys.deep_view(),
            k as int,
        ),
        forall|i: int| 0 <= i < final(order)@.len() ==> #[trigger] final(order)@[i] < keys.len(),
{
    let ghost s = positions(order@);
    let ghost ks = keys.deep_view();
    let mut i: usize = order.len();
    assert(s.take(i as int) =~= s);
    assert(insert_position(s.take(i as int), ks, k as int) + s.skip(i as int) =~= insert_position(
        s,
        ks,
        k as int,
    ));
    while i > 0 && !in_order(&keys[order[i - 1]], &keys[k])
        invariant
            i <= order.len(),
            k < keys.len(),
            s == positions(order@),
            ks == keys.deep_view(),
            forall|j: int| 0 <= j < order@.len() ==> #[trigger] order@[j] < keys.len(),
            insert_position(s.take(i as int), ks, k as int) + s.skip(i as int) == insert_position(
                s,
                ks,
                k as int,
            ),
        decreases i,
    {
        proof {
            let t = s.take(i as int);
            assert(t.last() == order@[i - 1] as int);
            assert(t.drop_last() =~= s.take(i - 1));
            assert(insert_position(s.take(i - 1), ks, k as int) + s.skip(i - 1)
                =~= insert_position(t, ks, k as int) + s.skip(i as int));
        }
        i -= 1;
    }
    proof {
        let t = s.take(i as int);
        if i > 0 {
            assert(t.last() == order@[i - 1] as int);
        } else {
            assert(t.push(k as int) =~= seq![k as int]);
        }
        assert(insert_position(t, ks, k as int) =~= t.push(k as int));
        assert(insert_position(s, ks, k as int) =~= s.insert(i as int, k as int));
    }
    order.insert(i, k);
    assert(positions(order@) =~= s.insert(i as int, k as int));
}

/// Items by ascending key; equal keys keep their order.
pub fn sort_by_keys<T: Duplicate>(items: &Vec<T>, keys: &Vec<Vec<KeyPart>>) -> (r: Vec<T>)
    requires
        items.len() == keys.len(),
    ensures
        r.deep_view() == sorted_by(items.deep_view(), keys.deep_view()),
{
    let mut order: Vec<usize> = Vec::new();
    let mut k: usize = 0;
    let ghost ks = keys.deep_view();
    assert(positions(order@) =~= order_of(ks, 0));
    while k < items.len()
        invariant
            k <= items.len() == keys.len(),
            ks == keys.deep_view(),
            positions(order@) == order_of(ks, k as nat),
            forall|i: int| 0 <= i < order@.len() ==> #[trigger] order@[i] < keys.len(),
        decreases items.len() - k,
    {
        insert_position_into(&mut order, keys, k);
        k += 1;
    }
    let mut out: Vec<T> = Vec::new();
    let mut i: usize = 0;
    let ghost all = positions(order@).map_values(|i: int| items.deep_view()[i]);
    assert(out.deep_view() =~= all.take(0));
    while i < order.len()
        invariant
            i <= order.len(),
            items.len() == keys.len(),
            all == positions(order@).map_values(|i: int| items.deep_view()[i]),
            forall|i: int| 0 <= i < order@.len() ==> #[trigger] order@[i] < keys.len(),
            out.deep_view() == all.take(i as int),
        decreases order.len() - i,
    {
        let ghost before = out;
        out.push(items[order[i]].duplicate());
        proof {
            lemma_push(before, out);
            assert(all.take(i + 1) =~= all.take(i as int).push(all[i as int]));
        }
        i += 1;
    }
    assert(all.take(order.len() as int) =~= all);
    out
}

// ── Sorted sets of texts ────────────────────────────────────────────────────

/// `s`, which is sorted, with `x` in its place unless it is there already.
pub open spec fn set_insert(s: Seq<Seq<char>>, x: Seq<char>) -> Seq<Seq<char>>
    decreases s.len(),
{
    if s.len() == 0 {
        seq![x]
    } else if s.last() == x {
        s
    } else if text_le(s.last(), x) {
        s.push(x)
    } else {
        set_insert(s.drop_last(), x).push(s.last())
    }
}

/// The distinct texts of `s`, in ascending order.
pub open spec fn distinct(s: Seq<Seq<char>>) -> Seq<Seq<char>>
    decreases s.len(),
{
    if s.len() == 0 {
        s
    } else {
        set_insert(distinct(s.drop_last()), s.last())
    }
}

/// Strictly ascending.
pub open spec fn strictly_ascending(s: Seq<Seq<char>>) -> bool {
    forall|i: int, j: int|
        0 <= i < j < s.len() ==> text_le(#[trigger] s[i], #[trigger] s[j]) && s[i] != s[j]
}

proof fn lemma_set_insert(s: Seq<Seq<char>>, x: Seq<char>)
    requires
        strictly_ascending(s),
    ensures
        strictly_ascending(set_insert(s, x)),
        forall|y: Seq<char>| #[trigger] set_insert(s, x).contains(y) <==> s.contains(y) || y == x,
    decreases s.len(),
{
    if s.len() == 0 {
        assert(seq![x][0] == x);
        assert forall|y: Seq<char>| #[trigger] seq![x].contains(y) implies y == x by {}
    } else if s.last() == x {
        assert(s[s.len() - 1] == x);
    } else if text_le(s.last(), x) {
        let t = s.push(x);
        assert forall|i: int| 0 <= i < s.len() implies text_le(#[trigger] s[i], x) && s[i]
            != x by {
            if i < s.len() - 1 {
                lemma_text_le_trans(s[i], s.last(), x);
                if s[i] == x {
                    lemma_text_le_antisym(s[i], s.last());
                }
            }
        }
        assert(t[s.len() as int] == x);
        assert forall|y: Seq<char>| #[trigger] t.contains(y) <==> s.contains(y) || y == x by {
            if s.contains(y) {
                let m = choose|m: int| 0 <= m < s.len() && s[m] == y;
                assert(t[m] == y);
            }
        }
    } else {
        let rest = s.drop_last();
        lemma_set_insert(rest, x);
        lemma_text_le_total(x, s.last());
        let t = set_insert(rest, x);
        let out = t.push(s.last());
        assert(forall|i: int| 0 <= i < rest.len() ==> rest[i] == s[i]);
        assert forall|i: int| 0 <= i < t.len() implies text_le(#[trigger] t[i], s.last()) && t[i]
            != s.last() by {
            assert(t.contains(t[i]));
            if t[i] != x {
                assert(rest.contains(t[i]));
                let m = choose|m: int| 0 <= m < rest.len() && rest[m] == t[i];
                assert(s[m] == t[i]);
            }
        }
        assert forall|y: Seq<char>| #[trigger] out.contains(y) <==> s.contains(y) || y == x by {
            if out.contains(y) {
                let m = choose|m: int| 0 <= m < out.len() && out[m] == y;
                if m < t.len() {
                    assert(t.contains(y));
                    if y != x {
                        assert(rest.contains(y));
                        let q = choose|q: int| 0 <= q < rest.len() && rest[q] == y;
                        assert(s[q] == y);
                    }
                } else {
                    assert(s[s.len() - 1] == y);
                }
            }
            if s.contains(y) {
                let m = choose|m: int| 0 <= m < s.len() && s[m] == y;
                if m < rest.len() {
                    assert(rest[m] == y);
                    assert(rest.contains(y));
                    assert(t.contains(y));
                    let q = choose|q: int| 0 <= q < t.len() && t[q] == y;
                    assert(out[q] == y);
                } else {
                    assert(out[t.len() as int] == y);
                }
            }
            if y == x {
                assert(t.contains(x));
                let q = choose|q: int| 0 <= q < t.len() && t[q] == x;
                assert(out[q] == x);
            }
        }
    }
}

/// The distinct texts of a sequence are exactly its texts, each once, in ascending order.
pub proof fn law_distinct(s: Seq<Seq<char>>)
    ensures
        strictly_ascending(distinct(s)),
        forall|y: Seq<char>| #[trigger] distinct(s).contains(y) <==> s.contains(y),
    decreases s.len(),
{
    if s.len() > 0 {
        let rest = s.drop_last();
        law_distinct(rest);
        lemma_set_insert(distinct(rest), s.last());
        assert forall|y: Seq<char>| #[trigger] distinct(s).contains(y) <==> s.contains(y) by {
            if s.contains(y) {
                let m = choose|m: int| 0 <= m < s.len() && s[m] == y;
                if m < rest.len() {
                    assert(rest[m] == y);
                    assert(rest.contains(y));
                }
            }
            if rest.contains(y) {
                let m = choose|m: int| 0 <= m < rest.len() && rest[m] == y;
                assert(s[m] == y);
            }
            assert(s[s.len() - 1] == s.last());
        }
    }
}

pub fn insert_distinct(out: &mut Vec<String>, x: &str)
    ensures
        final(out).deep_view() == set_insert(old(out).deep_view(), x@),
{
    let ghost s = out.deep_view();
    let mut i: usize = out.len();
    assert(s.take(i as int) =~= s);
    assert(set_insert(s.take(i as int), x@) + s.skip(i as int) =~= set_insert(s, x@));
    while i > 0 && !le(out[i - 1].as_str(), x)
        invariant
            i <= out.len(),
            s == out.deep_view(),
            set_insert(s.take(i as int), x@) + s.skip(i as int) == set_insert(s, x@),
        decreases i,
    {
        proof {
            let t = s.take(i as int);
            assert(t.last() == s[i - 1]);
            lemma_text_le_refl(x@);
            assert(t.drop_last() =~= s.take(i - 1));
            assert(set_insert(s.take(i - 1), x@) + s.skip(i - 1) =~= set_insert(t, x@) + s.skip(
                i as int,
            ));
        }
        i -= 1;
    }
    let ghost t = s.take(i as int);
    if i > 0 && same(out[i - 1].as_str(), x) {
        proof {
            assert(t.last() == s[i - 1]);
            assert(set_insert(s, x@) =~= s);
        }
        return;
    }
    proof {
        if i > 0 {
            assert(t.last() == s[i - 1]);
        } else {
            assert(t.push(x@) =~= seq![x@]);
        }
        assert(set_insert(t, x@) =~= t.push(x@));
        assert(set_insert(s, x@) =~= s.insert(i as int, x@));
    }
    let ghost before = *out;
    out.insert(i, x.to_owned());
    assert(out.deep_view() =~= s.insert(i as int, x@));
}

/// The distinct texts of a list, in ascending order.
pub fn distinct_texts(v: &Vec<String>) -> (r: Vec<String>)
    ensures
        r.deep_view() == distinct(v.deep_view()),
{
    let ghost s = v.deep_view();
    let mut out: Vec<String> = Vec::new();
    let mut i: usize = 0;
    assert(out.deep_view() =~= distinct(s.take(0)));
    while i < v.len()
        invariant
            i <= v.len(),
            s == v.deep_view(),
            out.deep_view() == distinct(s.take(i as int)),
        decreases v.len() - i,
    {
        proof {
            assert(s.take(i + 1).drop_last() =~= s.take(i as int));
            assert(s.take(i + 1).last() == v@[i as int]@);
        }
        insert_distinct(&mut out, v[i].as_str());
        i += 1;
    }
    assert(s.take(v.len() as int) =~= s);
    out
}

/// Sorting keeps the number of items.
pub proof fn lemma_sorted_len<A>(items: Seq<A>, keys: Seq<Seq<KeyPartView>>)
    ensures
        sorted_by(items, keys).len() == items.len(),
{
    law_order_of(keys, items.len());
}

/// How often a key occurs.
pub open spec fn occurrences(keys: Seq<Seq<char>>, k: Seq<char>) -> nat
    decreases keys.len(),
{
    if keys.len() == 0 {
        0
    } else {
        occurrences(keys.drop_last(), k) + if keys.last() == k {
            1nat
        } else {
            0
        }
    }
}

pub fn count_text(keys: &Vec<String>, k: &str) -> (n: usize)
    ensures
        n == occurrences(keys.deep_view(), k@),
{
    let ghost all = keys.deep_view();
    let mut n: usize = 0;
    let mut i: usize = 0;
    while i < keys.len()
        invariant
            i <= keys.len(),
            n <= i,
            all == keys.deep_view(),
            n == occurrences(all.take(i as int), k@),
        decreases keys.len() - i,
    {
        proof {
            assert(all.take(i + 1).drop_last() =~= all.take(i as int));
            assert(all.take(i + 1).last() == keys@[i as int].deep_view());
        }
        if same(keys[i].as_str(), k) {
            n += 1;
        }
        i += 1;
    }
    assert(all.take(keys.len() as int) =~= all);
    n
}

/// How often the keys occur, all together.
pub open spec fn occurrences_of(keys: Seq<Seq<char>>, s: Seq<Seq<char>>) -> nat
    decreases keys.len(),
{
    if keys.len() == 0 {
        0
    } else {
        occurrences_of(keys.drop_last(), s) + occurrences(s, keys.last())
    }
}

proof fn lemma_occurrences_push(keys: Seq<Seq<char>>, s: Seq<Seq<char>>, x: Seq<char>)
    requires
        keys.no_duplicates(),
    ensures
        occurrences_of(keys, s.push(x)) == occurrences_of(keys, s) + if keys.contains(x) {
            1nat
        } else {
            0
        },
    decreases keys.len(),
{
    if keys.len() > 0 {
        let rest = keys.drop_last();
        lemma_occurrences_push(rest, s, x);
        assert(s.push(x).drop_last() =~= s);
        assert(s.push(x).last() == x);
        if keys.last() == x {
            assert(keys.contains(x));
            if rest.contains(x) {
                let i = choose|i: int| 0 <= i < rest.len() && rest[i] == x;
                assert(keys[i] == keys[keys.len() - 1]);
            }
        } else if keys.contains(x) {
            let i = choose|i: int| 0 <= i < keys.len() && keys[i] == x;
            assert(rest[i] == x);
        } else if rest.contains(x) {
            let i = choose|i: int| 0 <= i < rest.len() && rest[i] == x;
            assert(keys[i] == x);
        }
    }
}

proof fn lemma_occurrences_absent(s: Seq<Seq<char>>, x: Seq<char>)
    requires
        !s.contains(x),
    ensures
        occurrences(s, x) == 0,
    decreases s.len(),
{
    if s.len() > 0 {
        assert(s.contains(s[s.len() - 1]));
        assert forall|y: Seq<char>| s.drop_last().contains(y) implies s.contains(y) by {
            let i = choose|i: int| 0 <= i < s.drop_last().len() && s.drop_last()[i] == y;
            assert(s[i] == y);
        }
        lemma_occurrences_absent(s.drop_last(), x);
    }
}

proof fn lemma_set_insert_sum(keys: Seq<Seq<char>>, x: Seq<char>, s: Seq<Seq<char>>)
    requires
        strictly_ascending(keys),
    ensures
        occurrences_of(set_insert(keys, x), s) == occurrences_of(keys, s) + if keys.contains(x) {
            0nat
        } else {
            occurrences(s, x)
        },
    decreases keys.len(),
{
    if keys.len() > 0 {
        let rest = keys.drop_last();
        let last = keys.last();
        let put = set_insert(keys, x);
        assert(strictly_ascending(rest)) by {
            assert forall|i: int, j: int| 0 <= i < j < rest.len() implies text_le(
                #[trigger] rest[i],
                #[trigger] rest[j],
            ) && rest[i] != rest[j] by {
                assert(rest[i] == keys[i] && rest[j] == keys[j]);
            }
        }
        if last == x {
            assert(keys.contains(keys[keys.len() - 1]));
        } else if text_le(last, x) {
            assert(keys.push(x).drop_last() =~= keys);
            assert(occurrences_of(keys.push(x), s) == occurrences_of(keys, s) + occurrences(s, x));
            if keys.contains(x) {
                let i = choose|i: int| 0 <= i < keys.len() && keys[i] == x;
                assert(i < keys.len() - 1);
                assert(text_le(keys[i], keys[keys.len() - 1]));
                lemma_text_le_antisym(last, x);
            }
        } else {
            lemma_set_insert_sum(rest, x, s);
            assert(put =~= set_insert(rest, x).push(last));
            assert(set_insert(rest, x).push(last).drop_last() =~= set_insert(rest, x));
            assert(occurrences_of(put, s) == occurrences_of(set_insert(rest, x), s) + occurrences(
                s,
                last,
            ));
            if rest.contains(x) {
                let i = choose|i: int| 0 <= i < rest.len() && rest[i] == x;
                assert(keys[i] == x);
            }
            if keys.contains(x) {
                let i = choose|i: int| 0 <= i < keys.len() && keys[i] == x;
                assert(rest[i] == x);
            }
        }
    } else {
        assert(set_insert(keys, x) =~= seq![x]);
        assert(seq![x].drop_last() =~= Seq::<Seq<char>>::empty());
        assert(occurrences_of(seq![x].drop_last(), s) == 0);
        assert(occurrences_of(seq![x], s) == occurrences(s, x));
    }
}

/// Every text counts once: how often the distinct texts of a sequence occur adds up to its length.
pub proof fn law_occurrences_add_up(s: Seq<Seq<char>>)
    ensures
        occurrences_of(distinct(s), s) == s.len(),
    decreases s.len(),
{
    if s.len() > 0 {
        let rest = s.drop_last();
        let x = s.last();
        let d = distinct(rest);
        law_occurrences_add_up(rest);
        law_distinct(rest);
        assert(s =~= rest.push(x));
        assert(d.no_duplicates()) by {
            assert forall|i: int, j: int| 0 <= i < d.len() && 0 <= j < d.len() && i != j implies d[i]
                != d[j] by {
                if i < j {
                    assert(text_le(d[i], d[j]) && d[i] != d[j]);
                } else {
                    assert(text_le(d[j], d[i]) && d[j] != d[i]);
                }
            }
        }
        lemma_occurrences_push(d, rest, x);
        lemma_set_insert_sum(d, x, s);
        if !d.contains(x) {
            lemma_occurrences_absent(rest, x);
        }
    }
}

/// Sorting keeps every item.
pub proof fn law_sorted_by_members<A>(items: Seq<A>, keys: Seq<Seq<KeyPartView>>)
    ensures
        sorted_by(items, keys).len() == items.len(),
        forall|x: A| #[trigger] sorted_by(items, keys).contains(x) <==> items.contains(x),
{
    let n = items.len() as int;
    let order = order_of(keys, items.len());
    let out = sorted_by(items, keys);
    law_order_of(keys, items.len());
    assert forall|x: A| #[trigger] out.contains(x) <==> items.contains(x) by {
        if out.contains(x) {
            let i = choose|i: int| 0 <= i < out.len() && out[i] == x;
            assert(0 <= order[i] < n);
            assert(items[order[i]] == x);
        }
        if items.contains(x) {
            let j = choose|j: int| 0 <= j < items.len() && items[j] == x;
            lemma_every_position(order, n, j);
            let i = choose|i: int| 0 <= i < order.len() && order[i] == j;
            assert(out[i] == x);
        }
    }
}

proof fn lemma_every_position(order: Seq<int>, n: int, j: int)
    requires
        order.len() == n,
        forall|i: int| 0 <= i < n ==> 0 <= #[trigger] order[i] < n,
        order.no_duplicates(),
        0 <= j < n,
    ensures
        order.contains(j),
{
    let all = vstd::set_lib::set_int_range(0, n);
    let seen = order.to_set();
    vstd::set_lib::lemma_int_range(0, n);
    order.unique_seq_to_set();
    assert(seen.subset_of(all)) by {
        assert forall|x: int| seen.contains(x) implies all.contains(x) by {
            let i = choose|i: int| 0 <= i < order.len() && order[i] == x;
            assert(0 <= order[i] < n);
        }
    }
    vstd::set_lib::lemma_subset_equality(seen, all);
    assert(all.contains(j));
    assert(seen.contains(j));
}

proof fn lemma_key_le_antisym(a: Seq<KeyPartView>, b: Seq<KeyPartView>)
    requires
        key_le(a, b),
        key_le(b, a),
    ensures
        a == b,
    decreases a.len(),
{
    if a.len() > 0 {
        match (a[0], b[0]) {
            (KeyPartView::Text(x), KeyPartView::Text(y)) => {
                if x != y {
                    lemma_text_le_antisym(x, y);
                }
            },
            _ => {},
        }
        lemma_key_le_antisym(a.skip(1), b.skip(1));
        assert(a =~= seq![a[0]] + a.skip(1));
        assert(b =~= seq![b[0]] + b.skip(1));
    } else {
        assert(a =~= b);
    }
}

/// The keys of `s` ascend and no two are equal.
pub open spec fn strict_by<A>(s: Seq<A>, key: spec_fn(A) -> Seq<KeyPartView>) -> bool {
    forall|i: int, j: int|
        0 <= i < j < s.len() ==> key_le(key(#[trigger] s[i]), key(#[trigger] s[j])) && key(s[i])
            != key(s[j])
}

/// Two sequences hold the same values.
pub open spec fn same_members<A>(a: Seq<A>, b: Seq<A>) -> bool {
    forall|x: A| #[trigger] a.contains(x) <==> b.contains(x)
}

/// Sequences in strictly ascending order that hold the same values are equal.
pub proof fn lemma_strict_by_unique<A>(a: Seq<A>, b: Seq<A>, key: spec_fn(A) -> Seq<KeyPartView>)
    requires
        strict_by(a, key),
        strict_by(b, key),
        same_members(a, b),
    ensures
        a == b,
    decreases a.len(),
{
    if a.len() == 0 {
        if b.len() > 0 {
            assert(b.contains(b[0]));
            assert(a.contains(b[0]));
        }
        assert(a =~= b);
    } else {
        let x = a.last();
        assert(a.contains(x));
        assert(b.contains(x));
        let j = choose|j: int| 0 <= j < b.len() && b[j] == x;
        let y = b.last();
        assert(b.contains(y));
        assert(a.contains(y));
        let i = choose|i: int| 0 <= i < a.len() && a[i] == y;
        if i < a.len() - 1 && j < b.len() - 1 {
            assert(key_le(key(a[i]), key(a[a.len() - 1])));
            assert(key_le(key(b[j]), key(b[b.len() - 1])));
            lemma_key_le_antisym(key(x), key(y));
            assert(key(a[i]) != key(a[a.len() - 1]));
        }
        assert(x == y);
        let s = a.drop_last();
        let t = b.drop_last();
        assert forall|z: A| #[trigger] s.contains(z) <==> t.contains(z) by {
            if s.contains(z) {
                let m = choose|m: int| 0 <= m < s.len() && s[m] == z;
                assert(a[m] == z);
                assert(key(a[m]) != key(a[a.len() - 1]));
                assert(a.contains(z));
                assert(b.contains(z));
                let n = choose|n: int| 0 <= n < b.len() && b[n] == z;
                assert(t[n] == z);
            }
            if t.contains(z) {
                let n = choose|n: int| 0 <= n < t.len() && t[n] == z;
                assert(b[n] == z);
                assert(key(b[n]) != key(b[b.len() - 1]));
                assert(b.contains(z));
                assert(a.contains(z));
                let m = choose|m: int| 0 <= m < a.len() && a[m] == z;
                assert(s[m] == z);
            }
        }
        assert forall|i: int, j: int| 0 <= i < j < s.len() implies key_le(
            key(#[trigger] s[i]),
            key(#[trigger] s[j]),
        ) && key(s[i]) != key(s[j]) by {
            assert(s[i] == a[i] && s[j] == a[j]);
        }
        assert forall|i: int, j: int| 0 <= i < j < t.len() implies key_le(
            key(#[trigger] t[i]),
            key(#[trigger] t[j]),
        ) && key(t[i]) != key(t[j]) by {
            assert(t[i] == b[i] && t[j] == b[j]);
        }
        lemma_strict_by_unique(s, t, key);
        assert(a =~= s.push(x));
        assert(b =~= t.push(y));
    }
}

/// No two items have the same key.
pub open spec fn distinct_keys<A>(s: Seq<A>, key: spec_fn(A) -> Seq<KeyPartView>) -> bool {
    forall|i: int, j: int|
        0 <= i < s.len() && 0 <= j < s.len() && i != j ==> key(#[trigger] s[i]) != key(
            #[trigger] s[j],
        )
}

/// What sorting by distinct keys gives does not depend on the order the items came in.
pub proof fn law_sorting_forgets_order<A>(
    a: Seq<A>,
    b: Seq<A>,
    key: spec_fn(A) -> Seq<KeyPartView>,
)
    requires
        distinct_keys(a, key),
        distinct_keys(b, key),
        same_members(a, b),
    ensures
        sorted_by(a, a.map_values(key)) == sorted_by(b, b.map_values(key)),
{
    let x = sorted_by(a, a.map_values(key));
    let y = sorted_by(b, b.map_values(key));
    lemma_sorted_is_strict(a, key);
    lemma_sorted_is_strict(b, key);
    law_sorted_by_members(a, a.map_values(key));
    law_sorted_by_members(b, b.map_values(key));
    assert forall|z: A| #[trigger] x.contains(z) <==> y.contains(z) by {
        assert(a.contains(z) <==> b.contains(z));
    }
    lemma_strict_by_unique(x, y, key);
}

/// Sorting by distinct keys leaves them strictly ascending.
pub proof fn lemma_sorted_is_strict<A>(s: Seq<A>, key: spec_fn(A) -> Seq<KeyPartView>)
    requires
        distinct_keys(s, key),
    ensures
        strict_by(sorted_by(s, s.map_values(key)), key),
{
    let keys = s.map_values(key);
    let order = order_of(keys, s.len());
    let out = sorted_by(s, keys);
    law_order_of(keys, s.len());
    assert forall|i: int, j: int| 0 <= i < j < out.len() implies key_le(
        key(#[trigger] out[i]),
        key(#[trigger] out[j]),
    ) && key(out[i]) != key(out[j]) by {
        assert(0 <= order[i] < s.len() && 0 <= order[j] < s.len());
        assert(order[i] != order[j]);
        assert(out[i] == s[order[i]] && out[j] == s[order[j]]);
        assert(key_le(keys[order[i]], keys[order[j]]));
    }
}

/// The distinct texts of a sequence do not depend on its order.
pub proof fn law_distinct_forgets_order(a: Seq<Seq<char>>, b: Seq<Seq<char>>)
    requires
        same_members(a, b),
    ensures
        distinct(a) == distinct(b),
{
    let key = |t: Seq<char>| seq![KeyPartView::Text(t)];
    law_distinct(a);
    law_distinct(b);
    lemma_ascending_is_strict(distinct(a), key);
    lemma_ascending_is_strict(distinct(b), key);
    assert forall|z: Seq<char>| #[trigger] distinct(a).contains(z) <==> distinct(b).contains(z) by {
        assert(a.contains(z) <==> b.contains(z));
    }
    lemma_strict_by_unique(distinct(a), distinct(b), key);
}

proof fn lemma_ascending_is_strict(
    s: Seq<Seq<char>>,
    key: spec_fn(Seq<char>) -> Seq<KeyPartView>,
)
    requires
        strictly_ascending(s),
        forall|t: Seq<char>| #[trigger] key(t) == seq![KeyPartView::Text(t)],
    ensures
        strict_by(s, key),
{
    assert forall|i: int, j: int| 0 <= i < j < s.len() implies key_le(
        key(#[trigger] s[i]),
        key(#[trigger] s[j]),
    ) && key(s[i]) != key(s[j]) by {
        assert(key(s[i])[0] == KeyPartView::Text(s[i]));
        assert(key(s[j])[0] == KeyPartView::Text(s[j]));
        assert(text_le(s[i], s[j]) && s[i] != s[j]);
    }
}

} // verus!
