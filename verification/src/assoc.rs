//! Association lists in which a later entry hides an earlier one with the same key.
use vstd::prelude::*;

use crate::text::same;

verus! {

/// The value of the last entry with a key.
pub open spec fn lookup<V>(m: Seq<(Seq<char>, V)>, key: Seq<char>) -> Option<V>
    decreases m.len(),
{
    if m.len() == 0 {
        None
    } else if m.last().0 == key {
        Some(m.last().1)
    } else {
        lookup(m.drop_last(), key)
    }
}

/// The list with an entry, unless its key is there.
pub open spec fn put_new<V>(
    m: Seq<(Seq<char>, V)>,
    key: Seq<char>,
    value: V,
) -> Seq<(Seq<char>, V)> {
    if lookup(m, key) is Some {
        m
    } else {
        m.push((key, value))
    }
}

pub fn find_value<'a, V: DeepView>(m: &'a Vec<(String, V)>, key: &str) -> (r: Option<&'a V>)
    ensures
        r.deep_view() == lookup(m.deep_view(), key@),
{
    let ghost all = m.deep_view();
    let mut i: usize = m.len();
    assert(all.take(i as int) =~= all);
    while i > 0
        invariant
            i <= m.len(),
            all == m.deep_view(),
            lookup(all, key@) == lookup(all.take(i as int), key@),
        decreases i,
    {
        i -= 1;
        proof {
            assert(all.take(i + 1).drop_last() =~= all.take(i as int));
            assert(all.take(i + 1).last() == m@[i as int].deep_view());
        }
        if same(m[i].0.as_str(), key) {
            return Some(&m[i].1);
        }
    }
    None
}

} // verus!
