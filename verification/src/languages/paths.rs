//! Paths inside a repository.
use vstd::prelude::*;

use crate::duplicate::lemma_push;
use crate::text::{replace_char, replaced, split, split_on};

verus! {

/// The parts that are not empty.
pub open spec fn filled(parts: Seq<Seq<char>>) -> Seq<Seq<char>> {
    parts.filter(|p: Seq<char>| p.len() > 0)
}

/// The segments of a path, whichever way its separators lean.
pub open spec fn segments(path: Seq<char>) -> Seq<Seq<char>> {
    filled(split_on(replaced(path, '\\', '/'), "/"@))
}

pub fn path_segments(path: &str) -> (r: Vec<String>)
    ensures
        r.deep_view() == segments(path@),
{
    proof {
        reveal_strlit("/");
    }
    let parts: Vec<String> = split(replace_char(path, '\\', '/').as_str(), "/");
    let ghost all = parts.deep_view();
    let ghost keep = |p: Seq<char>| p.len() > 0;
    let mut out: Vec<String> = Vec::new();
    let mut i: usize = 0;
    proof {
        reveal(Seq::filter);
        assert(out.deep_view() =~= all.take(0).filter(keep));
    }
    while i < parts.len()
        invariant
            i <= parts.len(),
            all == parts.deep_view(),
            keep == (|p: Seq<char>| p.len() > 0),
            out.deep_view() == all.take(i as int).filter(keep),
        decreases parts.len() - i,
    {
        proof {
            reveal(Seq::filter);
            assert(all.take(i + 1).drop_last() =~= all.take(i as int));
            assert(all.take(i + 1).last() == parts@[i as int].deep_view());
        }
        if !parts[i].as_str().is_empty() {
            let ghost before = out;
            out.push(parts[i].clone());
            proof {
                lemma_push(before, out);
            }
        }
        i += 1;
    }
    assert(all.take(parts.len() as int) =~= all);
    out
}

} // verus!
