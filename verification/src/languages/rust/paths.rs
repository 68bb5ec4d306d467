//! Where a Rust file stands in its crate.
use vstd::prelude::*;

use crate::duplicate::lemma_push;
use crate::languages::paths::{path_segments, segments};
use crate::text::{same, strip_suffix, without_suffix};

verus! {

/// The segments of a path from the first `src` on, which begins a crate; all of them where there
/// is none.
pub open spec fn crate_relative(parts: Seq<Seq<char>>) -> Seq<Seq<char>> {
    match source_root(parts, 0) {
        Some(k) => parts.skip(k),
        None => parts,
    }
}

pub open spec fn source_root(parts: Seq<Seq<char>>, i: int) -> Option<int>
    decreases parts.len() - i,
{
    if i < 0 || i >= parts.len() {
        None
    } else if parts[i] == "src"@ {
        Some(i)
    } else {
        source_root(parts, i + 1)
    }
}

/// The modules that the segments of a file below its root stand for.
pub open spec fn file_modules(parts: Seq<Seq<char>>) -> Seq<Seq<char>> {
    if parts.len() == 0 {
        Seq::empty()
    } else if parts.last() == "lib.rs"@ || parts.last() == "main.rs"@ || parts.last()
        == "mod.rs"@ {
        parts.drop_last()
    } else {
        match without_suffix(parts.last(), ".rs"@) {
            Some(stem) => parts.drop_last().push(stem),
            None => parts.drop_last(),
        }
    }
}

/// The modules of a file of a crate. Below `src/bin` each binary is a crate of its own; outside
/// `src` there are none.
pub open spec fn crate_modules(parts: Seq<Seq<char>>) -> Seq<Seq<char>> {
    if parts.len() == 0 || parts[0] != "src"@ {
        Seq::empty()
    } else if parts.len() > 1 && parts[1] == "bin"@ {
        if parts.len() <= 3 {
            Seq::empty()
        } else {
            file_modules(parts.skip(3))
        }
    } else {
        file_modules(parts.skip(1))
    }
}

pub open spec fn modules_of(path: Seq<char>) -> Seq<Seq<char>> {
    crate_modules(crate_relative(segments(path)))
}

fn find_source_root(parts: &Vec<String>) -> (r: Option<usize>)
    ensures
        (match r {
            Some(k) => source_root(parts.deep_view(), 0) == Some(k as int) && k < parts.len(),
            None => source_root(parts.deep_view(), 0) is None,
        }),
{
    let ghost all = parts.deep_view();
    let mut i: usize = 0;
    while i < parts.len()
        invariant
            i <= parts.len(),
            all == parts.deep_view(),
            source_root(all, 0) == source_root(all, i as int),
        decreases parts.len() - i,
    {
        assert(all[i as int] == parts@[i as int].deep_view());
        if same(parts[i].as_str(), "src") {
            return Some(i);
        }
        i += 1;
    }
    None
}

/// The modules of the segments from `from` on.
fn modules_from(parts: &Vec<String>, from: usize) -> (r: Vec<String>)
    requires
        from <= parts.len(),
    ensures
        r.deep_view() == file_modules(parts.deep_view().skip(from as int)),
{
    let ghost all = parts.deep_view();
    let ghost tail = all.skip(from as int);
    let mut out: Vec<String> = Vec::new();
    assert(out.deep_view() =~= Seq::empty());
    let n: usize = parts.len();
    if n == from {
        return out;
    }
    let mut i: usize = from;
    assert(out.deep_view() =~= tail.take(0));
    while i < n - 1
        invariant
            from <= i < n,
            n == parts.len(),
            all == parts.deep_view(),
            tail == all.skip(from as int),
            out.deep_view() == tail.take(i - from),
        decreases n - i,
    {
        let ghost before = out;
        out.push(parts[i].clone());
        proof {
            lemma_push(before, out);
            assert(tail[i - from] == parts@[i as int].deep_view());
            assert(tail.take(i + 1 - from) =~= tail.take(i - from).push(tail[i - from]));
        }
        i += 1;
    }
    proof {
        assert(tail.take(n - 1 - from) =~= tail.drop_last());
        assert(tail.last() == parts@[n - 1].deep_view());
    }
    let last: &str = parts[n - 1].as_str();
    if !same(last, "lib.rs") && !same(last, "main.rs") && !same(last, "mod.rs") {
        if let Some(stem) = strip_suffix(last, ".rs") {
            let ghost before = out;
            out.push(stem);
            proof {
                lemma_push(before, out);
            }
        }
    }
    out
}

/// The modules of a file, from the crate root on.
pub fn file_module_path(repo_relative_path: &str) -> (r: Vec<String>)
    ensures
        r.deep_view() == modules_of(repo_relative_path@),
{
    let parts: Vec<String> = path_segments(repo_relative_path);
    let ghost all = parts.deep_view();
    let none: Vec<String> = Vec::new();
    assert(none.deep_view() =~= Seq::empty());
    match find_source_root(&parts) {
        None => {
            proof {
                if all.len() > 0 {
                    assert(all[0] == parts@[0].deep_view());
                }
            }
            none
        },
        Some(k) => {
            let n: usize = parts.len();
            let ghost rel = all.skip(k as int);
            proof {
                lemma_source_root(all, 0);
                assert(rel[0] == all[k as int]);
                assert(rel.skip(1) =~= all.skip(k + 1));
            }
            if n - k > 1 {
                proof {
                    assert(rel[1] == parts@[k + 1].deep_view());
                }
                if same(parts[k + 1].as_str(), "bin") {
                    if n - k <= 3 {
                        return none;
                    }
                    assert(rel.skip(3) =~= all.skip(k + 3));
                    return modules_from(&parts, k + 3);
                }
            }
            modules_from(&parts, k + 1)
        },
    }
}

proof fn lemma_source_root(parts: Seq<Seq<char>>, i: int)
    requires
        0 <= i,
    ensures
        (match source_root(parts, i) {
            Some(k) => i <= k < parts.len() && parts[k] == "src"@,
            None => true,
        }),
    decreases parts.len() - i,
{
    if i < parts.len() && parts[i] != "src"@ {
        lemma_source_root(parts, i + 1);
    }
}

} // verus!
