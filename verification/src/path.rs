//! Paths with forward slashes, taken apart into components.
use vstd::prelude::*;

use crate::duplicate::lemma_push;
use crate::text::{
    find, joined, lemma_find_from, occurs_at, rsplit_once, same, split, split_last, split_on,
    starts, starts_with,
};

verus! {

/// A part of a path that stands between slashes and names something: it may be the parent.
pub open spec fn is_step(p: Seq<char>) -> bool {
    p.len() > 0 && p != "."@
}

/// What a path starts from: the root, the current directory where that is written out, or neither.
pub open spec fn path_head(path: Seq<char>) -> Seq<Seq<char>> {
    if starts(path, "/"@) {
        seq!["/"@]
    } else if path == "."@ || starts(path, "./"@) {
        seq!["."@]
    } else {
        Seq::empty()
    }
}

/// The components of a path.
pub open spec fn path_parts(path: Seq<char>) -> Seq<Seq<char>> {
    path_head(path) + split_on(path, "/"@).filter(|p: Seq<char>| is_step(p))
}

/// A component that is the name of a file or a directory.
pub open spec fn is_name(p: Seq<char>) -> bool {
    p.len() > 0 && p != "/"@ && p != "."@ && p != ".."@
}

pub fn check_name(p: &str) -> (r: bool)
    ensures
        r == is_name(p@),
{
    !p.is_empty() && !same(p, "/") && !same(p, ".") && !same(p, "..")
}

pub fn split_path(path: &str) -> (r: Vec<String>)
    ensures
        r.deep_view() == path_parts(path@),
{
    proof {
        reveal_strlit("/");
    }
    let parts: Vec<String> = split(path, "/");
    let ghost all = parts.deep_view();
    let ghost keep = |p: Seq<char>| is_step(p);
    let ghost head = path_head(path@);
    let mut out: Vec<String> = Vec::new();
    let ghost none = out;
    if starts_with(path, "/") {
        out.push("/".to_owned());
        proof {
            lemma_push(none, out);
        }
    } else if same(path, ".") || starts_with(path, "./") {
        out.push(".".to_owned());
        proof {
            lemma_push(none, out);
        }
    }
    let mut i: usize = 0;
    proof {
        reveal(Seq::filter);
        assert(out.deep_view() =~= head + all.take(0).filter(keep));
    }
    while i < parts.len()
        invariant
            i <= parts.len(),
            all == parts.deep_view(),
            keep == (|p: Seq<char>| is_step(p)),
            out.deep_view() == head + all.take(i as int).filter(keep),
        decreases parts.len() - i,
    {
        proof {
            reveal(Seq::filter);
            assert(all.take(i + 1).drop_last() =~= all.take(i as int));
            assert(all.take(i + 1).last() == parts@[i as int]@);
        }
        if !parts[i].as_str().is_empty() && !same(parts[i].as_str(), ".") {
            let ghost before = out;
            out.push(parts[i].clone());
            proof {
                lemma_push(before, out);
                assert(out.deep_view() =~= head + all.take(i + 1).filter(keep));
            }
        }
        i += 1;
    }
    assert(all.take(all.len() as int) =~= all);
    out
}

/// The components of `path` start with those of `root`.
pub open spec fn is_below(root: Seq<char>, path: Seq<char>) -> bool {
    let (r, p) = (path_parts(root), path_parts(path));
    r.len() <= p.len() && p.take(r.len() as int) == r
}

pub fn starts_with_parts(path: &Vec<String>, root: &Vec<String>) -> (r: bool)
    ensures
        r == (root.deep_view().len() <= path.deep_view().len() && path.deep_view().take(
            root.deep_view().len() as int,
        ) == root.deep_view()),
{
    let ghost pv = path.deep_view();
    let ghost rv = root.deep_view();
    if root.len() > path.len() {
        return false;
    }
    let mut i: usize = 0;
    while i < root.len()
        invariant
            i <= root.len() <= path.len(),
            pv == path.deep_view(),
            rv == root.deep_view(),
            forall|k: int| 0 <= k < i ==> pv[k] == rv[k],
        decreases root.len() - i,
    {
        assert(pv[i as int] == path@[i as int]@);
        assert(rv[i as int] == root@[i as int]@);
        if !same(path[i].as_str(), root[i].as_str()) {
            assert(pv.take(rv.len() as int)[i as int] != rv[i as int]);
            return false;
        }
        i += 1;
    }
    assert(pv.take(rv.len() as int) =~= rv);
    true
}

/// The path that components make up.
pub open spec fn path_text(parts: Seq<Seq<char>>) -> Seq<char> {
    if parts.len() > 0 && parts[0] == "/"@ {
        "/"@ + joined(parts.skip(1), "/"@)
    } else {
        joined(parts, "/"@)
    }
}

/// The last component, where it is a name.
pub open spec fn file_name(path: Seq<char>) -> Option<Seq<char>> {
    let parts = path_parts(path);
    if parts.len() > 0 && is_name(parts.last()) {
        Some(parts.last())
    } else {
        None
    }
}

pub fn find_file_name(path: &str) -> (r: Option<String>)
    ensures
        r.deep_view() == file_name(path@),
{
    let parts: Vec<String> = split_path(path);
    assert(parts.deep_view().len() == parts@.len());
    if parts.len() > 0 {
        assert(parts.deep_view().last() == parts@.last()@);
        let last: &String = &parts[parts.len() - 1];
        if check_name(last.as_str()) {
            return Some(last.clone());
        }
    }
    None
}

/// What follows the last dot of the file name. A dot in front of the name starts no extension.
pub open spec fn extension(path: Seq<char>) -> Option<Seq<char>> {
    match file_name(path) {
        Some(name) => match split_last(name, "."@) {
            Some((stem, rest)) => if stem.len() > 0 {
                Some(rest)
            } else {
                None
            },
            None => None,
        },
        None => None,
    }
}

pub fn find_extension(path: &str) -> (r: Option<String>)
    ensures
        r.deep_view() == extension(path@),
{
    match find_file_name(path) {
        Some(name) => match rsplit_once(name.as_str(), ".") {
            Some((stem, rest)) => if stem.as_str().is_empty() {
                None
            } else {
                Some(rest)
            },
            None => None,
        },
        None => None,
    }
}

// ── Relative paths ──────────────────────────────────────────────────────────

/// A name without a slash in it.
pub open spec fn plain_name(p: Seq<char>) -> bool {
    is_name(p) && !p.contains('/')
}

/// Names with a slash between each two: no slash stands in front, and no part is empty, `.` or
/// `..`.
pub open spec fn plain_relative(path: Seq<char>) -> bool {
    exists|parts: Seq<Seq<char>>|
        #![trigger joined(parts, "/"@)]
        parts.len() > 0 && (forall|i: int| 0 <= i < parts.len() ==> plain_name(#[trigger] parts[i]))
            && path == joined(parts, "/"@)
}

proof fn lemma_no_slash(s: Seq<char>)
    ensures
        forall|i: int|
            0 <= i < split_on(s, "/"@).len() ==> !(#[trigger] split_on(s, "/"@)[i]).contains('/'),
    decreases s.len(),
{
    reveal_strlit("/");
    let slash = "/"@;
    assert(slash =~= seq!['/']);
    lemma_find_from(s, slash, 0);
    let all = split_on(s, slash);
    match find(s, slash) {
        Some(k) => {
            assert(occurs_at(s, slash, k));
            let head = s.take(k);
            assert(!head.contains('/')) by {
                if head.contains('/') {
                    let j = choose|j: int| 0 <= j < head.len() && head[j] == '/';
                    assert(s.subrange(j, j + 1) =~= slash);
                    assert(occurs_at(s, slash, j));
                }
            }
            lemma_no_slash(s.skip(k + 1));
            let rest = split_on(s.skip(k + 1), slash);
            assert forall|i: int| 0 <= i < all.len() implies !(#[trigger] all[i]).contains('/') by {
                if i > 0 {
                    assert(all[i] == rest[i - 1]);
                }
            }
        },
        None => {
            if s.contains('/') {
                let j = choose|j: int| 0 <= j < s.len() && s[j] == '/';
                assert(s.subrange(j, j + 1) =~= slash);
                assert(occurs_at(s, slash, j));
            }
        },
    }
}

/// Filtering keeps only items of the sequence that pass.
pub proof fn lemma_filter_members(s: Seq<Seq<char>>, keep: spec_fn(Seq<char>) -> bool)
    ensures
        forall|i: int|
            0 <= i < s.filter(keep).len() ==> keep(#[trigger] s.filter(keep)[i]) && s.contains(
                s.filter(keep)[i],
            ),
    decreases s.len(),
{
    reveal(Seq::filter);
    if s.len() > 0 {
        let rest = s.drop_last();
        lemma_filter_members(rest, keep);
        let before = rest.filter(keep);
        let out = s.filter(keep);
        assert forall|i: int| 0 <= i < out.len() implies keep(#[trigger] out[i]) && s.contains(
            out[i],
        ) by {
            if i < before.len() {
                assert(out[i] == before[i]);
                let j = choose|j: int| 0 <= j < rest.len() && rest[j] == before[i];
                assert(s[j] == out[i]);
            } else {
                assert(s[s.len() - 1] == out[i]);
            }
        }
    }
}

/// Components that are names hold no slash.
pub proof fn lemma_names_are_plain(path: Seq<char>)
    ensures
        forall|i: int|
            0 <= i < path_parts(path).len() && is_name(#[trigger] path_parts(path)[i])
                ==> plain_name(path_parts(path)[i]),
{
    reveal_strlit("/");
    reveal_strlit(".");
    let parts = path_parts(path);
    let head = path_head(path);
    let all = split_on(path, "/"@);
    let keep = |p: Seq<char>| is_step(p);
    lemma_no_slash(path);
    lemma_filter_members(all, keep);
    assert forall|i: int| 0 <= i < parts.len() && is_name(#[trigger] parts[i]) implies plain_name(
        parts[i],
    ) by {
        if i < head.len() {
            assert(parts[i] == head[i]);
        } else {
            assert(parts[i] == all.filter(keep)[i - head.len()]);
            let j = choose|j: int| 0 <= j < all.len() && all[j] == parts[i];
            assert(!all[j].contains('/'));
        }
    }
}

proof fn lemma_joined_starts(parts: Seq<Seq<char>>, sep: Seq<char>)
    requires
        parts.len() > 0,
        parts[0].len() > 0,
    ensures
        joined(parts, sep).len() > 0,
        joined(parts, sep)[0] == parts[0][0],
    decreases parts.len(),
{
    if parts.len() > 1 {
        assert(parts.drop_last()[0] == parts[0]);
        lemma_joined_starts(parts.drop_last(), sep);
    }
}

/// A plain relative path is not empty and starts with no slash.
pub proof fn law_plain_relative(path: Seq<char>)
    requires
        plain_relative(path),
    ensures
        path.len() > 0,
        path[0] != '/',
{
    let parts = choose|parts: Seq<Seq<char>>|
        #![trigger joined(parts, "/"@)]
        parts.len() > 0 && (forall|i: int| 0 <= i < parts.len() ==> plain_name(#[trigger] parts[i]))
            && path == joined(parts, "/"@);
    assert(plain_name(parts[0]));
    lemma_joined_starts(parts, "/"@);
    assert(parts[0].contains(parts[0][0]));
}

} // verus!
