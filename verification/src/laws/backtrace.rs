//! How the lines of a backtrace are read.
use vstd::prelude::*;

use crate::ir::StackFrameView;
use crate::log_graph::{
    closed_after, frame_header, frame_location, frame_module, frame_path, frames_after, kept_path,
    under_root,
};
use crate::log_resolve::{external, is_disambiguator, simple_name_of, undisambiguated};
use crate::policy::Redactor;
use crate::text::{
    after_last, all_digits, before_first, find, last_from, lemma_find_from, number_of, occurs_at,
    replaced, split_first, split_last, split_last_from, starts, trimmed, without_leading,
};

verus! {

// ── Texts ───────────────────────────────────────────────────────────────────

/// The character is nowhere in the text.
pub open spec fn is_free_of(s: Seq<char>, c: char) -> bool {
    forall|i: int| 0 <= i < s.len() ==> #[trigger] s[i] != c
}

proof fn lemma_occurs(s: Seq<char>, p: Seq<char>, i: int)
    requires
        occurs_at(s, p, i),
        p.len() > 0,
    ensures
        forall|k: int| 0 <= k < p.len() ==> s[i + k] == #[trigger] p[k],
{
    assert forall|k: int| 0 <= k < p.len() implies s[i + k] == #[trigger] p[k] by {
        assert(s.subrange(i, i + p.len())[k] == p[k]);
    }
}

/// A separator of one or two like characters is first found behind a front that is free of them.
pub proof fn lemma_first(front: Seq<char>, p: Seq<char>, rest: Seq<char>, c: char)
    requires
        is_free_of(front, c),
        p.len() > 0,
        forall|k: int| 0 <= k < p.len() ==> #[trigger] p[k] == c,
    ensures
        find(front + p + rest, p) == Some(front.len() as int),
        split_first(front + p + rest, p) == Some((front, rest)),
        before_first(front + p + rest, p) == front,
{
    let s = front + p + rest;
    let n = front.len() as int;
    assert(s.subrange(n, n + p.len()) =~= p);
    lemma_find_from(s, p, 0);
    assert(occurs_at(s, p, n));
    let k = find(s, p)->0;
    if k < n {
        lemma_occurs(s, p, k);
        assert(p[0] == c);
        assert(s[k] == front[k]);
    }
    assert(s.take(n) =~= front);
    assert(s.skip(n + p.len()) =~= rest);
}

proof fn lemma_not_found(s: Seq<char>, p: Seq<char>, c: char)
    requires
        is_free_of(s, c),
        p.len() > 0,
        p[0] == c,
    ensures
        find(s, p) is None,
        before_first(s, p) == s,
        split_last(s, p) is None,
        after_last(s, p) == s,
{
    lemma_find_from(s, p, 0);
    if find(s, p) is Some {
        lemma_occurs(s, p, find(s, p)->0);
    }
    lemma_no_last(s, p, c, s.len() - p.len());
}

proof fn lemma_no_last(s: Seq<char>, p: Seq<char>, c: char, i: int)
    requires
        is_free_of(s, c),
        p.len() > 0,
        p[0] == c,
    ensures
        split_last_from(s, p, i) is None,
        last_from(s, p, i) == s,
    decreases i + 1,
{
    if i >= 0 {
        if occurs_at(s, p, i) {
            lemma_occurs(s, p, i);
            assert(s[i] == c);
        }
        lemma_no_last(s, p, c, i - 1);
    }
}

/// A separator is last found in front of an end that is free of its characters.
proof fn lemma_last(front: Seq<char>, p: Seq<char>, end: Seq<char>, c: char, i: int)
    requires
        is_free_of(end, c),
        p.len() > 0,
        forall|k: int| 0 <= k < p.len() ==> #[trigger] p[k] == c,
        front.len() <= i <= front.len() + end.len(),
    ensures
        split_last_from(front + p + end, p, i) == Some((front, end)),
        last_from(front + p + end, p, i) == end,
    decreases i,
{
    let s = front + p + end;
    let n = front.len() as int;
    assert(s.take(n) =~= front);
    assert(s.skip(n + p.len()) =~= end);
    if i == n {
        assert(s.subrange(n, n + p.len()) =~= p);
    } else {
        if occurs_at(s, p, i) {
            lemma_occurs(s, p, i);
            assert(p[p.len() - 1] == c);
            assert(s[i + (p.len() - 1)] == end[i - n - 1]);
        }
        lemma_last(front, p, end, c, i - 1);
    }
}

proof fn lemma_splits(front: Seq<char>, p: Seq<char>, end: Seq<char>, c: char)
    requires
        is_free_of(end, c),
        p.len() > 0,
        forall|k: int| 0 <= k < p.len() ==> #[trigger] p[k] == c,
    ensures
        split_last(front + p + end, p) == Some((front, end)),
        after_last(front + p + end, p) == end,
{
    lemma_last(front, p, end, c, (front.len() + end.len()) as int);
}

proof fn lemma_colons()
    ensures
        ":"@.len() == 1 && ":"@[0] == ':',
        "::"@.len() == 2 && "::"@[0] == ':' && "::"@[1] == ':',
        forall|k: int| 0 <= k < ":"@.len() ==> #[trigger] ":"@[k] == ':',
        forall|k: int| 0 <= k < "::"@.len() ==> #[trigger] "::"@[k] == ':',
{
    reveal_strlit(":");
    reveal_strlit("::");
}

proof fn lemma_digits(s: Seq<char>)
    requires
        all_digits(s),
    ensures
        is_free_of(s, ':'),
{
}

// ── Lines ───────────────────────────────────────────────────────────────────

/// A number, a colon and a module are the header of a frame.
pub proof fn law_frame_header(num: Seq<char>, rest: Seq<char>)
    requires
        is_free_of(num, ':'),
        all_digits(trimmed(num)),
        number_of(trimmed(num)) <= u32::MAX,
        trimmed(rest).len() > 0,
        starts(trimmed(rest), "at "@) == false,
    ensures
        frame_header(num + ":"@ + rest) == Some((number_of(trimmed(num)) as u32, trimmed(rest))),
{
    lemma_colons();
    lemma_first(num, ":"@, rest, ':');
}

/// The place of a frame: its file, its line and its column, of which the file and the line count.
pub proof fn law_frame_location(path: Seq<char>, line: Seq<char>, column: Seq<char>)
    requires
        all_digits(line),
        number_of(line) <= u32::MAX,
        all_digits(column),
        trimmed(path + ":"@ + line + ":"@ + column) == path + ":"@ + line + ":"@ + column,
    ensures
        frame_location("at "@ + (path + ":"@ + line + ":"@ + column)) == Some(
            (path, Some(number_of(line) as u32)),
        ),
{
    let place = path + ":"@ + line + ":"@ + column;
    let all = "at "@ + place;
    assert(all.subrange(0, "at "@.len() as int) =~= "at "@);
    assert(all.skip("at "@.len() as int) =~= place);
    lemma_colons();
    lemma_digits(line);
    lemma_digits(column);
    lemma_splits(path + ":"@ + line, ":"@, column, ':');
    lemma_splits(path, ":"@, line, ':');
    assert(place.len() > 0);
}

/// A place without a column still has its line.
pub proof fn law_frame_location_without_column(path: Seq<char>, line: Seq<char>)
    requires
        all_digits(line),
        number_of(line) <= u32::MAX,
        is_free_of(path, ':'),
        trimmed(path + ":"@ + line) == path + ":"@ + line,
    ensures
        frame_location("at "@ + (path + ":"@ + line)) == Some((path, Some(number_of(line) as u32))),
{
    let place = path + ":"@ + line;
    let all = "at "@ + place;
    assert(all.subrange(0, "at "@.len() as int) =~= "at "@);
    assert(all.skip("at "@.len() as int) =~= place);
    lemma_colons();
    lemma_digits(line);
    lemma_splits(path, ":"@, line, ':');
    lemma_not_found(path, ":"@, ':');
    assert(place.len() > 0);
}

/// A place without a line is a file alone.
pub proof fn law_frame_location_without_line(path: Seq<char>)
    requires
        path.len() > 0,
        is_free_of(path, ':'),
        trimmed(path) == path,
    ensures
        frame_location("at "@ + path) == Some((path, None::<u32>)),
{
    let all = "at "@ + path;
    assert(all.subrange(0, "at "@.len() as int) =~= "at "@);
    assert(all.skip("at "@.len() as int) =~= path);
    lemma_colons();
    lemma_not_found(path, ":"@, ':');
}

/// A header and the place behind it make one frame.
pub proof fn law_header_and_place_make_a_frame<P: Redactor>(
    policy: &P,
    root: Seq<char>,
    ls: Seq<Seq<char>>,
    header: Seq<char>,
    place: Seq<char>,
    n: u32,
    module: Seq<char>,
    file: Seq<char>,
    line: Option<u32>,
)
    requires
        frame_header(trimmed(header)) == Some((n, module)),
        frame_header(trimmed(place)) is None,
        frame_location(trimmed(place)) == Some((file, line)),
        frames_after(policy, root, ls).len() < 64,
        closed_after(policy, root, ls) == false,
    ensures
        frames_after(policy, root, ls.push(header).push(place)) == frames_after(
            policy,
            root,
            ls,
        ).push(
            (StackFrameView {
                frame_index: n,
                module: frame_module(policy, module),
                file_path: frame_path(policy, root, file),
                line,
            }),
        ),
{
    let one = ls.push(header);
    let two = one.push(place);
    assert(one.drop_last() =~= ls);
    assert(two.drop_last() =~= one);
    let before = frames_after(policy, root, ls);
    assert(one.last() == header);
    assert(two.last() == place);
    let opened = StackFrameView {
        frame_index: n,
        module: frame_module(policy, module),
        file_path: None,
        line: None,
    };
    assert(frames_after(policy, root, one) == before.push(opened));
    assert(closed_after(policy, root, one) == false);
    assert(before.push(opened).last() == opened);
    assert(frames_after(policy, root, two) =~= before.push(
        StackFrameView {
            frame_index: n,
            module: frame_module(policy, module),
            file_path: frame_path(policy, root, file),
            line,
        },
    ));
}

// ── Paths ───────────────────────────────────────────────────────────────────

/// A path within the repository is kept without the root.
pub proof fn law_paths_within_the_root_are_relative(root: Seq<char>, rel: Seq<char>)
    requires
        rel.len() > 0,
        rel[0] != '/',
        is_free_of(root, '\\'),
        is_free_of(rel, '\\'),
        trimmed(root + "/"@ + rel) == root + "/"@ + rel,
    ensures
        kept_path(root, root + "/"@ + rel) == Some(rel),
{
    let path = root + "/"@ + rel;
    reveal_strlit("/");
    assert(replaced(path, '\\', '/') =~= path) by {
        assert forall|i: int| 0 <= i < path.len() implies path[i] != '\\' by {
            if i < root.len() {
                assert(path[i] == root[i]);
            } else if i > root.len() {
                assert(path[i] == rel[i - root.len() - 1]);
            }
        }
    }
    let rest = "/"@ + rel;
    assert(path.subrange(0, root.len() as int) =~= root);
    assert(path.skip(root.len() as int) =~= rest);
    assert(rest.subrange(0, 1) =~= "/"@);
    assert(rest.skip(1) =~= rel);
    assert(without_leading(rest, '/') == without_leading(rel, '/'));
    assert(under_root(root, path) == rel);
}

/// A directory whose name only begins like the root is another one.
pub proof fn law_siblings_of_the_root_are_outside(root: Seq<char>, tail: Seq<char>)
    requires
        root.len() > 0,
        root.last() != '/',
        tail.len() > 0,
        tail[0] != '/',
    ensures
        under_root(root, root + tail).len() == 0,
{
    let path = root + tail;
    reveal_strlit("/");
    assert(path.subrange(0, root.len() as int) =~= root);
    assert(path.skip(root.len() as int) =~= tail);
    if starts(tail, "/"@) {
        lemma_occurs(tail, "/"@, 0);
    }
    if occurs_at(root, "/"@, root.len() - 1) {
        lemma_occurs(root, "/"@, root.len() - 1);
        assert(root[root.len() - 1 + 0] == "/"@[0]);
    }
}

// ── Names ───────────────────────────────────────────────────────────────────

/// The crates that come with the compiler.
pub open spec fn comes_with_rust(krate: Seq<char>) -> bool {
    krate == "std"@ || krate == "core"@ || krate == "alloc"@ || krate == "proc_macro"@ || krate
        == "test"@ || krate == "backtrace"@
}

/// A frame that names no file is external exactly where its crate comes with the compiler.
pub proof fn law_external_modules(f: StackFrameView, krate: Seq<char>, rest: Seq<char>)
    requires
        is_free_of(krate, ':'),
        f.module == Some(krate + "::"@ + rest) || f.module == Some(krate),
        f.file_path is None,
    ensures
        external(f) == comes_with_rust(krate),
{
    lemma_colons();
    lemma_first(krate, "::"@, rest, ':');
    lemma_not_found(krate, "::"@, ':');
}

/// The name of a frame is the last part of its module, whatever stands in front of it.
pub proof fn law_simple_name(f: StackFrameView, front: Seq<char>, last: Seq<char>)
    requires
        f.module == Some(front + "::"@ + last) || f.module == Some(last),
        is_free_of(last, ':'),
        last.len() > 0,
        is_disambiguator(last) == false,
    ensures
        simple_name_of(f) == Some(last),
{
    lemma_colons();
    lemma_splits(front, "::"@, last, ':');
    lemma_not_found(last, "::"@, ':');
}

/// The hash that the compiler adds to a path does not count.
pub proof fn law_simple_name_without_hash(
    f: StackFrameView,
    front: Seq<char>,
    last: Seq<char>,
    hash: Seq<char>,
)
    requires
        f.module == Some(front + "::"@ + last + "::"@ + hash),
        is_free_of(last, ':'),
        last.len() > 0,
        hash.len() > 6,
        hash[0] == 'h',
        forall|i: int|
            1 <= i < hash.len() ==> ('0' <= #[trigger] hash[i] <= '9' || 'a' <= hash[i] <= 'f'),
    ensures
        simple_name_of(f) == Some(last),
{
    lemma_colons();
    assert(is_free_of(hash, ':'));
    let path = front + "::"@ + last;
    lemma_splits(path, "::"@, hash, ':');
    lemma_splits(front, "::"@, last, ':');
    assert(undisambiguated(f.module->0) == path);
}

} // verus!
