//! The names that records are given.
use vstd::prelude::*;

use crate::ir::{EdgeLabel, IdentitySource, NodeKind, RepositoryIdentityPayloadView};
use crate::languages::common::item_name;
use crate::languages::rust::extract::{enter, with_unsafe_item, with_unsafe_site, FileSourceView};
use crate::languages::rust::file::tree_findings;
use crate::languages::rust::impls::header_of;
use crate::languages::rust::items::{import_text, macro_name, without_uses};
use crate::languages::rust::tree::unsafe_item;
use crate::languages::syntax::{is_a, SyntaxNodeView};
use crate::laws::backtrace::{is_free_of, lemma_first};
use crate::laws::rust_items::{has_site, lemma_enter_function, lemma_pair_stays, recorded};
use crate::laws::rust_walk::{
    in_the_open, lemma_extends, lemma_function_extends, lemma_visit, lemma_visited,
};
use crate::policy::Redactor;
use crate::scan::{display_of, remote_path};
use crate::text::{collapsed, starts, trimmed, without_trailing};

verus! {

/// An import is named after its path.
pub proof fn law_import_name(path: Seq<char>)
    requires
        path.len() > 0,
        path.last() != ';',
        trimmed(path) == path,
        trimmed("use "@ + path + ";"@) == "use "@ + path + ";"@,
        trimmed(" "@ + path + ";"@) == path + ";"@,
    ensures
        import_text("use "@ + path + ";"@) == path,
{
    let text = "use "@ + path + ";"@;
    let rest = " "@ + path + ";"@;
    reveal_strlit("use ");
    reveal_strlit("use");
    reveal_strlit(" ");
    reveal_strlit(";");
    assert(text.subrange(0, 3) =~= "use"@);
    assert(text.skip(3) =~= rest);
    if starts(rest, "use"@) {
        assert(rest.subrange(0, 3)[0] == "use"@[0]);
        assert(rest[0] == ' ');
    }
    assert(without_uses(rest) == rest);
    assert(without_uses(text) == rest);
    let end = path + ";"@;
    assert(end.last() == ';');
    assert(end.drop_last() =~= path);
    assert(without_trailing(end, ';') == without_trailing(path, ';'));
    assert(without_trailing(path, ';') == path);
}

/// A macro that is called is named after what stands in front of its exclamation mark.
pub proof fn law_macro_name(name: Seq<char>, rest: Seq<char>)
    requires
        is_free_of(name, '!'),
        name.len() > 0,
        name.last() != ';',
        trimmed(name) == name,
        trimmed(name + "!"@ + rest) == name + "!"@ + rest,
    ensures
        macro_name(name + "!"@ + rest) == name + "!"@,
{
    reveal_strlit("!");
    lemma_first(name, "!"@, rest, '!');
    assert(without_trailing(name, ';') == name);
}

/// The header of an impl is what stands in front of its body, on one line.
pub proof fn law_impl_header(front: Seq<char>, rest: Seq<char>)
    requires
        is_free_of(front, '{'),
    ensures
        header_of(front + "{"@ + rest) == collapsed(front),
{
    reveal_strlit("{");
    lemma_first(front, "{"@, rest, '{');
}

/// A repository with a remote is named after the remote's path, whatever its host.
pub proof fn law_remote_name(p: RepositoryIdentityPayloadView, host: Seq<char>, path: Seq<char>)
    requires
        p.identity_source == IdentitySource::Remote,
        p.remote_url == Some("https://"@ + (host + "/"@ + path)),
        is_free_of(host, '/'),
        path.len() > 0,
    ensures
        display_of(p) == path,
{
    let rest = host + "/"@ + path;
    let url = "https://"@ + rest;
    reveal_strlit("https://");
    reveal_strlit("/");
    assert(url.subrange(0, "https://"@.len() as int) =~= "https://"@);
    assert(url.skip("https://"@.len() as int) =~= rest);
    lemma_first(host, "/"@, path, '/');
    assert(remote_path(url) == Some(path));
}

/// A function that is declared unsafe is recorded as an unsafe site.
pub proof fn law_unsafe_functions_are_recorded<R: Redactor>(
    e: FileSourceView<R>,
    t: Seq<SyntaxNodeView>,
    j: int,
    local: Seq<char>,
)
    requires
        in_the_open(t, j),
        is_a(t, j, "function_item"@),
        item_name(t, j) == Some(local),
        unsafe_item(t, j),
    ensures
        has_site(
            tree_findings(e, t).records,
            NodeKind::UnsafeSite,
            t[j],
            EdgeLabel::Contains,
            "fn"@,
        ),
{
    let found = tree_findings(e, t);
    let (sc, out) = lemma_visited(e, t, j);
    lemma_visit(e, t, j, sc, out, found);
    lemma_enter_function(e, t, j, local, sc, out);
    let next = with_unsafe_item(e, t, j, "fn"@, out);
    lemma_function_extends(e, t, j, local, sc, next);
    lemma_extends(next, enter(e, t, j, sc, out).out, found);
    assert(next == with_unsafe_site(e, t, j, "fn"@, out));
    lemma_pair_stays(next, found);
    let k = out.records.len() as int;
    let n = next.records[k]->Node_0;
    let edge = next.records[k + 1]->Edge_0;
    assert(recorded(found.records, NodeKind::UnsafeSite, t[j], EdgeLabel::Contains, n, edge));
}

} // verus!
