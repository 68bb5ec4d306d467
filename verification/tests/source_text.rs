//! Normalization, comments, imports, markers and documentation of source code.
use egregore::languages::rust::docs::{
    doc_attribute_text, doc_comment_text, string_literal_text, unescape_string_literal,
};
use egregore::languages::rust::markers::comment_debt_markers;
use egregore::languages::rust::normalize::{parse_use_statement, strip_comments_keep_newlines};
use egregore::languages::rust::tree::{use_bound_import_paths, use_bound_names};
use egregore::ir::{EdgeLabel, Graph, GraphRecord, NodeKind};
use egregore::languages::rust::extract::FileSource;
use egregore::languages::facts::FileFacts;
use egregore::languages::rust::{extract_file_source, normalize_code, normalize_file_code};
use egregore::languages::syntax::{has_kind, parse, Grammar};
use egregore::policy::PassThrough;

fn breaks(s: &str) -> usize {
    s.chars().filter(|c| *c == '\n').count()
}

#[test]
fn layout_and_comments_do_not_matter() {
    let a = normalize_code("fn f(x: u8)  -> u8 {\n    // add\n    x + 1 /* one */\n}\n");
    let b = normalize_code("fn f(x:u8)->u8{x+1}");
    assert_eq!(a, b);
    assert_eq!(a, "fn f(x:u8)->u8{x+1}");
    assert_ne!(normalize_code("let s = \"a  b\";"), normalize_code("let s = \"a b\";"));
}

#[test]
fn stripping_comments_keeps_the_lines() {
    for s in [
        "a // one\nb /* two\nthree */ c\n",
        "\"// no comment\"\n/* open\n",
        "r#\"/* raw */\"# // x\n'\\'' /* /* nested */\n */\n",
        "",
    ] {
        assert_eq!(breaks(&strip_comments_keep_newlines(s)), breaks(s));
    }
    assert_eq!(strip_comments_keep_newlines("a /* x\n */ b // y\nc"), "a \n  b \nc");
}

#[test]
fn the_order_of_imports_does_not_matter() {
    let a = normalize_file_code("use b::B;\nuse a::A;\nfn f() {}\n");
    let b = normalize_file_code("use a::A;\n// why\nuse b::B;\n\nfn f() {}\n");
    assert_eq!(a, b);
    assert_ne!(a, normalize_file_code("use a::A;\nfn f() {}\n"));
}

#[test]
fn imports_are_found_with_their_attributes() {
    let at = |s: &str| parse_use_statement(&s.chars().collect::<Vec<_>>(), 0);
    assert_eq!(at("use a::b;"), Some(8));
    assert_eq!(at("pub(crate) use a::{b, c};"), Some(24));
    assert_eq!(at("#[cfg(test)] use a;"), Some(18));
    assert_eq!(at("used();"), None);
    assert_eq!(at("use a::b"), None);
}

#[test]
fn markers_are_whole_words() {
    let of = |s: &str| -> Vec<(String, String)> {
        comment_debt_markers(s).iter().map(|m| (m.category.to_string(), m.note.clone())).collect()
    };
    assert_eq!(
        of("// TODO: first\n// Fixme - second"),
        vec![
            ("todo".to_owned(), "first".to_owned()),
            ("fixme".to_owned(), "second".to_owned())
        ]
    );
    assert!(of("// TODOS and xTODO and todo_list").is_empty());
    assert_eq!(of("/* hack */"), vec![("hack".to_owned(), String::new())]);
}

#[test]
fn documentation_is_read_from_comments_and_attributes() {
    assert_eq!(doc_comment_text("/// Hello."), Some("Hello.".to_owned()));
    assert_eq!(doc_comment_text("// Hello."), None);
    assert_eq!(doc_comment_text("//// Hello."), None);
    assert_eq!(doc_attribute_text("#[doc = \"Hello.\"]"), Some("Hello.".to_owned()));
    assert_eq!(doc_attribute_text("#[inline]"), None);
}

#[test]
fn string_literals_are_decoded() {
    assert_eq!(unescape_string_literal("a\\n\\u{e9}\\x41"), "a\n\u{e9}A");
    assert_eq!(unescape_string_literal("surrogate \\u{d800}"), "surrogate \\u{d800}");
    assert_eq!(string_literal_text("\"a\\tb\""), Some("a\tb".to_owned()));
    assert_eq!(string_literal_text("r#\"a\\t\"#"), Some("a\\t".to_owned()));
    assert_eq!(string_literal_text("5"), None);
    assert_eq!(string_literal_text("\"a\" \"b\""), None);
    assert_eq!(string_literal_text("\"a\\\""), None);
    assert_eq!(string_literal_text("r\"a\" \"b\""), None);
    assert_eq!(string_literal_text("r#\"a\"x"), None);
    assert_eq!(string_literal_text("r#\"a \" b\"#"), Some("a \" b".to_owned()));
}

#[test]
fn imported_names_are_bound_to_paths() {
    let t = parse(Grammar::Rust, "use a::{self, b::C, d as e, f::*};\n").expect("a tree");
    let i = (0..t.len()).find(|i| has_kind(&t, *i, "use_declaration")).expect("a declaration");
    let names = use_bound_names(&t, i);
    let bound = use_bound_import_paths(&t, i);
    assert_eq!(names, bound.iter().map(|b| b.0.clone()).collect::<Vec<_>>());
    assert!(bound.contains(&("C".to_owned(), "a::b::C".to_owned())));
    assert!(bound.contains(&("e".to_owned(), "a::d".to_owned())));
}

#[test]
fn a_tree_starts_with_the_whole_file() {
    let t = parse(Grammar::TypeScript, "const x = 1;\n").expect("a tree");
    assert!(has_kind(&t, 0, "program"));
    assert_eq!((t[0].start_byte, t[0].end_byte), (0, 13));
    let t = parse(Grammar::Rust, "fn f() {}\n").expect("a tree");
    assert!(has_kind(&t, 0, "source_file"));
}

fn extracted(source: &str) -> (Graph, FileFacts) {
    let mut graph = Graph::new();
    let e = FileSource {
        source,
        path: "src/lib.rs",
        file_id: "file",
        repository_id: "repo",
        crate_root: "",
        redact: &PassThrough,
    };
    let x = extract_file_source(&e, &mut graph).expect("the parser takes it");
    (graph, x)
}

fn implements(g: &Graph) -> usize {
    g.records()
        .iter()
        .filter(|r| matches!(r, GraphRecord::Edge(e) if e.label == EdgeLabel::Implements))
        .count()
}

#[test]
fn a_function_in_a_block_is_no_candidate_for_calls() {
    let (g, x) = extracted("fn outer() { fn helper() {} helper(); }\n");
    assert!(x.definitions.iter().any(|d| d.simple_name == "outer"));
    assert!(!x.definitions.iter().any(|d| d.simple_name == "helper"));
    assert!(g.records().iter().any(|r| match r {
        GraphRecord::Node(n) => n.kind == NodeKind::Symbol && n.name == Some("helper".to_owned()),
        _ => false,
    }));
}

#[test]
fn impl_blocks_lead_to_what_the_file_defines() {
    assert_eq!(implements(&extracted("trait T {} struct S; impl T for S {}\n").0), 1);
    assert_eq!(implements(&extracted("struct S; impl std::fmt::Debug for S {}\n").0), 0);
    let shadowed = "trait T {} mod m { use other::T; struct S; impl T for S {} }\n";
    assert_eq!(implements(&extracted(shadowed).0), 0);
    assert_eq!(implements(&extracted("const T: u8 = 0; struct S; impl T for S {}\n").0), 0);
}

#[test]
fn every_node_names_its_place() {
    let (g, _) = extracted("// TODO: later\nmod m { fn f() { x.unwrap(); unsafe { y!(); } } }\n");
    for r in g.records() {
        if let GraphRecord::Node(n) = r {
            assert_eq!(n.repo_relative_path, Some("src/lib.rs".to_owned()));
            assert!(n.span.is_some());
            assert_eq!(n.code.content_signature.is_some(), n.kind == NodeKind::Module);
        }
    }
}

#[test]
fn imports_may_stand_in_any_order() {
    let lines = [
        "use std::fmt;",
        "#[cfg(doc = \"use x;\")] pub(crate) use a::{b, c as d};",
        "pub use r#type::*;",
    ];
    let rest = "fn f() -> char { /* none */ '\\'' }\nuse z::Z;\n";
    let file = |order: [usize; 3]| {
        let mut s = String::new();
        for k in order {
            s.push_str(lines[k]);
            s.push('\n');
        }
        normalize_file_code(&format!("{s}{rest}"))
    };
    for order in [[0, 2, 1], [1, 0, 2], [1, 2, 0], [2, 0, 1], [2, 1, 0]] {
        assert_eq!(file([0, 1, 2]), file(order));
    }
}
