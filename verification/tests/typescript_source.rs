//! TypeScript source: module paths, normalization and test files.
use egregore::ir::Graph;
use egregore::languages::typescript::{
    extract_file_source, is_test_file, normalize_code, typescript_module_path, TsFile,
};
use egregore::policy::PassThrough;
use egregore::text::collapse_whitespace;

#[test]
fn module_path_handles_index_and_nested_modules() {
    assert_eq!(typescript_module_path("foo.ts"), vec!["foo".to_owned()]);
    assert_eq!(
        typescript_module_path("src/widget.ts"),
        vec!["src".to_owned(), "widget".to_owned()]
    );
    assert_eq!(
        typescript_module_path("src/index.ts"),
        vec!["src".to_owned()]
    );
    assert_eq!(
        typescript_module_path("src/components/Button.tsx"),
        vec![
            "src".to_owned(),
            "components".to_owned(),
            "Button".to_owned()
        ]
    );
    assert_eq!(typescript_module_path("index.ts"), Vec::<String>::new());
}

#[test]
fn module_path_strips_compound_d_ts_suffix() {
    // .d.ts should strip the whole compound suffix, not just .ts
    assert_eq!(
        typescript_module_path("src/models.d.ts"),
        vec!["src".to_owned(), "models".to_owned()]
    );
    assert_eq!(
        typescript_module_path("src/types.d.tsx"),
        vec!["src".to_owned(), "types".to_owned()]
    );
    // index.d.ts is a barrel
    assert_eq!(
        typescript_module_path("src/index.d.ts"),
        vec!["src".to_owned()]
    );
}

#[test]
fn normalize_handles_unterminated_block_comment() {
    let code = "const x = 1; /* never closed";
    let norm = normalize_code(code);
    assert!(!norm.contains("/*"), "unterminated comment leaked: {norm}");
    assert!(
        norm.contains("const x=1"),
        "code before comment mangled: {norm}"
    );
}

#[test]
fn normalize_strips_line_comments_and_collapses_whitespace() {
    let code = "function  f( a: number ):  void { // comment\n  return; }";
    let norm = normalize_code(code);
    assert!(!norm.contains("//"), "line comment not stripped: {norm}");
    assert!(!norm.contains("comment"), "comment text leaked: {norm}");
    assert!(
        norm.contains("function f("),
        "function decl mangled: {norm}"
    );
}

#[test]
fn normalize_strips_block_comments() {
    let code = "/* block */ const x = 1; /* end */";
    let norm = normalize_code(code);
    assert!(!norm.contains("/*"), "block comment not stripped: {norm}");
    assert!(norm.contains("const x=1"), "code mangled: {norm}");
}

#[test]
fn normalize_preserves_double_quoted_strings() {
    let code = r#"const s = "not // a comment";"#;
    assert!(
        normalize_code(code).contains("not // a comment"),
        "string content was stripped"
    );
}

#[test]
fn normalize_preserves_single_quoted_strings() {
    let code = "const s = 'not /* a comment */';";
    assert!(
        normalize_code(code).contains("not /* a comment */"),
        "string content was stripped"
    );
}

#[test]
fn normalize_preserves_template_literals() {
    let code = "const s = `hello // world`;";
    assert!(
        normalize_code(code).contains("hello // world"),
        "template literal content was stripped"
    );
}

#[test]
fn is_test_file_matches_jest_vitest_conventions() {
    assert!(is_test_file("src/widget.test.ts"));
    assert!(is_test_file("src/widget.spec.ts"));
    assert!(is_test_file("src/widget.test.tsx"));
    assert!(is_test_file("src/widget.spec.tsx"));
    assert!(!is_test_file("src/widget.ts"));
    assert!(!is_test_file("src/widget.tsx"));
    assert!(!is_test_file("test/widget.ts"));
}

#[test]
fn normalize_import_collapses_multiline() {
    assert_eq!(
        collapse_whitespace("import {\n  Foo,\n  Bar,\n} from 'mod'"),
        "import { Foo, Bar, } from 'mod'"
    );
}

#[test]
fn the_grammar_goes_by_the_extension() {
    let parsed = |path: &str| {
        let file = TsFile { path, file_id: "file", repository_id: "repo" };
        let mut graph = Graph::new();
        extract_file_source(&PassThrough, &file, "const a = <b>c</b>;\nclass D {}\n", &mut graph)
            .expect("the parser takes it");
        graph.records().len()
    };
    assert_eq!(parsed("a.tsx"), parsed("a.tsx/."));
    assert_eq!(parsed("a.tsx"), parsed("a.TSX"));
}
