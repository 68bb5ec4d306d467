//! Binding the frames of a backtrace to symbols and files.
use egregore::ir::{
    EdgeLabel, EdgeRecord, ErrorSignaturePayload, FrameResolution, GraphRecord, LogPayload,
    NodeKind, NodeRecord, SourceSpan, StackFrame,
};
use egregore::log_resolve::{
    frame_display, is_external, resolve_frames, simple_name, unresolved_diagnostic,
    ResolveFramesResult,
};

fn frame(index: u32, module: Option<&str>, file: Option<&str>, line: Option<u32>) -> StackFrame {
    StackFrame {
        frame_index: index,
        module: module.map(str::to_owned),
        file_path: file.map(str::to_owned),
        line,
    }
}

fn symbol(id: &str, name: &str, path: &str, lines: (usize, usize)) -> GraphRecord {
    GraphRecord::node(
        id.to_owned(),
        NodeKind::Symbol,
        Some(path.to_owned()),
        Some(SourceSpan {
            start_byte: 0,
            end_byte: 10,
            start_line: lines.0,
            end_line: lines.1,
            start_column: None,
            end_column: None,
        }),
        Some(name.to_owned()),
        "symbol".to_owned(),
    )
}

fn file(id: &str, path: &str) -> GraphRecord {
    GraphRecord::node(
        id.to_owned(),
        NodeKind::File,
        Some(path.to_owned()),
        None,
        Some(path.to_owned()),
        "file".to_owned(),
    )
}

fn signature(frames: Vec<StackFrame>) -> GraphRecord {
    let mut n = NodeRecord::plain(
        "log:v1:signature".to_owned(),
        NodeKind::ErrorSignature,
        None,
        None,
        None,
        "signature".to_owned(),
    );
    n.log = Some(LogPayload::ErrorSignature(ErrorSignaturePayload {
        fingerprint_algorithm: "template-v1".to_owned(),
        template_excerpt: "boom".to_owned(),
        severity: "error".to_owned(),
        occurrence_count: 1,
        first_seen: "2026-01-01T10:00:00Z".to_owned(),
        last_seen: "2026-01-01T10:00:00Z".to_owned(),
        frames: Some(frames),
        repository_id: "r".to_owned(),
    }));
    GraphRecord::Node(n)
}

fn bindings(r: &ResolveFramesResult) -> Vec<(&EdgeRecord, FrameResolution)> {
    r.records
        .iter()
        .filter_map(|x| match x {
            GraphRecord::Edge(e) if e.label == EdgeLabel::FrameResolvesTo => {
                Some((e, e.frame_resolution.expect("how the frame was bound")))
            }
            _ => None,
        })
        .collect()
}

#[test]
fn frames_of_the_standard_library_are_external() {
    assert!(is_external(&frame(0, Some("std::panicking::begin"), None, None)));
    assert!(is_external(&frame(0, Some("core::option::expect"), None, None)));
    assert!(!is_external(&frame(0, Some("app::run"), None, None)));
}

#[test]
fn the_simple_name_is_the_last_segment() {
    assert_eq!(simple_name(&frame(0, Some("app::net::run"), None, None)), Some("run".to_owned()));
    assert_eq!(simple_name(&frame(0, None, Some("src/x.rs"), None)), None);
    let named = |module: &str| simple_name(&frame(0, Some(module), None, None));
    assert_eq!(named("a::f::h1a2b3c"), Some("f".to_owned()));
    assert_eq!(named("app::run::h0123456789abcdef"), Some("run".to_owned()));
    assert_eq!(named("app::hello"), Some("hello".to_owned()));
    assert_eq!(named("app::h"), Some("h".to_owned()));
    assert_eq!(named("app::head"), Some("head".to_owned()));
    assert_eq!(named("html::h1"), Some("h1".to_owned()));
}

#[test]
fn a_placed_frame_binds_to_the_innermost_symbol() {
    let records = vec![
        symbol("codegraph:outer", "outer", "src/a.rs", (1, 50)),
        symbol("codegraph:inner", "inner", "src/a.rs", (10, 20)),
        file("codegraph:file", "src/a.rs"),
        signature(vec![frame(0, Some("app::inner"), Some("src/a.rs"), Some(12))]),
    ];
    let r = resolve_frames(&records, None);
    let found = bindings(&r);
    assert_eq!(found.len(), 1);
    assert_eq!(found[0].0.target, "codegraph:inner");
    assert_eq!(found[0].1, FrameResolution::Resolved);
    assert_eq!(found[0].0.frame_index, Some(0));
    assert_eq!(r.totals.resolved, 1);
}

#[test]
fn a_frame_between_symbols_binds_to_its_file() {
    let records = vec![
        symbol("codegraph:inner", "inner", "src/a.rs", (10, 20)),
        file("codegraph:file", "src/a.rs"),
        signature(vec![frame(3, None, Some("src/a.rs"), Some(30))]),
    ];
    let r = resolve_frames(&records, None);
    let found = bindings(&r);
    assert_eq!(found.len(), 1);
    assert_eq!(found[0].0.target, "codegraph:file");
    assert_eq!(found[0].1, FrameResolution::PathOnly);
}

#[test]
fn a_name_that_several_symbols_have_binds_to_each() {
    let records = vec![
        symbol("codegraph:a", "run", "src/a.rs", (1, 5)),
        symbol("codegraph:b", "run", "src/b.rs", (1, 5)),
        signature(vec![frame(0, Some("app::run"), None, None)]),
    ];
    let r = resolve_frames(&records, None);
    let found = bindings(&r);
    assert_eq!(found.len(), 2);
    assert!(found.iter().all(|f| f.1 == FrameResolution::Ambiguous));
    assert_eq!(r.totals.ambiguous, 1);
    assert_eq!(r.signatures.len(), 1);
    assert_eq!(r.signatures[0].ambiguous, 1);
}

#[test]
fn an_unresolved_frame_leads_to_its_marker() {
    let lost = frame(7, Some("gone::away"), None, None);
    let marker = unresolved_diagnostic(&lost);
    let r = resolve_frames(&[signature(vec![lost])], None);
    let found = bindings(&r);
    assert_eq!(found.len(), 1);
    assert_eq!(found[0].1, FrameResolution::Unresolved);
    assert_eq!(found[0].0.target, marker.id());
    assert!(r.records.iter().any(|x| x.id() == marker.id()));
    assert_eq!(r.totals.unresolved, 1);
}

#[test]
fn external_frames_leave_no_edge() {
    let r = resolve_frames(
        &[signature(vec![frame(0, Some("std::rt::lang_start"), None, None)])],
        None,
    );
    assert!(bindings(&r).is_empty());
    assert_eq!(r.totals.external, 1);
    assert_eq!(r.totals.signatures_with_frames, 1);
}

#[test]
fn every_frame_is_counted_once() {
    let records = vec![
        symbol("codegraph:a", "run", "src/a.rs", (1, 5)),
        symbol("codegraph:b", "run", "src/b.rs", (1, 5)),
        file("codegraph:file", "src/a.rs"),
        signature(vec![
            frame(0, Some("app::run"), None, None),
            frame(1, None, Some("src/a.rs"), Some(2)),
            frame(2, None, Some("src/a.rs"), Some(9)),
            frame(3, Some("gone::away"), None, None),
            frame(4, Some("std::rt::lang_start"), None, None),
        ]),
    ];
    let t = resolve_frames(&records, None).totals;
    assert_eq!(
        (t.resolved, t.ambiguous, t.path_only, t.unresolved, t.external),
        (1, 1, 1, 1, 1)
    );
}

#[test]
fn bindings_are_cited_by_their_signature() {
    let records = vec![
        symbol("codegraph:a", "run", "src/a.rs", (1, 5)),
        signature(vec![frame(0, Some("app::run"), None, None)]),
    ];
    let r = resolve_frames(&records, Some("abc"));
    let links = r
        .records
        .iter()
        .find_map(|x| match x {
            GraphRecord::Node(n) if n.kind == NodeKind::ErrorSignature => n.evidence_links.as_ref(),
            _ => None,
        })
        .map(|l| l.len());
    assert_eq!(links, Some(bindings(&r).len()));
}

#[test]
fn frames_are_displayed_by_module_then_place() {
    let shown = |m, p, l| frame_display(&frame(4, m, p, l));
    assert_eq!(shown(Some("app::run"), Some("src/a.rs"), Some(3)), "app::run at src/a.rs:3");
    assert_eq!(shown(Some("app::run"), None, None), "app::run");
    assert_eq!(shown(None, Some("src/a.rs"), None), "src/a.rs");
    assert_eq!(shown(None, None, None), "frame#4");
}
