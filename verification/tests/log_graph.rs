//! Reading logs: severities, times, backtraces, grouping, signatures, examples and buckets.
use egregore::ir::{digest_text, log_stable_id, EdgeLabel, GraphRecord, LogPayload, NodeKind, NodeRecord};
use egregore::log_graph::{
    detect_format, floor_to_hour, group_events, is_continuation_line, is_windows_absolute, log_importer_producer,
    normalize_frame_path, normalize_newlines, parse_frame_header, parse_frame_location,
    parse_frames, parse_timestamp, plain_occurrence_of, push_occurrences, redacted_source_bytes, resolve_time, scan_log_records,
    severity_from_level, severity_from_text, source_relative_path, structured_occurrence_of,
    structured_timestamp_of, LogScan, LogScanError, Occurrence, Severity, Times,
    DEFAULT_EXEMPLAR_CAP, EXCERPT_MAX_CHARS, MAX_FRAMES, VALID_TIME_SOURCE_EVENT,
    VALID_TIME_SOURCE_INFERRED,
};
use egregore::policy::{LogPolicy, PassThrough, Redactor};
use egregore::time::Instant;

const NOW: &str = "2026-03-04T05:06:07Z";

/// Takes digits for variable parts and `hunter` for a secret.
struct Masking;

impl Redactor for Masking {
    fn redact(&self, text: &str) -> String {
        text.replace("hunter", "[redacted]")
    }
}

impl LogPolicy for Masking {
    fn normalize_template(&self, text: &str) -> String {
        text.chars().map(|c| if c.is_ascii_digit() { '#' } else { c }).collect()
    }

    fn scrub(&self, text: &str) -> String {
        text.replace("BEGIN KEY", "[key]")
    }
}

fn scan<P: LogPolicy>(policy: &P, raw: &str) -> LogScan {
    scan_log_records(policy, raw.as_bytes(), "logs/app.log", "/repo", "repo-1", NOW, false)
        .expect("a text log")
}

fn nodes(scan: &LogScan, kind: NodeKind) -> Vec<&NodeRecord> {
    scan.records
        .iter()
        .filter_map(|r| match r {
            GraphRecord::Node(n) if n.kind == kind => Some(n),
            _ => None,
        })
        .collect()
}

fn edges(scan: &LogScan, label: EdgeLabel) -> usize {
    scan.records
        .iter()
        .filter(|r| matches!(r, GraphRecord::Edge(e) if e.label == label))
        .count()
}

#[test]
fn severity_is_read_from_the_text() {
    assert_eq!(severity_from_text("thread 'main' panicked at src/a.rs:1"), Some(Severity::Fatal));
    assert_eq!(severity_from_text("FATAL: disk gone"), Some(Severity::Fatal));
    assert_eq!(severity_from_text("ERROR failed to bind"), Some(Severity::Error));
    assert_eq!(severity_from_text("WARN slow"), Some(Severity::Warn));
    assert_eq!(severity_from_text("INFO all is well"), None);
}

#[test]
fn severity_is_read_from_a_level() {
    assert_eq!(severity_from_level("ERROR"), Some(Severity::Error));
    assert_eq!(severity_from_level("warning"), Some(Severity::Warn));
    assert_eq!(severity_from_level("critical"), Some(Severity::Fatal));
    assert_eq!(severity_from_level("debug"), None);
}

#[test]
fn line_endings_become_line_feeds() {
    assert_eq!(normalize_newlines(b"a\r\nb\rc\n"), b"a\nb\nc\n".to_vec());
    assert_eq!(normalize_newlines(&normalize_newlines(b"\r\r\n\n")), normalize_newlines(b"\r\r\n\n"));
    assert_eq!(normalize_newlines(b""), Vec::<u8>::new());
}

#[test]
fn format_is_structured_only_when_every_line_is_an_object() {
    assert_eq!(detect_format("{\"a\":1}\n\n{\"b\":2}\n"), "jsonl-v1");
    assert_eq!(detect_format("{\"a\":1}\nplain\n"), "plain-v1");
    assert_eq!(detect_format("[1]\n"), "plain-v1");
    assert_eq!(detect_format(""), "plain-v1");
}

#[test]
fn timestamps_are_read_at_the_front_of_a_line() {
    assert_eq!(
        parse_timestamp("1970-01-01T01:00:00+01:00 ERROR x"),
        Some(Instant { secs: 0, nanos: 0 })
    );
    assert_eq!(
        parse_timestamp("1970-01-01 00:01:00.5 ERROR x"),
        Some(Instant { secs: 60, nanos: 500_000_000 })
    );
    assert_eq!(
        parse_timestamp("1970-01-02T00:00:00 ERROR x"),
        Some(Instant { secs: 86_400, nanos: 0 })
    );
    assert_eq!(parse_timestamp("ERROR 1970-01-01T00:00:00Z"), None);
    assert_eq!(parse_timestamp(""), None);
}

#[test]
fn hours_are_floored() {
    assert_eq!(floor_to_hour("2026-03-04T05:59:59.999Z"), "2026-03-04T05:00:00Z");
    assert_eq!(floor_to_hour("1969-12-31T23:59:59Z"), "1969-12-31T23:00:00Z");
    assert_eq!(floor_to_hour("no time"), "no time");
}

#[test]
fn a_line_without_time_takes_the_transaction_time() {
    let inferred = resolve_time(None, NOW, "2026-03-04T05:00:00Z");
    assert_eq!(inferred.valid_time, NOW);
    assert_eq!(inferred.precise_time, "2026-03-04T05:06:07.000000000Z");
    assert_eq!(inferred.bucket_start, "2026-03-04T05:00:00Z");
    assert!(!inferred.from_timestamp);
    let named = resolve_time(parse_timestamp("2026-01-01T10:20:30.25+00:00"), NOW, "unused");
    assert_eq!(named.valid_time, "2026-01-01T10:20:30Z");
    assert_eq!(named.precise_time, "2026-01-01T10:20:30.250000000Z");
    assert_eq!(named.bucket_start, "2026-01-01T10:00:00Z");
    assert!(named.from_timestamp);
}

#[test]
fn frame_lines_are_told_apart() {
    assert_eq!(parse_frame_header("12: app::run"), Some((12, "app::run".to_owned())));
    assert_eq!(parse_frame_header("12: at src/x.rs:1"), None);
    assert_eq!(parse_frame_header("x: app::run"), None);
    assert_eq!(
        parse_frame_location("at src/x.rs:10:5"),
        Some(("src/x.rs".to_owned(), Some(10)))
    );
    assert_eq!(parse_frame_location("at src/x.rs:10"), Some(("src/x.rs".to_owned(), Some(10))));
    assert_eq!(parse_frame_location("at src/x.rs"), Some(("src/x.rs".to_owned(), None)));
    assert_eq!(parse_frame_location("src/x.rs:10"), None);
}

#[test]
fn frame_paths_are_kept_relative_to_the_repository() {
    let path = |raw: &str| normalize_frame_path(&PassThrough, "/repo", raw);
    assert_eq!(path("/repo/src/a.rs"), Some("src/a.rs".to_owned()));
    assert_eq!(path("./src/a.rs"), Some("./src/a.rs".to_owned()));
    assert_eq!(path("/repo2/src/x.rs"), Some("/repo2/src/x.rs".to_owned()));
    let below = |raw: &str| normalize_frame_path(&PassThrough, "/repo/", raw);
    assert_eq!(below("/repo/src/a.rs"), Some("src/a.rs".to_owned()));
    assert!(is_windows_absolute("C:\\x"));
    assert!(!is_windows_absolute("src/x"));
}

#[test]
fn a_backtrace_yields_its_frames() {
    let text = "ERROR boom\n   0: app::inner\n             at ./src/lib.rs:10:5\n   1: app::outer\n";
    let frames = parse_frames(&PassThrough, text, "/repo");
    assert_eq!(frames.len(), 2);
    assert_eq!(frames[0].frame_index, 0);
    assert_eq!(frames[0].module, Some("app::inner".to_owned()));
    assert_eq!(frames[0].file_path, Some("./src/lib.rs".to_owned()));
    assert_eq!(frames[0].line, Some(10));
    assert_eq!(frames[1].module, Some("app::outer".to_owned()));
    assert_eq!(frames[1].file_path, None);
}

#[test]
fn frames_are_capped() {
    let mut text = String::from("ERROR deep\n");
    for i in 0..(MAX_FRAMES + 10) {
        text.push_str(&format!("  {i}: app::f{i}\n"));
    }
    let frames = parse_frames(&PassThrough, &text, "/repo");
    assert_eq!(frames.len(), MAX_FRAMES);
    assert_eq!(frames[MAX_FRAMES - 1].frame_index, 63);
}

#[test]
fn indented_lines_continue_an_event() {
    assert!(is_continuation_line("    at src/x.rs"));
    assert!(is_continuation_line("\tcaused by"));
    assert!(!is_continuation_line("ERROR next"));
}

#[test]
fn nul_bytes_and_broken_text_are_refused() {
    let refused = |raw: &[u8]| {
        scan_log_records(&PassThrough, raw, "a.log", "/repo", "r", NOW, false).unwrap_err()
    };
    assert_eq!(
        refused(b"ERROR a\0b"),
        LogScanError::UnrecognizedFormat {
            detail: "file contains NUL bytes; not a text log".to_owned()
        }
    );
    assert_eq!(
        refused(&[0x66, 0xff]),
        LogScanError::UnrecognizedFormat {
            detail: "file is not valid UTF-8: invalid utf-8 sequence of 1 bytes from index 1"
                .to_owned()
        }
    );
}

#[test]
fn a_source_describes_its_file() {
    let s = scan(&PassThrough, "INFO fine\r\nINFO still fine\r\n");
    let sources = nodes(&s, NodeKind::LogSource);
    assert_eq!(sources.len(), 1);
    assert_eq!(s.records.len(), 1);
    let hash = digest_text("INFO fine\nINFO still fine\n");
    assert_eq!(
        hash,
        blake3::hash(b"INFO fine\nINFO still fine\n").to_hex().to_string()
    );
    match &sources[0].log {
        Some(LogPayload::LogSource(p)) => {
            assert_eq!(p.source_relative_path, "logs/app.log");
            assert_eq!(p.source_format_version, "plain-v1");
            assert_eq!(p.source_artifact_hash, hash);
            assert_eq!(p.line_count, 2);
            assert_eq!(p.repository_id, "repo-1");
        }
        other => panic!("not a source: {other:?}"),
    }
    assert_eq!(
        sources[0].id,
        log_stable_id(&vec![
            "log_source".to_owned(),
            "repo-1".to_owned(),
            "logs/app.log".to_owned(),
            hash,
        ])
    );
    assert_eq!(
        sources[0].summary,
        "Log source logs/app.log (plain-v1), 2 lines"
    );
    assert_eq!(sources[0].valid_time, Some(NOW.to_owned()));
}

#[test]
fn like_errors_share_a_signature() {
    let raw = "2026-01-01T10:00:00Z ERROR request 17 failed\n\
               2026-01-01T10:30:00Z ERROR request 18 failed\n\
               2026-01-01T11:00:00Z WARN slow\n";
    let s = scan(&Masking, raw);
    let signatures = nodes(&s, NodeKind::ErrorSignature);
    assert_eq!(signatures.len(), 2);
    match &signatures[0].log {
        Some(LogPayload::ErrorSignature(p)) => {
            assert_eq!(p.occurrence_count, 2);
            assert_eq!(p.severity, "error");
            assert_eq!(p.template_excerpt, "####-##-##T##:##:##Z ERROR request ## failed");
            assert_eq!(p.first_seen, "2026-01-01T10:00:00Z");
            assert_eq!(p.last_seen, "2026-01-01T10:30:00Z");
            assert_eq!(p.frames, None);
            assert_eq!(p.fingerprint_algorithm, "template-v1");
        }
        other => panic!("not a signature: {other:?}"),
    }
    assert_eq!(signatures[0].valid_time_source, Some(VALID_TIME_SOURCE_EVENT.to_owned()));
    assert_eq!(nodes(&s, NodeKind::LogEvent).len(), 3);
    assert_eq!(edges(&s, EdgeLabel::FingerprintedAs), 3);
    assert_eq!(edges(&s, EdgeLabel::CapturedFrom), 5);
    assert_eq!(edges(&s, EdgeLabel::Aggregates), 2);
}

#[test]
fn buckets_hold_every_occurrence_once() {
    let raw = "2026-01-01T10:59:59.9Z ERROR x\n\
               2026-01-01T10:00:00.0Z ERROR x\n\
               2026-01-01T11:00:00.0Z ERROR x\n";
    let s = scan(&Masking, raw);
    let mut total = 0;
    let mut hours = Vec::new();
    for n in nodes(&s, NodeKind::LogOccurrenceBucket) {
        match &n.log {
            Some(LogPayload::LogOccurrenceBucket(p)) => {
                assert_eq!(p.occurrence_count as usize, p.occurrence_timestamps.len());
                assert_eq!(p.bucket_width, "1h");
                total += p.occurrence_count;
                hours.push((p.bucket_start.clone(), p.occurrence_timestamps.clone()));
            }
            other => panic!("not a bucket: {other:?}"),
        }
    }
    assert_eq!(total, 3);
    assert_eq!(
        hours[0],
        (
            "2026-01-01T10:00:00Z".to_owned(),
            vec![
                "2026-01-01T10:00:00.000000000Z".to_owned(),
                "2026-01-01T10:59:59.900000000Z".to_owned()
            ]
        )
    );
}

#[test]
fn dropped_examples_are_reported() {
    let mut raw = String::new();
    for i in 0..(DEFAULT_EXEMPLAR_CAP + 2) {
        raw.push_str(&format!("2026-01-01T10:00:0{i}Z ERROR x\n"));
    }
    let s = scan(&Masking, &raw);
    assert_eq!(nodes(&s, NodeKind::LogEvent).len(), DEFAULT_EXEMPLAR_CAP);
    assert_eq!(s.diagnostics.len(), 1);
    assert_eq!(s.diagnostics[0].code, "exemplar_cap_reached");
    assert_eq!(s.diagnostics[0].kept, 5);
    assert_eq!(s.diagnostics[0].dropped, 2);
    assert_eq!(s.diagnostics[0].severity, "error");
}

#[test]
fn secrets_and_long_texts_stay_out() {
    let raw = format!("ERROR password hunter {}\n", "x".repeat(400));
    let s = scan(&Masking, &raw);
    let signature = nodes(&s, NodeKind::ErrorSignature)[0];
    assert_eq!(signature.redaction_policy_version, Some(1));
    assert_eq!(signature.valid_time_source, Some(VALID_TIME_SOURCE_INFERRED.to_owned()));
    match &signature.log {
        Some(LogPayload::ErrorSignature(p)) => {
            assert_eq!(p.template_excerpt.chars().count(), EXCERPT_MAX_CHARS);
            assert!(p.template_excerpt.starts_with("ERROR password [redacted] xxx"));
        }
        other => panic!("not a signature: {other:?}"),
    }
    assert!(!format!("{:?}", s.records).contains("hunter"));
}

#[test]
fn structured_logs_are_read_by_member() {
    let raw = "{\"level\":\"error\",\"msg\":\"boom\",\"ts\":\"2026-01-01T10:00:00Z\"}\n\
               {\"level\":\"info\",\"msg\":\"fine\"}\n\
               {\"level\":\"error\"}\n";
    let s = scan(&PassThrough, raw);
    assert_eq!(s.source_format_version, "jsonl-v1");
    let signatures = nodes(&s, NodeKind::ErrorSignature);
    assert_eq!(signatures.len(), 1);
    match &signatures[0].log {
        Some(LogPayload::ErrorSignature(p)) => {
            assert_eq!(p.template_excerpt, "boom");
            assert_eq!(p.first_seen, "2026-01-01T10:00:00Z");
        }
        other => panic!("not a signature: {other:?}"),
    }
}

#[test]
fn retention_only_adds_the_text() {
    let raw = b"ERROR a\r\n";
    let plain = scan_log_records(&PassThrough, raw, "a.log", "/repo", "r", NOW, false).unwrap();
    let kept = scan_log_records(&PassThrough, raw, "a.log", "/repo", "r", NOW, true).unwrap();
    assert_eq!(plain.records, kept.records);
    assert_eq!(plain.normalized_source, None);
    assert_eq!(kept.normalized_source, Some("ERROR a\n".to_owned()));
}

#[test]
fn captured_bytes_are_scrubbed_and_redacted_by_line() {
    assert_eq!(
        redacted_source_bytes(&Masking, "a hunter\nBEGIN KEY\n"),
        b"a [redacted]\n[key]\n".to_vec()
    );
    assert_eq!(redacted_source_bytes(&Masking, "hunter"), b"[redacted]".to_vec());
    assert_eq!(redacted_source_bytes(&Masking, ""), Vec::<u8>::new());
}

#[test]
fn log_paths_are_relative_to_the_repository() {
    assert_eq!(source_relative_path("/repo", "/repo/logs/a.log"), "logs/a.log");
    assert_eq!(source_relative_path("/repo", "/var/log/a.log"), "var/log/a.log");
    assert_eq!(source_relative_path("/repo/a.log", "/repo/a.log"), "a.log");
    assert_eq!(source_relative_path("/", "/"), "log");
    assert_eq!(source_relative_path("repo", "/repo/logs/a.log"), "repo/logs/a.log");
    assert_eq!(source_relative_path("/repo", "/repo/./logs//a.log"), "logs/a.log");
    assert_eq!(source_relative_path("/repo", "../a.log"), "a.log");
}

#[test]
fn the_importer_names_its_format() {
    let p = log_importer_producer("jsonl-v1", NOW);
    assert_eq!(p.producer_started_at, NOW);
    assert!(format!("{p:?}").contains("jsonl-v1"));
}

fn times(second: u32) -> Times {
    Times {
        valid_time: format!("2026-01-01T10:00:0{second}Z"),
        precise_time: format!("2026-01-01T10:00:0{second}.000000000Z"),
        bucket_start: "2026-01-01T10:00:00Z".to_owned(),
        from_timestamp: true,
    }
}

#[test]
fn continued_lines_join_their_event() {
    let lines: Vec<String> =
        ["ERROR a", "  at x", "1: y", "WARN b"].iter().map(|l| l.to_string()).collect();
    let events = group_events(&lines);
    assert_eq!(events.len(), 2);
    assert_eq!(events[0].text, "ERROR a\n  at x\n1: y");
    assert_eq!(events[0].start_line, 1);
    assert_eq!(events[1].start_line, 4);
    let o = plain_occurrence_of(&Masking, "/repo", &events[0], times(1)).expect("an error");
    assert_eq!(o.severity, Severity::Error);
    assert_eq!(o.template, "ERROR a\n  at x\n#: y");
    assert!(!o.redacted);
    assert_eq!(o.frames.len(), 1);
}

#[test]
fn members_make_an_occurrence() {
    let member = |k: &str, v: Option<&str>| (k.to_owned(), v.map(str::to_owned));
    let line = vec![
        member("severity", Some("WARN")),
        member("msg", Some("hunter 7")),
        member("ts", Some("now")),
    ];
    let o = structured_occurrence_of(&Masking, &line, 3, times(1)).expect("a warning");
    assert_eq!(o.severity, Severity::Warn);
    assert_eq!(o.template, "[redacted] #");
    assert!(o.redacted);
    assert_eq!(o.source_line, 3);
    assert_eq!(structured_timestamp_of(&line), Some("now".to_owned()));
    let silent = vec![member("level", Some("error")), member("message", Some(""))];
    assert_eq!(structured_occurrence_of(&Masking, &silent, 3, times(1)), None);
    let odd = vec![member("level", None), member("msg", Some("x"))];
    assert_eq!(structured_occurrence_of(&Masking, &odd, 3, times(1)), None);
}

#[test]
fn occurrences_are_grouped_by_severity_and_template() {
    let of = |severity: Severity, template: &str, second: u32| Occurrence {
        severity,
        template: template.to_owned(),
        redacted: false,
        source_line: 1,
        times: times(second),
        frames: vec![],
    };
    let occs = vec![
        of(Severity::Warn, "a", 1),
        of(Severity::Error, "b", 2),
        of(Severity::Error, "a", 3),
        of(Severity::Error, "a", 1),
    ];
    let (mut records, mut diagnostics) = (vec![], vec![]);
    push_occurrences("repo", "source", &occs, &mut records, &mut diagnostics);
    let seen: Vec<(String, String, u64)> = records
        .iter()
        .filter_map(|r| match r {
            GraphRecord::Node(n) => match &n.log {
                Some(LogPayload::ErrorSignature(p)) => {
                    Some((p.severity.clone(), p.template_excerpt.clone(), p.occurrence_count))
                }
                _ => None,
            },
            _ => None,
        })
        .collect();
    assert_eq!(
        seen,
        vec![
            ("error".to_owned(), "a".to_owned(), 2),
            ("error".to_owned(), "b".to_owned(), 1),
            ("warn".to_owned(), "a".to_owned(), 1),
        ]
    );
    assert!(diagnostics.is_empty());
}
