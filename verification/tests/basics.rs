//! Text, order, times, identities and JSON.
use egregore::ir::{
    digest_text, domain_from_record_id, log_stable_id, project_stable_id, stable_id,
};
use egregore::json::{Elements, Json, Members};
use egregore::order::{count_text, distinct_texts, in_order, sort_by_keys, KeyPart};
use egregore::text::{
    collapse_whitespace, contains, decimal, digits_only, ends_with, join, le, lines, lower_ascii,
    lt, normalize_line_endings, parse_u32, replace_char, rsplit_once, slice_bytes, sort_texts,
    split, split_once, starts_with, strip_prefix, strip_suffix, text_bytes, trim, trim_end,
    trim_leading, trim_start, trim_trailing, truncate_chars, words,
};
use egregore::time::{
    at_or_before, before, floor_to_hour_start, parse_rfc3339, window_covers, Instant,
};

const SAMPLES: [&str; 12] = [
    "",
    " ",
    "a",
    "a\n",
    "a\r\nb\n\nc",
    "\n\n",
    "  padded\tword  ",
    "a::b::c",
    "::",
    "Straße im Regen\u{a0}x",
    "αβγ αβ",
    "12 034 +5",
];

fn owned(v: &[&str]) -> Vec<String> {
    v.iter().map(|s| s.to_string()).collect()
}

#[test]
fn text_is_taken_apart_as_the_standard_library_does() {
    for s in SAMPLES {
        assert_eq!(lines(s), s.lines().map(str::to_owned).collect::<Vec<_>>());
        assert_eq!(words(s), s.split_whitespace().map(str::to_owned).collect::<Vec<_>>());
        assert_eq!(trim(s), s.trim());
        assert_eq!(trim_start(s), s.trim_start());
        assert_eq!(trim_end(s), s.trim_end());
        assert_eq!(trim_leading(s, 'a'), s.trim_start_matches('a'));
        assert_eq!(trim_trailing(s, ':'), s.trim_end_matches(':'));
        assert_eq!(lower_ascii(s), s.to_ascii_lowercase());
        assert_eq!(text_bytes(s), s.len());
        assert_eq!(replace_char(s, 'a', 'é'), s.replace('a', "é"));
        assert_eq!(parse_u32(s), s.parse::<u32>().ok());
        for p in ["::", "a", " ", "γ"] {
            assert_eq!(contains(s, p), s.contains(p));
            assert_eq!(starts_with(s, p), s.starts_with(p));
            assert_eq!(ends_with(s, p), s.ends_with(p));
            assert_eq!(split(s, p), s.split(p).map(str::to_owned).collect::<Vec<_>>());
            let pair = |x: Option<(&str, &str)>| x.map(|(a, b)| (a.to_owned(), b.to_owned()));
            assert_eq!(split_once(s, p), pair(s.split_once(p)));
            assert_eq!(rsplit_once(s, p), pair(s.rsplit_once(p)));
            assert_eq!(strip_prefix(s, p), s.strip_prefix(p).map(str::to_owned));
            assert_eq!(strip_suffix(s, p), s.strip_suffix(p).map(str::to_owned));
        }
        for t in SAMPLES {
            assert_eq!(le(s, t), s <= t);
            assert_eq!(lt(s, t), s < t);
        }
    }
}

#[test]
fn numbers_are_printed_and_read() {
    assert_eq!(decimal(0), "0");
    assert_eq!(decimal(u64::MAX), "18446744073709551615");
    assert_eq!(parse_u32("4294967295"), Some(u32::MAX));
    assert_eq!(parse_u32("4294967296"), None);
    assert_eq!(parse_u32("+7"), None);
    assert!(digits_only("0123"));
    assert!(!digits_only(""));
}

#[test]
fn bytes_are_cut_at_characters_only() {
    assert_eq!(slice_bytes("aéb", 1, 3), Some("é".to_owned()));
    assert_eq!(slice_bytes("aéb", 1, 2), None);
    assert_eq!(slice_bytes("aéb", 3, 9), None);
    assert_eq!(slice_bytes("aéb", 4, 4), Some(String::new()));
}

#[test]
fn truncation_counts_characters() {
    assert_eq!(truncate_chars("éèê", 2), "éè");
    assert_eq!(truncate_chars("éè", 5), "éè");
}

#[test]
fn white_space_collapses() {
    assert_eq!(collapse_whitespace("  a \n b\t"), "a b");
    assert_eq!(join(&owned(&["a", "b"]), ", "), "a, b");
}

#[test]
fn carriage_returns_go_only_where_a_line_ends() {
    assert_eq!(normalize_line_endings("a\r\nb"), "a\nb");
    assert_eq!(normalize_line_endings(&normalize_line_endings("\r\r\n")), normalize_line_endings("\r\r\n"));
}

#[test]
fn sorting_is_stable() {
    let key = |n: u64| vec![KeyPart::Num(n)];
    let items = owned(&["b1", "a0", "c1"]);
    assert_eq!(
        sort_by_keys(&items, &vec![key(1), key(0), key(1)]),
        owned(&["a0", "b1", "c1"])
    );
    assert!(in_order(&key(1), &vec![KeyPart::Text(String::new())]));
    assert!(!in_order(&vec![KeyPart::Text(String::new())], &key(1)));
    assert_eq!(sort_texts(owned(&["b", "a", "b"])), owned(&["a", "b", "b"]));
    assert_eq!(distinct_texts(&owned(&["b", "a", "b"])), owned(&["a", "b"]));
    assert_eq!(count_text(&owned(&["b", "a", "b"]), "b"), 2);
}

#[test]
fn identities_are_digests_of_their_parts() {
    let parts = owned(&["a", "b"]);
    assert_ne!(stable_id(&parts), log_stable_id(&parts));
    assert_ne!(stable_id(&parts), stable_id(&owned(&["ab"])));
    assert_ne!(project_stable_id(&parts), log_stable_id(&parts));
    assert_eq!(domain_from_record_id(&log_stable_id(&parts)), Some("log".to_owned()));
    assert_eq!(domain_from_record_id("no colon"), None);
    assert_eq!(digest_text("abc"), blake3::hash(b"abc").to_hex().to_string());
}

#[test]
fn instants_are_compared_in_utc() {
    let a = parse_rfc3339("2026-01-01T00:00:00+01:00").expect("a timestamp");
    let b = parse_rfc3339("2025-12-31T23:00:00Z").expect("a timestamp");
    assert_eq!(a, b);
    assert!(at_or_before(a, b) && !before(a, b));
    assert!(before(a, Instant { secs: a.secs, nanos: 1 }));
    assert_eq!(parse_rfc3339("2026-01-01"), None);
    assert_eq!(parse_rfc3339("1970-01-01T00:00:01.5Z"), Some(Instant { secs: 1, nanos: 500_000_000 }));
}

#[test]
fn hours_start_at_or_before() {
    assert_eq!(floor_to_hour_start(3_599), 0);
    assert_eq!(floor_to_hour_start(3_600), 3_600);
    assert_eq!(floor_to_hour_start(-1), -3_600);
    assert_eq!(floor_to_hour_start(i64::MIN), i64::MIN);
}

#[test]
fn windows_are_widened_on_both_sides() {
    let at = |secs: i64| Instant { secs, nanos: 0 };
    assert!(window_covers(at(10), at(20), 0, at(10)));
    assert!(window_covers(at(10), at(20), 0, at(20)));
    assert!(!window_covers(at(10), at(20), 0, at(21)));
    assert!(window_covers(at(10), at(20), 1, at(21)));
    assert!(window_covers(at(10), at(20), 1, at(9)));
    assert!(!window_covers(at(10), at(20), 1, Instant { secs: 21, nanos: 1 }));
}

#[test]
fn objects_are_built_in_order() {
    let list = Elements::new().with_text("x").with(Json::UInt(1)).array();
    let o = Members::new().with("a", Json::Null).with_text("b", "t").with("c", list).object();
    assert_eq!(o.get("b"), Some(&Json::Str("t".to_owned())));
    assert_eq!(o.get("z"), None);
    assert_eq!(
        o.get("c"),
        Some(&Json::Arr(vec![Json::Str("x".to_owned()), Json::UInt(1)]))
    );
    let set = Members::new().with_text("a", "1").set("a", Json::Bool(true)).object();
    assert_eq!(set, Json::Obj(vec![("a".to_owned(), Json::Bool(true))]));
}
