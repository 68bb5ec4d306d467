//! What the lines of a log say, the scan says.
use vstd::prelude::*;

use crate::ir::{blake3_hex, EdgeLabel, LogPayloadView, NodeKind, NodeRecordView, RecordView};
use crate::json::{object_members, text_member, text_member_from};
use crate::log_graph::{
    bucket_records, bucket_starts, buckets, event_records, events_of, example_at, examples,
    first_text, framed, group_of, in_bucket, is_blank, is_jsonl, json_occurrence, json_occurrences,
    kept_times, leading_instant, occurrence_records, occurrences, plain_occurrence,
    plain_occurrences, precise_times, records_of_severity, records_of_templates, resolved_time,
    seen_times, signature_of, signature_records, source_node, templates_with, valid_times,
    EventView, OccurrenceView, ScanContext, Severity, SignatureView, SourceView, TimesView,
};
use crate::laws::log_graph::law_seen_times_bound_the_occurrences;
use crate::order::{distinct, law_distinct};
use crate::policy::LogPolicy;
use crate::text::{
    has, law_sorted_texts, left_trimmed, lines_of, lowered, starts, text_le, trimmed, truncated,
};
use crate::time::{naive_instant, rfc3339_instant, utc_text, Instant};

verus! {

/// What a member of an object is read as.
pub type Members = Seq<(Seq<char>, Option<Seq<char>>)>;

// ── Severities ──────────────────────────────────────────────────────────────

/// A level, in whatever case, and the severity that it stands for.
pub open spec fn ranks(level: Seq<char>, severity: Severity) -> bool {
    match severity {
        Severity::Fatal => seq!["fatal"@, "panic"@, "critical"@, "crit"@].contains(lowered(level)),
        Severity::Error => seq!["error"@, "err"@].contains(lowered(level)),
        Severity::Warn => seq!["warn"@, "warning"@].contains(lowered(level)),
    }
}

proof fn lemma_ranks(level: Seq<char>, severity: Severity)
    ensures
        ranks(level, severity) <==> crate::log_graph::level_severity(level) == Some(severity),
{
    let f = seq!["fatal"@, "panic"@, "critical"@, "crit"@];
    let e = seq!["error"@, "err"@];
    let w = seq!["warn"@, "warning"@];
    assert(f[0] == "fatal"@ && f[1] == "panic"@ && f[2] == "critical"@ && f[3] == "crit"@);
    assert(e[0] == "error"@ && e[1] == "err"@);
    assert(w[0] == "warn"@ && w[1] == "warning"@);
    reveal_strlit("fatal");
    reveal_strlit("panic");
    reveal_strlit("critical");
    reveal_strlit("crit");
    reveal_strlit("error");
    reveal_strlit("err");
    reveal_strlit("warn");
    reveal_strlit("warning");
    assert("fatal"@[0] == 'f' && "panic"@[0] == 'p' && "critical"@[0] == 'c' && "crit"@[0] == 'c'
        && "error"@[0] == 'e' && "err"@[0] == 'e' && "warn"@[0] == 'w' && "warning"@[0] == 'w');
}

/// The severity that a plain line's own words give it.
pub open spec fn cries(header: Seq<char>, severity: Severity) -> bool {
    let fatal = has(header, "panic"@) || has(header, "FATAL"@);
    match severity {
        Severity::Fatal => fatal,
        Severity::Error => fatal == false && has(header, "ERROR"@),
        Severity::Warn => fatal == false && has(header, "ERROR"@) == false && has(
            header,
            "WARN"@,
        ),
    }
}

// ── Structured lines ────────────────────────────────────────────────────────

/// The first member under the key is the text.
pub open spec fn member_is(o: Members, key: Seq<char>, text: Seq<char>) -> bool {
    exists|i: int|
        0 <= i < o.len() && #[trigger] o[i] == (key, Some(text)) && forall|j: int|
            0 <= j < i ==> (#[trigger] o[j]).0 != key
}

/// No member under the key is a text.
pub open spec fn lacks(o: Members, key: Seq<char>) -> bool {
    forall|i: int| 0 <= i < o.len() && (#[trigger] o[i]).0 == key ==> o[i].1 is None
}

proof fn lemma_member_from(o: Members, key: Seq<char>, at: int, i: int)
    requires
        0 <= i <= at < o.len(),
        o[at].0 == key,
        forall|j: int| 0 <= j < at ==> (#[trigger] o[j]).0 != key,
    ensures
        text_member_from(o, key, i) == o[at].1,
    decreases at - i,
{
    if i < at {
        lemma_member_from(o, key, at, i + 1);
    }
}

proof fn lemma_lacks_from(o: Members, key: Seq<char>, i: int)
    requires
        0 <= i <= o.len(),
        lacks(o, key),
    ensures
        text_member_from(o, key, i) is None,
    decreases o.len() - i,
{
    if i < o.len() && o[i].0 != key {
        lemma_lacks_from(o, key, i + 1);
    }
}

proof fn lemma_member(o: Members, key: Seq<char>, text: Seq<char>)
    ensures
        member_is(o, key, text) ==> text_member(o, key) == Some(text),
        lacks(o, key) ==> text_member(o, key) is None,
{
    if member_is(o, key, text) {
        let i = choose|i: int|
            0 <= i < o.len() && #[trigger] o[i] == (key, Some(text)) && forall|j: int|
                0 <= j < i ==> (#[trigger] o[j]).0 != key;
        lemma_member_from(o, key, i, 0);
    }
    if lacks(o, key) {
        lemma_lacks_from(o, key, 0);
    }
}

/// The line's level: its member `level`, or else `severity`, or else `lvl`.
pub open spec fn has_level(o: Members, level: Seq<char>) -> bool {
    ||| member_is(o, "level"@, level)
    ||| lacks(o, "level"@) && member_is(o, "severity"@, level)
    ||| lacks(o, "level"@) && lacks(o, "severity"@) && member_is(o, "lvl"@, level)
}

/// The line's message: its member `message`, or else `msg`, or else `error`, or else `err`.
pub open spec fn has_message(o: Members, message: Seq<char>) -> bool {
    ||| member_is(o, "message"@, message)
    ||| lacks(o, "message"@) && member_is(o, "msg"@, message)
    ||| lacks(o, "message"@) && lacks(o, "msg"@) && member_is(o, "error"@, message)
    ||| lacks(o, "message"@) && lacks(o, "msg"@) && lacks(o, "error"@) && member_is(
        o,
        "err"@,
        message,
    )
}

/// The line's time as it stands there: its member `timestamp`, or else `ts`, or else `time`.
pub open spec fn has_time(o: Members, time: Seq<char>) -> bool {
    ||| member_is(o, "timestamp"@, time)
    ||| lacks(o, "timestamp"@) && member_is(o, "ts"@, time)
    ||| lacks(o, "timestamp"@) && lacks(o, "ts"@) && member_is(o, "time"@, time)
}

pub open spec fn has_no_time(o: Members) -> bool {
    lacks(o, "timestamp"@) && lacks(o, "ts"@) && lacks(o, "time"@)
}

proof fn lemma_first_text(o: Members, keys: Seq<Seq<char>>, at: int, text: Seq<char>)
    requires
        0 <= at < keys.len(),
        member_is(o, keys[at], text),
        forall|j: int| 0 <= j < at ==> lacks(o, #[trigger] keys[j]),
    ensures
        first_text(o, keys) == Some(text),
    decreases at,
{
    lemma_member(o, keys[0], text);
    if at > 0 {
        assert(lacks(o, keys[0]));
        let rest = keys.skip(1);
        assert(rest[at - 1] == keys[at]);
        assert forall|j: int| 0 <= j < at - 1 implies lacks(o, #[trigger] rest[j]) by {
            assert(rest[j] == keys[j + 1]);
        }
        lemma_first_text(o, rest, at - 1, text);
    }
}

proof fn lemma_no_text(o: Members, keys: Seq<Seq<char>>)
    requires
        forall|j: int| 0 <= j < keys.len() ==> lacks(o, #[trigger] keys[j]),
    ensures
        first_text(o, keys) is None,
    decreases keys.len(),
{
    if keys.len() > 0 {
        assert(lacks(o, keys[0]));
        lemma_member(o, keys[0], Seq::empty());
        let rest = keys.skip(1);
        assert forall|j: int| 0 <= j < rest.len() implies lacks(o, #[trigger] rest[j]) by {
            assert(rest[j] == keys[j + 1]);
        }
        lemma_no_text(o, rest);
    }
}

proof fn lemma_level(o: Members, level: Seq<char>)
    requires
        has_level(o, level),
    ensures
        first_text(o, seq!["level"@, "severity"@, "lvl"@]) == Some(level),
{
    let keys = seq!["level"@, "severity"@, "lvl"@];
    assert(keys[0] == "level"@ && keys[1] == "severity"@ && keys[2] == "lvl"@);
    if member_is(o, "level"@, level) {
        lemma_first_text(o, keys, 0, level);
    } else if member_is(o, "severity"@, level) && lacks(o, "level"@) {
        lemma_first_text(o, keys, 1, level);
    } else {
        lemma_first_text(o, keys, 2, level);
    }
}

proof fn lemma_message(o: Members, message: Seq<char>)
    requires
        has_message(o, message),
    ensures
        first_text(o, seq!["message"@, "msg"@, "error"@, "err"@]) == Some(message),
{
    let keys = seq!["message"@, "msg"@, "error"@, "err"@];
    assert(keys[0] == "message"@ && keys[1] == "msg"@ && keys[2] == "error"@ && keys[3] == "err"@);
    if member_is(o, "message"@, message) {
        lemma_first_text(o, keys, 0, message);
    } else if lacks(o, "message"@) && member_is(o, "msg"@, message) {
        lemma_first_text(o, keys, 1, message);
    } else if lacks(o, "message"@) && lacks(o, "msg"@) && member_is(o, "error"@, message) {
        lemma_first_text(o, keys, 2, message);
    } else {
        lemma_first_text(o, keys, 3, message);
    }
}

proof fn lemma_time(o: Members, time: Seq<char>)
    ensures
        has_time(o, time) ==> first_text(o, seq!["timestamp"@, "ts"@, "time"@]) == Some(time),
        has_no_time(o) ==> first_text(o, seq!["timestamp"@, "ts"@, "time"@]) is None,
{
    let keys = seq!["timestamp"@, "ts"@, "time"@];
    assert(keys[0] == "timestamp"@ && keys[1] == "ts"@ && keys[2] == "time"@);
    if has_no_time(o) {
        lemma_no_text(o, keys);
    } else if has_time(o, time) {
        if member_is(o, "timestamp"@, time) {
            lemma_first_text(o, keys, 0, time);
        } else if lacks(o, "timestamp"@) && member_is(o, "ts"@, time) {
            lemma_first_text(o, keys, 1, time);
        } else {
            lemma_first_text(o, keys, 2, time);
        }
    }
}

/// The times are those of the instant: printed in seconds and in nanoseconds, and the start of its
/// hour.
pub open spec fn is_at(times: TimesView, t: Instant) -> bool {
    &&& times.from_timestamp
    &&& utc_text(t.secs, t.nanos, false) matches Some(s) ==> times.valid_time == s
    &&& utc_text(t.secs, t.nanos, true) matches Some(s) ==> times.precise_time == s
    &&& forall|hour: i64|
        hour <= t.secs < hour + 3600 && hour % 3600 == 0 ==> (#[trigger] utc_text(hour, 0, false)
            matches Some(s) ==> times.bucket_start == s)
}

/// The times are those of the scan.
pub open spec fn is_at_scan(times: TimesView, c: ScanContext) -> bool {
    &&& times.from_timestamp == false
    &&& times.valid_time == c.transaction_time
    &&& times.bucket_start == c.transaction_hour
}

proof fn lemma_resolved(parsed: Option<Instant>, c: ScanContext)
    ensures
        match parsed {
            Some(t) => is_at(resolved_time(parsed, c.transaction_time, c.transaction_hour), t),
            None => is_at_scan(
                resolved_time(parsed, c.transaction_time, c.transaction_hour),
                c,
            ),
        },
{
    if let Some(t) = parsed {
        assert forall|hour: i64|
            hour <= t.secs < hour + 3600 && hour % 3600 == 0 implies (#[trigger] utc_text(
            hour,
            0,
            false,
        ) matches Some(s) ==> resolved_time(
            parsed,
            c.transaction_time,
            c.transaction_hour,
        ).bucket_start == s) by {
            let secs = t.secs;
            assert(secs - secs % 3600 == hour) by (nonlinear_arith)
                requires
                    hour <= secs < hour + 3600,
                    hour % 3600 == 0,
            ;
            assert(crate::time::hour_start(secs) == hour);
        }
    }
}

/// The occurrence says what the structured line says.
pub open spec fn tells_line<P: LogPolicy>(
    policy: &P,
    c: ScanContext,
    x: OccurrenceView,
    severity: Severity,
    message: Seq<char>,
    number: int,
) -> bool {
    &&& x.severity == severity
    &&& x.template == policy.redacted(policy.template(message))
    &&& x.redacted == (policy.redacted(policy.template(message)) != policy.template(message))
    &&& x.source_line == number
    &&& x.frames.len() == 0
}

proof fn lemma_line_is_told<P: LogPolicy>(
    policy: &P,
    c: ScanContext,
    ls: Seq<Seq<char>>,
    k: int,
) -> (i: int)
    requires
        0 <= k < ls.len() <= u64::MAX,
        !is_blank(ls[k]),
        json_occurrence(policy, c, ls[k], (k + 1) as u64) is Some,
    ensures
        0 <= i < json_occurrences(policy, c, ls).len(),
        json_occurrences(policy, c, ls)[i] == json_occurrence(policy, c, ls[k], (k + 1) as u64)->0,
    decreases ls.len(),
{
    let rest = ls.drop_last();
    if k < rest.len() {
        assert(rest[k] == ls[k]);
        lemma_line_is_told(policy, c, rest, k)
    } else {
        json_occurrences(policy, c, rest).len() as int
    }
}

/// A structured line whose level has a severity, and whose message is not empty, yields an
/// occurrence of that severity under the fingerprint of the message, whatever else it holds.
pub proof fn law_structured_lines_are_told<P: LogPolicy>(
    policy: &P,
    c: ScanContext,
    text: Seq<char>,
    k: int,
    o: Members,
    level: Seq<char>,
    severity: Severity,
    message: Seq<char>,
)
    requires
        is_jsonl(text),
        0 <= k < lines_of(text).len() <= u64::MAX,
        trimmed(lines_of(text)[k]).len() > 0,
        object_members(trimmed(lines_of(text)[k])) == Some(o),
        has_level(o, level),
        ranks(level, severity),
        has_message(o, message),
        message.len() > 0,
    ensures
        exists|i: int|
            {
                &&& 0 <= i < occurrences(policy, c, text).len()
                &&& tells_line(
                    policy,
                    c,
                    #[trigger] occurrences(policy, c, text)[i],
                    severity,
                    message,
                    k + 1,
                )
                &&& forall|time: Seq<char>| #[trigger]
                    has_time(o, time) ==> match leading_instant(time) {
                        Some(t) => is_at(occurrences(policy, c, text)[i].times, t),
                        None => is_at_scan(occurrences(policy, c, text)[i].times, c),
                    }
                &&& has_no_time(o) ==> is_at_scan(occurrences(policy, c, text)[i].times, c)
            },
{
    let ls = lines_of(text);
    lemma_level(o, level);
    lemma_ranks(level, severity);
    lemma_message(o, message);
    let i = lemma_line_is_told(policy, c, ls, k);
    let x = occurrences(policy, c, text)[i];
    assert(tells_line(policy, c, x, severity, message, k + 1));
    assert forall|time: Seq<char>| #[trigger] has_time(o, time) implies match leading_instant(
        time,
    ) {
        Some(t) => is_at(x.times, t),
        None => is_at_scan(x.times, c),
    } by {
        lemma_time(o, time);
        lemma_resolved(leading_instant(time), c);
    }
    lemma_time(o, Seq::empty());
    lemma_resolved(None, c);
}

proof fn lemma_told_lines<P: LogPolicy>(policy: &P, c: ScanContext, ls: Seq<Seq<char>>, i: int) -> (k:
    int)
    requires
        0 <= i < json_occurrences(policy, c, ls).len(),
    ensures
        0 <= k < ls.len(),
        !is_blank(ls[k]),
        json_occurrence(policy, c, ls[k], (k + 1) as u64) == Some(
            json_occurrences(policy, c, ls)[i],
        ),
    decreases ls.len(),
{
    let rest = ls.drop_last();
    if i < json_occurrences(policy, c, rest).len() {
        let k = lemma_told_lines(policy, c, rest, i);
        assert(rest[k] == ls[k]);
        k
    } else {
        ls.len() - 1
    }
}

/// An occurrence in a structured log is told by the line that it names: that line has a level, it
/// has a message, and neither an empty message nor another level ever counts.
pub proof fn law_structured_occurrences_have_their_line<P: LogPolicy>(
    policy: &P,
    c: ScanContext,
    text: Seq<char>,
    i: int,
)
    requires
        is_jsonl(text),
        lines_of(text).len() <= u64::MAX,
        0 <= i < occurrences(policy, c, text).len(),
    ensures
        ({
            let x = occurrences(policy, c, text)[i];
            let k = x.source_line - 1;
            &&& 0 <= k < lines_of(text).len()
            &&& object_members(trimmed(lines_of(text)[k])) matches Some(o) && {
                &&& forall|level: Seq<char>| #[trigger]
                    has_level(o, level) ==> ranks(level, x.severity)
                &&& forall|message: Seq<char>| #[trigger]
                    has_message(o, message) ==> message.len() > 0 && x.template
                        == policy.redacted(policy.template(message))
                &&& !(lacks(o, "level"@) && lacks(o, "severity"@) && lacks(o, "lvl"@))
                &&& !(lacks(o, "message"@) && lacks(o, "msg"@) && lacks(o, "error"@) && lacks(
                    o,
                    "err"@,
                ))
            }
        }),
{
    let ls = lines_of(text);
    let x = occurrences(policy, c, text)[i];
    let k = lemma_told_lines(policy, c, ls, i);
    let o = object_members(trimmed(ls[k]))->0;
    assert forall|level: Seq<char>| #[trigger] has_level(o, level) implies ranks(
        level,
        x.severity,
    ) by {
        lemma_level(o, level);
        lemma_ranks(level, x.severity);
    }
    assert forall|message: Seq<char>| #[trigger] has_message(o, message) implies message.len() > 0
        && x.template == policy.redacted(policy.template(message)) by {
        lemma_message(o, message);
    }
    let a = seq!["level"@, "severity"@, "lvl"@];
    assert(a[0] == "level"@ && a[1] == "severity"@ && a[2] == "lvl"@);
    if lacks(o, "level"@) && lacks(o, "severity"@) && lacks(o, "lvl"@) {
        lemma_no_text(o, a);
    }
    let b = seq!["message"@, "msg"@, "error"@, "err"@];
    assert(b[0] == "message"@ && b[1] == "msg"@ && b[2] == "error"@ && b[3] == "err"@);
    if lacks(o, "message"@) && lacks(o, "msg"@) && lacks(o, "error"@) && lacks(o, "err"@) {
        lemma_no_text(o, b);
    }
}

// ── Plain lines ─────────────────────────────────────────────────────────────

/// A line that opens an event: one that is not indented and belongs to no backtrace.
pub open spec fn opens(line: Seq<char>) -> bool {
    let t = left_trimmed(line);
    line.len() == 0 || {
        &&& line[0] != ' '
        &&& line[0] != '\t'
        &&& t != "stack backtrace:"@
        &&& starts(t, "note:"@) == false
        &&& starts(t, "at "@) == false
        &&& forall|n: int| #![trigger t[n]]
            0 < n < t.len() && t[n] == ':' ==> exists|m: int|
                0 <= m < n && !crate::text::is_digit(#[trigger] t[m])
    }
}

proof fn lemma_numbered(s: Seq<char>, i: int) -> (n: int)
    requires
        0 <= i,
        forall|m: int| 0 <= m < i < s.len() ==> crate::text::is_digit(#[trigger] s[m]),
        crate::log_graph::numbered_from(s, i),
    ensures
        0 < n < s.len(),
        s[n] == ':',
        forall|m: int| 0 <= m < n ==> crate::text::is_digit(#[trigger] s[m]),
    decreases s.len() - i,
{
    if crate::text::is_digit(s[i]) {
        lemma_numbered(s, i + 1)
    } else {
        i
    }
}

proof fn lemma_numbered_back(s: Seq<char>, i: int, n: int)
    requires
        0 <= i <= n < s.len(),
        0 < n,
        s[n] == ':',
        forall|m: int| 0 <= m < n ==> crate::text::is_digit(#[trigger] s[m]),
    ensures
        crate::log_graph::numbered_from(s, i),
    decreases n - i,
{
    if i < n {
        lemma_numbered_back(s, i + 1, n);
    }
}

/// A line opens an event or continues the one in front of it.
proof fn lemma_opens(line: Seq<char>)
    ensures
        opens(line) == !crate::log_graph::continues(line),
{
    let t = left_trimmed(line);
    if crate::log_graph::numbered_from(t, 0) {
        let n = lemma_numbered(t, 0);
        assert(t[n] == ':');
    } else {
        assert forall|n: int| #![trigger t[n]] 0 < n < t.len() && t[n] == ':' implies exists|
            m: int,
        |
            0 <= m < n && !crate::text::is_digit(#[trigger] t[m]) by {
            if forall|m: int| 0 <= m < n ==> crate::text::is_digit(#[trigger] t[m]) {
                lemma_numbered_back(t, 0, n);
            }
        }
    }
}

proof fn lemma_opening(ls: Seq<Seq<char>>, k: int) -> (i: int)
    requires
        0 <= k < ls.len() <= u64::MAX,
        k == 0 || opens(ls[k]),
    ensures
        0 <= i < events_of(ls).len(),
        events_of(ls)[i].header == ls[k],
        events_of(ls)[i].start_line == k + 1,
        k == ls.len() - 1 ==> events_of(ls)[i].text == ls[k] && i == events_of(ls).len() - 1,
    decreases ls.len(),
{
    let rest = ls.drop_last();
    lemma_opens(ls.last());
    if k < rest.len() {
        assert(rest[k] == ls[k]);
        lemma_opening(rest, k)
    } else {
        if k == 0 {
            assert(rest.len() == 0);
        }
        events_of(rest).len() as int
    }
}

proof fn lemma_events_start(ls: Seq<Seq<char>>, i: int)
    requires
        0 <= i < events_of(ls).len(),
        ls.len() <= u64::MAX,
    ensures
        ({
            let e = events_of(ls)[i];
            let k = e.start_line - 1;
            0 <= k < ls.len() && e.header == ls[k] && (k == 0 || opens(ls[k]))
        }),
    decreases ls.len(),
{
    let rest = ls.drop_last();
    lemma_opens(ls.last());
    let before = events_of(rest);
    if i < before.len() {
        lemma_events_start(rest, i);
        let k = before[i].start_line - 1;
        assert(rest[k] == ls[k]);
    }
}

proof fn lemma_event_is_told<P: LogPolicy>(
    policy: &P,
    c: ScanContext,
    events: Seq<EventView>,
    k: int,
) -> (i: int)
    requires
        0 <= k < events.len(),
        plain_occurrence(policy, c, events[k]) is Some,
    ensures
        0 <= i < plain_occurrences(policy, c, events).len(),
        plain_occurrences(policy, c, events)[i] == plain_occurrence(policy, c, events[k])->0,
    decreases events.len(),
{
    let rest = events.drop_last();
    if k < rest.len() {
        assert(rest[k] == events[k]);
        lemma_event_is_told(policy, c, rest, k)
    } else {
        plain_occurrences(policy, c, rest).len() as int
    }
}

proof fn lemma_told_events<P: LogPolicy>(
    policy: &P,
    c: ScanContext,
    events: Seq<EventView>,
    i: int,
) -> (k: int)
    requires
        0 <= i < plain_occurrences(policy, c, events).len(),
    ensures
        0 <= k < events.len(),
        plain_occurrence(policy, c, events[k]) == Some(plain_occurrences(policy, c, events)[i]),
    decreases events.len(),
{
    let rest = events.drop_last();
    if i < plain_occurrences(policy, c, rest).len() {
        let k = lemma_told_events(policy, c, rest, i);
        assert(rest[k] == events[k]);
        k
    } else {
        events.len() - 1
    }
}

/// A line of a plain log that opens an event and names a severity yields an occurrence of that
/// severity, at the time that the line names, or else at that of the scan.
pub proof fn law_plain_lines_are_told<P: LogPolicy>(
    policy: &P,
    c: ScanContext,
    text: Seq<char>,
    k: int,
    severity: Severity,
)
    requires
        !is_jsonl(text),
        0 <= k < lines_of(text).len() <= u64::MAX,
        k == 0 || opens(lines_of(text)[k]),
        cries(lines_of(text)[k], severity),
    ensures
        exists|i: int|
            {
                &&& 0 <= i < occurrences(policy, c, text).len()
                &&& (#[trigger] occurrences(policy, c, text)[i]).severity == severity
                &&& occurrences(policy, c, text)[i].source_line == k + 1
                &&& match leading_instant(lines_of(text)[k]) {
                    Some(t) => is_at(occurrences(policy, c, text)[i].times, t),
                    None => is_at_scan(occurrences(policy, c, text)[i].times, c),
                }
                &&& k == lines_of(text).len() - 1 ==> occurrences(policy, c, text)[i].template
                    == policy.redacted(policy.template(lines_of(text)[k]))
            },
{
    let ls = lines_of(text);
    let e = lemma_opening(ls, k);
    let i = lemma_event_is_told(policy, c, events_of(ls), e);
    lemma_resolved(leading_instant(ls[k]), c);
    let x = occurrences(policy, c, text)[i];
    assert(x.severity == severity && x.source_line == k + 1);
}

/// An occurrence in a plain log is told by the line that it names: that line opens an event and
/// names the severity.
pub proof fn law_plain_occurrences_have_their_line<P: LogPolicy>(
    policy: &P,
    c: ScanContext,
    text: Seq<char>,
    i: int,
)
    requires
        !is_jsonl(text),
        lines_of(text).len() <= u64::MAX,
        0 <= i < occurrences(policy, c, text).len(),
    ensures
        ({
            let x = occurrences(policy, c, text)[i];
            let k = x.source_line - 1;
            &&& 0 <= k < lines_of(text).len()
            &&& k == 0 || opens(lines_of(text)[k])
            &&& cries(lines_of(text)[k], x.severity)
        }),
{
    let ls = lines_of(text);
    let k = lemma_told_events(policy, c, events_of(ls), i);
    lemma_events_start(ls, k);
}

/// The lines that continue an event are part of what it says.
pub proof fn law_continuing_lines_join_their_event(ls: Seq<Seq<char>>, line: Seq<char>)
    requires
        ls.len() > 0,
        !opens(line),
    ensures
        events_of(ls.push(line)).len() == events_of(ls).len() > 0,
        events_of(ls.push(line)).last().text == events_of(ls).last().text + "\n"@ + line,
        events_of(ls.push(line)).last().header == events_of(ls).last().header,
        events_of(ls.push(line)).drop_last() == events_of(ls).drop_last(),
{
    let all = ls.push(line);
    lemma_opens(line);
    assert(all.drop_last() =~= ls);
    lemma_some_event(ls);
    assert(events_of(all).drop_last() =~= events_of(ls).drop_last());
}

proof fn lemma_some_event(ls: Seq<Seq<char>>)
    requires
        ls.len() > 0,
    ensures
        events_of(ls).len() > 0,
    decreases ls.len(),
{
    if ls.len() > 1 {
        lemma_some_event(ls.drop_last());
    }
}

/// A line that starts with an RFC 3339 timestamp names that instant.
pub proof fn law_leading_timestamp(line: Seq<char>, t: Instant)
    requires
        crate::text::words_of(line).len() > 0,
        rfc3339_instant(crate::text::words_of(line)[0]) == Some(t),
    ensures
        leading_instant(line) == Some(t),
{
}

/// A line that starts with a date and a time, in two words or in one, names that instant.
pub proof fn law_leading_date_and_time(line: Seq<char>, t: Instant)
    requires
        crate::text::words_of(line).len() > 0,
        rfc3339_instant(crate::text::words_of(line)[0]) is None,
    ensures
        ({
            let ws = crate::text::words_of(line);
            &&& ws.len() > 1 && naive_instant(
                ws[0] + " "@ + ws[1],
                "%Y-%m-%d %H:%M:%S%.f"@,
            ) == Some(t) ==> leading_instant(line) == Some(t)
            &&& ws.len() == 1 && naive_instant(ws[0], "%Y-%m-%dT%H:%M:%S%.f"@) == Some(t)
                ==> leading_instant(line) == Some(t)
        }),
{
}

// ── What the scan makes of an occurrence ────────────────────────────────────

/// A node of the log's records that stands for the signature of an occurrence.
pub open spec fn is_signature_node(n: NodeRecordView, src: SourceView, x: OccurrenceView) -> bool {
    &&& n.kind == NodeKind::ErrorSignature
    &&& n.log matches Some(LogPayloadView::ErrorSignature(p)) && {
        &&& p.severity == match x.severity {
            Severity::Fatal => "fatal"@,
            Severity::Error => "error"@,
            Severity::Warn => "warn"@,
        }
        &&& p.repository_id == src.repository_id
        &&& p.template_excerpt == truncated(x.template, 200)
        &&& text_le(p.first_seen, x.times.valid_time)
        &&& text_le(x.times.valid_time, p.last_seen)
        &&& x.frames.len() > 0 ==> p.frames is Some
    }
}

/// How many occurrences have the severity and the template.
pub open spec fn like(occs: Seq<OccurrenceView>, severity: Severity, template: Seq<char>) -> nat
    decreases occs.len(),
{
    if occs.len() == 0 {
        0
    } else {
        like(occs.drop_last(), severity, template) + if occs.last().severity == severity
            && occs.last().template == template {
            1nat
        } else {
            0
        }
    }
}

proof fn lemma_like(occs: Seq<OccurrenceView>, severity: Severity, template: Seq<char>)
    ensures
        group_of(occs, severity, template).len() == like(occs, severity, template),
    decreases occs.len(),
{
    if occs.len() > 0 {
        lemma_like(occs.drop_last(), severity, template);
    }
}

/// The signature's node counts the occurrences that are like it.
pub open spec fn counts(n: NodeRecordView, count: nat) -> bool {
    n.log matches Some(LogPayloadView::ErrorSignature(p)) && p.occurrence_count == count
}

proof fn lemma_framed(g: Seq<OccurrenceView>, j: int)
    requires
        0 <= j < g.len(),
        g[j].frames.len() > 0,
    ensures
        framed(g) is Some,
    decreases g.len(),
{
    let rest = g.drop_last();
    if j < rest.len() {
        assert(rest[j] == g[j]);
        lemma_framed(rest, j);
    }
}

/// A node of the log's records that stands for the hour of an occurrence.
pub open spec fn is_bucket_node(n: NodeRecordView, src: SourceView, x: OccurrenceView) -> bool {
    &&& n.kind == NodeKind::LogOccurrenceBucket
    &&& n.log matches Some(LogPayloadView::LogOccurrenceBucket(p)) && {
        &&& p.bucket_start == x.times.bucket_start
        &&& p.occurrence_timestamps.contains(x.times.precise_time)
        &&& p.source_id == src.source_id
        &&& p.repository_id == src.repository_id
    }
}

proof fn lemma_in_group(occs: Seq<OccurrenceView>, i: int) -> (j: int)
    requires
        0 <= i < occs.len(),
    ensures
        ({
            let g = group_of(occs, occs[i].severity, occs[i].template);
            0 <= j < g.len() <= occs.len() && g[j] == occs[i]
        }),
        templates_with(occs, occs[i].severity).contains(occs[i].template),
    decreases occs.len(),
{
    let rest = occs.drop_last();
    let s = occs[i].severity;
    let t = occs[i].template;
    let j = if i < rest.len() {
        assert(rest[i] == occs[i]);
        let j = lemma_in_group(rest, i);
        let m = choose|m: int|
            0 <= m < templates_with(rest, s).len() && templates_with(rest, s)[m] == t;
        assert(templates_with(occs, s)[m] == t);
        j
    } else {
        lemma_group_len(rest, s, t);
        assert(templates_with(occs, s).last() == t);
        group_of(rest, s, t).len() as int
    };
    lemma_group_len(occs, s, t);
    j
}

proof fn lemma_group_len(occs: Seq<OccurrenceView>, s: Severity, t: Seq<char>)
    ensures
        group_of(occs, s, t).len() <= occs.len(),
    decreases occs.len(),
{
    if occs.len() > 0 {
        lemma_group_len(occs.drop_last(), s, t);
    }
}

proof fn lemma_template_records(
    src: SourceView,
    occs: Seq<OccurrenceView>,
    s: Severity,
    templates: Seq<Seq<char>>,
    m: int,
    r: RecordView,
)
    requires
        0 <= m < templates.len(),
        signature_records(
            signature_of(src, s, templates[m]),
            group_of(occs, s, templates[m]),
        ).contains(r),
    ensures
        records_of_templates(src, occs, s, templates).contains(r),
    decreases templates.len(),
{
    let rest = templates.drop_last();
    let before = records_of_templates(src, occs, s, rest);
    let here = signature_records(
        signature_of(src, s, templates.last()),
        group_of(occs, s, templates.last()),
    );
    if m < rest.len() {
        assert(rest[m] == templates[m]);
        lemma_template_records(src, occs, s, rest, m, r);
        let k = choose|k: int| 0 <= k < before.len() && before[k] == r;
        assert((before + here)[k] == r);
    } else {
        let k = choose|k: int| 0 <= k < here.len() && here[k] == r;
        assert((before + here)[before.len() + k] == r);
    }
}

proof fn lemma_occurrence_records(
    src: SourceView,
    occs: Seq<OccurrenceView>,
    s: Severity,
    t: Seq<char>,
    r: RecordView,
)
    requires
        templates_with(occs, s).contains(t),
        signature_records(signature_of(src, s, t), group_of(occs, s, t)).contains(r),
    ensures
        occurrence_records(src, occs).contains(r),
{
    let all = templates_with(occs, s);
    law_distinct(all);
    assert(distinct(all).contains(t));
    let m = choose|m: int| 0 <= m < distinct(all).len() && distinct(all)[m] == t;
    lemma_template_records(src, occs, s, distinct(all), m, r);
    let a = records_of_severity(src, occs, Severity::Error);
    let b = records_of_severity(src, occs, Severity::Fatal);
    let w = records_of_severity(src, occs, Severity::Warn);
    let out = a + b + w;
    let here = records_of_severity(src, occs, s);
    let k = choose|k: int| 0 <= k < here.len() && here[k] == r;
    match s {
        Severity::Error => {
            assert(out[k] == r);
        },
        Severity::Fatal => {
            assert(out[a.len() + k] == r);
        },
        Severity::Warn => {
            assert(out[a.len() + b.len() + k] == r);
        },
    }
}

proof fn lemma_bucket_records(
    v: SignatureView,
    g: Seq<OccurrenceView>,
    marks: Seq<Seq<char>>,
    m: int,
    k: int,
)
    requires
        0 <= m < marks.len(),
        0 <= k < 2,
    ensures
        buckets(v, g, marks).contains(bucket_records(v, marks[m], in_bucket(g, marks[m]))[k]),
    decreases marks.len(),
{
    let rest = marks.drop_last();
    let before = buckets(v, g, rest);
    let here = bucket_records(v, marks.last(), in_bucket(g, marks.last()));
    let r = bucket_records(v, marks[m], in_bucket(g, marks[m]))[k];
    if m < rest.len() {
        assert(rest[m] == marks[m]);
        lemma_bucket_records(v, g, rest, m, k);
        let n = choose|n: int| 0 <= n < before.len() && before[n] == r;
        assert((before + here)[n] == r);
    } else {
        assert((before + here)[before.len() + k] == r);
    }
}

proof fn lemma_in_bucket(g: Seq<OccurrenceView>, j: int) -> (k: int)
    requires
        0 <= j < g.len(),
    ensures
        ({
            let b = in_bucket(g, g[j].times.bucket_start);
            0 <= k < b.len() && b[k] == g[j]
        }),
    decreases g.len(),
{
    let rest = g.drop_last();
    if j < rest.len() {
        assert(rest[j] == g[j]);
        lemma_in_bucket(rest, j)
    } else {
        in_bucket(rest, g[j].times.bucket_start).len() as int
    }
}

/// Every occurrence is recorded: its signature has a node, and its hour has one that lists its
/// instant and aggregates the signature.
pub proof fn law_every_occurrence_is_recorded(src: SourceView, occs: Seq<OccurrenceView>, i: int)
    requires
        0 <= i < occs.len() <= u64::MAX,
    ensures
        exists|sig: NodeRecordView, bucket: NodeRecordView|
            {
                &&& occurrence_records(src, occs).contains(RecordView::Node(sig))
                &&& occurrence_records(src, occs).contains(RecordView::Node(bucket))
                &&& #[trigger] is_signature_node(sig, src, occs[i])
                &&& counts(sig, like(occs, occs[i].severity, occs[i].template))
                &&& #[trigger] is_bucket_node(bucket, src, occs[i])
                &&& exists|k: int|
                    0 <= k < occurrence_records(src, occs).len() && (#[trigger] occurrence_records(
                        src,
                        occs,
                    )[k] matches RecordView::Edge(e) && e.label == EdgeLabel::Aggregates && e.source
                        == bucket.id && e.target == sig.id)
            },
{
    let x = occs[i];
    let j = lemma_in_group(occs, i);
    let g = group_of(occs, x.severity, x.template);
    let v = signature_of(src, x.severity, x.template);
    let all = signature_records(v, g);
    let start = x.times.bucket_start;
    let b = in_bucket(g, start);
    let p = lemma_in_bucket(g, j);
    let marks = bucket_starts(g);
    law_distinct(marks);
    assert(marks[j] == start);
    assert(marks.contains(start));
    assert(distinct(marks).contains(start));
    let m = choose|m: int| 0 <= m < distinct(marks).len() && distinct(marks)[m] == start;
    let tail = buckets(v, g, distinct(marks));
    lemma_bucket_records(v, g, distinct(marks), m, 0);
    lemma_bucket_records(v, g, distinct(marks), m, 1);
    let node = bucket_records(v, start, b)[0];
    let edge = bucket_records(v, start, b)[1];
    let front = all.len() - tail.len();
    let n0 = choose|n: int| 0 <= n < tail.len() && tail[n] == node;
    let n1 = choose|n: int| 0 <= n < tail.len() && tail[n] == edge;
    assert(all[front + n0] == node);
    assert(all[front + n1] == edge);
    assert(all[0] == crate::log_graph::signature_node(v, g));
    lemma_occurrence_records(src, occs, x.severity, x.template, all[0]);
    lemma_occurrence_records(src, occs, x.severity, x.template, node);
    lemma_occurrence_records(src, occs, x.severity, x.template, edge);
    let times = precise_times(b);
    assert(times[p] == x.times.precise_time);
    law_sorted_texts(times);
    assert(times.to_multiset().count(x.times.precise_time) > 0) by {
        broadcast use vstd::seq_lib::group_to_multiset_ensures;

        assert(times.contains(x.times.precise_time));
    }
    assert(crate::text::sorted_texts(times).contains(x.times.precise_time)) by {
        broadcast use vstd::seq_lib::group_to_multiset_ensures;

    }
    let sig = all[0]->Node_0;
    let bucket = node->Node_0;
    law_seen_times_bound_the_occurrences(g, j);
    lemma_like(occs, x.severity, x.template);
    if x.frames.len() > 0 {
        lemma_framed(g, j);
    }
    assert(is_signature_node(sig, src, x));
    assert(is_bucket_node(bucket, src, x));
    let out = occurrence_records(src, occs);
    let k = choose|k: int| 0 <= k < out.len() && out[k] == edge;
    assert(out[k] is Edge);
}

/// The source's node says where the log lies, what format it has and how many lines.
pub proof fn law_the_source_is_told(
    repository_id: Seq<char>,
    path: Seq<char>,
    bytes: Seq<u8>,
    text: Seq<char>,
    time: Seq<char>,
)
    requires
        lines_of(text).len() <= u64::MAX,
    ensures
        source_node(repository_id, path, bytes, text, time) matches RecordView::Node(n) && n.kind
            == NodeKind::LogSource && n.valid_time == Some(time) && (n.log matches Some(
            LogPayloadView::LogSource(p),
        ) && p.source_relative_path == path && p.repository_id == repository_id && p.line_count
            == lines_of(text).len() && p.source_artifact_hash == blake3_hex(bytes) && (is_jsonl(
            text,
        ) ==> p.source_format_version == "jsonl-v1"@) && (!is_jsonl(text)
            ==> p.source_format_version == "plain-v1"@)),
{
}

proof fn lemma_example(v: SignatureView, g: Seq<OccurrenceView>, times: Seq<Seq<char>>, m: int)
    requires
        0 <= m < times.len(),
        example_at(g, times[m]) is Some,
    ensures
        examples(v, g, times).contains(event_records(v, times[m], example_at(g, times[m])->0)[0]),
    decreases times.len(),
{
    let rest = times.drop_last();
    let before = examples(v, g, rest);
    let r = event_records(v, times[m], example_at(g, times[m])->0)[0];
    let all = examples(v, g, times);
    if m < rest.len() {
        assert(rest[m] == times[m]);
        lemma_example(v, g, rest, m);
        let n = choose|n: int| 0 <= n < before.len() && before[n] == r;
        assert(all[n] == r);
    } else {
        assert(all[before.len() as int] == r);
    }
}

proof fn lemma_example_at(g: Seq<OccurrenceView>, j: int)
    requires
        0 <= j < g.len(),
    ensures
        example_at(g, g[j].times.valid_time) matches Some(x) && x.times.valid_time
            == g[j].times.valid_time && x.source_line <= g[j].source_line && g.contains(x),
    decreases g.len(),
{
    let rest = g.drop_last();
    let t = g[j].times.valid_time;
    lemma_example_member(g, t);
    if j < rest.len() {
        assert(rest[j] == g[j]);
        lemma_example_at(rest, j);
    } else if example_at(rest, t) is Some {
        lemma_example_member(rest, t);
    }
}

proof fn lemma_example_member(g: Seq<OccurrenceView>, t: Seq<char>)
    ensures
        example_at(g, t) matches Some(x) ==> g.contains(x) && x.times.valid_time == t,
    decreases g.len(),
{
    if g.len() > 0 {
        let rest = g.drop_last();
        lemma_example_member(rest, t);
        if let Some(x) = example_at(g, t) {
            if rest.contains(x) {
                let n = choose|n: int| 0 <= n < rest.len() && rest[n] == x;
                assert(g[n] == x);
            } else {
                assert(g.last() == x);
            }
        }
    }
}

proof fn lemma_group_members(occs: Seq<OccurrenceView>, s: Severity, t: Seq<char>, j: int)
    requires
        0 <= j < group_of(occs, s, t).len(),
    ensures
        group_of(occs, s, t)[j].severity == s,
        group_of(occs, s, t)[j].template == t,
        occs.contains(group_of(occs, s, t)[j]),
    decreases occs.len(),
{
    let rest = occs.drop_last();
    let x = group_of(occs, s, t)[j];
    if j < group_of(rest, s, t).len() {
        lemma_group_members(rest, s, t, j);
        let n = choose|n: int| 0 <= n < rest.len() && rest[n] == x;
        assert(occs[n] == x);
    } else {
        assert(occs.last() == x);
    }
}

/// A node of the log's records that gives an example at the time of an occurrence.
pub open spec fn is_event_node(n: NodeRecordView, src: SourceView, x: OccurrenceView) -> bool {
    &&& n.kind == NodeKind::LogEvent
    &&& n.valid_time == Some(x.times.valid_time)
    &&& n.log matches Some(LogPayloadView::LogEvent(p)) && {
        &&& p.source_line <= x.source_line
        &&& p.repository_id == src.repository_id
    }
}

/// A signature of at most five moments keeps an example of each: the event of its first line.
pub proof fn law_few_moments_keep_their_examples(
    src: SourceView,
    occs: Seq<OccurrenceView>,
    i: int,
)
    requires
        0 <= i < occs.len(),
        seen_times(group_of(occs, occs[i].severity, occs[i].template)).len() <= 5,
    ensures
        exists|n: NodeRecordView|
            occurrence_records(src, occs).contains(RecordView::Node(n)) && #[trigger] is_event_node(
                n,
                src,
                occs[i],
            ),
{
    let x = occs[i];
    let j = lemma_in_group(occs, i);
    let g = group_of(occs, x.severity, x.template);
    let v = signature_of(src, x.severity, x.template);
    let t = x.times.valid_time;
    let times = valid_times(g);
    law_distinct(times);
    assert(times[j] == t);
    assert(times.contains(t));
    assert(seen_times(g).contains(t));
    let m = choose|m: int| 0 <= m < seen_times(g).len() && seen_times(g)[m] == t;
    lemma_example_at(g, j);
    lemma_example(v, g, kept_times(g), m);
    let first = example_at(g, t)->0;
    let r = event_records(v, t, first)[0];
    let all = signature_records(v, g);
    let mid = examples(v, g, kept_times(g));
    let n = choose|n: int| 0 <= n < mid.len() && mid[n] == r;
    assert(all[2 + n] == r);
    lemma_occurrence_records(src, occs, x.severity, x.template, r);
    let node = r->Node_0;
    assert(RecordView::Node(node) == r);
    assert(is_event_node(node, src, x));
}

} // verus!
