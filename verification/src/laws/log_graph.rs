//! What a scan of a log keeps.
use vstd::prelude::*;

use crate::ir::{LogPayloadView, RecordView, StackFrameView};
use crate::laws::log_link::lemma_log_id_domain;
use crate::log_graph::{
    below, bucket_records, bucket_starts, buckets, cap_diagnostics, event_records, events_of,
    example_at, examples, first_seen, frame_bounded, framed, frames_after, group_frames, group_of,
    in_bucket, json_occurrence, json_occurrences, kept_times, last_seen, log_edge_of,
    occurrence_records, occurrences, plain_occurrence, plain_occurrences, precise_times,
    records_of_severity, records_of_templates, relative_path, scanned, seen_times, signature_node,
    signature_of, signature_records, source_identity, source_node, templates_with, valid_times,
    EventView, OccurrenceView, ScanContext, Severity, SignatureView, SourceView, BUCKET_WIDTH,
    DEFAULT_EXEMPLAR_CAP, EXCERPT_MAX_CHARS, FINGERPRINT_ALGORITHM, FRAME_TEXT_MAX_CHARS,
    MAX_FRAMES,
};
use crate::log_link::in_log_domain;
use crate::order::{distinct, law_distinct, law_occurrences_add_up, occurrences_of};
use crate::path::{
    file_name, is_name, law_plain_relative, lemma_filter_members, lemma_names_are_plain, path_parts,
    plain_name, plain_relative,
};
use crate::policy::{LogPolicy, Redactor};
use crate::text::{
    ascending, joined, law_sorted_texts, law_truncated, lemma_text_le_refl, lines_of, replaced,
    text_le, truncated,
};

verus! {

// ── What is stored ──────────────────────────────────────────────────────────

/// An excerpt holds no raw text: it is a message normalized, redacted, and cut to length.
pub open spec fn stored_excerpt<P: LogPolicy>(policy: &P, excerpt: Seq<char>) -> bool {
    &&& excerpt.len() <= EXCERPT_MAX_CHARS
    &&& exists|m: Seq<char>|
        excerpt == truncated(
            policy.redacted(#[trigger] policy.template(m)),
            EXCERPT_MAX_CHARS as int,
        )
}

/// A text of a frame was redacted and cut to length.
pub open spec fn stored_frame_text<P: Redactor>(policy: &P, text: Seq<char>) -> bool {
    &&& text.len() <= FRAME_TEXT_MAX_CHARS
    &&& exists|m: Seq<char>| text == #[trigger] frame_bounded(policy, m)
}

pub open spec fn stored_frame<P: Redactor>(policy: &P, f: StackFrameView) -> bool {
    &&& f.module is Some ==> stored_frame_text(policy, f.module->0)
    &&& f.file_path is Some ==> stored_frame_text(policy, f.file_path->0)
}

pub open spec fn stored_frames<P: Redactor>(policy: &P, frames: Seq<StackFrameView>) -> bool {
    &&& frames.len() <= MAX_FRAMES
    &&& forall|i: int| 0 <= i < frames.len() ==> stored_frame(policy, #[trigger] frames[i])
}

/// A record as a scan emits it: in the log domain, and with nothing in it but what may be stored.
pub open spec fn sound_record<P: LogPolicy>(policy: &P, r: RecordView) -> bool {
    &&& in_log_domain(r)
    &&& r matches RecordView::Node(n) ==> n.domain == Some("log"@) && (match n.log {
        Some(LogPayloadView::ErrorSignature(p)) => {
            &&& stored_excerpt(policy, p.template_excerpt)
            &&& p.frames is Some ==> stored_frames(policy, p.frames->0)
        },
        Some(LogPayloadView::LogEvent(p)) => stored_excerpt(policy, p.event_excerpt),
        Some(LogPayloadView::LogOccurrenceBucket(p)) => ascending(p.occurrence_timestamps),
        Some(_) => true,
        None => false,
    })
}

pub open spec fn sound_records<P: LogPolicy>(policy: &P, s: Seq<RecordView>) -> bool {
    forall|i: int| 0 <= i < s.len() ==> sound_record(policy, #[trigger] s[i])
}

/// The occurrence was taken from a message by way of the policy.
pub open spec fn sound_occurrence<P: LogPolicy>(policy: &P, o: OccurrenceView) -> bool {
    &&& exists|m: Seq<char>| o.template == policy.redacted(#[trigger] policy.template(m))
    &&& stored_frames(policy, o.frames)
}

pub open spec fn sound_occurrences<P: LogPolicy>(policy: &P, s: Seq<OccurrenceView>) -> bool {
    forall|i: int| 0 <= i < s.len() ==> sound_occurrence(policy, #[trigger] s[i])
}

proof fn lemma_joined<P: LogPolicy>(policy: &P, a: Seq<RecordView>, b: Seq<RecordView>)
    requires
        sound_records(policy, a),
        sound_records(policy, b),
    ensures
        sound_records(policy, a + b),
{
    assert forall|i: int| 0 <= i < (a + b).len() implies sound_record(
        policy,
        #[trigger] (a + b)[i],
    ) by {
        if i < a.len() {
            assert((a + b)[i] == a[i]);
        } else {
            assert((a + b)[i] == b[i - a.len()]);
        }
    }
}

proof fn lemma_frame_bounded<P: Redactor>(policy: &P, s: Seq<char>)
    ensures
        stored_frame_text(policy, frame_bounded(policy, s)),
{
    law_truncated(policy.redacted(s), FRAME_TEXT_MAX_CHARS as int);
}

/// A backtrace keeps at most the largest number of frames, with bounded, redacted texts.
pub proof fn law_frames_are_bounded<P: Redactor>(policy: &P, root: Seq<char>, ls: Seq<Seq<char>>)
    ensures
        stored_frames(policy, frames_after(policy, root, ls)),
    decreases ls.len(),
{
    if ls.len() > 0 {
        let before = frames_after(policy, root, ls.drop_last());
        law_frames_are_bounded(policy, root, ls.drop_last());
        let frames = frames_after(policy, root, ls);
        assert forall|i: int| 0 <= i < frames.len() implies stored_frame(
            policy,
            #[trigger] frames[i],
        ) by {
            if i < before.len() {
                assert(stored_frame(policy, before[i]));
            }
            match crate::log_graph::frame_header(crate::text::trimmed(ls.last())) {
                Some((n, module)) => {
                    lemma_frame_module(policy, module);
                },
                None => match crate::log_graph::frame_location(crate::text::trimmed(ls.last())) {
                    Some((file, l)) => {
                        lemma_frame_path(policy, root, file);
                    },
                    None => {},
                },
            }
        }
    }
}

proof fn lemma_frame_module<P: Redactor>(policy: &P, text: Seq<char>)
    ensures
        crate::log_graph::frame_module(policy, text) matches Some(m) ==> stored_frame_text(
            policy,
            m,
        ),
{
    assert forall|s: Seq<char>| stored_frame_text(policy, #[trigger] frame_bounded(policy, s)) by {
        lemma_frame_bounded(policy, s);
    }
}

proof fn lemma_frame_path<P: Redactor>(policy: &P, root: Seq<char>, raw: Seq<char>)
    ensures
        crate::log_graph::frame_path(policy, root, raw) matches Some(p) ==> stored_frame_text(
            policy,
            p,
        ),
{
    assert forall|s: Seq<char>| stored_frame_text(policy, #[trigger] frame_bounded(policy, s)) by {
        lemma_frame_bounded(policy, s);
    }
}

proof fn lemma_plain<P: LogPolicy>(policy: &P, c: ScanContext, events: Seq<EventView>)
    ensures
        sound_occurrences(policy, plain_occurrences(policy, c, events)),
    decreases events.len(),
{
    if events.len() > 0 {
        lemma_plain(policy, c, events.drop_last());
        let e = events.last();
        if let Some(o) = plain_occurrence(policy, c, e) {
            law_frames_are_bounded(policy, replaced(c.root, '\\', '/'), lines_of(e.text));
            assert(o.template == policy.redacted(policy.template(e.text)));
            assert(sound_occurrence(policy, o));
        }
    }
}

proof fn lemma_json<P: LogPolicy>(policy: &P, c: ScanContext, ls: Seq<Seq<char>>)
    ensures
        sound_occurrences(policy, json_occurrences(policy, c, ls)),
    decreases ls.len(),
{
    if ls.len() > 0 {
        lemma_json(policy, c, ls.drop_last());
        if let Some(o) = json_occurrence(policy, c, ls.last(), ls.len() as u64) {
            assert(stored_frames(policy, o.frames));
            assert(sound_occurrence(policy, o));
        }
    }
}

proof fn lemma_group<P: LogPolicy>(
    policy: &P,
    occs: Seq<OccurrenceView>,
    severity: Severity,
    template: Seq<char>,
)
    requires
        sound_occurrences(policy, occs),
    ensures
        sound_occurrences(policy, group_of(occs, severity, template)),
        forall|i: int|
            0 <= i < group_of(occs, severity, template).len() ==> (#[trigger] group_of(
                occs,
                severity,
                template,
            )[i]).template == template,
    decreases occs.len(),
{
    if occs.len() > 0 {
        let rest = occs.drop_last();
        assert forall|i: int| 0 <= i < rest.len() implies sound_occurrence(
            policy,
            #[trigger] rest[i],
        ) by {
            assert(rest[i] == occs[i]);
        }
        lemma_group(policy, rest, severity, template);
        assert(sound_occurrence(policy, occs[occs.len() - 1]));
    }
}

proof fn lemma_framed<P: LogPolicy>(policy: &P, g: Seq<OccurrenceView>)
    requires
        sound_occurrences(policy, g),
    ensures
        framed(g) matches Some(o) ==> stored_frames(policy, o.frames),
    decreases g.len(),
{
    if g.len() > 0 {
        let rest = g.drop_last();
        assert forall|i: int| 0 <= i < rest.len() implies sound_occurrence(
            policy,
            #[trigger] rest[i],
        ) by {
            assert(rest[i] == g[i]);
        }
        lemma_framed(policy, rest);
        assert(sound_occurrence(policy, g[g.len() - 1]));
    }
}

proof fn lemma_edge<P: LogPolicy>(
    policy: &P,
    label: crate::ir::EdgeLabel,
    repository_id: Seq<char>,
    source: Seq<char>,
    target: Seq<char>,
    summary: Seq<char>,
)
    ensures
        sound_record(policy, log_edge_of(label, repository_id, source, target, summary)),
{
    assert forall|parts: Seq<Seq<char>>| crate::ir::id_domain(#[trigger] crate::ir::log_id(parts))
        == Some("log"@) by {
        lemma_log_id_domain(parts);
    }
}

proof fn lemma_examples<P: LogPolicy>(
    policy: &P,
    v: SignatureView,
    g: Seq<OccurrenceView>,
    times: Seq<Seq<char>>,
)
    requires
        stored_excerpt(policy, v.excerpt()),
    ensures
        sound_records(policy, examples(v, g, times)),
        examples(v, g, times).len() <= 3 * times.len(),
    decreases times.len(),
{
    if times.len() > 0 {
        lemma_examples(policy, v, g, times.drop_last());
        if let Some(o) = example_at(g, times.last()) {
            let records = event_records(v, times.last(), o);
            let hash = crate::ir::text_digest(o.template);
            let parts = seq!["log_event"@, v.repository_id, v.id(), times.last(), hash];
            lemma_log_id_domain(parts);
            let id = crate::ir::log_id(parts);
            lemma_edge(
                policy,
                crate::ir::EdgeLabel::FingerprintedAs,
                v.repository_id,
                id,
                v.id(),
                "LogEvent fingerprinted as ErrorSignature"@,
            );
            lemma_edge(
                policy,
                crate::ir::EdgeLabel::CapturedFrom,
                v.repository_id,
                id,
                v.source_id,
                "LogEvent captured from LogSource"@,
            );
            assert(sound_record(policy, records[0]));
            assert(sound_record(policy, records[1]));
            assert(sound_record(policy, records[2]));
            lemma_joined(policy, examples(v, g, times.drop_last()), records);
        }
    }
}

proof fn lemma_buckets<P: LogPolicy>(
    policy: &P,
    v: SignatureView,
    g: Seq<OccurrenceView>,
    marks: Seq<Seq<char>>,
)
    ensures
        sound_records(policy, buckets(v, g, marks)),
    decreases marks.len(),
{
    if marks.len() > 0 {
        lemma_buckets(policy, v, g, marks.drop_last());
        let start = marks.last();
        let b = in_bucket(g, start);
        let records = bucket_records(v, start, b);
        let parts = seq![
            "log_occurrence_bucket"@,
            v.repository_id,
            v.id(),
            start,
            BUCKET_WIDTH@,
            v.source_id,
        ];
        lemma_log_id_domain(parts);
        law_sorted_texts(precise_times(b));
        lemma_edge(
            policy,
            crate::ir::EdgeLabel::Aggregates,
            v.repository_id,
            crate::ir::log_id(parts),
            v.id(),
            "LogOccurrenceBucket aggregates ErrorSignature"@,
        );
        assert(sound_record(policy, records[0]));
        assert(sound_record(policy, records[1]));
        lemma_joined(policy, buckets(v, g, marks.drop_last()), records);
    }
}

proof fn lemma_signature<P: LogPolicy>(policy: &P, v: SignatureView, g: Seq<OccurrenceView>)
    requires
        sound_occurrences(policy, g),
        exists|m: Seq<char>| v.template == policy.redacted(#[trigger] policy.template(m)),
    ensures
        sound_records(policy, signature_records(v, g)),
{
    let m = choose|m: Seq<char>| v.template == policy.redacted(#[trigger] policy.template(m));
    law_truncated(v.template, EXCERPT_MAX_CHARS as int);
    assert(v.excerpt() == truncated(
        policy.redacted(policy.template(m)),
        EXCERPT_MAX_CHARS as int,
    ));
    assert(stored_excerpt(policy, v.excerpt()));
    lemma_framed(policy, g);
    lemma_log_id_domain(
        seq![
            "error_signature"@,
            v.repository_id,
            FINGERPRINT_ALGORITHM@,
            v.template,
            v.severity.name(),
        ],
    );
    let head = seq![
        signature_node(v, g),
        log_edge_of(
            crate::ir::EdgeLabel::CapturedFrom,
            v.repository_id,
            v.id(),
            v.source_id,
            "ErrorSignature captured from LogSource"@,
        ),
    ];
    lemma_edge(
        policy,
        crate::ir::EdgeLabel::CapturedFrom,
        v.repository_id,
        v.id(),
        v.source_id,
        "ErrorSignature captured from LogSource"@,
    );
    assert(group_frames(g) matches Some(f) ==> stored_frames(policy, f));
    assert(sound_record(policy, head[0]));
    assert(sound_record(policy, head[1]));
    assert(sound_records(policy, head));
    lemma_examples(policy, v, g, kept_times(g));
    lemma_buckets(policy, v, g, distinct(bucket_starts(g)));
    lemma_joined(policy, head, examples(v, g, kept_times(g)));
    lemma_joined(
        policy,
        head + examples(v, g, kept_times(g)),
        buckets(v, g, distinct(bucket_starts(g))),
    );
}

proof fn lemma_templates_with<P: LogPolicy>(
    policy: &P,
    occs: Seq<OccurrenceView>,
    severity: Severity,
    t: Seq<char>,
)
    requires
        sound_occurrences(policy, occs),
        templates_with(occs, severity).contains(t),
    ensures
        exists|m: Seq<char>| t == policy.redacted(#[trigger] policy.template(m)),
    decreases occs.len(),
{
    if occs.len() > 0 {
        let rest = occs.drop_last();
        assert forall|i: int| 0 <= i < rest.len() implies sound_occurrence(
            policy,
            #[trigger] rest[i],
        ) by {
            assert(rest[i] == occs[i]);
        }
        let before = templates_with(rest, severity);
        let all = templates_with(occs, severity);
        let i = choose|i: int| 0 <= i < all.len() && all[i] == t;
        if i < before.len() {
            assert(before[i] == t);
            lemma_templates_with(policy, rest, severity, t);
        } else {
            assert(sound_occurrence(policy, occs[occs.len() - 1]));
        }
    }
}

proof fn lemma_templates<P: LogPolicy>(
    policy: &P,
    src: SourceView,
    occs: Seq<OccurrenceView>,
    severity: Severity,
    templates: Seq<Seq<char>>,
)
    requires
        sound_occurrences(policy, occs),
        forall|i: int|
            0 <= i < templates.len() ==> templates_with(occs, severity).contains(
                #[trigger] templates[i],
            ),
    ensures
        sound_records(policy, records_of_templates(src, occs, severity, templates)),
    decreases templates.len(),
{
    if templates.len() > 0 {
        let rest = templates.drop_last();
        assert forall|i: int| 0 <= i < rest.len() implies templates_with(occs, severity).contains(
            #[trigger] rest[i],
        ) by {
            assert(rest[i] == templates[i]);
        }
        lemma_templates(policy, src, occs, severity, rest);
        let t = templates.last();
        assert(t == templates[templates.len() - 1]);
        lemma_templates_with(policy, occs, severity, t);
        lemma_group(policy, occs, severity, t);
        lemma_signature(policy, signature_of(src, severity, t), group_of(occs, severity, t));
        lemma_joined(
            policy,
            records_of_templates(src, occs, severity, rest),
            signature_records(signature_of(src, severity, t), group_of(occs, severity, t)),
        );
    }
}

proof fn lemma_severity<P: LogPolicy>(
    policy: &P,
    src: SourceView,
    occs: Seq<OccurrenceView>,
    severity: Severity,
)
    requires
        sound_occurrences(policy, occs),
    ensures
        sound_records(policy, records_of_severity(src, occs, severity)),
{
    let templates = distinct(templates_with(occs, severity));
    law_distinct(templates_with(occs, severity));
    assert forall|i: int| 0 <= i < templates.len() implies templates_with(occs, severity).contains(
        #[trigger] templates[i],
    ) by {
        assert(templates.contains(templates[i]));
    }
    lemma_templates(policy, src, occs, severity, templates);
}

proof fn lemma_source_node<P: LogPolicy>(
    policy: &P,
    repository_id: Seq<char>,
    path: Seq<char>,
    bytes: Seq<u8>,
    text: Seq<char>,
    transaction_time: Seq<char>,
)
    ensures
        sound_records(
            policy,
            seq![source_node(repository_id, path, bytes, text, transaction_time)],
        ),
{
    let hash = crate::ir::blake3_hex(bytes);
    lemma_log_id_domain(seq!["log_source"@, repository_id, path, hash]);
    let node = source_node(repository_id, path, bytes, text, transaction_time);
    assert(sound_record(policy, node));
}

/// Raw log text never enters the graph. Every record of a scan is in the log domain, every excerpt
/// was normalized, redacted and cut to length, and frames are bounded in number and in size.
pub proof fn law_raw_text_stays_out<P: LogPolicy>(
    policy: &P,
    bytes: Seq<u8>,
    path: Seq<char>,
    root: Seq<char>,
    repository_id: Seq<char>,
    transaction_time: Seq<char>,
    retain: bool,
)
    ensures
        sound_records(
            policy,
            scanned(policy, bytes, path, root, repository_id, transaction_time, retain).records,
        ),
{
    let text = vstd::utf8::decode_utf8(bytes);
    let c = ScanContext {
        root,
        transaction_time,
        transaction_hour: crate::log_graph::hour_of(transaction_time),
    };
    let occs = occurrences(policy, c, text);
    lemma_plain(policy, c, events_of(lines_of(text)));
    lemma_json(policy, c, lines_of(text));
    let hash = crate::ir::blake3_hex(bytes);
    let src = SourceView {
        repository_id,
        source_id: source_identity(repository_id, path, hash),
    };
    lemma_severity(policy, src, occs, Severity::Error);
    lemma_severity(policy, src, occs, Severity::Fatal);
    lemma_severity(policy, src, occs, Severity::Warn);
    let (a, b, d) = (
        records_of_severity(src, occs, Severity::Error),
        records_of_severity(src, occs, Severity::Fatal),
        records_of_severity(src, occs, Severity::Warn),
    );
    lemma_joined(policy, a, b);
    lemma_joined(policy, a + b, d);
    let head = seq![source_node(repository_id, path, bytes, text, transaction_time)];
    lemma_source_node(policy, repository_id, path, bytes, text, transaction_time);
    lemma_joined(policy, head, occurrence_records(src, occs));
}

/// Keeping the scanned text changes nothing else.
pub proof fn law_retention_only_adds_the_text<P: LogPolicy>(
    policy: &P,
    bytes: Seq<u8>,
    path: Seq<char>,
    root: Seq<char>,
    repository_id: Seq<char>,
    transaction_time: Seq<char>,
)
    ensures
        ({
            let kept = scanned(policy, bytes, path, root, repository_id, transaction_time, true);
            let plain = scanned(policy, bytes, path, root, repository_id, transaction_time, false);
            &&& kept.records == plain.records
            &&& kept.diagnostics == plain.diagnostics
            &&& kept.source_format_version == plain.source_format_version
            &&& kept.normalized_source == Some(vstd::utf8::decode_utf8(bytes))
            &&& plain.normalized_source is None
        }),
{
}

// ── The path of the source ──────────────────────────────────────────────────

/// The path of a log is made of names alone: it is not empty, starts with no slash, and has no `.`
/// or `..` in it.
pub proof fn law_source_path_is_plain(root: Seq<char>, log: Seq<char>)
    ensures
        plain_relative(relative_path(root, log)),
        relative_path(root, log).len() > 0,
        relative_path(root, log)[0] != '/',
{
    let parts = path_parts(log);
    let all = below(root, log);
    let keep = |p: Seq<char>| is_name(p);
    let rest = all.filter(keep);
    lemma_names_are_plain(log);
    lemma_filter_members(all, keep);
    assert forall|i: int| 0 <= i < rest.len() implies plain_name(#[trigger] rest[i]) by {
        let j = choose|j: int| 0 <= j < all.len() && all[j] == rest[i];
        let k = j + parts.len() - all.len();
        assert(parts[k] == all[j]);
    }
    let out = relative_path(root, log);
    if joined(rest, "/"@).len() > 0 {
        assert(plain_relative(out));
    } else {
        reveal_strlit("log");
        reveal_strlit("/");
        reveal_strlit(".");
        reveal_strlit("..");
        let name = match file_name(log) {
            Some(name) => {
                assert(parts[parts.len() - 1] == name);
                name
            },
            None => {
                assert("log"@.len() == 3);
                "log"@
            },
        };
        assert(plain_name(name));
        let one = seq![name];
        assert(joined(one, "/"@) == name);
        assert(plain_relative(out));
    }
    law_plain_relative(out);
}

/// A scan records the path that it was given for its log.
pub proof fn law_scan_records_its_path<P: LogPolicy>(
    policy: &P,
    bytes: Seq<u8>,
    path: Seq<char>,
    root: Seq<char>,
    repository_id: Seq<char>,
    transaction_time: Seq<char>,
    retain: bool,
)
    ensures
        scanned(policy, bytes, path, root, repository_id, transaction_time, retain).records[0]
            matches RecordView::Node(n) && (n.log matches Some(LogPayloadView::LogSource(p))
            && p.source_relative_path == path),
{
}

// ── Counts ──────────────────────────────────────────────────────────────────

proof fn lemma_in_bucket(g: Seq<OccurrenceView>, start: Seq<char>)
    ensures
        in_bucket(g, start).len() == crate::order::occurrences(bucket_starts(g), start),
    decreases g.len(),
{
    if g.len() > 0 {
        lemma_in_bucket(g.drop_last(), start);
        assert(bucket_starts(g).drop_last() =~= bucket_starts(g.drop_last()));
    }
}

/// The number of occurrences in the given hours.
pub open spec fn bucketed(g: Seq<OccurrenceView>, marks: Seq<Seq<char>>) -> nat
    decreases marks.len(),
{
    if marks.len() == 0 {
        0
    } else {
        bucketed(g, marks.drop_last()) + in_bucket(g, marks.last()).len()
    }
}

proof fn lemma_bucketed(g: Seq<OccurrenceView>, marks: Seq<Seq<char>>)
    ensures
        bucketed(g, marks) == occurrences_of(marks, bucket_starts(g)),
    decreases marks.len(),
{
    if marks.len() > 0 {
        lemma_bucketed(g, marks.drop_last());
        lemma_in_bucket(g, marks.last());
    }
}

/// The hourly buckets of a signature hold each of its occurrences once.
pub proof fn law_buckets_add_up(g: Seq<OccurrenceView>)
    ensures
        bucketed(g, distinct(bucket_starts(g))) == g.len(),
{
    lemma_bucketed(g, distinct(bucket_starts(g)));
    law_occurrences_add_up(bucket_starts(g));
}

/// A bucket lists one instant for every occurrence that it counts, in ascending order.
pub proof fn law_bucket_lists_what_it_counts(
    v: SignatureView,
    start: Seq<char>,
    b: Seq<OccurrenceView>,
)
    requires
        b.len() <= u64::MAX,
    ensures
        bucket_records(v, start, b)[0] matches RecordView::Node(n) && (n.log matches Some(
            LogPayloadView::LogOccurrenceBucket(p),
        ) && p.occurrence_count == p.occurrence_timestamps.len() && ascending(
            p.occurrence_timestamps,
        )),
{
    law_sorted_texts(precise_times(b));
}

proof fn lemma_group_len(occs: Seq<OccurrenceView>, severity: Severity, t: Seq<char>)
    ensures
        group_of(occs, severity, t).len() == crate::order::occurrences(
            templates_with(occs, severity),
            t,
        ),
    decreases occs.len(),
{
    if occs.len() > 0 {
        lemma_group_len(occs.drop_last(), severity, t);
        if occs.last().severity == severity {
            assert(templates_with(occs, severity).drop_last() =~= templates_with(
                occs.drop_last(),
                severity,
            ));
        }
    }
}

/// The number of occurrences of the given signatures of a severity.
pub open spec fn grouped(
    occs: Seq<OccurrenceView>,
    severity: Severity,
    templates: Seq<Seq<char>>,
) -> nat
    decreases templates.len(),
{
    if templates.len() == 0 {
        0
    } else {
        grouped(occs, severity, templates.drop_last()) + group_of(
            occs,
            severity,
            templates.last(),
        ).len()
    }
}

proof fn lemma_grouped(occs: Seq<OccurrenceView>, severity: Severity, templates: Seq<Seq<char>>)
    ensures
        grouped(occs, severity, templates) == occurrences_of(
            templates,
            templates_with(occs, severity),
        ),
    decreases templates.len(),
{
    if templates.len() > 0 {
        lemma_grouped(occs, severity, templates.drop_last());
        lemma_group_len(occs, severity, templates.last());
    }
}

/// The number of occurrences in all signatures of a severity.
pub open spec fn signed(occs: Seq<OccurrenceView>, severity: Severity) -> nat {
    grouped(occs, severity, distinct(templates_with(occs, severity)))
}

proof fn lemma_severities(occs: Seq<OccurrenceView>)
    ensures
        templates_with(occs, Severity::Error).len() + templates_with(occs, Severity::Fatal).len()
            + templates_with(occs, Severity::Warn).len() == occs.len(),
    decreases occs.len(),
{
    if occs.len() > 0 {
        lemma_severities(occs.drop_last());
    }
}

/// Every occurrence counts towards exactly one signature.
pub proof fn law_signatures_add_up(occs: Seq<OccurrenceView>)
    ensures
        signed(occs, Severity::Error) + signed(occs, Severity::Fatal) + signed(occs, Severity::Warn)
            == occs.len(),
{
    lemma_severities(occs);
    lemma_grouped(occs, Severity::Error, distinct(templates_with(occs, Severity::Error)));
    lemma_grouped(occs, Severity::Fatal, distinct(templates_with(occs, Severity::Fatal)));
    lemma_grouped(occs, Severity::Warn, distinct(templates_with(occs, Severity::Warn)));
    law_occurrences_add_up(templates_with(occs, Severity::Error));
    law_occurrences_add_up(templates_with(occs, Severity::Fatal));
    law_occurrences_add_up(templates_with(occs, Severity::Warn));
}

/// Examples are capped, and never in silence: where some are dropped, a diagnostic says how many.
pub proof fn law_dropped_examples_are_reported(v: SignatureView, g: Seq<OccurrenceView>)
    requires
        g.len() <= u64::MAX,
    ensures
        kept_times(g).len() <= DEFAULT_EXEMPLAR_CAP,
        cap_diagnostics(v, g).len() == 0 ==> kept_times(g) == seen_times(g),
        cap_diagnostics(v, g).len() > 0 ==> cap_diagnostics(v, g).len() == 1 && cap_diagnostics(
            v,
            g,
        )[0].kept == kept_times(g).len() && cap_diagnostics(v, g)[0].kept + cap_diagnostics(
            v,
            g,
        )[0].dropped == seen_times(g).len(),
{
    lemma_distinct_len(valid_times(g));
}

proof fn lemma_distinct_len(s: Seq<Seq<char>>)
    ensures
        distinct(s).len() <= s.len(),
    decreases s.len(),
{
    if s.len() > 0 {
        lemma_distinct_len(s.drop_last());
        lemma_set_insert_len(distinct(s.drop_last()), s.last());
    }
}

proof fn lemma_set_insert_len(s: Seq<Seq<char>>, x: Seq<char>)
    ensures
        crate::order::set_insert(s, x).len() <= s.len() + 1,
    decreases s.len(),
{
    if s.len() > 0 {
        lemma_set_insert_len(s.drop_last(), x);
    }
}

/// A signature is first seen no later, and last seen no earlier, than at any of its occurrences.
pub proof fn law_seen_times_bound_the_occurrences(g: Seq<OccurrenceView>, i: int)
    requires
        0 <= i < g.len(),
    ensures
        text_le(first_seen(g), g[i].times.valid_time),
        text_le(g[i].times.valid_time, last_seen(g)),
{
    let all = seen_times(g);
    let t = g[i].times.valid_time;
    law_distinct(valid_times(g));
    assert(valid_times(g)[i] == t);
    assert(valid_times(g).contains(t));
    assert(all.contains(t));
    let k = choose|k: int| 0 <= k < all.len() && all[k] == t;
    lemma_text_le_refl(t);
    if k > 0 {
        assert(text_le(all[0], all[k]));
    }
    if k < all.len() - 1 {
        assert(text_le(all[k], all[all.len() - 1]));
    }
}

} // verus!
