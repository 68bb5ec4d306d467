//! Turns a captured log into graph records.
//!
//! A scan yields one source node, one signature node per distinct error, a few example events per
//! signature, and one bucket per signature and hour. Every stored text has been normalized, redacted
//! and cut to a bounded length. The output depends on the bytes of the log and the arguments alone.
use vstd::prelude::*;

use crate::duplicate::{duplicate_all, duplicate_opt, lemma_push, Duplicate};
use crate::ir::{
    blake3_digest, blake3_hex, digest_text, log_id, log_stable_id, text_digest, EdgeLabel,
    EdgeRecord, EdgeRecordView, ErrorSignaturePayload, ErrorSignaturePayloadView, GraphRecord,
    LogEventPayload, LogEventPayloadView, LogOccurrenceBucketPayload,
    LogOccurrenceBucketPayloadView, LogPayload, LogPayloadView, LogSourcePayload,
    LogSourcePayloadView, NodeKind, NodeRecord, NodeRecordView, Producer, ProducerComponent,
    ProducerComponentView, ProducerKind, ProducerView, RecordView, StackFrame, StackFrameView,
    EGREGORE_VERSION, LOG_SCHEMA_VERSION, REDACTION_POLICY_VERSION,
};
use crate::json::{find_text_member, object_members, read_object, text_member};
use crate::order::{distinct, distinct_texts};
use crate::path::{
    check_name, file_name, find_file_name, is_below, is_name, path_parts, split_path,
    starts_with_parts,
};
use crate::policy::{LogPolicy, Redactor};
use crate::text::{
    all_digits, cat, cat3, cat4, cat6, chars_of, contains, decimal, decimal_of, digits_only, ends, ends_with, find,
    has, is_digit, join, joined, left_trimmed, lines, lines_of, lower_ascii, lowered, number_u32,
    parse_u32, parts3, parts4, parts5, parts6, replace_char, replaced, rsplit_once, same, slice_text,
    sort_texts, sorted_texts, split, split_first, split_last, split_on, split_once, starts,
    starts_with, strip_prefix, trim, trim_leading, trim_start, trimmed, truncate_chars, truncated,
    without_leading, without_prefix, words, words_of,
};
use crate::time::{
    floor_to_hour_start, hour_start, naive_instant, parse_naive, parse_rfc3339, print_utc,
    printable, rfc3339_instant, utc_text, Instant,
};

verus! {

/// How signatures are told apart.
pub const FINGERPRINT_ALGORITHM: &'static str = "template-v1";

/// The number of example events kept per signature.
pub const DEFAULT_EXEMPLAR_CAP: usize = 5;

/// The width of an occurrence bucket.
pub const BUCKET_WIDTH: &'static str = "1h";

/// The longest stored excerpt, in characters.
pub const EXCERPT_MAX_CHARS: usize = 200;

/// The largest number of frames kept per signature.
pub const MAX_FRAMES: usize = 64;

/// The longest stored text of a frame, in characters.
pub const FRAME_TEXT_MAX_CHARS: usize = 200;

pub const FORMAT_PLAIN_V1: &'static str = "plain-v1";

pub const FORMAT_JSONL_V1: &'static str = "jsonl-v1";

/// Where the time of an event comes from when its line names one.
pub const VALID_TIME_SOURCE_EVENT: &'static str = "log_event_timestamp";

/// Where it comes from when its line names none.
pub const VALID_TIME_SOURCE_INFERRED: &'static str = "inferred_from_transaction_time";

/// Why a log could not be scanned.
#[derive(Debug, PartialEq, Eq)]
pub enum LogScanError {
    /// The file could not be read.
    Read { path: String, source: String },
    /// The bytes are no text log.
    UnrecognizedFormat { detail: String },
}

#[verifier::ext_equal]
pub enum LogScanErrorView {
    Read { path: Seq<char>, source: Seq<char> },
    UnrecognizedFormat { detail: Seq<char> },
}

impl DeepView for LogScanError {
    type V = LogScanErrorView;

    open spec fn deep_view(&self) -> LogScanErrorView {
        match self {
            LogScanError::Read { path, source } => LogScanErrorView::Read {
                path: path@,
                source: source@,
            },
            LogScanError::UnrecognizedFormat { detail } => LogScanErrorView::UnrecognizedFormat {
                detail: detail@,
            },
        }
    }
}

impl LogScanError {
    pub fn message(&self) -> (r: String)
        ensures
            r@ == (match self.deep_view() {
                LogScanErrorView::Read { path, source } => "failed to read log file "@ + path
                    + ": "@ + source,
                LogScanErrorView::UnrecognizedFormat { detail } => "unrecognized log format: "@
                    + detail,
            }),
    {
        match self {
            LogScanError::Read { path, source } => cat4(
                "failed to read log file ",
                path.as_str(),
                ": ",
                source.as_str(),
            ),
            LogScanError::UnrecognizedFormat { detail } => cat(
                "unrecognized log format: ",
                detail.as_str(),
            ),
        }
    }
}

#[derive(Debug, Clone, Copy, PartialEq, Eq, Structural)]
pub enum Severity {
    Fatal,
    Error,
    Warn,
}

impl Severity {
    pub open spec fn name(self) -> Seq<char> {
        match self {
            Severity::Fatal => "fatal"@,
            Severity::Error => "error"@,
            Severity::Warn => "warn"@,
        }
    }

    pub fn as_str(self) -> (r: &'static str)
        ensures
            r@ == self.name(),
    {
        match self {
            Severity::Fatal => "fatal",
            Severity::Error => "error",
            Severity::Warn => "warn",
        }
    }
}

/// A signature had more distinct events than are kept.
#[derive(Debug, PartialEq, Eq)]
pub struct ExemplarCapDiagnostic {
    pub code: String,
    pub signature_id: String,
    pub severity: String,
    pub kept: u64,
    pub dropped: u64,
}

#[verifier::ext_equal]
pub struct ExemplarCapDiagnosticView {
    pub code: Seq<char>,
    pub signature_id: Seq<char>,
    pub severity: Seq<char>,
    pub kept: u64,
    pub dropped: u64,
}

impl DeepView for ExemplarCapDiagnostic {
    type V = ExemplarCapDiagnosticView;

    open spec fn deep_view(&self) -> ExemplarCapDiagnosticView {
        ExemplarCapDiagnosticView {
            code: self.code@,
            signature_id: self.signature_id@,
            severity: self.severity@,
            kept: self.kept,
            dropped: self.dropped,
        }
    }
}

impl Duplicate for ExemplarCapDiagnostic {
    fn duplicate(&self) -> (r: ExemplarCapDiagnostic) {
        ExemplarCapDiagnostic {
            code: self.code.clone(),
            signature_id: self.signature_id.clone(),
            severity: self.severity.clone(),
            kept: self.kept,
            dropped: self.dropped,
        }
    }
}

/// Result of a scan.
#[derive(Debug, PartialEq, Eq)]
pub struct LogScan {
    pub records: Vec<GraphRecord>,
    pub source_format_version: String,
    pub diagnostics: Vec<ExemplarCapDiagnostic>,
    /// The text that was scanned; only where the caller asked for it.
    pub normalized_source: Option<String>,
}

#[verifier::ext_equal]
pub struct LogScanView {
    pub records: Seq<RecordView>,
    pub source_format_version: Seq<char>,
    pub diagnostics: Seq<ExemplarCapDiagnosticView>,
    pub normalized_source: Option<Seq<char>>,
}

impl DeepView for LogScan {
    type V = LogScanView;

    open spec fn deep_view(&self) -> LogScanView {
        LogScanView {
            records: self.records.deep_view(),
            source_format_version: self.source_format_version@,
            diagnostics: self.diagnostics.deep_view(),
            normalized_source: self.normalized_source.deep_view(),
        }
    }
}

/// When an event happened.
#[derive(Debug, PartialEq, Eq)]
pub struct Times {
    pub valid_time: String,
    /// The same instant with nanoseconds.
    pub precise_time: String,
    pub bucket_start: String,
    /// The line named the time.
    pub from_timestamp: bool,
}

#[verifier::ext_equal]
pub struct TimesView {
    pub valid_time: Seq<char>,
    pub precise_time: Seq<char>,
    pub bucket_start: Seq<char>,
    pub from_timestamp: bool,
}

impl DeepView for Times {
    type V = TimesView;

    open spec fn deep_view(&self) -> TimesView {
        TimesView {
            valid_time: self.valid_time@,
            precise_time: self.precise_time@,
            bucket_start: self.bucket_start@,
            from_timestamp: self.from_timestamp,
        }
    }
}

impl Duplicate for Times {
    fn duplicate(&self) -> (r: Times) {
        Times {
            valid_time: self.valid_time.clone(),
            precise_time: self.precise_time.clone(),
            bucket_start: self.bucket_start.clone(),
            from_timestamp: self.from_timestamp,
        }
    }
}

/// One error of the log.
#[derive(Debug, PartialEq, Eq)]
pub struct Occurrence {
    pub severity: Severity,
    pub template: String,
    /// Redaction changed the normalized message.
    pub redacted: bool,
    pub source_line: u64,
    pub times: Times,
    pub frames: Vec<StackFrame>,
}

#[verifier::ext_equal]
pub struct OccurrenceView {
    pub severity: Severity,
    pub template: Seq<char>,
    pub redacted: bool,
    pub source_line: u64,
    pub times: TimesView,
    pub frames: Seq<StackFrameView>,
}

impl DeepView for Occurrence {
    type V = OccurrenceView;

    open spec fn deep_view(&self) -> OccurrenceView {
        OccurrenceView {
            severity: self.severity,
            template: self.template@,
            redacted: self.redacted,
            source_line: self.source_line,
            times: self.times.deep_view(),
            frames: self.frames.deep_view(),
        }
    }
}

impl Duplicate for Occurrence {
    fn duplicate(&self) -> (r: Occurrence) {
        Occurrence {
            severity: self.severity,
            template: self.template.clone(),
            redacted: self.redacted,
            source_line: self.source_line,
            times: self.times.duplicate(),
            frames: duplicate_all(&self.frames),
        }
    }
}

/// A line and the lines that continue it.
#[derive(Debug, PartialEq, Eq)]
pub struct Event {
    pub start_line: u64,
    pub header: String,
    pub text: String,
}

#[verifier::ext_equal]
pub struct EventView {
    pub start_line: u64,
    pub header: Seq<char>,
    pub text: Seq<char>,
}

impl DeepView for Event {
    type V = EventView;

    open spec fn deep_view(&self) -> EventView {
        EventView {
            start_line: self.start_line,
            header: self.header@,
            text: self.text@,
        }
    }
}

impl Duplicate for Event {
    fn duplicate(&self) -> (r: Event) {
        Event {
            start_line: self.start_line,
            header: self.header.clone(),
            text: self.text.clone(),
        }
    }
}

// ── Producer ────────────────────────────────────────────────────────────────

pub open spec fn component(name: Seq<char>, version: Seq<char>) -> ProducerComponentView {
    ProducerComponentView { name, version }
}

pub open spec fn importer_producer(format: Seq<char>, started_at: Seq<char>) -> ProducerView {
    ProducerView {
        egregore_version: EGREGORE_VERSION@,
        egregore_git: None,
        producer_kind: ProducerKind::LogImporter,
        producer_components: seq![
            component("fingerprint_algorithm"@, FINGERPRINT_ALGORITHM@),
            component("importer_schema_version"@, decimal_of(LOG_SCHEMA_VERSION as nat)),
            component("source_format_version"@, format),
        ],
        producer_started_at: started_at,
    }
}

/// The producer of log records; its components are ordered by name.
pub fn log_importer_producer(
    source_format_version: &str,
    producer_started_at: &str,
) -> (r: Producer)
    ensures
        r.deep_view() == importer_producer(source_format_version@, producer_started_at@),
{
    let components: Vec<ProducerComponent> = vec![
        ProducerComponent {
            name: "fingerprint_algorithm".to_owned(),
            version: FINGERPRINT_ALGORITHM.to_owned(),
        },
        ProducerComponent {
            name: "importer_schema_version".to_owned(),
            version: decimal(LOG_SCHEMA_VERSION as u64),
        },
        ProducerComponent {
            name: "source_format_version".to_owned(),
            version: source_format_version.to_owned(),
        },
    ];
    let r: Producer = Producer {
        egregore_version: EGREGORE_VERSION.to_owned(),
        egregore_git: None,
        producer_kind: ProducerKind::LogImporter,
        producer_components: components,
        producer_started_at: producer_started_at.to_owned(),
    };
    assert(r.deep_view().producer_components =~= importer_producer(
        source_format_version@,
        producer_started_at@,
    ).producer_components);
    r
}

// ── Severity ────────────────────────────────────────────────────────────────

/// The severity that a plain line names.
pub open spec fn text_severity(s: Seq<char>) -> Option<Severity> {
    if has(s, "panic"@) || has(s, "FATAL"@) {
        Some(Severity::Fatal)
    } else if has(s, "ERROR"@) {
        Some(Severity::Error)
    } else if has(s, "WARN"@) {
        Some(Severity::Warn)
    } else {
        None
    }
}

pub fn severity_from_text(text: &str) -> (r: Option<Severity>)
    ensures
        r == text_severity(text@),
{
    if contains(text, "panic") || contains(text, "FATAL") {
        Some(Severity::Fatal)
    } else if contains(text, "ERROR") {
        Some(Severity::Error)
    } else if contains(text, "WARN") {
        Some(Severity::Warn)
    } else {
        None
    }
}

/// The severity that a structured level names, in any case.
pub open spec fn level_severity(level: Seq<char>) -> Option<Severity> {
    let l = lowered(level);
    if l == "fatal"@ || l == "panic"@ || l == "critical"@ || l == "crit"@ {
        Some(Severity::Fatal)
    } else if l == "error"@ || l == "err"@ {
        Some(Severity::Error)
    } else if l == "warn"@ || l == "warning"@ {
        Some(Severity::Warn)
    } else {
        None
    }
}

pub fn severity_from_level(level: &str) -> (r: Option<Severity>)
    ensures
        r == level_severity(level@),
{
    let lower: String = lower_ascii(level);
    let l: &str = lower.as_str();
    if same(l, "fatal") || same(l, "panic") || same(l, "critical") || same(l, "crit") {
        Some(Severity::Fatal)
    } else if same(l, "error") || same(l, "err") {
        Some(Severity::Error)
    } else if same(l, "warn") || same(l, "warning") {
        Some(Severity::Warn)
    } else {
        None
    }
}

// ── Bytes and lines ─────────────────────────────────────────────────────────

/// The bytes with every line ending as a line feed.
pub open spec fn line_fed(raw: Seq<u8>) -> Seq<u8>
    decreases raw.len(),
{
    if raw.len() == 0 {
        raw
    } else if raw[0] == 13 {
        seq![10u8] + line_fed(
            if raw.len() > 1 && raw[1] == 10 {
                raw.skip(2)
            } else {
                raw.skip(1)
            },
        )
    } else {
        seq![raw[0]] + line_fed(raw.skip(1))
    }
}

pub fn normalize_newlines(raw: &[u8]) -> (r: Vec<u8>)
    ensures
        r@ == line_fed(raw@),
{
    let mut out: Vec<u8> = Vec::new();
    let mut i: usize = 0;
    assert(raw@.skip(0) =~= raw@);
    assert(out@ + line_fed(raw@) =~= line_fed(raw@));
    while i < raw.len()
        invariant
            i <= raw@.len(),
            out@ + line_fed(raw@.skip(i as int)) == line_fed(raw@),
        decreases raw.len() - i,
    {
        let ghost rest = raw@.skip(i as int);
        let ghost before = out@;
        if raw[i] == 13 {
            out.push(10);
            if raw.len() - i > 1 && raw[i + 1] == 10 {
                proof {
                    assert(rest.skip(2) =~= raw@.skip(i + 2));
                    assert(out@ + line_fed(raw@.skip(i + 2)) =~= before + line_fed(rest));
                }
                i += 1;
            } else {
                proof {
                    assert(rest.skip(1) =~= raw@.skip(i + 1));
                    assert(out@ + line_fed(raw@.skip(i + 1)) =~= before + line_fed(rest));
                }
            }
        } else {
            out.push(raw[i]);
            proof {
                assert(rest.skip(1) =~= raw@.skip(i + 1));
                assert(out@ + line_fed(raw@.skip(i + 1)) =~= before + line_fed(rest));
            }
        }
        i += 1;
    }
    assert(out@ + line_fed(raw@.skip(raw@.len() as int)) =~= out@);
    out
}

/// No carriage return is left after normalization.
pub proof fn law_line_fed_has_no_cr(raw: Seq<u8>)
    ensures
        forall|i: int| 0 <= i < line_fed(raw).len() ==> line_fed(raw)[i] != 13,
        line_fed(raw).len() <= raw.len(),
    decreases raw.len(),
{
    if raw.len() > 0 {
        if raw[0] == 13 && raw.len() > 1 && raw[1] == 10 {
            law_line_fed_has_no_cr(raw.skip(2));
        } else {
            law_line_fed_has_no_cr(raw.skip(1));
        }
    }
}

proof fn lemma_line_fed_identity(raw: Seq<u8>)
    requires
        forall|i: int| 0 <= i < raw.len() ==> raw[i] != 13,
    ensures
        line_fed(raw) == raw,
    decreases raw.len(),
{
    if raw.len() > 0 {
        lemma_line_fed_identity(raw.skip(1));
        assert(seq![raw[0]] + raw.skip(1) =~= raw);
    }
}

/// Normalizing line endings twice is normalizing them once.
pub proof fn law_line_fed_idempotent(raw: Seq<u8>)
    ensures
        line_fed(line_fed(raw)) == line_fed(raw),
{
    law_line_fed_has_no_cr(raw);
    lemma_line_fed_identity(line_fed(raw));
}

/// The text of the error that `str::from_utf8` reports.
pub uninterp spec fn utf8_error_text(bytes: Seq<u8>) -> Seq<char>;

/// `std::str::from_utf8`: succeeds exactly on valid UTF-8, with the characters that the bytes
/// encode; else the text of the error depends on the bytes alone.
#[verifier::external_body]
pub(crate) fn decode_text(bytes: &[u8]) -> (r: Result<String, String>)
    ensures
        (match r {
            Ok(s) => vstd::utf8::valid_utf8(bytes@) && s@ == vstd::utf8::decode_utf8(bytes@),
            Err(e) => !vstd::utf8::valid_utf8(bytes@) && e@ == utf8_error_text(bytes@),
        }),
{
    match std::str::from_utf8(bytes) {
        Ok(s) => Ok(s.to_owned()),
        Err(e) => Err(e.to_string()),
    }
}

fn has_nul(bytes: &Vec<u8>) -> (r: bool)
    ensures
        r == bytes@.contains(0u8),
{
    let mut i: usize = 0;
    while i < bytes.len()
        invariant
            i <= bytes.len(),
            forall|k: int| 0 <= k < i ==> bytes@[k] != 0,
        decreases bytes.len() - i,
    {
        if bytes[i] == 0 {
            assert(bytes@[i as int] == 0);
            return true;
        }
        i += 1;
    }
    false
}

// ── Format ──────────────────────────────────────────────────────────────────

pub open spec fn is_json_object(line: Seq<char>) -> bool {
    object_members(line) is Some
}

pub open spec fn is_blank(line: Seq<char>) -> bool {
    trimmed(line).len() == 0
}

/// Every line that is not blank is a JSON object.
pub open spec fn only_objects(ls: Seq<Seq<char>>) -> bool {
    forall|i: int|
        0 <= i < ls.len() ==> is_blank(#[trigger] ls[i]) || is_json_object(trimmed(ls[i]))
}

pub open spec fn any_content(ls: Seq<Seq<char>>) -> bool {
    exists|i: int| 0 <= i < ls.len() && !is_blank(#[trigger] ls[i])
}

pub open spec fn is_jsonl(text: Seq<char>) -> bool {
    only_objects(lines_of(text)) && any_content(lines_of(text))
}

pub open spec fn format_of(text: Seq<char>) -> Seq<char> {
    if is_jsonl(text) {
        FORMAT_JSONL_V1@
    } else {
        FORMAT_PLAIN_V1@
    }
}

fn detect_jsonl(ls: &Vec<String>) -> (r: bool)
    ensures
        r == (only_objects(ls.deep_view()) && any_content(ls.deep_view())),
{
    let ghost all = ls.deep_view();
    let mut seen: bool = false;
    let mut i: usize = 0;
    while i < ls.len()
        invariant
            i <= ls.len(),
            all == ls.deep_view(),
            forall|k: int|
                0 <= k < i ==> is_blank(#[trigger] all[k]) || is_json_object(trimmed(all[k])),
            seen == exists|k: int| 0 <= k < i && !is_blank(#[trigger] all[k]),
        decreases ls.len() - i,
    {
        assert(all[i as int] == ls@[i as int]@);
        let line: String = trim(ls[i].as_str());
        if !line.as_str().is_empty() {
            assert(!is_blank(all[i as int]));
            seen = true;
            if read_object(line.as_str()).is_none() {
                return false;
            }
        }
        i += 1;
    }
    seen
}

/// Tells a log of one JSON object per line from a plain one.
pub fn detect_format(text: &str) -> (r: &'static str)
    ensures
        r@ == format_of(text@),
{
    if detect_jsonl(&lines(text)) {
        FORMAT_JSONL_V1
    } else {
        FORMAT_PLAIN_V1
    }
}

// ── Times ───────────────────────────────────────────────────────────────────

pub open spec fn or_instant(a: Option<Instant>, b: Option<Instant>) -> Option<Instant> {
    if a is Some {
        a
    } else {
        b
    }
}

/// The instant that a line names at its front: an RFC 3339 timestamp, or a date and a time in one
/// word or in two, taken as UTC.
pub open spec fn leading_instant(line: Seq<char>) -> Option<Instant> {
    let ws = words_of(line);
    let one = if ws.len() > 0 {
        rfc3339_instant(ws[0])
    } else {
        None
    };
    let two = if ws.len() > 1 {
        let both = ws[0] + " "@ + ws[1];
        or_instant(
            naive_instant(both, "%Y-%m-%d %H:%M:%S%.f"@),
            naive_instant(both, "%Y-%m-%d %H:%M:%S"@),
        )
    } else {
        None
    };
    let bare = if ws.len() > 0 {
        or_instant(
            naive_instant(ws[0], "%Y-%m-%dT%H:%M:%S%.f"@),
            naive_instant(ws[0], "%Y-%m-%dT%H:%M:%S"@),
        )
    } else {
        None
    };
    or_instant(one, or_instant(two, bare))
}

pub fn parse_timestamp(header: &str) -> (r: Option<Instant>)
    ensures
        r == leading_instant(header@),
        r matches Some(t) ==> printable(t),
{
    let ws: Vec<String> = words(header);
    let ghost all = ws.deep_view();
    if ws.len() == 0 {
        return None;
    }
    let first: &str = ws[0].as_str();
    assert(all[0] == first@);
    let one: Option<Instant> = parse_rfc3339(first);
    if one.is_some() {
        return one;
    }
    if ws.len() > 1 {
        assert(all[1] == ws@[1]@);
        let both: String = cat3(first, " ", ws[1].as_str());
        let two: Option<Instant> = parse_naive(both.as_str(), "%Y-%m-%d %H:%M:%S%.f");
        if two.is_some() {
            return two;
        }
        let two: Option<Instant> = parse_naive(both.as_str(), "%Y-%m-%d %H:%M:%S");
        if two.is_some() {
            return two;
        }
    }
    let bare: Option<Instant> = parse_naive(first, "%Y-%m-%dT%H:%M:%S%.f");
    if bare.is_some() {
        return bare;
    }
    parse_naive(first, "%Y-%m-%dT%H:%M:%S")
}

/// A printed instant.
pub open spec fn printed(t: Instant, precise: bool) -> Seq<char> {
    utc_text(t.secs, t.nanos, precise)->0
}

/// The start of an instant's hour.
pub open spec fn printed_hour(t: Instant) -> Seq<char> {
    utc_text(hour_start(t.secs), 0, false)->0
}

/// The hour of a timestamp; the timestamp itself where it cannot be read.
pub open spec fn hour_of(timestamp: Seq<char>) -> Seq<char> {
    match rfc3339_instant(timestamp) {
        Some(t) => printed_hour(t),
        None => timestamp,
    }
}

fn print(t: Instant, precise: bool) -> (r: String)
    requires
        utc_text(t.secs, t.nanos, precise) is Some,
    ensures
        r@ == printed(t, precise),
{
    match print_utc(t.secs, t.nanos, precise) {
        Some(s) => s,
        None => String::new(),
    }
}

fn print_hour(t: Instant) -> (r: String)
    requires
        printable(t),
    ensures
        r@ == printed_hour(t),
{
    match print_utc(floor_to_hour_start(t.secs), 0, false) {
        Some(s) => s,
        None => String::new(),
    }
}

pub fn floor_to_hour(timestamp: &str) -> (r: String)
    ensures
        r@ == hour_of(timestamp@),
{
    match parse_rfc3339(timestamp) {
        Some(t) => print_hour(t),
        None => timestamp.to_owned(),
    }
}

/// When an event happened: at the instant its line names, or else at the transaction time.
pub open spec fn resolved_time(
    parsed: Option<Instant>,
    transaction_time: Seq<char>,
    transaction_hour: Seq<char>,
) -> TimesView {
    match parsed {
        Some(t) => TimesView {
            valid_time: printed(t, false),
            precise_time: printed(t, true),
            bucket_start: printed_hour(t),
            from_timestamp: true,
        },
        None => TimesView {
            valid_time: transaction_time,
            precise_time: match rfc3339_instant(transaction_time) {
                Some(t) => printed(t, true),
                None => transaction_time,
            },
            bucket_start: transaction_hour,
            from_timestamp: false,
        },
    }
}

pub fn resolve_time(parsed: Option<Instant>, transaction_time: &str, transaction_hour: &str) -> (r:
    Times)
    requires
        parsed matches Some(t) ==> printable(t),
    ensures
        r.deep_view() == resolved_time(parsed, transaction_time@, transaction_hour@),
{
    match parsed {
        Some(t) => Times {
            valid_time: print(t, false),
            precise_time: print(t, true),
            bucket_start: print_hour(t),
            from_timestamp: true,
        },
        None => Times {
            valid_time: transaction_time.to_owned(),
            precise_time: match parse_rfc3339(transaction_time) {
                Some(t) => print(t, true),
                None => transaction_time.to_owned(),
            },
            bucket_start: transaction_hour.to_owned(),
            from_timestamp: false,
        },
    }
}

pub open spec fn time_source(from_timestamp: bool) -> Seq<char> {
    if from_timestamp {
        VALID_TIME_SOURCE_EVENT@
    } else {
        VALID_TIME_SOURCE_INFERRED@
    }
}

fn valid_time_source(from_timestamp: bool) -> (r: &'static str)
    ensures
        r@ == time_source(from_timestamp),
{
    if from_timestamp {
        VALID_TIME_SOURCE_EVENT
    } else {
        VALID_TIME_SOURCE_INFERRED
    }
}

// ── Backtrace frames ────────────────────────────────────────────────────────

/// A line of the form `<n>: module`: the number and the module.
pub open spec fn frame_header(line: Seq<char>) -> Option<(u32, Seq<char>)> {
    match split_first(line, ":"@) {
        Some((num, rest)) => {
            let module = trimmed(rest);
            match number_u32(trimmed(num)) {
                Some(n) => if module.len() > 0 && !starts(module, "at "@) {
                    Some((n, module))
                } else {
                    None
                },
                None => None,
            }
        },
        None => None,
    }
}

pub fn parse_frame_header(line: &str) -> (r: Option<(u32, String)>)
    ensures
        (match r {
            Some((n, m)) => frame_header(line@) == Some((n, m@)),
            None => frame_header(line@) is None,
        }),
{
    match split_once(line, ":") {
        Some((num, rest)) => {
            let module: String = trim(rest.as_str());
            match parse_u32(trim(num.as_str()).as_str()) {
                Some(n) => if !module.as_str().is_empty() && !starts_with(module.as_str(), "at ") {
                    Some((n, module))
                } else {
                    None
                },
                None => None,
            }
        },
        None => None,
    }
}

/// A line of the form `at <file>[:<line>[:<column>]]`: the file and the line.
pub open spec fn frame_location(line: Seq<char>) -> Option<(Seq<char>, Option<u32>)> {
    match without_prefix(line, "at "@) {
        None => None,
        Some(r) => {
            let rest = trimmed(r);
            if rest.len() == 0 {
                None
            } else {
                match split_last(rest, ":"@) {
                    Some((path, tail)) => if all_digits(tail) {
                        match split_last(path, ":"@) {
                            Some((path2, mid)) => if all_digits(mid) {
                                Some((path2, number_u32(mid)))
                            } else {
                                Some((path, number_u32(tail)))
                            },
                            None => Some((path, number_u32(tail))),
                        }
                    } else {
                        Some((rest, None))
                    },
                    None => Some((rest, None)),
                }
            }
        },
    }
}

pub fn parse_frame_location(line: &str) -> (r: Option<(String, Option<u32>)>)
    ensures
        (match r {
            Some((p, l)) => frame_location(line@) == Some((p@, l)),
            None => frame_location(line@) is None,
        }),
{
    let rest: String = match strip_prefix(line, "at ") {
        Some(r) => trim(r.as_str()),
        None => {
            return None;
        },
    };
    if rest.as_str().is_empty() {
        return None;
    }
    match rsplit_once(rest.as_str(), ":") {
        Some((path, tail)) => {
            if digits_only(tail.as_str()) {
                if let Some((path2, mid)) = rsplit_once(path.as_str(), ":") {
                    if digits_only(mid.as_str()) {
                        let l: Option<u32> = parse_u32(mid.as_str());
                        return Some((path2, l));
                    }
                }
                let l: Option<u32> = parse_u32(tail.as_str());
                return Some((path, l));
            }
            Some((rest, None))
        },
        None => Some((rest, None)),
    }
}

pub open spec fn frame_bounded<P: Redactor>(policy: &P, s: Seq<char>) -> Seq<char> {
    truncated(policy.redacted(s), FRAME_TEXT_MAX_CHARS as int)
}

fn bound_frame_text<P: Redactor>(policy: &P, s: &str) -> (r: String)
    ensures
        r@ == frame_bounded(policy, s@),
{
    truncate_chars(policy.redact(s).as_str(), FRAME_TEXT_MAX_CHARS)
}

/// The module text of a frame as it is stored.
pub open spec fn frame_module<P: Redactor>(policy: &P, text: Seq<char>) -> Option<Seq<char>> {
    if trimmed(text).len() == 0 {
        None
    } else {
        Some(frame_bounded(policy, trimmed(text)))
    }
}

fn redact_frame_text<P: Redactor>(policy: &P, text: &str) -> (r: Option<String>)
    ensures
        r.deep_view() == frame_module(policy, text@),
{
    let t: String = trim(text);
    if t.as_str().is_empty() {
        None
    } else {
        Some(bound_frame_text(policy, t.as_str()))
    }
}

/// A path that starts with a drive letter and a colon.
pub open spec fn windows_absolute(path: Seq<char>) -> bool {
    path.len() >= 2 && (('a' <= path[0] && path[0] <= 'z') || ('A' <= path[0] && path[0] <= 'Z'))
        && path[1] == ':'
}

pub fn is_windows_absolute(path: &str) -> (r: bool)
    ensures
        r == windows_absolute(path@),
{
    let cs: Vec<char> = chars_of(path);
    cs.len() >= 2 && (('a' <= cs[0] && cs[0] <= 'z') || ('A' <= cs[0] && cs[0] <= 'Z')) && cs[1]
        == ':'
}

/// The path from an anchor on, without the slash in front of the anchor.
pub open spec fn from_anchor(path: Seq<char>, anchor: Seq<char>) -> Option<Seq<char>> {
    match find(path, anchor) {
        Some(i) => Some(path.skip(i + 1)),
        None => None,
    }
}

pub open spec fn or_text(a: Option<Seq<char>>, b: Option<Seq<char>>) -> Option<Seq<char>> {
    if a is Some {
        a
    } else {
        b
    }
}

/// A path below a toolchain, a registry or a checkout, without what stands before it.
pub open spec fn anchored(path: Seq<char>) -> Option<Seq<char>> {
    or_text(
        from_anchor(path, "/rustc/"@),
        or_text(
            from_anchor(path, "/registry/"@),
            or_text(
                from_anchor(path, "/.cargo/"@),
                or_text(from_anchor(path, "/.rustup/"@), from_anchor(path, "/git/"@)),
            ),
        ),
    )
}

/// What follows the root in a path under it; empty where the path is not under it. A directory
/// whose name only begins like the root is another one.
pub open spec fn under_root(root: Seq<char>, path: Seq<char>) -> Seq<char> {
    match without_prefix(path, root) {
        Some(rest) => if starts(rest, "/"@) || ends(root, "/"@) {
            without_leading(rest, '/')
        } else {
            Seq::empty()
        },
        None => Seq::empty(),
    }
}

fn find_under_root(root: &str, path: &str) -> (r: String)
    ensures
        r@ == under_root(root@, path@),
{
    match strip_prefix(path, root) {
        Some(rest) => if starts_with(rest.as_str(), "/") || ends_with(root, "/") {
            trim_leading(rest.as_str(), '/')
        } else {
            String::new()
        },
        None => String::new(),
    }
}

/// Which part of a raw frame path is kept.
pub open spec fn kept_path(root: Seq<char>, raw: Seq<char>) -> Option<Seq<char>> {
    let path = replaced(trimmed(raw), '\\', '/');
    let rel = under_root(root, path);
    if path.len() == 0 {
        None
    } else if rel.len() > 0 {
        Some(rel)
    } else if !starts(path, "/"@) && !windows_absolute(path) {
        Some(path)
    } else {
        match anchored(path) {
            Some(kept) => Some(kept),
            None => Some(path),
        }
    }
}

/// A frame path as it is stored: relative to the repository where it lies in it.
pub open spec fn frame_path<P: Redactor>(policy: &P, root: Seq<char>, raw: Seq<char>) -> Option<
    Seq<char>,
> {
    match kept_path(root, raw) {
        Some(p) => Some(frame_bounded(policy, p)),
        None => None,
    }
}

fn find_from_anchor(path: &str, anchor: &str) -> (r: Option<String>)
    requires
        anchor@.len() > 0,
    ensures
        r.deep_view() == from_anchor(path@, anchor@),
{
    let cs: Vec<char> = chars_of(path);
    let ac: Vec<char> = chars_of(anchor);
    match crate::text::find_chars(&cs, &ac, 0) {
        Some(i) => {
            let r: String = slice_text(&cs, i + 1, cs.len());
            assert(r@ =~= path@.skip(i + 1));
            Some(r)
        },
        None => None,
    }
}

fn find_anchored(path: &str) -> (r: Option<String>)
    ensures
        r.deep_view() == anchored(path@),
{
    proof {
        reveal_strlit("/rustc/");
        reveal_strlit("/registry/");
        reveal_strlit("/.cargo/");
        reveal_strlit("/.rustup/");
        reveal_strlit("/git/");
    }
    let a: Option<String> = find_from_anchor(path, "/rustc/");
    if a.is_some() {
        return a;
    }
    let a: Option<String> = find_from_anchor(path, "/registry/");
    if a.is_some() {
        return a;
    }
    let a: Option<String> = find_from_anchor(path, "/.cargo/");
    if a.is_some() {
        return a;
    }
    let a: Option<String> = find_from_anchor(path, "/.rustup/");
    if a.is_some() {
        return a;
    }
    find_from_anchor(path, "/git/")
}

fn keep_path(root: &str, raw: &str) -> (r: Option<String>)
    ensures
        r.deep_view() == kept_path(root@, raw@),
{
    let path: String = replace_char(trim(raw).as_str(), '\\', '/');
    if path.as_str().is_empty() {
        return None;
    }
    let rel: String = find_under_root(root, path.as_str());
    if !rel.as_str().is_empty() {
        return Some(rel);
    }
    if !starts_with(path.as_str(), "/") && !is_windows_absolute(path.as_str()) {
        return Some(path);
    }
    match find_anchored(path.as_str()) {
        Some(kept) => Some(kept),
        None => Some(path),
    }
}

pub fn normalize_frame_path<P: Redactor>(policy: &P, root: &str, raw: &str) -> (r: Option<String>)
    ensures
        r.deep_view() == frame_path(policy, root@, raw@),
{
    match keep_path(root, raw) {
        Some(p) => Some(bound_frame_text(policy, p.as_str())),
        None => None,
    }
}

/// The frames of a backtrace after its first lines: a header opens a frame, a location completes
/// the last one that has none. After the largest number of frames the rest is not read.
pub open spec fn frames_after<P: Redactor>(policy: &P, root: Seq<char>, ls: Seq<Seq<char>>) -> Seq<
    StackFrameView,
>
    decreases ls.len(),
{
    if ls.len() == 0 {
        Seq::empty()
    } else {
        let before = frames_after(policy, root, ls.drop_last());
        if closed_after(policy, root, ls.drop_last()) {
            before
        } else {
            let line = trimmed(ls.last());
            match frame_header(line) {
                Some((n, module)) => if before.len() >= MAX_FRAMES {
                    before
                } else {
                    before.push(
                        StackFrameView {
                            frame_index: n,
                            module: frame_module(policy, module),
                            file_path: None,
                            line: None,
                        },
                    )
                },
                None => match frame_location(line) {
                    Some((file, l)) => if before.len() > 0 && before.last().file_path is None {
                        before.update(
                            before.len() - 1,
                            StackFrameView {
                                file_path: frame_path(policy, root, file),
                                line: l,
                                ..before.last()
                            },
                        )
                    } else {
                        before
                    },
                    None => before,
                },
            }
        }
    }
}

/// A header came after the largest number of frames.
pub open spec fn closed_after<P: Redactor>(policy: &P, root: Seq<char>, ls: Seq<Seq<char>>) -> bool
    decreases ls.len(),
{
    if ls.len() == 0 {
        false
    } else {
        closed_after(policy, root, ls.drop_last()) || (frame_header(trimmed(ls.last())) is Some
            && frames_after(policy, root, ls.drop_last()).len() >= MAX_FRAMES)
    }
}

/// The frames of a backtrace. The root counts with forward slashes, as the paths do.
pub open spec fn frames_of_text<P: Redactor>(policy: &P, root: Seq<char>, text: Seq<char>) -> Seq<
    StackFrameView,
> {
    frames_after(policy, replaced(root, '\\', '/'), lines_of(text))
}

proof fn lemma_frames_closed<P: Redactor>(policy: &P, root: Seq<char>, ls: Seq<Seq<char>>, n: int)
    requires
        0 <= n <= ls.len(),
        closed_after(policy, root, ls.take(n)),
    ensures
        frames_after(policy, root, ls) == frames_after(policy, root, ls.take(n)),
        closed_after(policy, root, ls),
    decreases ls.len() - n,
{
    if n < ls.len() {
        assert(ls.take(n + 1).drop_last() =~= ls.take(n));
        lemma_frames_closed(policy, root, ls, n + 1);
    } else {
        assert(ls.take(n) =~= ls);
    }
}

pub fn parse_frames<P: Redactor>(policy: &P, full_text: &str, root: &str) -> (r: Vec<StackFrame>)
    ensures
        r.deep_view() == frames_of_text(policy, root@, full_text@),
{
    let root_text: String = replace_char(root, '\\', '/');
    let ls: Vec<String> = lines(full_text);
    let ghost all = ls.deep_view();
    let mut frames: Vec<StackFrame> = Vec::new();
    let mut i: usize = 0;
    assert(all.take(0) =~= Seq::empty());
    assert(frames.deep_view() =~= Seq::<StackFrameView>::empty());
    while i < ls.len()
        invariant
            i <= ls.len(),
            all == ls.deep_view(),
            all == lines_of(full_text@),
            root_text@ == replaced(root@, '\\', '/'),
            !closed_after(policy, root_text@, all.take(i as int)),
            frames.deep_view() == frames_after(policy, root_text@, all.take(i as int)),
        decreases ls.len() - i,
    {
        let ghost here = all.take(i + 1);
        proof {
            assert(here.drop_last() =~= all.take(i as int));
            assert(here.last() == ls@[i as int]@);
            assert(frames.deep_view().len() == frames@.len());
        }
        let line: String = trim(ls[i].as_str());
        let ghost before = frames;
        match parse_frame_header(line.as_str()) {
            Some((n, module)) => {
                if frames.len() >= MAX_FRAMES {
                    proof {
                        lemma_frames_closed(policy, root_text@, all, i + 1);
                    }
                    return frames;
                }
                frames.push(
                    StackFrame {
                        frame_index: n,
                        module: redact_frame_text(policy, module.as_str()),
                        file_path: None,
                        line: None,
                    },
                );
                proof {
                    lemma_push(before, frames);
                }
            },
            None => {
                if let Some((file, l)) = parse_frame_location(line.as_str()) {
                    if frames.len() > 0 {
                        let last: usize = frames.len() - 1;
                        assert(frames.deep_view()[last as int] == frames@[last as int].deep_view());
                        if frames[last].file_path.is_none() {
                            let done: StackFrame = StackFrame {
                                frame_index: frames[last].frame_index,
                                module: duplicate_opt(&frames[last].module),
                                file_path: normalize_frame_path(policy, root_text.as_str(), file.as_str()),
                                line: l,
                            };
                            frames.set(last, done);
                            assert(frames.deep_view() =~= before.deep_view().update(
                                last as int,
                                done.deep_view(),
                            ));
                        }
                    }
                }
            },
        }
        i += 1;
    }
    assert(all.take(all.len() as int) =~= all);
    frames
}

// ── Events ──────────────────────────────────────────────────────────────────

/// Digits from `i` on, then a colon; at least one digit in all.
pub open spec fn numbered_from(s: Seq<char>, i: int) -> bool
    decreases s.len() - i,
{
    if i < 0 || i >= s.len() {
        false
    } else if is_digit(s[i]) {
        numbered_from(s, i + 1)
    } else {
        i > 0 && s[i] == ':'
    }
}

/// The line continues the event in front of it: it is indented, or belongs to a backtrace.
pub open spec fn continues(line: Seq<char>) -> bool {
    let t = left_trimmed(line);
    line.len() > 0 && (line[0] == ' ' || line[0] == '\t' || t == "stack backtrace:"@ || starts(
        t,
        "note:"@,
    ) || starts(t, "at "@) || numbered_from(t, 0))
}

fn is_numbered(s: &str) -> (r: bool)
    ensures
        r == numbered_from(s@, 0),
{
    let cs: Vec<char> = chars_of(s);
    let mut i: usize = 0;
    while i < cs.len() && '0' <= cs[i] && cs[i] <= '9'
        invariant
            i <= cs@.len(),
            cs@ == s@,
            numbered_from(cs@, 0) == numbered_from(cs@, i as int),
        decreases cs.len() - i,
    {
        i += 1;
    }
    i < cs.len() && i > 0 && cs[i] == ':'
}

pub fn is_continuation_line(line: &str) -> (r: bool)
    ensures
        r == continues(line@),
{
    let cs: Vec<char> = chars_of(line);
    if cs.len() == 0 {
        return false;
    }
    if cs[0] == ' ' || cs[0] == '\t' {
        return true;
    }
    let rest: String = trim_start(line);
    let t: &str = rest.as_str();
    same(t, "stack backtrace:") || starts_with(t, "note:") || starts_with(t, "at ") || is_numbered(t)
}

/// The events of the given lines.
pub open spec fn events_of(ls: Seq<Seq<char>>) -> Seq<EventView>
    decreases ls.len(),
{
    if ls.len() == 0 {
        Seq::empty()
    } else {
        let before = events_of(ls.drop_last());
        let line = ls.last();
        if before.len() > 0 && continues(line) {
            before.update(
                before.len() - 1,
                EventView { text: before.last().text + "\n"@ + line, ..before.last() },
            )
        } else {
            before.push(EventView { start_line: ls.len() as u64, header: line, text: line })
        }
    }
}

pub fn group_events(ls: &Vec<String>) -> (r: Vec<Event>)
    ensures
        r.deep_view() == events_of(ls.deep_view()),
{
    let ghost all = ls.deep_view();
    let mut events: Vec<Event> = Vec::new();
    let mut i: usize = 0;
    assert(events.deep_view() =~= events_of(all.take(0)));
    while i < ls.len()
        invariant
            i <= ls.len(),
            all == ls.deep_view(),
            events.deep_view() == events_of(all.take(i as int)),
        decreases ls.len() - i,
    {
        let ghost here = all.take(i + 1);
        let line: &str = ls[i].as_str();
        proof {
            assert(here.drop_last() =~= all.take(i as int));
            assert(here.last() == line@);
            assert(here.len() == i + 1);
            assert(events.deep_view().len() == events@.len());
        }
        let ghost before = events;
        if events.len() > 0 && is_continuation_line(line) {
            let last: usize = events.len() - 1;
            assert(events.deep_view()[last as int] == events@[last as int].deep_view());
            let grown: Event = Event {
                start_line: events[last].start_line,
                header: events[last].header.clone(),
                text: cat3(events[last].text.as_str(), "\n", line),
            };
            events.set(last, grown);
            assert(events.deep_view() =~= before.deep_view().update(
                last as int,
                grown.deep_view(),
            ));
        } else {
            events.push(
                Event {
                    start_line: (i + 1) as u64,
                    header: line.to_owned(),
                    text: line.to_owned(),
                },
            );
            proof {
                lemma_push(before, events);
            }
        }
        i += 1;
    }
    assert(all.take(all.len() as int) =~= all);
    events
}

// ── Occurrences ─────────────────────────────────────────────────────────────

/// A message as it is told apart from others: normalized, then redacted.
pub open spec fn fingerprint_of<P: LogPolicy>(policy: &P, message: Seq<char>) -> Seq<char> {
    policy.redacted(policy.template(message))
}

pub open spec fn fingerprint_redacted<P: LogPolicy>(policy: &P, message: Seq<char>) -> bool {
    policy.redacted(policy.template(message)) != policy.template(message)
}

fn fingerprint<P: LogPolicy>(policy: &P, message: &str) -> (r: (String, bool))
    ensures
        r.0@ == fingerprint_of(policy, message@),
        r.1 == fingerprint_redacted(policy, message@),
{
    let normalized: String = policy.normalize_template(message);
    let redacted: String = policy.redact(normalized.as_str());
    let changed: bool = !same(redacted.as_str(), normalized.as_str());
    (redacted, changed)
}

/// What a scan knows beside the log itself.
pub struct ScanContext {
    pub root: Seq<char>,
    pub transaction_time: Seq<char>,
    pub transaction_hour: Seq<char>,
}

/// The occurrence of a plain event that happened at the given times, where it has a severity.
pub open spec fn plain_occurrence_at<P: LogPolicy>(
    policy: &P,
    root: Seq<char>,
    e: EventView,
    times: TimesView,
) -> Option<OccurrenceView> {
    match text_severity(e.header) {
        Some(severity) => Some(
            OccurrenceView {
                severity,
                template: fingerprint_of(policy, e.text),
                redacted: fingerprint_redacted(policy, e.text),
                source_line: e.start_line,
                times,
                frames: frames_of_text(policy, root, e.text),
            },
        ),
        None => None,
    }
}

pub fn plain_occurrence_of<P: LogPolicy>(policy: &P, root: &str, e: &Event, times: Times) -> (r:
    Option<Occurrence>)
    ensures
        r.deep_view() == plain_occurrence_at(policy, root@, e.deep_view(), times.deep_view()),
{
    match severity_from_text(e.header.as_str()) {
        Some(severity) => {
            let (template, redacted) = fingerprint(policy, e.text.as_str());
            Some(
                Occurrence {
                    severity,
                    template,
                    redacted,
                    source_line: e.start_line,
                    times,
                    frames: parse_frames(policy, e.text.as_str(), root),
                },
            )
        },
        None => None,
    }
}

/// The occurrence of a plain event. Where its line names no time, the transaction's stands in.
pub open spec fn plain_occurrence<P: LogPolicy>(policy: &P, c: ScanContext, e: EventView) -> Option<
    OccurrenceView,
> {
    plain_occurrence_at(
        policy,
        c.root,
        e,
        resolved_time(leading_instant(e.header), c.transaction_time, c.transaction_hour),
    )
}

pub open spec fn plain_occurrences<P: LogPolicy>(
    policy: &P,
    c: ScanContext,
    events: Seq<EventView>,
) -> Seq<OccurrenceView>
    decreases events.len(),
{
    if events.len() == 0 {
        Seq::empty()
    } else {
        let before = plain_occurrences(policy, c, events.drop_last());
        match plain_occurrence(policy, c, events.last()) {
            Some(o) => before.push(o),
            None => before,
        }
    }
}

/// The first of some members that is there as a string.
pub open spec fn first_text(
    o: Seq<(Seq<char>, Option<Seq<char>>)>,
    keys: Seq<Seq<char>>,
) -> Option<Seq<char>>
    decreases keys.len(),
{
    if keys.len() == 0 {
        None
    } else if text_member(o, keys[0]) is Some {
        text_member(o, keys[0])
    } else {
        first_text(o, keys.skip(1))
    }
}

/// The occurrence that the members of a structured line describe, at the given times: the line
/// names a level that has a severity, and a message.
pub open spec fn structured_occurrence<P: LogPolicy>(
    policy: &P,
    o: Seq<(Seq<char>, Option<Seq<char>>)>,
    number: u64,
    times: TimesView,
) -> Option<OccurrenceView> {
    let severity = match first_text(o, seq!["level"@, "severity"@, "lvl"@]) {
        Some(l) => level_severity(l),
        None => None,
    };
    let message = match first_text(o, seq!["message"@, "msg"@, "error"@, "err"@]) {
        Some(m) => m,
        None => Seq::empty(),
    };
    if severity is Some && message.len() > 0 {
        Some(
            OccurrenceView {
                severity: severity->0,
                template: fingerprint_of(policy, message),
                redacted: fingerprint_redacted(policy, message),
                source_line: number,
                times,
                frames: Seq::empty(),
            },
        )
    } else {
        None
    }
}

/// The timestamp that a structured line carries.
pub open spec fn structured_timestamp(o: Seq<(Seq<char>, Option<Seq<char>>)>) -> Option<Seq<char>> {
    first_text(o, seq!["timestamp"@, "ts"@, "time"@])
}

/// The occurrence of a structured line. Where it names no time, the transaction's stands in.
pub open spec fn json_occurrence<P: LogPolicy>(
    policy: &P,
    c: ScanContext,
    line: Seq<char>,
    number: u64,
) -> Option<OccurrenceView> {
    match object_members(trimmed(line)) {
        Some(o) => {
            let parsed = match structured_timestamp(o) {
                Some(t) => leading_instant(t),
                None => None,
            };
            structured_occurrence(
                policy,
                o,
                number,
                resolved_time(parsed, c.transaction_time, c.transaction_hour),
            )
        },
        None => None,
    }
}

pub open spec fn json_occurrences<P: LogPolicy>(
    policy: &P,
    c: ScanContext,
    ls: Seq<Seq<char>>,
) -> Seq<OccurrenceView>
    decreases ls.len(),
{
    if ls.len() == 0 {
        Seq::empty()
    } else {
        let before = json_occurrences(policy, c, ls.drop_last());
        match json_occurrence(policy, c, ls.last(), ls.len() as u64) {
            Some(o) => if is_blank(ls.last()) {
                before
            } else {
                before.push(o)
            },
            None => before,
        }
    }
}

/// All occurrences of a log.
pub open spec fn occurrences<P: LogPolicy>(policy: &P, c: ScanContext, text: Seq<char>) -> Seq<
    OccurrenceView,
> {
    if is_jsonl(text) {
        json_occurrences(policy, c, lines_of(text))
    } else {
        plain_occurrences(policy, c, events_of(lines_of(text)))
    }
}

fn parse_plain<P: LogPolicy>(
    policy: &P,
    text: &str,
    transaction_time: &str,
    transaction_hour: &str,
    root: &str,
) -> (r: Vec<Occurrence>)
    ensures
        r.deep_view() == plain_occurrences(
            policy,
            (ScanContext {
                root: root@,
                transaction_time: transaction_time@,
                transaction_hour: transaction_hour@,
            }),
            events_of(lines_of(text@)),
        ),
{
    let ghost c = ScanContext {
        root: root@,
        transaction_time: transaction_time@,
        transaction_hour: transaction_hour@,
    };
    let events: Vec<Event> = group_events(&lines(text));
    let ghost all = events.deep_view();
    let mut out: Vec<Occurrence> = Vec::new();
    let mut i: usize = 0;
    assert(out.deep_view() =~= plain_occurrences(policy, c, all.take(0)));
    while i < events.len()
        invariant
            i <= events.len(),
            all == events.deep_view(),
            c == (ScanContext {
                root: root@,
                transaction_time: transaction_time@,
                transaction_hour: transaction_hour@,
            }),
            out.deep_view() == plain_occurrences(policy, c, all.take(i as int)),
        decreases events.len() - i,
    {
        proof {
            assert(all.take(i + 1).drop_last() =~= all.take(i as int));
            assert(all.take(i + 1).last() == events@[i as int].deep_view());
        }
        let e: &Event = &events[i];
        let times: Times = resolve_time(
            parse_timestamp(e.header.as_str()),
            transaction_time,
            transaction_hour,
        );
        if let Some(o) = plain_occurrence_of(policy, root, e, times) {
            let ghost before = out;
            out.push(o);
            proof {
                lemma_push(before, out);
            }
        }
        i += 1;
    }
    assert(all.take(all.len() as int) =~= all);
    out
}

fn first_str(o: &Vec<(String, Option<String>)>, keys: &Vec<String>) -> (r: Option<String>)
    ensures
        r.deep_view() == first_text(o.deep_view(), keys.deep_view()),
{
    let ghost all = keys.deep_view();
    let mut i: usize = 0;
    assert(all.skip(0) =~= all);
    while i < keys.len()
        invariant
            i <= keys.len(),
            all == keys.deep_view(),
            first_text(o.deep_view(), all) == first_text(
                o.deep_view(),
                all.skip(i as int),
            ),
        decreases keys.len() - i,
    {
        proof {
            assert(all.skip(i as int)[0] == keys@[i as int]@);
            assert(all.skip(i as int).skip(1) =~= all.skip(i + 1));
        }
        let found: Option<String> = find_text_member(o, keys[i].as_str());
        if found.is_some() {
            return found;
        }
        i += 1;
    }
    None
}

pub fn structured_occurrence_of<P: LogPolicy>(
    policy: &P,
    o: &Vec<(String, Option<String>)>,
    number: u64,
    times: Times,
) -> (r: Option<Occurrence>)
    ensures
        r.deep_view() == structured_occurrence(policy, o.deep_view(), number, times.deep_view()),
{
    let severity: Severity = match first_str(o, &parts3("level", "severity", "lvl")) {
        Some(l) => match severity_from_level(l.as_str()) {
            Some(s) => s,
            None => {
                return None;
            },
        },
        None => {
            return None;
        },
    };
    let message: String = match first_str(o, &parts4("message", "msg", "error", "err")) {
        Some(m) => m,
        None => String::new(),
    };
    if message.as_str().is_empty() {
        return None;
    }
    let (template, redacted) = fingerprint(policy, message.as_str());
    let frames: Vec<StackFrame> = Vec::new();
    assert(frames.deep_view() =~= Seq::<StackFrameView>::empty());
    Some(Occurrence { severity, template, redacted, source_line: number, times, frames })
}

pub fn structured_timestamp_of(o: &Vec<(String, Option<String>)>) -> (r: Option<String>)
    ensures
        r.deep_view() == structured_timestamp(o.deep_view()),
{
    first_str(o, &parts3("timestamp", "ts", "time"))
}

fn parse_json_line<P: LogPolicy>(
    policy: &P,
    line: &str,
    number: u64,
    transaction_time: &str,
    transaction_hour: &str,
    c: Ghost<ScanContext>,
) -> (r: Option<Occurrence>)
    requires
        c@.transaction_time == transaction_time@,
        c@.transaction_hour == transaction_hour@,
    ensures
        r.deep_view() == json_occurrence(policy, c@, line@, number),
{
    let o: Vec<(String, Option<String>)> = match read_object(trim(line).as_str()) {
        Some(o) => o,
        None => {
            return None;
        },
    };
    let parsed: Option<Instant> = match structured_timestamp_of(&o) {
        Some(t) => parse_timestamp(t.as_str()),
        None => None,
    };
    let times: Times = resolve_time(parsed, transaction_time, transaction_hour);
    structured_occurrence_of(policy, &o, number, times)
}

fn parse_jsonl<P: LogPolicy>(
    policy: &P,
    text: &str,
    transaction_time: &str,
    transaction_hour: &str,
    c: Ghost<ScanContext>,
) -> (r: Vec<Occurrence>)
    requires
        c@.transaction_time == transaction_time@,
        c@.transaction_hour == transaction_hour@,
    ensures
        r.deep_view() == json_occurrences(policy, c@, lines_of(text@)),
{
    let ls: Vec<String> = lines(text);
    let ghost all = ls.deep_view();
    let mut out: Vec<Occurrence> = Vec::new();
    let mut i: usize = 0;
    assert(out.deep_view() =~= json_occurrences(policy, c@, all.take(0)));
    while i < ls.len()
        invariant
            i <= ls.len(),
            all == ls.deep_view(),
            c@.transaction_time == transaction_time@,
            c@.transaction_hour == transaction_hour@,
            out.deep_view() == json_occurrences(policy, c@, all.take(i as int)),
        decreases ls.len() - i,
    {
        proof {
            assert(all.take(i + 1).drop_last() =~= all.take(i as int));
            assert(all.take(i + 1).last() == ls@[i as int]@);
        }
        let line: &str = ls[i].as_str();
        if !trim(line).as_str().is_empty() {
            if let Some(o) = parse_json_line(
                policy,
                line,
                (i + 1) as u64,
                transaction_time,
                transaction_hour,
                c,
            ) {
                let ghost before = out;
                out.push(o);
                proof {
                    lemma_push(before, out);
                }
            }
        }
        i += 1;
    }
    assert(all.take(all.len() as int) =~= all);
    out
}

// ── Signatures ──────────────────────────────────────────────────────────────

/// The templates of the occurrences with a severity.
pub open spec fn templates_with(occs: Seq<OccurrenceView>, severity: Severity) -> Seq<Seq<char>>
    decreases occs.len(),
{
    if occs.len() == 0 {
        Seq::empty()
    } else if occs.last().severity == severity {
        templates_with(occs.drop_last(), severity).push(occs.last().template)
    } else {
        templates_with(occs.drop_last(), severity)
    }
}

/// The occurrences of one signature.
pub open spec fn group_of(
    occs: Seq<OccurrenceView>,
    severity: Severity,
    template: Seq<char>,
) -> Seq<OccurrenceView>
    decreases occs.len(),
{
    if occs.len() == 0 {
        Seq::empty()
    } else if occs.last().severity == severity && occs.last().template == template {
        group_of(occs.drop_last(), severity, template).push(occs.last())
    } else {
        group_of(occs.drop_last(), severity, template)
    }
}

pub open spec fn any_redacted(g: Seq<OccurrenceView>) -> bool {
    exists|i: int| 0 <= i < g.len() && (#[trigger] g[i]).redacted
}

pub open spec fn valid_times(g: Seq<OccurrenceView>) -> Seq<Seq<char>> {
    g.map_values(|o: OccurrenceView| o.times.valid_time)
}

/// The distinct times of a group, earliest first.
pub open spec fn seen_times(g: Seq<OccurrenceView>) -> Seq<Seq<char>> {
    distinct(valid_times(g))
}

pub open spec fn first_seen(g: Seq<OccurrenceView>) -> Seq<char> {
    if seen_times(g).len() > 0 {
        seen_times(g)[0]
    } else {
        Seq::empty()
    }
}

pub open spec fn last_seen(g: Seq<OccurrenceView>) -> Seq<char> {
    if seen_times(g).len() > 0 {
        seen_times(g).last()
    } else {
        Seq::empty()
    }
}

/// Whether the first occurrence at time `t`, from position `i` on, named its time.
pub open spec fn timed_at(g: Seq<OccurrenceView>, t: Seq<char>, i: int) -> bool
    decreases g.len() - i,
{
    if i < 0 || i >= g.len() {
        false
    } else if g[i].times.valid_time == t {
        g[i].times.from_timestamp
    } else {
        timed_at(g, t, i + 1)
    }
}

/// The first occurrence, by line, that has frames.
pub open spec fn framed(g: Seq<OccurrenceView>) -> Option<OccurrenceView>
    decreases g.len(),
{
    if g.len() == 0 {
        None
    } else {
        let best = framed(g.drop_last());
        if g.last().frames.len() > 0 && (best is None || g.last().source_line
            < best->0.source_line) {
            Some(g.last())
        } else {
            best
        }
    }
}

pub open spec fn group_frames(g: Seq<OccurrenceView>) -> Option<Seq<StackFrameView>> {
    match framed(g) {
        Some(o) => Some(o.frames),
        None => None,
    }
}

/// The first occurrence, by line, at time `t`.
pub open spec fn example_at(g: Seq<OccurrenceView>, t: Seq<char>) -> Option<OccurrenceView>
    decreases g.len(),
{
    if g.len() == 0 {
        None
    } else {
        let best = example_at(g.drop_last(), t);
        if g.last().times.valid_time == t && (best is None || g.last().source_line
            < best->0.source_line) {
            Some(g.last())
        } else {
            best
        }
    }
}

/// What the records of one signature share.
#[verifier::ext_equal]
pub struct SignatureView {
    pub repository_id: Seq<char>,
    pub source_id: Seq<char>,
    pub severity: Severity,
    pub template: Seq<char>,
}

impl SignatureView {
    pub open spec fn id(self) -> Seq<char> {
        log_id(
            seq![
                "error_signature"@,
                self.repository_id,
                FINGERPRINT_ALGORITHM@,
                self.template,
                self.severity.name(),
            ],
        )
    }

    pub open spec fn excerpt(self) -> Seq<char> {
        truncated(self.template, EXCERPT_MAX_CHARS as int)
    }
}

struct Signature<'a> {
    repository_id: &'a str,
    source_id: &'a str,
    severity: Severity,
    template: &'a str,
    id: String,
    excerpt: String,
}

impl<'a> Signature<'a> {
    spec fn is(self, v: SignatureView) -> bool {
        &&& self.repository_id@ == v.repository_id
        &&& self.source_id@ == v.source_id
        &&& self.severity == v.severity
        &&& self.template@ == v.template
        &&& self.id@ == v.id()
        &&& self.excerpt@ == v.excerpt()
    }
}

/// A log-domain node.
pub open spec fn log_node(
    id: Seq<char>,
    kind: NodeKind,
    path: Option<Seq<char>>,
    name: Seq<char>,
    summary: Seq<char>,
    payload: LogPayloadView,
    valid_time: Seq<char>,
    source: Seq<char>,
    redacted: bool,
) -> RecordView {
    RecordView::Node(
        NodeRecordView {
            domain: Some("log"@),
            schema_version: LOG_SCHEMA_VERSION,
            log: Some(payload),
            valid_time: Some(valid_time),
            valid_time_source: Some(source),
            redaction_policy_version: if redacted {
                Some(REDACTION_POLICY_VERSION)
            } else {
                None
            },
            ..NodeRecordView::plain(id, kind, path, None, Some(name), summary)
        },
    )
}

fn build_log_node(
    id: String,
    kind: NodeKind,
    path: Option<String>,
    name: String,
    summary: String,
    payload: LogPayload,
    valid_time: String,
    source: &str,
    redacted: bool,
) -> (r: GraphRecord)
    ensures
        r.deep_view() == log_node(
            id@,
            kind,
            path.deep_view(),
            name@,
            summary@,
            payload.deep_view(),
            valid_time@,
            source@,
            redacted,
        ),
{
    let mut n: NodeRecord = NodeRecord::plain(id, kind, path, None, Some(name), summary);
    n.domain = Some("log".to_owned());
    n.schema_version = LOG_SCHEMA_VERSION;
    n.log = Some(payload);
    n.valid_time = Some(valid_time);
    n.valid_time_source = Some(source.to_owned());
    if redacted {
        n.redaction_policy_version = Some(REDACTION_POLICY_VERSION);
    }
    GraphRecord::Node(n)
}

/// A log-domain edge.
pub open spec fn log_edge_of(
    label: EdgeLabel,
    repository_id: Seq<char>,
    source: Seq<char>,
    target: Seq<char>,
    summary: Seq<char>,
) -> RecordView {
    RecordView::Edge(
        EdgeRecordView::plain(
            log_id(seq!["edge"@, label.name(), repository_id, source, target]),
            LOG_SCHEMA_VERSION,
            label,
            source,
            target,
            None,
            summary,
        ),
    )
}

pub fn log_edge(
    label: EdgeLabel,
    repository_id: &str,
    source: &str,
    target: &str,
    summary: &str,
) -> (r: GraphRecord)
    ensures
        r.deep_view() == log_edge_of(label, repository_id@, source@, target@, summary@),
{
    GraphRecord::Edge(
        EdgeRecord::plain(
            log_stable_id(&parts5("edge", label.as_str(), repository_id, source, target)),
            LOG_SCHEMA_VERSION,
            label,
            source.to_owned(),
            target.to_owned(),
            None,
            summary.to_owned(),
        ),
    )
}

pub open spec fn signature_node(v: SignatureView, g: Seq<OccurrenceView>) -> RecordView {
    log_node(
        v.id(),
        NodeKind::ErrorSignature,
        None,
        v.severity.name() + " signature"@,
        "Error signature ("@ + v.severity.name() + ") x"@ + decimal_of(g.len()) + ": "@
            + v.excerpt(),
        LogPayloadView::ErrorSignature(
            ErrorSignaturePayloadView {
                fingerprint_algorithm: FINGERPRINT_ALGORITHM@,
                template_excerpt: v.excerpt(),
                severity: v.severity.name(),
                occurrence_count: g.len() as u64,
                first_seen: first_seen(g),
                last_seen: last_seen(g),
                frames: group_frames(g),
                repository_id: v.repository_id,
            },
        ),
        first_seen(g),
        time_source(timed_at(g, first_seen(g), 0)),
        any_redacted(g),
    )
}

/// The records of one example event: its node and its two edges.
pub open spec fn event_records(
    v: SignatureView,
    t: Seq<char>,
    o: OccurrenceView,
) -> Seq<RecordView> {
    let hash = text_digest(o.template);
    let id = log_id(seq!["log_event"@, v.repository_id, v.id(), t, hash]);
    seq![
        log_node(
            id,
            NodeKind::LogEvent,
            None,
            v.severity.name() + " event"@,
            "Log event ("@ + v.severity.name() + ") at line "@ + decimal_of(o.source_line as nat)
                + " ["@ + t + "]"@,
            LogPayloadView::LogEvent(
                LogEventPayloadView {
                    event_excerpt: v.excerpt(),
                    event_content_hash: hash,
                    source_line: o.source_line,
                    severity: v.severity.name(),
                    repository_id: v.repository_id,
                },
            ),
            t,
            time_source(o.times.from_timestamp),
            o.redacted,
        ),
        log_edge_of(
            EdgeLabel::FingerprintedAs,
            v.repository_id,
            id,
            v.id(),
            "LogEvent fingerprinted as ErrorSignature"@,
        ),
        log_edge_of(
            EdgeLabel::CapturedFrom,
            v.repository_id,
            id,
            v.source_id,
            "LogEvent captured from LogSource"@,
        ),
    ]
}

/// The records of the example events at the given times.
pub open spec fn examples(v: SignatureView, g: Seq<OccurrenceView>, times: Seq<Seq<char>>) -> Seq<
    RecordView,
>
    decreases times.len(),
{
    if times.len() == 0 {
        Seq::empty()
    } else {
        let before = examples(v, g, times.drop_last());
        match example_at(g, times.last()) {
            Some(o) => before + event_records(v, times.last(), o),
            None => before,
        }
    }
}

/// The times of which an example is kept.
pub open spec fn kept_times(g: Seq<OccurrenceView>) -> Seq<Seq<char>> {
    let all = seen_times(g);
    if all.len() > DEFAULT_EXEMPLAR_CAP {
        all.take(DEFAULT_EXEMPLAR_CAP as int)
    } else {
        all
    }
}

pub open spec fn bucket_starts(g: Seq<OccurrenceView>) -> Seq<Seq<char>> {
    g.map_values(|o: OccurrenceView| o.times.bucket_start)
}

/// The occurrences within one hour.
pub open spec fn in_bucket(g: Seq<OccurrenceView>, start: Seq<char>) -> Seq<OccurrenceView>
    decreases g.len(),
{
    if g.len() == 0 {
        Seq::empty()
    } else if g.last().times.bucket_start == start {
        in_bucket(g.drop_last(), start).push(g.last())
    } else {
        in_bucket(g.drop_last(), start)
    }
}

pub open spec fn any_timed(g: Seq<OccurrenceView>) -> bool {
    exists|i: int| 0 <= i < g.len() && (#[trigger] g[i]).times.from_timestamp
}

pub open spec fn precise_times(g: Seq<OccurrenceView>) -> Seq<Seq<char>> {
    g.map_values(|o: OccurrenceView| o.times.precise_time)
}

/// The records of one bucket: its node and its edge.
pub open spec fn bucket_records(v: SignatureView, start: Seq<char>, b: Seq<OccurrenceView>) -> Seq<
    RecordView,
> {
    let id = log_id(
        seq!["log_occurrence_bucket"@, v.repository_id, v.id(), start, BUCKET_WIDTH@, v.source_id],
    );
    seq![
        log_node(
            id,
            NodeKind::LogOccurrenceBucket,
            None,
            v.severity.name() + " bucket "@ + start,
            "Occurrence bucket "@ + start + " ("@ + BUCKET_WIDTH@ + ") x"@ + decimal_of(b.len())
                + " for "@ + v.severity.name() + " signature"@,
            LogPayloadView::LogOccurrenceBucket(
                LogOccurrenceBucketPayloadView {
                    bucket_start: start,
                    bucket_width: BUCKET_WIDTH@,
                    occurrence_count: b.len() as u64,
                    source_id: v.source_id,
                    repository_id: v.repository_id,
                    occurrence_timestamps: sorted_texts(precise_times(b)),
                },
            ),
            start,
            time_source(any_timed(b)),
            false,
        ),
        log_edge_of(
            EdgeLabel::Aggregates,
            v.repository_id,
            id,
            v.id(),
            "LogOccurrenceBucket aggregates ErrorSignature"@,
        ),
    ]
}

pub open spec fn buckets(v: SignatureView, g: Seq<OccurrenceView>, starts_: Seq<Seq<char>>) -> Seq<
    RecordView,
>
    decreases starts_.len(),
{
    if starts_.len() == 0 {
        Seq::empty()
    } else {
        buckets(v, g, starts_.drop_last()) + bucket_records(
            v,
            starts_.last(),
            in_bucket(g, starts_.last()),
        )
    }
}

/// All records of one signature.
pub open spec fn signature_records(v: SignatureView, g: Seq<OccurrenceView>) -> Seq<RecordView> {
    seq![
        signature_node(v, g),
        log_edge_of(
            EdgeLabel::CapturedFrom,
            v.repository_id,
            v.id(),
            v.source_id,
            "ErrorSignature captured from LogSource"@,
        ),
    ] + examples(v, g, kept_times(g)) + buckets(v, g, distinct(bucket_starts(g)))
}

/// The report that examples of a signature were dropped.
pub open spec fn cap_diagnostics(v: SignatureView, g: Seq<OccurrenceView>) -> Seq<
    ExemplarCapDiagnosticView,
> {
    let n = seen_times(g).len();
    if n > DEFAULT_EXEMPLAR_CAP {
        seq![
            ExemplarCapDiagnosticView {
                code: "exemplar_cap_reached"@,
                signature_id: v.id(),
                severity: v.severity.name(),
                kept: DEFAULT_EXEMPLAR_CAP as u64,
                dropped: (n - DEFAULT_EXEMPLAR_CAP) as u64,
            },
        ]
    } else {
        Seq::empty()
    }
}

/// The source that occurrences come from.
pub struct SourceView {
    pub repository_id: Seq<char>,
    pub source_id: Seq<char>,
}

pub open spec fn signature_of(
    src: SourceView,
    severity: Severity,
    template: Seq<char>,
) -> SignatureView {
    SignatureView {
        repository_id: src.repository_id,
        source_id: src.source_id,
        severity,
        template,
    }
}

pub open spec fn records_of_templates(
    src: SourceView,
    occs: Seq<OccurrenceView>,
    severity: Severity,
    templates: Seq<Seq<char>>,
) -> Seq<RecordView>
    decreases templates.len(),
{
    if templates.len() == 0 {
        Seq::empty()
    } else {
        records_of_templates(src, occs, severity, templates.drop_last()) + signature_records(
            signature_of(src, severity, templates.last()),
            group_of(occs, severity, templates.last()),
        )
    }
}

pub open spec fn diagnostics_of_templates(
    src: SourceView,
    occs: Seq<OccurrenceView>,
    severity: Severity,
    templates: Seq<Seq<char>>,
) -> Seq<ExemplarCapDiagnosticView>
    decreases templates.len(),
{
    if templates.len() == 0 {
        Seq::empty()
    } else {
        diagnostics_of_templates(src, occs, severity, templates.drop_last()) + cap_diagnostics(
            signature_of(src, severity, templates.last()),
            group_of(occs, severity, templates.last()),
        )
    }
}

/// The records of all signatures of a severity, by template.
pub open spec fn records_of_severity(
    src: SourceView,
    occs: Seq<OccurrenceView>,
    severity: Severity,
) -> Seq<RecordView> {
    records_of_templates(src, occs, severity, distinct(templates_with(occs, severity)))
}

pub open spec fn diagnostics_of_severity(
    src: SourceView,
    occs: Seq<OccurrenceView>,
    severity: Severity,
) -> Seq<ExemplarCapDiagnosticView> {
    diagnostics_of_templates(src, occs, severity, distinct(templates_with(occs, severity)))
}

/// The records of all signatures, by severity and template.
pub open spec fn occurrence_records(src: SourceView, occs: Seq<OccurrenceView>) -> Seq<RecordView> {
    records_of_severity(src, occs, Severity::Error) + records_of_severity(src, occs, Severity::Fatal)
        + records_of_severity(src, occs, Severity::Warn)
}

pub open spec fn occurrence_diagnostics(src: SourceView, occs: Seq<OccurrenceView>) -> Seq<
    ExemplarCapDiagnosticView,
> {
    diagnostics_of_severity(src, occs, Severity::Error) + diagnostics_of_severity(
        src,
        occs,
        Severity::Fatal,
    ) + diagnostics_of_severity(src, occs, Severity::Warn)
}

fn collect_templates(occs: &Vec<Occurrence>, severity: Severity) -> (r: Vec<String>)
    ensures
        r.deep_view() == templates_with(occs.deep_view(), severity),
{
    let ghost all = occs.deep_view();
    let mut out: Vec<String> = Vec::new();
    let mut i: usize = 0;
    assert(out.deep_view() =~= templates_with(all.take(0), severity));
    while i < occs.len()
        invariant
            i <= occs.len(),
            all == occs.deep_view(),
            out.deep_view() == templates_with(all.take(i as int), severity),
        decreases occs.len() - i,
    {
        proof {
            assert(all.take(i + 1).drop_last() =~= all.take(i as int));
            assert(all.take(i + 1).last() == occs@[i as int].deep_view());
        }
        if occs[i].severity == severity {
            let ghost before = out;
            out.push(occs[i].template.clone());
            proof {
                lemma_push(before, out);
            }
        }
        i += 1;
    }
    assert(all.take(all.len() as int) =~= all);
    out
}

fn collect_group<'a>(occs: &'a Vec<Occurrence>, severity: Severity, template: &str) -> (r: Vec<
    &'a Occurrence,
>)
    ensures
        r.deep_view() == group_of(occs.deep_view(), severity, template@),
{
    let ghost all = occs.deep_view();
    let mut out: Vec<&'a Occurrence> = Vec::new();
    let mut i: usize = 0;
    assert(out.deep_view() =~= group_of(all.take(0), severity, template@));
    while i < occs.len()
        invariant
            i <= occs.len(),
            all == occs.deep_view(),
            out.deep_view() == group_of(all.take(i as int), severity, template@),
        decreases occs.len() - i,
    {
        proof {
            assert(all.take(i + 1).drop_last() =~= all.take(i as int));
            assert(all.take(i + 1).last() == occs@[i as int].deep_view());
        }
        if occs[i].severity == severity && same(occs[i].template.as_str(), template) {
            let ghost before = out;
            out.push(&occs[i]);
            proof {
                lemma_push(before, out);
            }
        }
        i += 1;
    }
    assert(all.take(all.len() as int) =~= all);
    out
}

fn collect_bucket<'a>(g: &Vec<&'a Occurrence>, start: &str) -> (r: Vec<&'a Occurrence>)
    ensures
        r.deep_view() == in_bucket(g.deep_view(), start@),
{
    let ghost all = g.deep_view();
    let mut out: Vec<&'a Occurrence> = Vec::new();
    let mut i: usize = 0;
    assert(out.deep_view() =~= in_bucket(all.take(0), start@));
    while i < g.len()
        invariant
            i <= g.len(),
            all == g.deep_view(),
            out.deep_view() == in_bucket(all.take(i as int), start@),
        decreases g.len() - i,
    {
        proof {
            assert(all.take(i + 1).drop_last() =~= all.take(i as int));
            assert(all.take(i + 1).last() == g@[i as int].deep_view());
        }
        let o: &'a Occurrence = g[i];
        if same(o.times.bucket_start.as_str(), start) {
            let ghost before = out;
            out.push(o);
            proof {
                lemma_push(before, out);
            }
        }
        i += 1;
    }
    assert(all.take(all.len() as int) =~= all);
    out
}

/// Which time of an occurrence is meant.
#[derive(Clone, Copy, PartialEq, Eq, Structural)]
enum TimeKind {
    Valid,
    Precise,
    Bucket,
}

spec fn time_of(o: OccurrenceView, kind: TimeKind) -> Seq<char> {
    match kind {
        TimeKind::Valid => o.times.valid_time,
        TimeKind::Precise => o.times.precise_time,
        TimeKind::Bucket => o.times.bucket_start,
    }
}

fn collect_times(g: &Vec<&Occurrence>, kind: TimeKind) -> (r: Vec<String>)
    ensures
        r.deep_view() == g.deep_view().map_values(|o: OccurrenceView| time_of(o, kind)),
{
    let ghost all = g.deep_view().map_values(|o: OccurrenceView| time_of(o, kind));
    let mut out: Vec<String> = Vec::new();
    let mut i: usize = 0;
    assert(out.deep_view() =~= all.take(0));
    while i < g.len()
        invariant
            i <= g.len(),
            all == g.deep_view().map_values(|o: OccurrenceView| time_of(o, kind)),
            out.deep_view() == all.take(i as int),
        decreases g.len() - i,
    {
        let ghost before = out;
        let o: &Occurrence = g[i];
        out.push(
            match kind {
                TimeKind::Valid => o.times.valid_time.clone(),
                TimeKind::Precise => o.times.precise_time.clone(),
                TimeKind::Bucket => o.times.bucket_start.clone(),
            },
        );
        proof {
            lemma_push(before, out);
            assert(g.deep_view()[i as int] == g@[i as int].deep_view());
            assert(all.take(i + 1) =~= all.take(i as int).push(all[i as int]));
        }
        i += 1;
    }
    assert(all.take(g.len() as int) =~= all);
    out
}

fn is_any_redacted(g: &Vec<&Occurrence>) -> (r: bool)
    ensures
        r == any_redacted(g.deep_view()),
{
    let ghost all = g.deep_view();
    let mut i: usize = 0;
    while i < g.len()
        invariant
            i <= g.len(),
            all == g.deep_view(),
            forall|k: int| 0 <= k < i ==> !(#[trigger] all[k]).redacted,
        decreases g.len() - i,
    {
        assert(all[i as int] == g@[i as int].deep_view());
        if g[i].redacted {
            return true;
        }
        i += 1;
    }
    false
}

fn is_any_timed(g: &Vec<&Occurrence>) -> (r: bool)
    ensures
        r == any_timed(g.deep_view()),
{
    let ghost all = g.deep_view();
    let mut i: usize = 0;
    while i < g.len()
        invariant
            i <= g.len(),
            all == g.deep_view(),
            forall|k: int| 0 <= k < i ==> !(#[trigger] all[k]).times.from_timestamp,
        decreases g.len() - i,
    {
        assert(all[i as int] == g@[i as int].deep_view());
        if g[i].times.from_timestamp {
            return true;
        }
        i += 1;
    }
    false
}

fn is_timed_at(g: &Vec<&Occurrence>, t: &str) -> (r: bool)
    ensures
        r == timed_at(g.deep_view(), t@, 0),
{
    let ghost all = g.deep_view();
    let mut i: usize = 0;
    while i < g.len()
        invariant
            i <= g.len(),
            all == g.deep_view(),
            timed_at(all, t@, 0) == timed_at(all, t@, i as int),
        decreases g.len() - i,
    {
        assert(all[i as int] == g@[i as int].deep_view());
        let o: &Occurrence = g[i];
        if same(o.times.valid_time.as_str(), t) {
            return o.times.from_timestamp;
        }
        i += 1;
    }
    false
}

fn find_framed<'a>(g: &Vec<&'a Occurrence>) -> (r: Option<&'a Occurrence>)
    ensures
        r.deep_view() == framed(g.deep_view()),
{
    let ghost all = g.deep_view();
    let mut best: Option<&'a Occurrence> = None;
    let mut i: usize = 0;
    assert(all.take(0) =~= Seq::empty());
    while i < g.len()
        invariant
            i <= g.len(),
            all == g.deep_view(),
            best.deep_view() == framed(all.take(i as int)),
        decreases g.len() - i,
    {
        let o: &'a Occurrence = g[i];
        proof {
            assert(all.take(i + 1).drop_last() =~= all.take(i as int));
            assert(all.take(i + 1).last() == o.deep_view());
            assert(o.frames.deep_view().len() == o.frames@.len());
        }
        if o.frames.len() > 0 {
            let better: bool = match best {
                Some(b) => o.source_line < b.source_line,
                None => true,
            };
            if better {
                best = Some(o);
            }
        }
        i += 1;
    }
    assert(all.take(all.len() as int) =~= all);
    best
}

fn find_example<'a>(g: &Vec<&'a Occurrence>, t: &str) -> (r: Option<&'a Occurrence>)
    ensures
        r.deep_view() == example_at(g.deep_view(), t@),
{
    let ghost all = g.deep_view();
    let mut best: Option<&'a Occurrence> = None;
    let mut i: usize = 0;
    assert(all.take(0) =~= Seq::empty());
    while i < g.len()
        invariant
            i <= g.len(),
            all == g.deep_view(),
            best.deep_view() == example_at(all.take(i as int), t@),
        decreases g.len() - i,
    {
        let o: &'a Occurrence = g[i];
        proof {
            assert(all.take(i + 1).drop_last() =~= all.take(i as int));
            assert(all.take(i + 1).last() == o.deep_view());
        }
        if same(o.times.valid_time.as_str(), t) {
            let better: bool = match best {
                Some(b) => o.source_line < b.source_line,
                None => true,
            };
            if better {
                best = Some(o);
            }
        }
        i += 1;
    }
    assert(all.take(all.len() as int) =~= all);
    best
}

fn build_signature_node(sig: &Signature, g: &Vec<&Occurrence>, v: Ghost<SignatureView>) -> (r:
    GraphRecord)
    requires
        sig.is(v@),
    ensures
        r.deep_view() == signature_node(v@, g.deep_view()),
{
    let raw: Vec<String> = collect_times(g, TimeKind::Valid);
    assert(raw.deep_view() =~= valid_times(g.deep_view()));
    let times: Vec<String> = distinct_texts(&raw);
    let first: String = if times.len() > 0 {
        assert(times.deep_view()[0] == times@[0]@);
        times[0].clone()
    } else {
        String::new()
    };
    let last: String = if times.len() > 0 {
        assert(times.deep_view().last() == times@.last()@);
        times[times.len() - 1].clone()
    } else {
        String::new()
    };
    let frames: Option<Vec<StackFrame>> = match find_framed(g) {
        Some(o) => Some(duplicate_all(&o.frames)),
        None => None,
    };
    let severity: &str = sig.severity.as_str();
    let source: &str = valid_time_source(is_timed_at(g, first.as_str()));
    let summary: String = cat6(
        "Error signature (",
        severity,
        ") x",
        decimal(g.len() as u64).as_str(),
        ": ",
        sig.excerpt.as_str(),
    );
    assert(g.deep_view().len() == g@.len());
    build_log_node(
        sig.id.clone(),
        NodeKind::ErrorSignature,
        None,
        cat(severity, " signature"),
        summary,
        LogPayload::ErrorSignature(
            ErrorSignaturePayload {
                fingerprint_algorithm: FINGERPRINT_ALGORITHM.to_owned(),
                template_excerpt: sig.excerpt.clone(),
                severity: severity.to_owned(),
                occurrence_count: g.len() as u64,
                first_seen: first.clone(),
                last_seen: last,
                frames,
                repository_id: sig.repository_id.to_owned(),
            },
        ),
        first,
        source,
        is_any_redacted(g),
    )
}

fn push_event(sig: &Signature, t: &str, o: &Occurrence, out: &mut Vec<GraphRecord>, v: Ghost<
    SignatureView,
>)
    requires
        sig.is(v@),
    ensures
        final(out).deep_view() == old(out).deep_view() + event_records(v@, t@, o.deep_view()),
{
    let ghost start = out.deep_view();
    let severity: &str = sig.severity.as_str();
    let hash: String = digest_text(o.template.as_str());
    let id: String = log_stable_id(
        &parts5("log_event", sig.repository_id, sig.id.as_str(), t, hash.as_str()),
    );
    let summary: String = cat6(
        "Log event (",
        severity,
        ") at line ",
        decimal(o.source_line).as_str(),
        " [",
        t,
    ).concat("]");
    let ghost b0 = *out;
    out.push(
        build_log_node(
            id.clone(),
            NodeKind::LogEvent,
            None,
            cat(severity, " event"),
            summary,
            LogPayload::LogEvent(
                LogEventPayload {
                    event_excerpt: sig.excerpt.clone(),
                    event_content_hash: hash,
                    source_line: o.source_line,
                    severity: severity.to_owned(),
                    repository_id: sig.repository_id.to_owned(),
                },
            ),
            t.to_owned(),
            valid_time_source(o.times.from_timestamp),
            o.redacted,
        ),
    );
    let ghost b1 = *out;
    out.push(
        log_edge(
            EdgeLabel::FingerprintedAs,
            sig.repository_id,
            id.as_str(),
            sig.id.as_str(),
            "LogEvent fingerprinted as ErrorSignature",
        ),
    );
    let ghost b2 = *out;
    out.push(
        log_edge(
            EdgeLabel::CapturedFrom,
            sig.repository_id,
            id.as_str(),
            sig.source_id,
            "LogEvent captured from LogSource",
        ),
    );
    proof {
        lemma_push(b0, b1);
        lemma_push(b1, b2);
        lemma_push(b2, *out);
        assert(out.deep_view() =~= start + event_records(v@, t@, o.deep_view()));
    }
}

fn push_examples(
    sig: &Signature,
    g: &Vec<&Occurrence>,
    times: &Vec<String>,
    n: usize,
    out: &mut Vec<GraphRecord>,
    v: Ghost<SignatureView>,
)
    requires
        sig.is(v@),
        n <= times.len(),
    ensures
        final(out).deep_view() == old(out).deep_view() + examples(
            v@,
            g.deep_view(),
            times.deep_view().take(n as int),
        ),
{
    let ghost start = out.deep_view();
    let ghost all = times.deep_view();
    let ghost gv = g.deep_view();
    let mut i: usize = 0;
    assert(start + examples(v@, gv, all.take(0)) =~= start);
    while i < n
        invariant
            i <= n <= times.len(),
            sig.is(v@),
            all == times.deep_view(),
            gv == g.deep_view(),
            out.deep_view() == start + examples(v@, gv, all.take(i as int)),
        decreases n - i,
    {
        let t: &str = times[i].as_str();
        let ghost here = all.take(i + 1);
        let ghost done = examples(v@, gv, all.take(i as int));
        proof {
            assert(here.drop_last() =~= all.take(i as int));
            assert(here.last() == t@);
        }
        match find_example(g, t) {
            Some(o) => {
                push_event(sig, t, o, out, v);
                assert((start + done) + event_records(v@, t@, o.deep_view()) =~= start + examples(
                    v@,
                    gv,
                    here,
                ));
            },
            None => {},
        }
        i += 1;
    }
}

fn push_bucket(sig: &Signature, start: &str, b: &Vec<&Occurrence>, out: &mut Vec<GraphRecord>, v:
    Ghost<SignatureView>)
    requires
        sig.is(v@),
    ensures
        final(out).deep_view() == old(out).deep_view() + bucket_records(v@, start@, b.deep_view()),
{
    let ghost begin = out.deep_view();
    let severity: &str = sig.severity.as_str();
    let id: String = log_stable_id(
        &parts6(
            "log_occurrence_bucket",
            sig.repository_id,
            sig.id.as_str(),
            start,
            BUCKET_WIDTH,
            sig.source_id,
        ),
    );
    let raw: Vec<String> = collect_times(b, TimeKind::Precise);
    assert(raw.deep_view() =~= precise_times(b.deep_view()));
    assert(b.deep_view().len() == b@.len());
    let summary: String = cat6(
        "Occurrence bucket ",
        start,
        " (",
        BUCKET_WIDTH,
        ") x",
        decimal(b.len() as u64).as_str(),
    ).concat(" for ").concat(severity).concat(" signature");
    let ghost b0 = *out;
    out.push(
        build_log_node(
            id.clone(),
            NodeKind::LogOccurrenceBucket,
            None,
            cat3(severity, " bucket ", start),
            summary,
            LogPayload::LogOccurrenceBucket(
                LogOccurrenceBucketPayload {
                    bucket_start: start.to_owned(),
                    bucket_width: BUCKET_WIDTH.to_owned(),
                    occurrence_count: b.len() as u64,
                    source_id: sig.source_id.to_owned(),
                    repository_id: sig.repository_id.to_owned(),
                    occurrence_timestamps: sort_texts(raw),
                },
            ),
            start.to_owned(),
            valid_time_source(is_any_timed(b)),
            false,
        ),
    );
    let ghost b1 = *out;
    out.push(
        log_edge(
            EdgeLabel::Aggregates,
            sig.repository_id,
            id.as_str(),
            sig.id.as_str(),
            "LogOccurrenceBucket aggregates ErrorSignature",
        ),
    );
    proof {
        lemma_push(b0, b1);
        lemma_push(b1, *out);
        assert(out.deep_view() =~= begin + bucket_records(v@, start@, b.deep_view()));
    }
}

fn push_buckets(
    sig: &Signature,
    g: &Vec<&Occurrence>,
    starts_: &Vec<String>,
    out: &mut Vec<GraphRecord>,
    v: Ghost<SignatureView>,
)
    requires
        sig.is(v@),
    ensures
        final(out).deep_view() == old(out).deep_view() + buckets(
            v@,
            g.deep_view(),
            starts_.deep_view(),
        ),
{
    let ghost begin = out.deep_view();
    let ghost all = starts_.deep_view();
    let ghost gv = g.deep_view();
    let mut i: usize = 0;
    assert(begin + buckets(v@, gv, all.take(0)) =~= begin);
    while i < starts_.len()
        invariant
            i <= starts_.len(),
            sig.is(v@),
            all == starts_.deep_view(),
            gv == g.deep_view(),
            out.deep_view() == begin + buckets(v@, gv, all.take(i as int)),
        decreases starts_.len() - i,
    {
        let start: &str = starts_[i].as_str();
        let ghost here = all.take(i + 1);
        let ghost done = buckets(v@, gv, all.take(i as int));
        proof {
            assert(here.drop_last() =~= all.take(i as int));
            assert(here.last() == start@);
        }
        let b: Vec<&Occurrence> = collect_bucket(g, start);
        push_bucket(sig, start, &b, out, v);
        assert((begin + done) + bucket_records(v@, start@, in_bucket(gv, start@)) =~= begin
            + buckets(v@, gv, here));
        i += 1;
    }
    assert(all.take(all.len() as int) =~= all);
}

fn push_signature(
    sig: &Signature,
    g: &Vec<&Occurrence>,
    out: &mut Vec<GraphRecord>,
    diagnostics: &mut Vec<ExemplarCapDiagnostic>,
    v: Ghost<SignatureView>,
)
    requires
        sig.is(v@),
    ensures
        final(out).deep_view() == old(out).deep_view() + signature_records(v@, g.deep_view()),
        final(diagnostics).deep_view() == old(diagnostics).deep_view() + cap_diagnostics(
            v@,
            g.deep_view(),
        ),
{
    let ghost start = out.deep_view();
    let ghost reported = diagnostics.deep_view();
    let ghost gv = g.deep_view();
    let ghost b0 = *out;
    out.push(build_signature_node(sig, g, v));
    let ghost b1 = *out;
    out.push(
        log_edge(
            EdgeLabel::CapturedFrom,
            sig.repository_id,
            sig.id.as_str(),
            sig.source_id,
            "ErrorSignature captured from LogSource",
        ),
    );
    proof {
        lemma_push(b0, b1);
        lemma_push(b1, *out);
    }
    let ghost head = out.deep_view();
    let raw: Vec<String> = collect_times(g, TimeKind::Valid);
    assert(raw.deep_view() =~= valid_times(gv));
    let times: Vec<String> = distinct_texts(&raw);
    assert(times.deep_view().len() == times@.len());
    let cap: usize = DEFAULT_EXEMPLAR_CAP;
    if times.len() > cap {
        let ghost before = *diagnostics;
        diagnostics.push(
            ExemplarCapDiagnostic {
                code: "exemplar_cap_reached".to_owned(),
                signature_id: sig.id.clone(),
                severity: sig.severity.as_str().to_owned(),
                kept: cap as u64,
                dropped: (times.len() - cap) as u64,
            },
        );
        proof {
            lemma_push(before, *diagnostics);
            assert(diagnostics.deep_view() =~= reported + cap_diagnostics(v@, gv));
        }
        push_examples(sig, g, &times, cap, out, v);
    } else {
        assert(reported + cap_diagnostics(v@, gv) =~= reported);
        push_examples(sig, g, &times, times.len(), out, v);
        assert(times.deep_view().take(times@.len() as int) =~= times.deep_view());
    }
    let hours: Vec<String> = collect_times(g, TimeKind::Bucket);
    assert(hours.deep_view() =~= bucket_starts(gv));
    push_buckets(sig, g, &distinct_texts(&hours), out, v);
    assert(out.deep_view() =~= start + signature_records(v@, gv));
}

fn push_severity(
    repository_id: &str,
    source_id: &str,
    occs: &Vec<Occurrence>,
    severity: Severity,
    out: &mut Vec<GraphRecord>,
    diagnostics: &mut Vec<ExemplarCapDiagnostic>,
)
    ensures
        final(out).deep_view() == old(out).deep_view() + records_of_severity(
            (SourceView { repository_id: repository_id@, source_id: source_id@ }),
            occs.deep_view(),
            severity,
        ),
        final(diagnostics).deep_view() == old(diagnostics).deep_view() + diagnostics_of_severity(
            (SourceView { repository_id: repository_id@, source_id: source_id@ }),
            occs.deep_view(),
            severity,
        ),
{
    let ghost src = SourceView { repository_id: repository_id@, source_id: source_id@ };
    let ghost ov = occs.deep_view();
    let ghost start = out.deep_view();
    let ghost reported = diagnostics.deep_view();
    let templates: Vec<String> = distinct_texts(&collect_templates(occs, severity));
    let ghost all = templates.deep_view();
    let mut i: usize = 0;
    assert(start + records_of_templates(src, ov, severity, all.take(0)) =~= start);
    assert(reported + diagnostics_of_templates(src, ov, severity, all.take(0)) =~= reported);
    while i < templates.len()
        invariant
            i <= templates.len(),
            all == templates.deep_view(),
            ov == occs.deep_view(),
            src == (SourceView { repository_id: repository_id@, source_id: source_id@ }),
            out.deep_view() == start + records_of_templates(
                src,
                ov,
                severity,
                all.take(i as int),
            ),
            diagnostics.deep_view() == reported + diagnostics_of_templates(
                src,
                ov,
                severity,
                all.take(i as int),
            ),
        decreases templates.len() - i,
    {
        let template: &str = templates[i].as_str();
        let ghost here = all.take(i + 1);
        let ghost done = records_of_templates(src, ov, severity, all.take(i as int));
        let ghost said = diagnostics_of_templates(src, ov, severity, all.take(i as int));
        let ghost v = signature_of(src, severity, template@);
        proof {
            assert(here.drop_last() =~= all.take(i as int));
            assert(here.last() == template@);
        }
        let id: String = log_stable_id(
            &parts5(
                "error_signature",
                repository_id,
                FINGERPRINT_ALGORITHM,
                template,
                severity.as_str(),
            ),
        );
        let sig: Signature = Signature {
            repository_id,
            source_id,
            severity,
            template,
            id,
            excerpt: truncate_chars(template, EXCERPT_MAX_CHARS),
        };
        let g: Vec<&Occurrence> = collect_group(occs, severity, template);
        push_signature(&sig, &g, out, diagnostics, Ghost(v));
        proof {
            let gv = group_of(ov, severity, template@);
            assert((start + done) + signature_records(v, gv) =~= start + records_of_templates(
                src,
                ov,
                severity,
                here,
            ));
            assert((reported + said) + cap_diagnostics(v, gv) =~= reported
                + diagnostics_of_templates(src, ov, severity, here));
        }
        i += 1;
    }
    assert(all.take(all.len() as int) =~= all);
}

// ── Scanning ────────────────────────────────────────────────────────────────

pub open spec fn source_identity(
    repository_id: Seq<char>,
    path: Seq<char>,
    hash: Seq<char>,
) -> Seq<char> {
    log_id(seq!["log_source"@, repository_id, path, hash])
}

pub open spec fn source_node(
    repository_id: Seq<char>,
    path: Seq<char>,
    bytes: Seq<u8>,
    text: Seq<char>,
    transaction_time: Seq<char>,
) -> RecordView {
    let hash = blake3_hex(bytes);
    let count = lines_of(text).len();
    log_node(
        source_identity(repository_id, path, hash),
        NodeKind::LogSource,
        Some(path),
        path,
        "Log source "@ + path + " ("@ + format_of(text) + "), "@ + decimal_of(count) + " lines"@,
        LogPayloadView::LogSource(
            LogSourcePayloadView {
                source_relative_path: path,
                source_format_version: format_of(text),
                source_artifact_hash: hash,
                line_count: count as u64,
                repository_id,
            },
        ),
        transaction_time,
        VALID_TIME_SOURCE_INFERRED@,
        false,
    )
}

/// What a scan of a text log yields.
pub open spec fn scanned<P: LogPolicy>(
    policy: &P,
    bytes: Seq<u8>,
    path: Seq<char>,
    root: Seq<char>,
    repository_id: Seq<char>,
    transaction_time: Seq<char>,
    retain: bool,
) -> LogScanView {
    let text = vstd::utf8::decode_utf8(bytes);
    let c = ScanContext { root, transaction_time, transaction_hour: hour_of(transaction_time) };
    let occs = occurrences(policy, c, text);
    let src = SourceView {
        repository_id,
        source_id: source_identity(repository_id, path, blake3_hex(bytes)),
    };
    LogScanView {
        records: seq![source_node(repository_id, path, bytes, text, transaction_time)]
            + occurrence_records(src, occs),
        source_format_version: format_of(text),
        diagnostics: occurrence_diagnostics(src, occs),
        normalized_source: if retain {
            Some(text)
        } else {
            None
        },
    }
}

/// Why bytes are no text log, where they are none.
pub open spec fn unreadable(bytes: Seq<u8>) -> Option<LogScanErrorView> {
    if bytes.contains(0u8) {
        Some(
            LogScanErrorView::UnrecognizedFormat {
                detail: "file contains NUL bytes; not a text log"@,
            },
        )
    } else if !vstd::utf8::valid_utf8(bytes) {
        Some(
            LogScanErrorView::UnrecognizedFormat {
                detail: "file is not valid UTF-8: "@ + utf8_error_text(bytes),
            },
        )
    } else {
        None
    }
}

fn read_occurrences<P: LogPolicy>(policy: &P, text: &str, root: &str, transaction_time: &str) -> (r:
    Vec<Occurrence>)
    ensures
        r.deep_view() == occurrences(
            policy,
            (ScanContext {
                root: root@,
                transaction_time: transaction_time@,
                transaction_hour: hour_of(transaction_time@),
            }),
            text@,
        ),
{
    let hour: String = floor_to_hour(transaction_time);
    if detect_jsonl(&lines(text)) {
        let ghost c = ScanContext {
            root: root@,
            transaction_time: transaction_time@,
            transaction_hour: hour@,
        };
        parse_jsonl(policy, text, transaction_time, hour.as_str(), Ghost(c))
    } else {
        parse_plain(policy, text, transaction_time, hour.as_str(), root)
    }
}

fn build_source_node(
    repository_id: &str,
    path: &str,
    hash: &str,
    text: &str,
    transaction_time: &str,
    bytes: Ghost<Seq<u8>>,
) -> (r: GraphRecord)
    requires
        hash@ == blake3_hex(bytes@),
    ensures
        r.deep_view() == source_node(repository_id@, path@, bytes@, text@, transaction_time@),
{
    let format: &'static str = detect_format(text);
    let ls: Vec<String> = lines(text);
    assert(ls.deep_view().len() == ls@.len());
    let count: u64 = ls.len() as u64;
    let summary: String = cat6(
        "Log source ",
        path,
        " (",
        format,
        "), ",
        decimal(count).as_str(),
    ).concat(" lines");
    build_log_node(
        log_stable_id(&parts4("log_source", repository_id, path, hash)),
        NodeKind::LogSource,
        Some(path.to_owned()),
        path.to_owned(),
        summary,
        LogPayload::LogSource(
            LogSourcePayload {
                source_relative_path: path.to_owned(),
                source_format_version: format.to_owned(),
                source_artifact_hash: hash.to_owned(),
                line_count: count,
                repository_id: repository_id.to_owned(),
            },
        ),
        transaction_time.to_owned(),
        VALID_TIME_SOURCE_INFERRED,
        false,
    )
}

/// Appends the records of all signatures, and the reports of dropped examples.
pub fn push_occurrences(
    repository_id: &str,
    source_id: &str,
    occs: &Vec<Occurrence>,
    records: &mut Vec<GraphRecord>,
    diagnostics: &mut Vec<ExemplarCapDiagnostic>,
)
    ensures
        final(records).deep_view() == old(records).deep_view() + occurrence_records(
            (SourceView { repository_id: repository_id@, source_id: source_id@ }),
            occs.deep_view(),
        ),
        final(diagnostics).deep_view() == old(diagnostics).deep_view() + occurrence_diagnostics(
            (SourceView { repository_id: repository_id@, source_id: source_id@ }),
            occs.deep_view(),
        ),
{
    let ghost src = SourceView { repository_id: repository_id@, source_id: source_id@ };
    push_severity(repository_id, source_id, occs, Severity::Error, records, diagnostics);
    push_severity(repository_id, source_id, occs, Severity::Fatal, records, diagnostics);
    push_severity(repository_id, source_id, occs, Severity::Warn, records, diagnostics);
    proof {
        assert(records.deep_view() =~= old(records).deep_view() + occurrence_records(
            src,
            occs.deep_view(),
        ));
        assert(diagnostics.deep_view() =~= old(diagnostics).deep_view() + occurrence_diagnostics(
            src,
            occs.deep_view(),
        ));
    }
}

fn scan_text<P: LogPolicy>(
    policy: &P,
    bytes: &Vec<u8>,
    text: String,
    path: &str,
    root: &str,
    repository_id: &str,
    transaction_time: &str,
    retain: bool,
) -> (r: LogScan)
    requires
        text@ == vstd::utf8::decode_utf8(bytes@),
    ensures
        r.deep_view() == scanned(
            policy,
            bytes@,
            path@,
            root@,
            repository_id@,
            transaction_time@,
            retain,
        ),
{
    let hash: String = blake3_digest(bytes);
    let occs: Vec<Occurrence> = read_occurrences(policy, text.as_str(), root, transaction_time);
    let source_id: String = log_stable_id(
        &parts4("log_source", repository_id, path, hash.as_str()),
    );
    let head: GraphRecord = build_source_node(
        repository_id,
        path,
        hash.as_str(),
        text.as_str(),
        transaction_time,
        Ghost(bytes@),
    );
    let format: &'static str = detect_format(text.as_str());
    let mut records: Vec<GraphRecord> = Vec::new();
    let mut diagnostics: Vec<ExemplarCapDiagnostic> = Vec::new();
    let ghost b0 = records;
    records.push(head);
    proof {
        lemma_push(b0, records);
        assert(records.deep_view() =~= seq![head.deep_view()]);
        assert(diagnostics.deep_view() =~= Seq::<ExemplarCapDiagnosticView>::empty());
    }
    push_occurrences(repository_id, source_id.as_str(), &occs, &mut records, &mut diagnostics);
    LogScan {
        records,
        source_format_version: format.to_owned(),
        diagnostics,
        normalized_source: if retain {
            Some(text)
        } else {
            None
        },
    }
}

/// Scans the bytes of one log into graph records.
///
/// `log_path` and `root` are the resolved paths of the log and of the repository.
/// `transaction_time` stands in where a line names no time. `retain` asks for the text that was
/// scanned.
pub fn scan_log_records<P: LogPolicy>(
    policy: &P,
    raw: &[u8],
    log_path: &str,
    root: &str,
    repository_id: &str,
    transaction_time: &str,
    retain: bool,
) -> (r: Result<LogScan, LogScanError>)
    ensures
        (match r {
            Ok(scan) => unreadable(line_fed(raw@)) is None && scan.deep_view() == scanned(
                policy,
                line_fed(raw@),
                relative_path(root@, log_path@),
                root@,
                repository_id@,
                transaction_time@,
                retain,
            ),
            Err(e) => unreadable(line_fed(raw@)) == Some(e.deep_view()),
        }),
{
    let bytes: Vec<u8> = normalize_newlines(raw);
    if has_nul(&bytes) {
        return Err(
            LogScanError::UnrecognizedFormat {
                detail: "file contains NUL bytes; not a text log".to_owned(),
            },
        );
    }
    match decode_text(&bytes) {
        Ok(text) => {
            let path: String = source_relative_path(root, log_path);
            Ok(
                scan_text(
                    policy,
                    &bytes,
                    text,
                    path.as_str(),
                    root,
                    repository_id,
                    transaction_time,
                    retain,
                ),
            )
        },
        Err(e) => Err(
            LogScanError::UnrecognizedFormat {
                detail: cat("file is not valid UTF-8: ", e.as_str()),
            },
        ),
    }
}

// ── Protected capture ───────────────────────────────────────────────────────

/// Each line redacted on its own, the line feeds kept.
pub open spec fn redacted_lines<P: Redactor>(policy: &P, ls: Seq<Seq<char>>) -> Seq<Seq<char>> {
    ls.map_values(|l: Seq<char>| policy.redacted(l))
}

/// Lines with a line feed between each; what follows the last line feed is redacted only where
/// there is something.
pub open spec fn captured<P: LogPolicy>(policy: &P, text: Seq<char>) -> Seq<char> {
    let parts = split_on(policy.scrubbed(text), "\n"@);
    let closed = joined(redacted_lines(policy, parts.drop_last()).push(Seq::empty()), "\n"@);
    if parts.last().len() == 0 {
        closed
    } else {
        closed + policy.redacted(parts.last())
    }
}

/// The bytes of a scanned log with every secret replaced: the whole text is scrubbed, then each
/// line is redacted once more.
pub fn redacted_source_bytes<P: LogPolicy>(policy: &P, text: &str) -> (r: Vec<u8>)
    ensures
        r@ == vstd::utf8::encode_utf8(captured(policy, text@)),
{
    proof {
        reveal_strlit("\n");
    }
    let parts: Vec<String> = split(policy.scrub(text).as_str(), "\n");
    let ghost all = parts.deep_view();
    let n: usize = parts.len() - 1;
    let ghost closed = redacted_lines(policy, all.drop_last());
    let mut out: Vec<String> = Vec::new();
    let mut i: usize = 0;
    assert(out.deep_view() =~= closed.take(0));
    while i < n
        invariant
            i <= n,
            n + 1 == parts.len(),
            all == parts.deep_view(),
            closed == redacted_lines(policy, all.drop_last()),
            out.deep_view() == closed.take(i as int),
        decreases n - i,
    {
        let ghost before = out;
        out.push(policy.redact(parts[i].as_str()));
        proof {
            lemma_push(before, out);
            assert(all[i as int] == parts@[i as int]@);
            assert(closed.take(i + 1) =~= closed.take(i as int).push(closed[i as int]));
        }
        i += 1;
    }
    assert(closed.take(n as int) =~= closed);
    let ghost before = out;
    out.push(String::new());
    proof {
        lemma_push(before, out);
        assert(all.last() == parts@[n as int]@);
    }
    let mut whole: String = join(&out, "\n");
    if !parts[n].as_str().is_empty() {
        whole.append(policy.redact(parts[n].as_str()).as_str());
    }
    let mut bytes: Vec<u8> = Vec::new();
    let view: &[u8] = whole.as_str().as_bytes();
    let mut k: usize = 0;
    while k < view.len()
        invariant
            k <= view@.len(),
            bytes@ == view@.take(k as int),
        decreases view.len() - k,
    {
        bytes.push(view[k]);
        k += 1;
    }
    assert(bytes@ =~= view@);
    bytes
}

// ── Paths ───────────────────────────────────────────────────────────────────

/// What is left of a path below `root`; the whole of it where it does not lie there.
pub open spec fn below(root: Seq<char>, path: Seq<char>) -> Seq<Seq<char>> {
    if is_below(root, path) {
        path_parts(path).skip(path_parts(root).len() as int)
    } else {
        path_parts(path)
    }
}

/// The path of a log in its repository. A log that is the root itself goes by its file name.
pub open spec fn relative_path(root: Seq<char>, log: Seq<char>) -> Seq<char> {
    let text = joined(below(root, log).filter(|p: Seq<char>| is_name(p)), "/"@);
    if text.len() > 0 {
        text
    } else {
        match file_name(log) {
            Some(name) => name,
            None => "log"@,
        }
    }
}

/// The path of a log in its repository, from the absolute paths of both.
pub fn source_relative_path(root: &str, log: &str) -> (r: String)
    ensures
        r@ == relative_path(root@, log@),
{
    let rp: Vec<String> = split_path(root);
    let lp: Vec<String> = split_path(log);
    let ghost lv = lp.deep_view();
    let from: usize = if starts_with_parts(&lp, &rp) {
        rp.len()
    } else {
        0
    };
    let ghost all = below(root@, log@);
    assert(lv.skip(0) =~= lv);
    assert(all =~= lv.skip(from as int));
    let ghost keep = |p: Seq<char>| is_name(p);
    let mut rest: Vec<String> = Vec::new();
    let mut i: usize = from;
    proof {
        reveal(Seq::filter);
        assert(rest.deep_view() =~= all.take(0).filter(keep));
    }
    while i < lp.len()
        invariant
            from <= i <= lp.len(),
            lv == lp.deep_view(),
            all == lv.skip(from as int),
            keep == (|p: Seq<char>| is_name(p)),
            rest.deep_view() == all.take(i - from).filter(keep),
        decreases lp.len() - i,
    {
        proof {
            reveal(Seq::filter);
            assert(all.take(i - from + 1).drop_last() =~= all.take(i - from));
            assert(all.take(i - from + 1).last() == lp@[i as int]@);
        }
        if check_name(lp[i].as_str()) {
            let ghost before = rest;
            rest.push(lp[i].clone());
            proof {
                lemma_push(before, rest);
            }
        }
        i += 1;
    }
    assert(all.take(all.len() as int) =~= all);
    let text: String = join(&rest, "/");
    if !text.as_str().is_empty() {
        return text;
    }
    match find_file_name(log) {
        Some(name) => name,
        None => "log".to_owned(),
    }
}

} // verus!
