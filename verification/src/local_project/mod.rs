//! Project records from local task files.
//!
//! A task file holds one JSON object per line: a header, then tasks, acceptance criteria and
//! external links. Rows that break a rule leave diagnostics and do not block the others.
pub mod check;
pub mod emit;
pub mod fault;
pub mod handles;
pub mod input;
pub mod laws;

use vstd::prelude::*;

use crate::assoc::{find_value, lookup};
use crate::duplicate::lemma_push;
use crate::ir::{
    Graph, Producer, ProducerComponent, ProducerComponentView, ProducerKind, ProducerView,
    RecordView, EGREGORE_VERSION,
};
use crate::local_project::check::{
    build_diagnostic, check_rows, checked, diagnostic, FileContext, FileView, State,
};
use crate::local_project::emit::{emit_rows, emitted};
use crate::local_project::fault::{
    duplicate_slug, duplicate_slug_fault, empty_file, empty_file_fault, header_fields,
    header_fields_fault, header_kind, header_kind_fault, header_not_json, header_not_json_fault,
    schema_version, schema_version_fault, slug_mismatch, slug_mismatch_fault, Fault, FaultView,
};
use crate::local_project::input::{Row, RowView, TaskFile, TaskFileView};
use crate::path::{is_below, path_parts, path_text, split_path, starts_with_parts};
use crate::policy::{PassThrough, Redactor};
use crate::text::{
    cat, cat4, contains, decimal, decimal_of, has, join, replace_char, replaced, rsplit_once, same,
    sort_texts, sorted_texts, split_last,
};
use crate::time::{read_rfc3339, rfc3339_result, Instant};

pub use crate::local_project::check::{DOMAIN, IMPORTER_ID, IMPORTER_VERSION, SOURCE_KIND};
pub use crate::local_project::handles::percent_encode;

verus! {

/// How local task files are imported.
pub struct ImportOptions<R: Redactor> {
    /// Applied to every free-text field before it is stored.
    pub redact: R,
    /// A fixed transaction time, for output that can be reproduced.
    pub transaction_time: Option<String>,
}

impl ImportOptions<PassThrough> {
    /// Options that keep every text as it is.
    pub fn pass_through() -> (r: Self)
        ensures
            r.redact == PassThrough,
            r.transaction_time is None,
    {
        ImportOptions { redact: PassThrough, transaction_time: None }
    }
}

/// What an import yields.
pub struct ImportResult {
    pub graph: Graph,
    /// How many diagnostics are in the graph.
    pub diagnostic_count: usize,
}

/// The importer's producer, started at a fixed time or else with the process.
pub open spec fn task_writer(started_at: Seq<char>) -> ProducerView {
    ProducerView {
        egregore_version: EGREGORE_VERSION@,
        egregore_git: None,
        producer_kind: ProducerKind::TaskWriter,
        producer_components: seq![
            ProducerComponentView { name: "importer_id"@, version: IMPORTER_ID@ },
            ProducerComponentView { name: "importer_schema_version"@, version: IMPORTER_VERSION@ },
        ],
        producer_started_at: started_at,
    }
}

pub open spec fn or_text(fixed: Option<Seq<char>>, otherwise: Seq<char>) -> Seq<char> {
    match fixed {
        Some(t) => t,
        None => otherwise,
    }
}

fn task_writer_producer(
    fixed_started_at: &Option<String>,
    process_started_at: &str,
) -> (r: Producer)
    ensures
        r.deep_view() == task_writer(or_text(fixed_started_at.deep_view(), process_started_at@)),
{
    let started_at: String = match fixed_started_at {
        Some(t) => t.clone(),
        None => process_started_at.to_owned(),
    };
    let r: Producer = Producer {
        egregore_version: EGREGORE_VERSION.to_owned(),
        egregore_git: None,
        producer_kind: ProducerKind::TaskWriter,
        producer_components: vec![
            ProducerComponent { name: "importer_id".to_owned(), version: IMPORTER_ID.to_owned() },
            ProducerComponent {
                name: "importer_schema_version".to_owned(),
                version: IMPORTER_VERSION.to_owned(),
            },
        ],
        producer_started_at: started_at,
    };
    assert(r.deep_view().producer_components =~= task_writer(
        or_text(fixed_started_at.deep_view(), process_started_at@),
    ).producer_components);
    r
}

// ── File names ──────────────────────────────────────────────────────────────

/// A file name without its extension. A leading dot starts no extension.
pub open spec fn stem(name: Seq<char>) -> Seq<char> {
    match split_last(name, "."@) {
        Some((before, _)) => if before.len() == 0 || name == ".."@ {
            name
        } else {
            before
        },
        None => name,
    }
}

/// The slug that a task file of this name must carry.
pub fn file_stem(name: &str) -> (r: String)
    ensures
        r@ == stem(name@),
{
    match rsplit_once(name, ".") {
        Some((before, _)) => if before.as_str().is_empty() || same(name, "..") {
            name.to_owned()
        } else {
            before
        },
        None => name.to_owned(),
    }
}

/// A file that is imported with its directory: `*.jsonl`, but no temporary file.
pub open spec fn is_task_file(name: Seq<char>) -> bool {
    let temporary = has(name, ".tmp-"@);
    match split_last(name, "."@) {
        Some((before, extension)) => before.len() > 0 && extension == "jsonl"@ && !temporary,
        None => false,
    }
}

fn check_task_file(name: &str) -> (r: bool)
    ensures
        r == is_task_file(name@),
{
    let jsonl: bool = match rsplit_once(name, ".") {
        Some((before, extension)) => !before.as_str().is_empty() && same(
            extension.as_str(),
            "jsonl",
        ),
        None => false,
    };
    jsonl && !contains(name, ".tmp-")
}

/// The task files among the names in a directory, in the order in which they are imported.
pub fn task_files(names: &Vec<String>) -> (r: Vec<String>)
    ensures
        r.deep_view() == sorted_texts(
            names.deep_view().filter(|n: Seq<char>| is_task_file(n)),
        ),
{
    let ghost all = names.deep_view();
    let ghost keep = |n: Seq<char>| is_task_file(n);
    let mut out: Vec<String> = Vec::new();
    let mut i: usize = 0;
    proof {
        reveal(Seq::filter);
        assert(out.deep_view() =~= all.take(0).filter(keep));
    }
    while i < names.len()
        invariant
            i <= names.len(),
            all == names.deep_view(),
            keep == (|n: Seq<char>| is_task_file(n)),
            out.deep_view() == all.take(i as int).filter(keep),
        decreases names.len() - i,
    {
        proof {
            reveal(Seq::filter);
            assert(all.take(i + 1).drop_last() =~= all.take(i as int));
            assert(all.take(i + 1).last() == names@[i as int].deep_view());
        }
        if check_task_file(names[i].as_str()) {
            let ghost before = out;
            out.push(names[i].clone());
            proof {
                lemma_push(before, out);
            }
        }
        i += 1;
    }
    assert(all.take(names.len() as int) =~= all);
    sort_texts(out)
}

/// The path of a file in its repository, with forward slashes; none where it lies outside. Both
/// paths are resolved.
pub open spec fn path_below(root: Seq<char>, file: Seq<char>) -> Option<Seq<char>> {
    if is_below(root, file) {
        let rest = path_parts(file).skip(path_parts(root).len() as int);
        Some(replaced(path_text(rest), '\\', '/'))
    } else {
        None
    }
}

/// The path that handles and identities go by. A file outside the repository has none, so that no
/// path of the machine is ever stored.
pub fn path_in_repository(root: &str, file: &str) -> (r: Option<String>)
    ensures
        r.deep_view() == path_below(root@, file@),
{
    let rp: Vec<String> = split_path(root);
    let fp: Vec<String> = split_path(file);
    if !starts_with_parts(&fp, &rp) {
        return None;
    }
    let ghost all = fp.deep_view().skip(rp.len() as int);
    let mut i: usize = rp.len();
    let mut front: &str = "";
    proof {
        reveal_strlit("");
        assert(""@ =~= Seq::<char>::empty());
        if i < fp.len() {
            assert(all[0] == fp@[i as int]@);
        }
    }
    if i < fp.len() && same(fp[i].as_str(), "/") {
        front = "/";
        i += 1;
    }
    let start: usize = i;
    let ghost names = fp.deep_view().skip(start as int);
    let mut rest: Vec<String> = Vec::new();
    assert(rest.deep_view() =~= names.take(0));
    while i < fp.len()
        invariant
            start <= i <= fp.len(),
            names == fp.deep_view().skip(start as int),
            rest.deep_view() == names.take(i - start),
        decreases fp.len() - i,
    {
        let ghost before = rest;
        rest.push(fp[i].clone());
        proof {
            lemma_push(before, rest);
            let n = i - start;
            assert(names[n] == fp@[i as int]@);
            assert(names.take(n + 1) =~= names.take(n).push(names[n]));
        }
        i += 1;
    }
    assert(names.take(names.len() as int) =~= names);
    let text: String = cat(front, join(&rest, "/").as_str());
    proof {
        if start > rp.len() {
            assert(all.skip(1) =~= names);
        }
        assert(text@ =~= path_text(all));
    }
    Some(replace_char(text.as_str(), '\\', '/'))
}

// ── One file ────────────────────────────────────────────────────────────────

/// The kind that a row that is no header names.
pub open spec fn row_kind(row: RowView) -> Seq<char> {
    match row {
        RowView::Task(_) => "task"@,
        RowView::Criterion(_) => "acceptance_criterion"@,
        RowView::Link(_) => "external_link"@,
        RowView::Unknown { kind } => kind,
        _ => "header"@,
    }
}

fn kind_of_row(row: &Row) -> (r: String)
    ensures
        r@ == row_kind(row.deep_view()),
{
    match row {
        Row::Task(_) => "task".to_owned(),
        Row::Criterion(_) => "acceptance_criterion".to_owned(),
        Row::Link(_) => "external_link".to_owned(),
        Row::Unknown { kind } => kind.clone(),
        _ => "header".to_owned(),
    }
}

/// Why a file cannot be imported at all: its first line must be a header of schema version 1
/// that carries the name of the file.
pub open spec fn header_fault(file: TaskFileView) -> Option<FaultView> {
    if file.lines.len() == 0 {
        Some(empty_file_fault(file.file_rel))
    } else {
        match file.lines[0].row {
            RowView::Invalid { error } => Some(header_not_json_fault(file.file_rel, error)),
            RowView::Header(Err(error)) => Some(header_fields_fault(file.file_rel, error)),
            RowView::Header(Ok(h)) => if h.schema_version != 1 {
                Some(schema_version_fault(file.file_rel, decimal_of(h.schema_version as nat)))
            } else if h.project_slug != file.file_stem {
                Some(slug_mismatch_fault(h.project_slug, file.file_stem, file.file_rel))
            } else {
                None
            },
            _ => Some(header_kind_fault(file.file_rel, row_kind(file.lines[0].row))),
        }
    }
}

fn check_header(file: &TaskFile) -> (r: Option<Fault>)
    ensures
        r.deep_view() == header_fault(file.deep_view()),
{
    let rel: &str = file.file_rel.as_str();
    if file.lines.len() == 0 {
        return Some(empty_file(rel));
    }
    assert(file.deep_view().lines[0] == file.lines@[0].deep_view());
    match &file.lines[0].row {
        Row::Invalid { error } => Some(header_not_json(rel, error.as_str())),
        Row::Header(Err(error)) => Some(header_fields(rel, error.as_str())),
        Row::Header(Ok(h)) => {
            if h.schema_version != 1 {
                return Some(schema_version(rel, decimal(h.schema_version as u64).as_str()));
            }
            if !same(h.project_slug.as_str(), file.file_stem.as_str()) {
                return Some(slug_mismatch(h.project_slug.as_str(), file.file_stem.as_str(), rel));
            }
            None
        },
        row => Some(header_kind(rel, kind_of_row(row).as_str())),
    }
}

pub open spec fn context(file: TaskFileView, transaction_time: Seq<char>) -> FileView {
    FileView { file_rel: file.file_rel, transaction_time }
}

/// The diagnostics of a file: the one that stops it, or else those of its rows.
pub open spec fn file_diagnostics(
    file: TaskFileView,
    transaction_time: Seq<char>,
) -> Seq<RecordView> {
    let f = context(file, transaction_time);
    match header_fault(file) {
        Some(fault) => seq![diagnostic(f, fault.parts, fault.message)],
        None => checked(f, file.lines, file.lines.len()).diagnostics,
    }
}

/// The records of the rows of a file that passed their checks.
pub open spec fn file_entities<R: Redactor>(
    redact: R,
    file: TaskFileView,
    transaction_time: Seq<char>,
) -> Seq<RecordView> {
    let f = context(file, transaction_time);
    let st = checked(f, file.lines, file.lines.len());
    match header_fault(file) {
        Some(_) => Seq::empty(),
        None => emitted(redact, f, st, st.parsed),
    }
}

/// What a file yields: its diagnostics, then its entities.
pub open spec fn file_records<R: Redactor>(
    redact: R,
    file: TaskFileView,
    transaction_time: Seq<char>,
) -> Seq<RecordView> {
    file_diagnostics(file, transaction_time) + file_entities(redact, file, transaction_time)
}

/// Imports one file and says how many diagnostics it gave.
pub fn import_file<R: Redactor>(
    file: &TaskFile,
    redact: &R,
    transaction_time: &str,
    graph: &mut Graph,
) -> (r: usize)
    ensures
        final(graph)@ == old(graph)@ + file_records(*redact, file.deep_view(), transaction_time@),
        r == file_diagnostics(file.deep_view(), transaction_time@).len(),
{
    let f: FileContext = FileContext { file_rel: file.file_rel.as_str(), transaction_time };
    let ghost before = graph@;
    match check_header(file) {
        Some(fault) => {
            graph.push(build_diagnostic(&f, &fault.parts, fault.message));
            assert(graph@ =~= before + file_records(
                *redact,
                file.deep_view(),
                transaction_time@,
            ));
            1
        },
        None => {
            let st: State = check_rows(&f, &file.lines);
            let count: usize = st.diagnostics.len();
            crate::duplicate::extend_with(&mut graph.records, &st.diagnostics);
            emit_rows(&mut graph.records, redact, &f, &st);
            assert(graph@ =~= before + file_records(
                *redact,
                file.deep_view(),
                transaction_time@,
            ));
            count
        },
    }
}

// ── All files ───────────────────────────────────────────────────────────────

/// The file that first claimed each slug, among the first `n`.
pub open spec fn slugs(files: Seq<TaskFileView>, n: nat) -> Seq<(Seq<char>, Seq<char>)>
    decreases n,
{
    if n == 0 {
        Seq::empty()
    } else {
        let file = files[n - 1];
        let earlier = slugs(files, (n - 1) as nat);
        if lookup(earlier, file.file_stem) is Some {
            earlier
        } else {
            earlier.push((file.file_stem, file.path))
        }
    }
}

/// What the file at `i` yields among the others: a second file with one slug is not read.
pub open spec fn nth_records<R: Redactor>(
    redact: R,
    files: Seq<TaskFileView>,
    i: int,
    transaction_time: Seq<char>,
) -> Seq<RecordView> {
    nth_diagnostics(files, i, transaction_time) + match lookup(
        slugs(files, i as nat),
        files[i].file_stem,
    ) {
        Some(_) => Seq::empty(),
        None => file_entities(redact, files[i], transaction_time),
    }
}

pub open spec fn nth_diagnostics(
    files: Seq<TaskFileView>,
    i: int,
    transaction_time: Seq<char>,
) -> Seq<RecordView> {
    let file = files[i];
    match lookup(slugs(files, i as nat), file.file_stem) {
        Some(existing) => {
            let fault = duplicate_slug_fault(file.file_stem, file.file_rel, existing);
            seq![diagnostic(context(file, transaction_time), fault.parts, fault.message)]
        },
        None => file_diagnostics(file, transaction_time),
    }
}

/// The records of the first `n` files.
pub open spec fn imported<R: Redactor>(
    redact: R,
    files: Seq<TaskFileView>,
    n: nat,
    transaction_time: Seq<char>,
) -> Seq<RecordView>
    decreases n,
{
    if n == 0 {
        Seq::empty()
    } else {
        imported(redact, files, (n - 1) as nat, transaction_time) + nth_records(
            redact,
            files,
            n - 1,
            transaction_time,
        )
    }
}

/// How many diagnostics the first `n` files give.
pub open spec fn diagnostics_in(
    files: Seq<TaskFileView>,
    n: nat,
    transaction_time: Seq<char>,
) -> nat
    decreases n,
{
    if n == 0 {
        0
    } else {
        diagnostics_in(files, (n - 1) as nat, transaction_time) + nth_diagnostics(
            files,
            n - 1,
            transaction_time,
        ).len()
    }
}

/// The refusal of a fixed transaction time that was read as no timestamp.
pub open spec fn time_refusal(fixed: Seq<char>, read: Result<Instant, Seq<char>>) -> Option<
    Seq<char>,
> {
    match read {
        Ok(_) => None,
        Err(e) => Some(
            "--transaction-time '"@ + fixed + "' is not a valid RFC 3339 timestamp: "@ + e,
        ),
    }
}

pub fn refuse_transaction_time(fixed: &str, read: &Result<Instant, String>) -> (r: Option<String>)
    ensures
        r.deep_view() == time_refusal(
            fixed@,
            match read {
                Ok(t) => Ok(*t),
                Err(e) => Err(e@),
            },
        ),
{
    match read {
        Ok(_) => None,
        Err(e) => Some(
            cat4(
                "--transaction-time '",
                fixed,
                "' is not a valid RFC 3339 timestamp: ",
                e.as_str(),
            ),
        ),
    }
}

/// The refusal of a fixed transaction time that is no timestamp.
pub open spec fn transaction_time_error(fixed: Option<Seq<char>>) -> Option<Seq<char>> {
    match fixed {
        Some(t) => time_refusal(t, rfc3339_result(t)),
        None => None,
    }
}

/// Reads a fixed transaction time; an import checks it before anything else.
pub fn check_transaction_time(fixed: &Option<String>) -> (r: Option<String>)
    ensures
        r.deep_view() == transaction_time_error(fixed.deep_view()),
{
    match fixed {
        Some(t) => refuse_transaction_time(t.as_str(), &read_rfc3339(t.as_str())),
        None => None,
    }
}

/// The records that an import yields: those of the files, each with its producer.
pub open spec fn import_graph<R: Redactor>(
    redact: R,
    files: Seq<TaskFileView>,
    fixed: Option<Seq<char>>,
    now: Seq<char>,
    process_started_at: Seq<char>,
) -> Seq<RecordView> {
    let producer = task_writer(or_text(fixed, process_started_at));
    imported(redact, files, files.len(), or_text(fixed, now)).map_values(
        |x: RecordView| crate::ir::produced(x, producer),
    )
}

/// Imports local task files. `now` is the transaction time where none is fixed, and
/// `process_started_at` the time from which the producer then counts.
///
/// The only refusal is that of a fixed transaction time that cannot be read.
pub fn import_local_tasks<R: Redactor>(
    files: &Vec<TaskFile>,
    opts: &ImportOptions<R>,
    now: &str,
    process_started_at: &str,
) -> (r: Result<ImportResult, String>)
    ensures
        match (r, transaction_time_error(opts.transaction_time.deep_view())) {
            (Err(e), Some(reason)) => e@ == reason,
            (Ok(result), None) => {
                &&& result.graph@ == import_graph(
                    opts.redact,
                    files.deep_view(),
                    opts.transaction_time.deep_view(),
                    now@,
                    process_started_at@,
                )
                &&& result.diagnostic_count == diagnostics_in(
                    files.deep_view(),
                    files.deep_view().len(),
                    or_text(opts.transaction_time.deep_view(), now@),
                )
            },
            _ => false,
        },
{
    if let Some(reason) = check_transaction_time(&opts.transaction_time) {
        return Err(reason);
    }
    let time: String = match &opts.transaction_time {
        Some(t) => t.clone(),
        None => now.to_owned(),
    };
    let ghost all = files.deep_view();
    let mut graph: Graph = Graph::new();
    let mut count: usize = 0;
    let mut seen: Vec<(String, String)> = Vec::new();
    let mut i: usize = 0;
    assert(seen.deep_view() =~= Seq::empty());
    while i < files.len()
        invariant
            i <= files.len(),
            all == files.deep_view(),
            seen.deep_view() == slugs(all, i as nat),
            graph@ == imported(opts.redact, all, i as nat, time@),
            count == diagnostics_in(all, i as nat, time@),
            count <= graph.records.len(),
        decreases files.len() - i,
    {
        let file: &TaskFile = &files[i];
        let ghost before = graph@;
        assert(all[i as int] == file.deep_view());
        let ghost here = nth_diagnostics(all, i as int, time@);
        assert(before.len() == graph.records.len());
        match find_value(&seen, file.file_stem.as_str()) {
            Some(existing) => {
                let fault: Fault = duplicate_slug(
                    file.file_stem.as_str(),
                    file.file_rel.as_str(),
                    existing.as_str(),
                );
                let f: FileContext = FileContext {
                    file_rel: file.file_rel.as_str(),
                    transaction_time: time.as_str(),
                };
                graph.push(build_diagnostic(&f, &fault.parts, fault.message));
                assert(graph@ =~= before + nth_records(opts.redact, all, i as int, time@));
                assert(graph@.len() == graph.records.len());
                count += 1;
            },
            None => {
                let n: usize = import_file(file, &opts.redact, time.as_str(), &mut graph);
                assert(graph@ =~= before + nth_records(opts.redact, all, i as int, time@));
                assert(graph@.len() == graph.records.len());
                count += n;
                let ghost b = seen;
                seen.push((file.file_stem.clone(), file.path.clone()));
                proof {
                    lemma_push(b, seen);
                }
            },
        }
        i += 1;
    }
    let producer: Producer = task_writer_producer(&opts.transaction_time, process_started_at);
    Ok(ImportResult { graph: graph.stamp_producer(&producer), diagnostic_count: count })
}

} // verus!
