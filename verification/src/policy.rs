//! What a scan is handed from outside: the policies that free text passes through before it is
//! stored, and the passes that find references in files and across them.
use vstd::prelude::*;

use crate::duplicate::duplicate_all;
use crate::ir::{GraphRecord, RecordView};
use crate::languages::common::{SymbolBody, SymbolBodyView};
use crate::languages::facts::{FileFacts, FileFactsView};

verus! {

/// Removes secrets from free text. The same text always gives the same result.
///
/// An implementation outside of verified code gives the executable functions alone.
pub trait Redactor {
    open spec fn redacted(&self, text: Seq<char>) -> Seq<char> {
        arbitrary()
    }

    fn redact(&self, text: &str) -> (r: String)
        ensures
            r@ == self.redacted(text@),
    ;
}

/// What a log scan needs beyond redaction of single values.
pub trait LogPolicy: Redactor {
    /// A message with its variable parts replaced, so that like errors look alike.
    open spec fn template(&self, text: Seq<char>) -> Seq<char> {
        arbitrary()
    }

    fn normalize_template(&self, text: &str) -> (r: String)
        ensures
            r@ == self.template(text@),
    ;

    /// A whole text with every secret in it replaced, its structure kept.
    open spec fn scrubbed(&self, text: Seq<char>) -> Seq<char> {
        arbitrary()
    }

    fn scrub(&self, text: &str) -> (r: String)
        ensures
            r@ == self.scrubbed(text@),
    ;
}

/// The passes of a code scan that look for what names stand for: inside a file, across files, and in
/// the manifests. Each is fixed by what it is given. A scan hands them the records of files alone:
/// none of them looks at the node of the repository.
///
/// Facts come in the order of the files; of two entries for one path the later counts.
pub trait CodePolicy: Redactor {
    /// The edges between the symbols of one file: where the text of a body names a definition. Of two
    /// definitions with one name the later counts. `records` is what the graph holds so far.
    open spec fn references(
        &self,
        records: Seq<RecordView>,
        definitions: Seq<(Seq<char>, Seq<char>)>,
        bodies: Seq<SymbolBodyView>,
    ) -> Seq<RecordView> {
        arbitrary()
    }

    fn reference_edges(
        &self,
        records: &Vec<GraphRecord>,
        definitions: &Vec<(String, String)>,
        bodies: &Vec<SymbolBody>,
    ) -> (r: Vec<GraphRecord>)
        ensures
            r.deep_view() == self.references(records.deep_view(), definitions.deep_view(), bodies.deep_view()),
    ;

    /// The calls that lead from one file to another.
    open spec fn calls(
        &self,
        repository_id: Seq<char>,
        facts: Seq<(Seq<char>, FileFactsView)>,
    ) -> Seq<RecordView> {
        arbitrary()
    }

    fn call_records(
        &self,
        repository_id: &str,
        facts: &Vec<(String, FileFacts)>,
    ) -> (r: Vec<GraphRecord>)
        ensures
            r.deep_view() == self.calls(repository_id@, facts.deep_view()),
    ;

    /// The traits of other files that impls lead to.
    open spec fn implementations(
        &self,
        repository_id: Seq<char>,
        facts: Seq<(Seq<char>, FileFactsView)>,
    ) -> Seq<RecordView> {
        arbitrary()
    }

    fn implements_records(
        &self,
        repository_id: &str,
        facts: &Vec<(String, FileFacts)>,
    ) -> (r: Vec<GraphRecord>)
        ensures
            r.deep_view() == self.implementations(repository_id@, facts.deep_view()),
    ;

    /// The modules and files that imports lead to.
    open spec fn imports(
        &self,
        repository_id: Seq<char>,
        records: Seq<RecordView>,
        facts: Seq<(Seq<char>, FileFactsView)>,
    ) -> Seq<RecordView> {
        arbitrary()
    }

    fn import_records(
        &self,
        repository_id: &str,
        records: &Vec<GraphRecord>,
        facts: &Vec<(String, FileFacts)>,
    ) -> (r: Vec<GraphRecord>)
        ensures
            r.deep_view() == self.imports(repository_id@, records.deep_view(), facts.deep_view()),
    ;

    /// The records with every call inside a file labeled by how it was resolved.
    open spec fn labeled(
        &self,
        records: Seq<RecordView>,
        facts: Seq<(Seq<char>, FileFactsView)>,
    ) -> Seq<RecordView> {
        arbitrary()
    }

    fn label_calls(
        &self,
        records: &Vec<GraphRecord>,
        facts: &Vec<(String, FileFacts)>,
    ) -> (r: Vec<GraphRecord>)
        ensures
            r.deep_view() == self.labeled(records.deep_view(), facts.deep_view()),
    ;

    /// The records with the sites in test modules that stand in files of their own marked as tests.
    open spec fn scoped(
        &self,
        records: Seq<RecordView>,
        facts: Seq<(Seq<char>, FileFactsView)>,
    ) -> Seq<RecordView> {
        arbitrary()
    }

    fn mark_test_scope(
        &self,
        records: &Vec<GraphRecord>,
        facts: &Vec<(String, FileFacts)>,
    ) -> (r: Vec<GraphRecord>)
        ensures
            r.deep_view() == self.scoped(records.deep_view(), facts.deep_view()),
    ;

    /// The records with the files of such modules marked as tests.
    open spec fn roled(
        &self,
        records: Seq<RecordView>,
        facts: Seq<(Seq<char>, FileFactsView)>,
    ) -> Seq<RecordView> {
        arbitrary()
    }

    fn mark_test_roles(
        &self,
        records: &Vec<GraphRecord>,
        facts: &Vec<(String, FileFacts)>,
    ) -> (r: Vec<GraphRecord>)
        ensures
            r.deep_view() == self.roled(records.deep_view(), facts.deep_view()),
    ;

    /// What the manifests declare, or why one cannot be read.
    open spec fn dependencies(
        &self,
        repository_id: Seq<char>,
    ) -> Result<Seq<RecordView>, Seq<char>> {
        arbitrary()
    }

    fn dependency_records(
        &self,
        repository_id: &str,
    ) -> (r: Result<Vec<GraphRecord>, String>)
        ensures
            (match (r, self.dependencies(repository_id@)) {
                (Ok(x), Ok(y)) => x.deep_view() == y,
                (Err(x), Err(y)) => x@ == y,
                _ => false,
            }),
    ;

    /// The records with the package that owns each path.
    open spec fn attributed(
        &self,
        records: Seq<RecordView>,
    ) -> Seq<RecordView> {
        arbitrary()
    }

    fn attribute_packages(
        &self,
        records: &Vec<GraphRecord>,
    ) -> (r: Vec<GraphRecord>)
        ensures
            r.deep_view() == self.attributed(records.deep_view()),
    ;
}

/// Leaves everything as it is.
#[derive(Debug, Clone, Copy, PartialEq, Eq, Structural)]
pub struct PassThrough;

impl Redactor for PassThrough {
    open spec fn redacted(&self, text: Seq<char>) -> Seq<char> {
        text
    }

    fn redact(&self, text: &str) -> (r: String) {
        text.to_owned()
    }
}

impl LogPolicy for PassThrough {
    open spec fn template(&self, text: Seq<char>) -> Seq<char> {
        text
    }

    fn normalize_template(&self, text: &str) -> (r: String) {
        text.to_owned()
    }

    open spec fn scrubbed(&self, text: Seq<char>) -> Seq<char> {
        text
    }

    fn scrub(&self, text: &str) -> (r: String) {
        text.to_owned()
    }
}

/// Finds nothing, and changes nothing.
impl CodePolicy for PassThrough {
    open spec fn references(
        &self,
        records: Seq<RecordView>,
        definitions: Seq<(Seq<char>, Seq<char>)>,
        bodies: Seq<SymbolBodyView>,
    ) -> Seq<RecordView> {
        Seq::empty()
    }

    fn reference_edges(
        &self,
        records: &Vec<GraphRecord>,
        definitions: &Vec<(String, String)>,
        bodies: &Vec<SymbolBody>,
    ) -> (r: Vec<GraphRecord>) {
        let none: Vec<GraphRecord> = Vec::new();
        assert(none.deep_view() =~= Seq::empty());
        none
    }

    open spec fn calls(
        &self,
        repository_id: Seq<char>,
        facts: Seq<(Seq<char>, FileFactsView)>,
    ) -> Seq<RecordView> {
        Seq::empty()
    }

    fn call_records(
        &self,
        repository_id: &str,
        facts: &Vec<(String, FileFacts)>,
    ) -> (r: Vec<GraphRecord>) {
        let none: Vec<GraphRecord> = Vec::new();
        assert(none.deep_view() =~= Seq::empty());
        none
    }

    open spec fn implementations(
        &self,
        repository_id: Seq<char>,
        facts: Seq<(Seq<char>, FileFactsView)>,
    ) -> Seq<RecordView> {
        Seq::empty()
    }

    fn implements_records(
        &self,
        repository_id: &str,
        facts: &Vec<(String, FileFacts)>,
    ) -> (r: Vec<GraphRecord>) {
        let none: Vec<GraphRecord> = Vec::new();
        assert(none.deep_view() =~= Seq::empty());
        none
    }

    open spec fn imports(
        &self,
        repository_id: Seq<char>,
        records: Seq<RecordView>,
        facts: Seq<(Seq<char>, FileFactsView)>,
    ) -> Seq<RecordView> {
        Seq::empty()
    }

    fn import_records(
        &self,
        repository_id: &str,
        records: &Vec<GraphRecord>,
        facts: &Vec<(String, FileFacts)>,
    ) -> (r: Vec<GraphRecord>) {
        let none: Vec<GraphRecord> = Vec::new();
        assert(none.deep_view() =~= Seq::empty());
        none
    }

    open spec fn labeled(
        &self,
        records: Seq<RecordView>,
        facts: Seq<(Seq<char>, FileFactsView)>,
    ) -> Seq<RecordView> {
        records
    }

    fn label_calls(
        &self,
        records: &Vec<GraphRecord>,
        facts: &Vec<(String, FileFacts)>,
    ) -> (r: Vec<GraphRecord>) {
        duplicate_all(records)
    }

    open spec fn scoped(
        &self,
        records: Seq<RecordView>,
        facts: Seq<(Seq<char>, FileFactsView)>,
    ) -> Seq<RecordView> {
        records
    }

    fn mark_test_scope(
        &self,
        records: &Vec<GraphRecord>,
        facts: &Vec<(String, FileFacts)>,
    ) -> (r: Vec<GraphRecord>) {
        duplicate_all(records)
    }

    open spec fn roled(
        &self,
        records: Seq<RecordView>,
        facts: Seq<(Seq<char>, FileFactsView)>,
    ) -> Seq<RecordView> {
        records
    }

    fn mark_test_roles(
        &self,
        records: &Vec<GraphRecord>,
        facts: &Vec<(String, FileFacts)>,
    ) -> (r: Vec<GraphRecord>) {
        duplicate_all(records)
    }

    open spec fn dependencies(
        &self,
        repository_id: Seq<char>,
    ) -> Result<Seq<RecordView>, Seq<char>> {
        Ok(Seq::empty())
    }

    fn dependency_records(
        &self,
        repository_id: &str,
    ) -> (r: Result<Vec<GraphRecord>, String>) {
        let none: Vec<GraphRecord> = Vec::new();
        assert(none.deep_view() =~= Seq::empty());
        Ok(none)
    }

    open spec fn attributed(
        &self,
        records: Seq<RecordView>,
    ) -> Seq<RecordView> {
        records
    }

    fn attribute_packages(
        &self,
        records: &Vec<GraphRecord>,
    ) -> (r: Vec<GraphRecord>) {
        duplicate_all(records)
    }
}

} // verus!
