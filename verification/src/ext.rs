//! What the adapters that load and dump issue records need from the
//! library: the flat row of a record, and the rules by which a database
//! is addressed. Files and connections are the adapters' own business.

use vstd::prelude::*;
use vstd::string::*;
use crate::feature::{clone_text, IssueFeatures, IssueFeaturesRecord};
use crate::store::{are_entries_of, loaded, IssueFeatureStore};

verus! {

/// An issue record as one flat row: the id, then the four fields.
#[derive(Debug)]
pub struct RawIssueFeaturesRecord {
    pub issue_id: String,
    pub operation: Option<String>,
    pub phenomenon: Option<String>,
    pub expected_behavior: Option<String>,
    pub actual_behavior: Option<String>,
}

impl RawIssueFeaturesRecord {
    /// The record that the row stands for.
    pub open spec fn record(self) -> IssueFeaturesRecord {
        IssueFeaturesRecord {
            issue_id: self.issue_id,
            features: IssueFeatures {
                operation: self.operation,
                phenomenon: self.phenomenon,
                expected_behavior: self.expected_behavior,
                actual_behavior: self.actual_behavior,
            },
        }
    }

    /// Turns a row into the record that it stands for.
    pub fn into_record(self) -> (record: IssueFeaturesRecord)
        ensures
            record == self.record(),
    {
        IssueFeaturesRecord {
            issue_id: self.issue_id,
            features: IssueFeatures {
                operation: self.operation,
                phenomenon: self.phenomenon,
                expected_behavior: self.expected_behavior,
                actual_behavior: self.actual_behavior,
            },
        }
    }

    /// Writes a record as a row.
    pub fn from_record(record: &IssueFeaturesRecord) -> (row: Self)
        ensures
            row.record() == *record,
    {
        RawIssueFeaturesRecord {
            issue_id: record.issue_id.clone(),
            operation: clone_text(&record.features.operation),
            phenomenon: clone_text(&record.features.phenomenon),
            expected_behavior: clone_text(&record.features.expected_behavior),
            actual_behavior: clone_text(&record.features.actual_behavior),
        }
    }
}

/// The records that a sequence of rows stands for, in the rows' order.
pub open spec fn records_of(rows: Seq<RawIssueFeaturesRecord>) -> Seq<IssueFeaturesRecord> {
    Seq::new(rows.len(), |i: int| rows[i].record())
}

/// Turns rows into records, in the rows' order.
pub fn records_from_rows(rows: Vec<RawIssueFeaturesRecord>) -> (records: Vec<IssueFeaturesRecord>)
    ensures
        records@ == records_of(rows@),
{
    let ghost all = rows@;
    let mut rest = rows;
    let mut reversed: Vec<IssueFeaturesRecord> = Vec::new();
    while rest.len() > 0
        invariant
            reversed@.len() + rest@.len() == all.len(),
            forall|i: int| 0 <= i < rest@.len() ==> rest@[i] == all[i],
            forall|i: int|
                0 <= i < reversed@.len() ==> #[trigger] reversed@[i] == all[all.len() - 1
                    - i].record(),
        decreases rest@.len(),
    {
        let row = rest.pop().unwrap();
        reversed.push(row.into_record());
    }
    let mut records: Vec<IssueFeaturesRecord> = Vec::new();
    while reversed.len() > 0
        invariant
            reversed@.len() + records@.len() == all.len(),
            forall|i: int|
                0 <= i < reversed@.len() ==> #[trigger] reversed@[i] == all[all.len() - 1
                    - i].record(),
            forall|i: int| 0 <= i < records@.len() ==> #[trigger] records@[i] == all[i].record(),
        decreases reversed@.len(),
    {
        let record = reversed.pop().unwrap();
        records.push(record);
    }
    proof {
        assert(records@ =~= records_of(all));
    }
    records
}

/// Writes records as rows, in the records' order.
pub fn rows_from_records(records: &Vec<IssueFeaturesRecord>) -> (rows: Vec<RawIssueFeaturesRecord>)
    ensures
        records_of(rows@) == records@,
{
    let mut rows: Vec<RawIssueFeaturesRecord> = Vec::new();
    let mut at: usize = 0;
    while at < records.len()
        invariant
            at <= records@.len(),
            rows@.len() == at,
            forall|i: int| 0 <= i < at ==> (#[trigger] rows@[i]).record() == records@[i],
        decreases records@.len() - at,
    {
        rows.push(RawIssueFeaturesRecord::from_record(&records[at]));
        at = at + 1;
    }
    proof {
        assert(records_of(rows@) =~= records@);
    }
    rows
}

impl IssueFeatureStore {
    /// Creates a store from rows: it holds the loadable records among them,
    /// as `preload` would leave them.
    pub fn from_rows(rows: Vec<RawIssueFeaturesRecord>) -> (store: Self)
        ensures
            store@ == loaded(records_of(rows@)),
    {
        let mut store = IssueFeatureStore::new();
        store.preload(records_from_rows(rows));
        store
    }

    /// Writes the records of the store as rows, one for each entry.
    pub fn to_rows(&self) -> (rows: Vec<RawIssueFeaturesRecord>)
        ensures
            records_of(rows@) == self.candidates(),
            are_entries_of(self.candidates(), self@),
    {
        rows_from_records(self.records())
    }
}

/// Where a database is found and which table holds the records.
#[derive(Debug)]
pub struct DbOptions {
    pub url: String,
    pub table: String,
}

/// The database systems that records can be loaded from.
#[derive(Debug, Clone, Copy, PartialEq, Eq, Structural)]
pub enum DbBackend {
    MySql,
    Postgres,
    Sqlite,
}

/// The system that a URL addresses, told by how the URL begins.
pub open spec fn backend_of(url: Seq<char>) -> Option<DbBackend> {
    if "mysql:"@.is_prefix_of(url) {
        Some(DbBackend::MySql)
    } else if "postgres:"@.is_prefix_of(url) {
        Some(DbBackend::Postgres)
    } else if "sqlite:"@.is_prefix_of(url) {
        Some(DbBackend::Sqlite)
    } else {
        None
    }
}

/// Whether `scheme` is what `url` holds before its first colon, or is
/// empty where `url` holds none.
pub open spec fn is_scheme_of(scheme: Seq<char>, url: Seq<char>) -> bool {
    if url.contains(':') {
        exists|at: int|
            {
                &&& 0 <= at < url.len()
                &&& #[trigger] url[at] == ':'
                &&& forall|j: int| 0 <= j < at ==> url[j] != ':'
                &&& scheme == url.take(at)
            }
    } else {
        scheme == Seq::<char>::empty()
    }
}

/// The statement that reads all records from `table`.
pub open spec fn select_text(table: Seq<char>) -> Seq<char> {
    "select issue_id, operation, phenomenon, expected_behavior, actual_behavior from "@ + table
}

/// Whether `text` begins with `prefix`.
fn has_prefix(text: &str, prefix: &str) -> (begins: bool)
    ensures
        begins == prefix@.is_prefix_of(text@),
{
    let text_len: usize = text.unicode_len();
    let prefix_len: usize = prefix.unicode_len();
    if prefix_len > text_len {
        return false;
    }
    let mut at: usize = 0;
    while at < prefix_len
        invariant
            at <= prefix_len,
            prefix_len == prefix@.len(),
            prefix_len <= text@.len(),
            forall|i: int| 0 <= i < at ==> prefix@[i] == text@[i],
        decreases prefix_len - at,
    {
        if prefix.get_char(at) != text.get_char(at) {
            assert(prefix@[at as int] != text@.subrange(0, prefix@.len() as int)[at as int]);
            return false;
        }
        at = at + 1;
    }
    assert(prefix@ =~= text@.subrange(0, prefix@.len() as int));
    true
}

/// What `url` holds before its first colon; nothing where it holds none.
fn scheme(url: &str) -> (scheme: String)
    ensures
        is_scheme_of(scheme@, url@),
{
    let len: usize = url.unicode_len();
    let mut at: usize = 0;
    while at < len
        invariant
            at <= len,
            len == url@.len(),
            forall|j: int| 0 <= j < at ==> url@[j] != ':',
        decreases len - at,
    {
        if url.get_char(at) == ':' {
            assert(url@.contains(':'));
            let found = url.substring_char(0, at).to_owned();
            assert(found@ =~= url@.take(at as int));
            return found;
        }
        at = at + 1;
    }
    String::new()
}

impl DbOptions {
    /// The statement that reads all records from the table.
    pub fn select_statement(&self) -> (sql: String)
        ensures
            sql@ == select_text(self.table@),
    {
        let select =
            "select issue_id, operation, phenomenon, expected_behavior, actual_behavior from ";
        select.to_owned().concat(self.table.as_str())
    }

    /// Tells which system the URL addresses: MySQL where it begins with
    /// `mysql:`, PostgreSQL with `postgres:`, SQLite with `sqlite:`. Any
    /// other URL is refused, with its scheme as the error.
    pub fn backend(&self) -> (backend: Result<DbBackend, String>)
        ensures
            backend is Ok ==> backend_of(self.url@) == Some(backend->Ok_0),
            backend is Err ==> backend_of(self.url@) is None && is_scheme_of(
                backend->Err_0@,
                self.url@,
            ),
    {
        let url = self.url.as_str();
        if has_prefix(url, "mysql:") {
            Ok(DbBackend::MySql)
        } else if has_prefix(url, "postgres:") {
            Ok(DbBackend::Postgres)
        } else if has_prefix(url, "sqlite:") {
            Ok(DbBackend::Sqlite)
        } else {
            Err(scheme(url))
        }
    }
}

} // verus!
