//! The capability through which the workload engine reaches the storage
//! backend under test.

use vstd::prelude::*;

use crate::utils::Value;

verus! {

/// An error reported by a storage backend operation.
#[derive(Debug, Clone)]
pub struct DbError {
    /// Human-readable description supplied by the backend.
    pub message: String,
}

/// A layer for accessing a database to be benchmarked. Each worker is
/// given its own handle to whatever backend is under test; the engine
/// treats every operation's failure as retryable (insert) or as an
/// error propagated to its caller (all other operations).
///
/// Record payloads are handed over as association lists from field name
/// to value source; a field list that is empty asks the backend for all
/// fields of the record.
pub trait Db {
    /// Configuration type for the backend.
    type Config;

    /// Initialize any state for this backend handle.
    fn init(&self) -> Result<(), DbError>;

    /// Clean up any state for this backend handle.
    fn cleanup(&self) -> Result<(), DbError>;

    /// Insert a record: every field/value pair in `values` is written
    /// into the record stored under `key` in `table`.
    fn insert(&self, table: String, key: String, values: Vec<(String, Value)>) -> Result<
        (),
        DbError,
    >;

    /// Read the record stored under `key` in `table`, returning one
    /// field/value pair for each requested field (all fields if
    /// `fields` is empty).
    fn read(&self, table: String, key: String, fields: Vec<String>) -> Result<
        Vec<(String, Value)>,
        DbError,
    >;

    /// Update the record stored under `key` in `table`, overwriting the
    /// listed fields.
    fn update(&self, table: String, key: String, values: Vec<(String, Value)>) -> Result<
        (),
        DbError,
    >;

    /// Range scan: read up to `len` records starting at `start_key`,
    /// returning for each field an ordered list of the values seen.
    fn scan(&self, table: String, start_key: String, len: usize, fields: Vec<String>) -> Result<
        Vec<(String, Vec<Value>)>,
        DbError,
    >;

    /// Delete the record stored under `key` in `table`.
    fn delete(&self, table: String, key: String);
}

} // verus!
