//! Errors of the local state store: the database's failures and the
//! state manager's, with their messages.
use vstd::prelude::*;
use crate::parse_error::concat_str;

verus! {

/// Errors that can occur during storage operations. A failure of the
/// SQLite driver is carried by its message.
#[derive(Debug)]
pub enum StorageError {
    DatabaseLocked(String),
    MigrationFailed(String),
    QueryFailed(String),
    DiskFull(String),
    NotFound(String),
    Sqlite(String),
}

/// The human-readable message of a storage error.
pub open spec fn storage_error_message(e: StorageError) -> Seq<char> {
    match e {
        StorageError::DatabaseLocked(s) => "Database locked: "@ + s@,
        StorageError::MigrationFailed(s) => "Migration failed: "@ + s@,
        StorageError::QueryFailed(s) => "Query failed: "@ + s@,
        StorageError::DiskFull(s) => "Disk full or I/O error: "@ + s@,
        StorageError::NotFound(s) => "Record not found: "@ + s@,
        StorageError::Sqlite(s) => "SQLite error: "@ + s@,
    }
}

impl StorageError {
    /// The error's message, as its `Display` form reads.
    pub fn message(&self) -> (m: String)
        ensures
            m@ == storage_error_message(*self),
    {
        match self {
            StorageError::DatabaseLocked(s) => concat_str("Database locked: ", s.as_str()),
            StorageError::MigrationFailed(s) => concat_str("Migration failed: ", s.as_str()),
            StorageError::QueryFailed(s) => concat_str("Query failed: ", s.as_str()),
            StorageError::DiskFull(s) => concat_str("Disk full or I/O error: ", s.as_str()),
            StorageError::NotFound(s) => concat_str("Record not found: ", s.as_str()),
            StorageError::Sqlite(s) => concat_str("SQLite error: ", s.as_str()),
        }
    }
}

/// Errors from state management operations.
#[derive(Debug)]
pub enum StateError {
    Storage(StorageError),
    Serialization(String),
}

/// The human-readable message of a state error.
pub open spec fn state_error_message(e: StateError) -> Seq<char> {
    match e {
        StateError::Storage(s) => "Storage error: "@ + storage_error_message(s),
        StateError::Serialization(s) => "Serialization error: "@ + s@,
    }
}

impl StateError {
    /// The error's message, as its `Display` form reads.
    pub fn message(&self) -> (m: String)
        ensures
            m@ == state_error_message(*self),
    {
        match self {
            StateError::Storage(s) => {
                let inner = s.message();
                concat_str("Storage error: ", inner.as_str())
            },
            StateError::Serialization(s) => concat_str("Serialization error: ", s.as_str()),
        }
    }

    /// The state error that a storage failure becomes.
    pub fn from_storage(e: StorageError) -> (r: Self)
        ensures
            r == StateError::Storage(e),
    {
        StateError::Storage(e)
    }
}

} // verus!
