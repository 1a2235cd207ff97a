//! The error taxonomy, in two layers: storage-level kinds surfaced by the
//! repository, and service-level kinds presented to callers. The service
//! remaps storage `NotFound` to `InvalidInput` exactly at name-resolution
//! boundaries; every other storage error passes through the `Database`
//! wrapper unchanged.

use vstd::prelude::*;
use vstd::string::StringExecFns;

verus! {

/// A storage-level failure. Each variant carries a description of the
/// entity or condition involved.
#[derive(Debug)]
pub enum DatabaseError {
    NotFound(String),
    AlreadyExists(String),
    ConnectionError(String),
    TransactionError(String),
    Unknown(String),
}

/// A caller-facing failure. `InvalidInput` is caller-correctable,
/// `OperationFailed` is reserved for service-originated failures, and
/// `Database` passes a storage error through unchanged.
#[derive(Debug)]
pub enum ServiceError {
    InvalidInput(String),
    OperationFailed(String),
    Database(DatabaseError),
}

impl DatabaseError {
    /// Renders the error as the line a caller sees on standard error.
    pub fn message(&self) -> (r: String)
        ensures
            r@ == match *self {
                DatabaseError::NotFound(ref e) => "Entity not found: "@ + e@,
                DatabaseError::AlreadyExists(ref e) => "Entity already exists: "@ + e@,
                DatabaseError::ConnectionError(ref m) => "Database connection error: "@ + m@,
                DatabaseError::TransactionError(ref m) => "Database transaction error: "@ + m@,
                DatabaseError::Unknown(ref m) => "Unknown database error: "@ + m@,
            },
    {
        match self {
            DatabaseError::NotFound(e) => String::from_str("Entity not found: ").concat(
                e.as_str(),
            ),
            DatabaseError::AlreadyExists(e) => String::from_str("Entity already exists: ").concat(
                e.as_str(),
            ),
            DatabaseError::ConnectionError(m) => String::from_str(
                "Database connection error: ",
            ).concat(m.as_str()),
            DatabaseError::TransactionError(m) => String::from_str(
                "Database transaction error: ",
            ).concat(m.as_str()),
            DatabaseError::Unknown(m) => String::from_str("Unknown database error: ").concat(
                m.as_str(),
            ),
        }
    }
}

impl ServiceError {
    /// Renders the error as the line a caller sees on standard error.
    pub fn message(&self) -> (r: String)
        ensures
            r@ == match *self {
                ServiceError::InvalidInput(ref m) => "Invalid input: "@ + m@,
                ServiceError::OperationFailed(ref m) => "Operation failed: "@ + m@,
                ServiceError::Database(ref e) => "Database error: "@ + e.spec_message(),
            },
    {
        match self {
            ServiceError::InvalidInput(m) => String::from_str("Invalid input: ").concat(
                m.as_str(),
            ),
            ServiceError::OperationFailed(m) => String::from_str("Operation failed: ").concat(
                m.as_str(),
            ),
            ServiceError::Database(e) => {
                let inner = e.message();
                String::from_str("Database error: ").concat(inner.as_str())
            },
        }
    }

    /// The storage error underlying a pass-through failure, if any.
    pub fn source(&self) -> (r: Option<&DatabaseError>)
        ensures
            match *self {
                ServiceError::Database(ref e) => r == Some(e),
                _ => r is None,
            },
    {
        match self {
            ServiceError::Database(e) => Some(e),
            _ => None,
        }
    }
}

impl DatabaseError {
    /// What `message` returns, as a sequence of characters.
    pub open spec fn spec_message(&self) -> Seq<char> {
        match *self {
            DatabaseError::NotFound(ref e) => "Entity not found: "@ + e@,
            DatabaseError::AlreadyExists(ref e) => "Entity already exists: "@ + e@,
            DatabaseError::ConnectionError(ref m) => "Database connection error: "@ + m@,
            DatabaseError::TransactionError(ref m) => "Database transaction error: "@ + m@,
            DatabaseError::Unknown(ref m) => "Unknown database error: "@ + m@,
        }
    }
}

impl From<DatabaseError> for ServiceError {
    /// The total mapping from the storage layer to the service layer: a
    /// storage error that is not remapped at a name-resolution boundary is
    /// carried through unchanged.
    fn from(err: DatabaseError) -> (r: Self)
        ensures
            r == ServiceError::Database(err),
    {
        ServiceError::Database(err)
    }
}

impl vstd::std_specs::convert::FromSpecImpl<DatabaseError> for ServiceError {
    open spec fn obeys_from_spec() -> bool {
        true
    }

    open spec fn from_spec(err: DatabaseError) -> Self {
        ServiceError::Database(err)
    }
}

} // verus!
