//! The library's error type.
use vstd::prelude::*;

verus! {

/// Errors of the knowledge-base core.
#[derive(Debug, Clone)]
pub enum AtomicCoreError {
    /// The store is not set up for the request (e.g. not initialized yet).
    Configuration(String),
    /// The named thing does not exist.
    NotFound(String),
    /// The request is malformed or not allowed.
    Validation(String),
    /// A storage operation failed.
    DatabaseOperation(String),
}

/// Which variant an error is, without its message.
#[derive(Clone, Copy, Debug, PartialEq, Eq, Structural)]
pub enum ErrorKind {
    Configuration,
    NotFound,
    Validation,
    DatabaseOperation,
}

impl AtomicCoreError {
    /// The variant of this error.
    pub open spec fn kind_of(self) -> ErrorKind {
        match self {
            AtomicCoreError::Configuration(_) => ErrorKind::Configuration,
            AtomicCoreError::NotFound(_) => ErrorKind::NotFound,
            AtomicCoreError::Validation(_) => ErrorKind::Validation,
            AtomicCoreError::DatabaseOperation(_) => ErrorKind::DatabaseOperation,
        }
    }

    /// The message of this error.
    pub open spec fn message(self) -> Seq<char> {
        match self {
            AtomicCoreError::Configuration(m) => m@,
            AtomicCoreError::NotFound(m) => m@,
            AtomicCoreError::Validation(m) => m@,
            AtomicCoreError::DatabaseOperation(m) => m@,
        }
    }

    /// The message of this error.
    pub fn message_text(&self) -> (m: &str)
        ensures
            m@ == self.message(),
    {
        match self {
            AtomicCoreError::Configuration(m) => m.as_str(),
            AtomicCoreError::NotFound(m) => m.as_str(),
            AtomicCoreError::Validation(m) => m.as_str(),
            AtomicCoreError::DatabaseOperation(m) => m.as_str(),
        }
    }

    /// The variant of this error.
    pub fn kind(&self) -> (k: ErrorKind)
        ensures
            k == self.kind_of(),
    {
        match self {
            AtomicCoreError::Configuration(_) => ErrorKind::Configuration,
            AtomicCoreError::NotFound(_) => ErrorKind::NotFound,
            AtomicCoreError::Validation(_) => ErrorKind::Validation,
            AtomicCoreError::DatabaseOperation(_) => ErrorKind::DatabaseOperation,
        }
    }
}

} // verus!
