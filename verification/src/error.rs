//! The failures that store operations report.

use vstd::prelude::*;
use vstd::string::*;

verus! {

/// Why a store operation did not succeed.
#[derive(Debug, Clone)]
pub enum DatabaseError {
    /// The id is not in the store, or it has been deleted.
    RecordNotFound(String),
    /// A payload could not be encoded or decoded.
    SerializationError(String),
    /// The ledger could not be reached.
    CelestiaError(String),
    /// The ledger refused a submission; nothing was changed.
    SubmissionRejected(String),
    /// The channel identifier does not have the required width.
    InvalidNamespace(String),
    /// The store was used out of turn: an answer arrived that no pending
    /// request asked for, or an operation was started before the store was
    /// ready.
    DatabaseError(String),
}

/// Which kind of failure an error is, without its text.
#[derive(Debug, Clone, Copy, PartialEq, Eq, Structural)]
pub enum ErrorKind {
    RecordNotFound,
    SerializationError,
    CelestiaError,
    SubmissionRejected,
    InvalidNamespace,
    DatabaseError,
}

/// Mathematical content of a [`DatabaseError`]: its kind and its text.
pub struct ErrorView {
    pub kind: ErrorKind,
    pub detail: Seq<char>,
}

impl View for DatabaseError {
    type V = ErrorView;

    open spec fn view(&self) -> ErrorView {
        ErrorView { kind: self.kind_of(), detail: self.detail() }
    }
}

impl DatabaseError {
    /// The kind of this failure.
    pub open spec fn kind_of(self) -> ErrorKind {
        match self {
            DatabaseError::RecordNotFound(_) => ErrorKind::RecordNotFound,
            DatabaseError::SerializationError(_) => ErrorKind::SerializationError,
            DatabaseError::CelestiaError(_) => ErrorKind::CelestiaError,
            DatabaseError::SubmissionRejected(_) => ErrorKind::SubmissionRejected,
            DatabaseError::InvalidNamespace(_) => ErrorKind::InvalidNamespace,
            DatabaseError::DatabaseError(_) => ErrorKind::DatabaseError,
        }
    }

    /// The text that the failure carries.
    pub open spec fn detail(self) -> Seq<char> {
        match self {
            DatabaseError::RecordNotFound(text) => text@,
            DatabaseError::SerializationError(text) => text@,
            DatabaseError::CelestiaError(text) => text@,
            DatabaseError::SubmissionRejected(text) => text@,
            DatabaseError::InvalidNamespace(text) => text@,
            DatabaseError::DatabaseError(text) => text@,
        }
    }

    /// The words that introduce a failure of the given kind.
    pub open spec fn prefix(kind: ErrorKind) -> Seq<char> {
        match kind {
            ErrorKind::RecordNotFound => "Record not found: "@,
            ErrorKind::SerializationError => "Serialization error: "@,
            ErrorKind::CelestiaError => "Celestia error: "@,
            ErrorKind::SubmissionRejected => "Submission rejected: "@,
            ErrorKind::InvalidNamespace => "Invalid namespace: "@,
            ErrorKind::DatabaseError => "Database error: "@,
        }
    }

    /// The kind of this failure.
    pub fn kind(&self) -> (kind: ErrorKind)
        ensures
            kind == self.kind_of(),
    {
        match self {
            DatabaseError::RecordNotFound(_) => ErrorKind::RecordNotFound,
            DatabaseError::SerializationError(_) => ErrorKind::SerializationError,
            DatabaseError::CelestiaError(_) => ErrorKind::CelestiaError,
            DatabaseError::SubmissionRejected(_) => ErrorKind::SubmissionRejected,
            DatabaseError::InvalidNamespace(_) => ErrorKind::InvalidNamespace,
            DatabaseError::DatabaseError(_) => ErrorKind::DatabaseError,
        }
    }

    /// The failure as one line of text: the words for its kind, then its
    /// detail.
    pub fn message(&self) -> (text: String)
        ensures
            text@ == Self::prefix(self.kind_of()) + self.detail(),
    {
        match self {
            DatabaseError::RecordNotFound(detail) => String::from_str("Record not found: ").concat(
                detail.as_str(),
            ),
            DatabaseError::SerializationError(detail) => String::from_str(
                "Serialization error: ",
            ).concat(detail.as_str()),
            DatabaseError::CelestiaError(detail) => String::from_str("Celestia error: ").concat(
                detail.as_str(),
            ),
            DatabaseError::SubmissionRejected(detail) => String::from_str(
                "Submission rejected: ",
            ).concat(detail.as_str()),
            DatabaseError::InvalidNamespace(detail) => String::from_str(
                "Invalid namespace: ",
            ).concat(detail.as_str()),
            DatabaseError::DatabaseError(detail) => String::from_str("Database error: ").concat(
                detail.as_str(),
            ),
        }
    }
}

} // verus!
