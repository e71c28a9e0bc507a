//! Error types: the indexing core's own errors, and the application-wide
//! error enumeration with its mapping from I/O failure classes.

use vstd::prelude::*;

verus! {

/// Errors of the indexing core.  Rebuilds are all-or-nothing: any per-entry
/// failure aborts the rebuild, though the store keeps what was already
/// written (no rollback).
#[derive(Debug)]
pub enum IndexError {
    /// A per-entry failure: unreadable metadata or an invalid file name.
    /// The payload is the offending path.
    IndexingError(String),
    /// An I/O failure outside a single entry.
    Io(String),
    /// The filesystem walk itself failed.
    WalkFailure(String),
    /// The application-enumeration subprocess failed; the payload is its
    /// error output.
    CommandExecutionFailed(String),
    /// The configuration was rejected.
    InvalidSettings(String),
    /// The store could not be read consistently.
    StoreUnavailable(String),
}

/// Mathematical shape of an [`IndexError`].
pub enum IndexErrorV {
    IndexingError(Seq<char>),
    Io(Seq<char>),
    WalkFailure(Seq<char>),
    CommandExecutionFailed(Seq<char>),
    InvalidSettings(Seq<char>),
    StoreUnavailable(Seq<char>),
}

impl View for IndexError {
    type V = IndexErrorV;

    open spec fn view(&self) -> IndexErrorV {
        match self {
            IndexError::IndexingError(m) => IndexErrorV::IndexingError(m@),
            IndexError::Io(m) => IndexErrorV::Io(m@),
            IndexError::WalkFailure(m) => IndexErrorV::WalkFailure(m@),
            IndexError::CommandExecutionFailed(m) => IndexErrorV::CommandExecutionFailed(m@),
            IndexError::InvalidSettings(m) => IndexErrorV::InvalidSettings(m@),
            IndexError::StoreUnavailable(m) => IndexErrorV::StoreUnavailable(m@),
        }
    }
}

impl IndexError {
    /// A short name of the error's kind, for callers that print.
    pub fn kind_name(&self) -> (r: &'static str)
        ensures
            r@ == spec_index_error_kind(self@),
    {
        match self {
            IndexError::IndexingError(_) => "indexing error",
            IndexError::Io(_) => "io error",
            IndexError::WalkFailure(_) => "walk failure",
            IndexError::CommandExecutionFailed(_) => "command execution failed",
            IndexError::InvalidSettings(_) => "invalid settings",
            IndexError::StoreUnavailable(_) => "store unavailable",
        }
    }
}

/// The kind name of each [`IndexError`] variant.
pub open spec fn spec_index_error_kind(e: IndexErrorV) -> Seq<char> {
    match e {
        IndexErrorV::IndexingError(_) => "indexing error"@,
        IndexErrorV::Io(_) => "io error"@,
        IndexErrorV::WalkFailure(_) => "walk failure"@,
        IndexErrorV::CommandExecutionFailed(_) => "command execution failed"@,
        IndexErrorV::InvalidSettings(_) => "invalid settings"@,
        IndexErrorV::StoreUnavailable(_) => "store unavailable"@,
    }
}

/// The application-wide error enumeration.
#[derive(Debug)]
pub enum OsaiError {
    Io(String),
    Request(String),
    Serialization(String),
    EnvVar(String),
    UnexpectedAIResponse,
    FileNotFound(String),
    PermissionDenied(String),
    AIService(String),
    Unknown,
}

/// Mathematical shape of an [`OsaiError`].
pub enum OsaiErrorV {
    Io(Seq<char>),
    Request(Seq<char>),
    Serialization(Seq<char>),
    EnvVar(Seq<char>),
    UnexpectedAIResponse,
    FileNotFound(Seq<char>),
    PermissionDenied(Seq<char>),
    AIService(Seq<char>),
    Unknown,
}

impl View for OsaiError {
    type V = OsaiErrorV;

    open spec fn view(&self) -> OsaiErrorV {
        match self {
            OsaiError::Io(m) => OsaiErrorV::Io(m@),
            OsaiError::Request(m) => OsaiErrorV::Request(m@),
            OsaiError::Serialization(m) => OsaiErrorV::Serialization(m@),
            OsaiError::EnvVar(m) => OsaiErrorV::EnvVar(m@),
            OsaiError::UnexpectedAIResponse => OsaiErrorV::UnexpectedAIResponse,
            OsaiError::FileNotFound(m) => OsaiErrorV::FileNotFound(m@),
            OsaiError::PermissionDenied(m) => OsaiErrorV::PermissionDenied(m@),
            OsaiError::AIService(m) => OsaiErrorV::AIService(m@),
            OsaiError::Unknown => OsaiErrorV::Unknown,
        }
    }
}

/// The classes of I/O failure that the error mapping distinguishes; the
/// caller reads them off the host I/O error, as plain values.
#[derive(Clone, Copy, PartialEq, Eq, Structural, Debug)]
pub enum IoErrorKind {
    NotFound,
    PermissionDenied,
    Other,
}

/// Which [`OsaiError`] an I/O failure of kind `kind` maps to.
pub open spec fn spec_osai_from_io(kind: IoErrorKind, msg: Seq<char>) -> OsaiErrorV {
    match kind {
        IoErrorKind::NotFound => OsaiErrorV::FileNotFound(msg),
        IoErrorKind::PermissionDenied => OsaiErrorV::PermissionDenied(msg),
        IoErrorKind::Other => OsaiErrorV::Io(msg),
    }
}

impl OsaiError {
    /// Classify an I/O failure: missing files and denied permissions get
    /// their own variants, everything else is a plain I/O error.
    pub fn from_io(kind: IoErrorKind, message: String) -> (r: OsaiError)
        ensures
            r@ == spec_osai_from_io(kind, message@),
    {
        match kind {
            IoErrorKind::NotFound => OsaiError::FileNotFound(message),
            IoErrorKind::PermissionDenied => OsaiError::PermissionDenied(message),
            IoErrorKind::Other => OsaiError::Io(message),
        }
    }
}

} // verus!
