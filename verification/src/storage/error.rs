//! The failures that end a load.

use crate::storage::table::Data;
use crate::storage::table::Table;
use vstd::prelude::*;
use vstd::string::StringExecFns;

verus! {

/// The four ways in which a load fails.
#[derive(Debug, Clone, Copy, PartialEq, Eq, Structural)]
pub enum ErrorKind {
    /// The root was missing and could not be created.
    DirectoryCreate,
    /// The directory could not be opened or listed.
    DirectoryRead,
    /// A chosen file could not be read as text.
    FileRead,
    /// A file's text is not an object of string lists.
    Parse,
}

/// A failed load: what went wrong, at which path, and the cause as the
/// system or the parser worded it.
#[derive(Debug, Clone, PartialEq, Eq)]
pub enum LoadError {
    DirectoryCreateError { path: String, cause: String },
    DirectoryReadError { path: String, cause: String },
    FileReadError { path: String, cause: String },
    ParseError { path: String, cause: String },
}

/// A failure in contracts.
pub struct Failure {
    pub kind: ErrorKind,
    pub path: Seq<char>,
    pub cause: Seq<char>,
}

impl View for LoadError {
    type V = Failure;

    open spec fn view(&self) -> Failure {
        match self {
            LoadError::DirectoryCreateError { path, cause } => Failure {
                kind: ErrorKind::DirectoryCreate,
                path: path@,
                cause: cause@,
            },
            LoadError::DirectoryReadError { path, cause } => Failure {
                kind: ErrorKind::DirectoryRead,
                path: path@,
                cause: cause@,
            },
            LoadError::FileReadError { path, cause } => Failure {
                kind: ErrorKind::FileRead,
                path: path@,
                cause: cause@,
            },
            LoadError::ParseError { path, cause } => Failure {
                kind: ErrorKind::Parse,
                path: path@,
                cause: cause@,
            },
        }
    }
}

/// The words that open a failure's message.
pub open spec fn kind_label(kind: ErrorKind) -> Seq<char> {
    match kind {
        ErrorKind::DirectoryCreate => "cannot create directory "@,
        ErrorKind::DirectoryRead => "cannot read directory "@,
        ErrorKind::FileRead => "cannot read file "@,
        ErrorKind::Parse => "cannot parse file "@,
    }
}

impl Failure {
    /// The message of the failure: the kind's words, the path, a colon and
    /// the cause.
    pub open spec fn message(self) -> Seq<char> {
        kind_label(self.kind) + self.path + ": "@ + self.cause
    }
}

/// A table or a failure, in contracts.
pub open spec fn result_view(result: Result<Data, LoadError>) -> Result<Table, Failure> {
    match result {
        Ok(table) => Ok(table@),
        Err(error) => Err(error@),
    }
}

impl LoadError {
    /// Which of the four failures this is.
    pub fn kind(&self) -> (kind: ErrorKind)
        ensures
            kind == self@.kind,
    {
        match self {
            LoadError::DirectoryCreateError { .. } => ErrorKind::DirectoryCreate,
            LoadError::DirectoryReadError { .. } => ErrorKind::DirectoryRead,
            LoadError::FileReadError { .. } => ErrorKind::FileRead,
            LoadError::ParseError { .. } => ErrorKind::Parse,
        }
    }

    /// The path at which the load failed.
    pub fn path(&self) -> (path: &str)
        ensures
            path@ == self@.path,
    {
        match self {
            LoadError::DirectoryCreateError { path, .. } => path.as_str(),
            LoadError::DirectoryReadError { path, .. } => path.as_str(),
            LoadError::FileReadError { path, .. } => path.as_str(),
            LoadError::ParseError { path, .. } => path.as_str(),
        }
    }

    /// The cause, as the system or the parser worded it.
    pub fn cause(&self) -> (cause: &str)
        ensures
            cause@ == self@.cause,
    {
        match self {
            LoadError::DirectoryCreateError { cause, .. } => cause.as_str(),
            LoadError::DirectoryReadError { cause, .. } => cause.as_str(),
            LoadError::FileReadError { cause, .. } => cause.as_str(),
            LoadError::ParseError { cause, .. } => cause.as_str(),
        }
    }

    /// The failure in one line, for an operator to read.
    pub fn message(&self) -> (line: String)
        ensures
            line@ == self@.message(),
    {
        let label = match self.kind() {
            ErrorKind::DirectoryCreate => "cannot create directory ",
            ErrorKind::DirectoryRead => "cannot read directory ",
            ErrorKind::FileRead => "cannot read file ",
            ErrorKind::Parse => "cannot parse file ",
        };
        let mut line = String::from_str(label);
        line.append(self.path());
        line.append(": ");
        line.append(self.cause());
        line
    }
}

} // verus!
