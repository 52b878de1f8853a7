//! The shared error domain: a raw platform error code together with a
//! symbolic kind, so that failures from every layer can be treated uniformly.

use vstd::prelude::*;

verus! {

/// The symbolic classification of an I/O failure.
#[derive(Clone, Copy, Debug, PartialEq, Eq, Structural)]
pub enum IoErrorKind {
    /// The addressed file or directory does not exist.
    NotFound,
    /// A parameter (such as a path) was rejected before any work was done.
    InvalidInput,
    /// The data read did not have the expected shape (such as a text file
    /// that is not valid UTF-8).
    InvalidData,
    /// Any other platform error; the raw code carries the detail.
    Other,
}

/// An I/O failure: a raw platform error code plus its symbolic kind.
#[derive(Clone, Copy, Debug, PartialEq, Eq, Structural)]
pub struct IoError {
    /// The raw platform error code, or 0 when the error did not come from
    /// the platform.
    pub code: i64,
    /// The symbolic classification.
    pub kind: IoErrorKind,
}

impl IoError {
    /// An error carrying a raw platform code, classified as `Other`.
    pub fn from_raw_os_error(code: i64) -> (r: IoError)
        ensures
            r == (IoError { code, kind: IoErrorKind::Other }),
    {
        IoError { code, kind: IoErrorKind::Other }
    }

    /// True exactly when the error is a not-found condition.
    pub fn is_not_found(&self) -> (r: bool)
        ensures
            r == (self.kind == IoErrorKind::NotFound),
    {
        match self.kind {
            IoErrorKind::NotFound => true,
            _ => false,
        }
    }
}

/// The value of the not-found error.
pub open spec fn spec_not_found() -> IoError {
    IoError { code: 0, kind: IoErrorKind::NotFound }
}

/// The value of the invalid-input error.
pub open spec fn spec_invalid_input() -> IoError {
    IoError { code: 0, kind: IoErrorKind::InvalidInput }
}

/// The error reported when a path does not address an existing entity.
pub fn not_found() -> (r: IoError)
    ensures
        r == (IoError { code: 0, kind: IoErrorKind::NotFound }),
{
    IoError { code: 0, kind: IoErrorKind::NotFound }
}

/// The error reported when a path is rejected before any work is done.
pub fn invalid_input() -> (r: IoError)
    ensures
        r == (IoError { code: 0, kind: IoErrorKind::InvalidInput }),
{
    IoError { code: 0, kind: IoErrorKind::InvalidInput }
}

/// The value of the invalid-data error.
pub open spec fn spec_invalid_data() -> IoError {
    IoError { code: 0, kind: IoErrorKind::InvalidData }
}

/// The error reported when data read does not have the expected shape.
pub fn invalid_data() -> (r: IoError)
    ensures
        r == spec_invalid_data(),
{
    IoError { code: 0, kind: IoErrorKind::InvalidData }
}

} // verus!
