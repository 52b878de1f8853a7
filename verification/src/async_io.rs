//! The tagged outcome of an asynchronous transfer, and the capability an
//! issued operation exposes.

use vstd::prelude::*;

use crate::error::IoError;

verus! {

/// The outcome of one poll of an issued transfer.
///
/// `Success(n)` reports a completed transfer that moved exactly `n` bytes;
/// `n` may be less than requested, and a read at or past end-of-stream
/// reports `Success(0)` — end-of-file is never an error. `Pending` means the
/// transfer is not complete yet and the caller must poll again. `Failure`
/// means the transfer terminated abnormally.
#[derive(Clone, Copy, Debug, PartialEq, Eq, Structural)]
pub enum OperationResult {
    /// The transfer is complete; exactly this many bytes were moved.
    Success(usize),
    /// The transfer has not completed yet; poll again.
    Pending,
    /// The transfer terminated abnormally.
    Failure(IoError),
}

impl OperationResult {
    /// True exactly when the result is terminal (`Success` or `Failure`).
    pub fn is_terminal(&self) -> (r: bool)
        ensures
            r == !(self is Pending),
    {
        match self {
            OperationResult::Pending => false,
            _ => true,
        }
    }
}

/// The one capability of an issued, not-yet-retired transfer: poll it for
/// its current result.
pub trait AsyncOperation {
    /// The current state of the transfer. Polling never blocks and is safe
    /// to call any number of times, including zero.
    fn get_result(&mut self) -> OperationResult;
}

} // verus!
