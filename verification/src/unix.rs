//! Decision layer for the kernel control-block completion model.
//!
//! On this platform a transfer is driven through a native control block: a
//! submission primitive returns `-1` with the thread's error number on
//! rejection, the control block's status field reports `0` on completion, a
//! distinguished in-progress number while the transfer is still running,
//! and an error number otherwise, and a companion accessor yields the byte
//! count of a completed transfer. Everything here translates those plain
//! values into the shared contracts.
//!
//! The in-progress and not-cancelable numbers differ between systems, so
//! each decision takes the platform's own value as an argument; the adapter
//! that makes the native calls passes the constants of the build target.

use vstd::prelude::*;

use crate::async_io::OperationResult;
use crate::error::{IoError, IoErrorKind};

verus! {

/// A status number read from a control block's error field: `0` for a
/// completed transfer, the platform's in-progress number while it is still
/// running, and an error number otherwise.
#[derive(Clone, Copy, Debug, PartialEq, Eq, Structural)]
pub struct AioError(pub i32);

/// The stateless decision core of the control-block adapter.
pub struct Unix;

/// How one status reading translates into the shared result contract.
pub open spec fn spec_get_result(status: AioError, ret: isize, in_progress: i32) -> OperationResult {
    if status.0 == 0 {
        OperationResult::Success(ret as usize)
    } else if status.0 == in_progress {
        OperationResult::Pending
    } else {
        OperationResult::Failure(IoError { code: status.0 as i64, kind: IoErrorKind::Other })
    }
}

impl Unix {
    /// Translate one reading of a control block into the shared result
    /// contract.
    ///
    /// `status` is the control block's error field; `ret` is what the
    /// companion accessor reported for a completed transfer (a byte count,
    /// so never negative); `in_progress` is the platform's own in-progress
    /// number, which is never `0`. Status `0` is `Success` with that byte
    /// count — `0` bytes at end-of-stream included — the in-progress number
    /// is `Pending`, and anything else is `Failure` carrying the raw
    /// number.
    pub fn get_result(status: AioError, ret: isize, in_progress: i32) -> (r: OperationResult)
        requires
            in_progress != 0,
            status.0 == 0 ==> ret >= 0,
        ensures
            r == spec_get_result(status, ret, in_progress),
    {
        if status.0 == 0 {
            OperationResult::Success(ret as usize)
        } else if status.0 == in_progress {
            OperationResult::Pending
        } else {
            OperationResult::Failure(IoError { code: status.0 as i64, kind: IoErrorKind::Other })
        }
    }

    /// The flag word for a native open: create-mode combines the
    /// write-only, create and truncate flags for exclusive write;
    /// open-mode is the read-only flag alone, so a missing file fails the
    /// open — only create-mode may bring a file into being. The flag
    /// values differ between systems, so each decision takes the
    /// platform's own.
    pub fn open_flags(create: bool, wronly: i32, creat: i32, trunc: i32, rdonly: i32) -> (r: i32)
        ensures
            create ==> r == (wronly | creat | trunc),
            !create ==> r == rdonly,
    {
        if create {
            wronly | creat | trunc
        } else {
            rdonly
        }
    }

    /// Decide whether a cancellation request already settled the transfer.
    ///
    /// The native cancel primitive settles the transfer unless it reports
    /// the platform's "not cancelable" number; in that one case the caller
    /// must keep draining until the control block stops reporting
    /// in-progress.
    pub fn cancel_settled(cancel_status: i32, not_canceled: i32) -> (r: bool)
        ensures
            r == (cancel_status != not_canceled),
    {
        cancel_status != not_canceled
    }

    /// Decide whether one drain check may stop: the transfer is no longer
    /// outstanding as soon as the control block stops reporting the
    /// in-progress number.
    pub fn drain_settled(status: AioError, in_progress: i32) -> (r: bool)
        ensures
            r == (status.0 != in_progress),
    {
        status.0 != in_progress
    }
}

/// End-of-stream is not a failure: a completed transfer translates to
/// `Success` with its byte count — `0` at end-of-stream — never to
/// `Failure`.
pub proof fn lemma_eof_is_success(ret: isize, in_progress: i32)
    ensures
        spec_get_result(AioError(0), ret, in_progress) is Success,
{
}

/// How one submission return value translates into success-of-issue or a
/// failure.
pub open spec fn spec_to_operation_error(result: i32, errno: i32) -> Result<(), IoError> {
    if result == -1 {
        Result::Err(IoError { code: errno as i64, kind: IoErrorKind::Other })
    } else {
        Result::Ok(())
    }
}

/// Translate one submission return value into success-of-issue or a
/// failure.
///
/// The submission primitive returns `-1` with the thread's error number
/// (`errno`) when the transfer was rejected before it began; any other
/// return is a successful submission whose completion is pending.
pub fn to_operation_error(result: i32, errno: i32) -> (r: Result<(), IoError>)
    ensures
        r == spec_to_operation_error(result, errno),
{
    if result == -1 {
        Result::Err(IoError::from_raw_os_error(errno as i64))
    } else {
        Result::Ok(())
    }
}

} // verus!
