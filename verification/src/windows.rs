//! Decision layer for the event-driven overlapped completion model.
//!
//! The native calls of this platform report through a boolean success flag,
//! a transferred-byte count, and a thread-local last-error code. Everything
//! here translates those three plain values into the shared contracts: a
//! distinguished "still pending" code folds into success-of-issue, an
//! end-of-stream code folds into `Success(0)`, and only a genuinely
//! different error becomes a `Failure`.

#![allow(non_camel_case_types)]
#![allow(non_snake_case)]

use vstd::prelude::*;

use crate::async_io::OperationResult;
use crate::error::{IoError, IoErrorKind};

verus! {

/// A double word: the platform's 32-bit unsigned integer.
pub type DWORD = u32;

/// The platform's boolean: zero is false, anything else is true.
#[derive(Clone, Copy, Debug)]
pub struct BOOL(pub i32);

pub const FALSE: i32 = 0;

pub const TRUE: i32 = 1;

impl BOOL {
    /// True exactly when the platform reported success.
    pub fn to_bool(self) -> (r: bool)
        ensures
            r == (self.0 != 0),
    {
        self.0 != FALSE
    }
}

impl From<bool> for BOOL {
    fn from(x: bool) -> (r: Self) {
        if x {
            BOOL(TRUE)
        } else {
            BOOL(FALSE)
        }
    }
}

impl vstd::std_specs::convert::FromSpecImpl<bool> for BOOL {
    open spec fn obeys_from_spec() -> bool {
        true
    }

    open spec fn from_spec(x: bool) -> BOOL {
        if x {
            BOOL(1)
        } else {
            BOOL(0)
        }
    }
}

/// A native error code, as the platform's last-error accessor reports it.
#[derive(Clone, Copy, Debug, PartialEq, Eq, Structural)]
pub struct Error(pub DWORD);

/// The code reporting that no error occurred.
pub const ERROR_SUCCESS: DWORD = 0;

/// The code reporting that a read reached end-of-file.
pub const ERROR_HANDLE_EOF: DWORD = 38;

/// The code a completion query reports while the transfer is still running.
pub const ERROR_IO_INCOMPLETE: DWORD = 996;

/// The code a submission reports when it was accepted and will complete
/// later.
pub const ERROR_IO_PENDING: DWORD = 997;

impl Error {
    /// Carry the raw platform code into the shared error domain.
    pub fn to_error(self) -> (r: IoError)
        ensures
            r == (IoError { code: self.0 as i64, kind: IoErrorKind::Other }),
    {
        IoError::from_raw_os_error(self.0 as i64)
    }
}

/// True of the two codes that mean "the transfer is simply not done yet":
/// pending submission and incomplete query.
pub open spec fn spec_is_pending(e: Error) -> bool {
    e.0 == ERROR_IO_PENDING || e.0 == ERROR_IO_INCOMPLETE
}

/// True exactly when the code means the transfer is not done yet rather
/// than failed.
pub fn is_pending(e: Error) -> (r: bool)
    ensures
        r == spec_is_pending(e),
{
    e.0 == ERROR_IO_PENDING || e.0 == ERROR_IO_INCOMPLETE
}

/// The error that actually governs a call's outcome: the success flag
/// overrides the stale last-error value.
pub open spec fn spec_effective_error(ok: BOOL, last_error: Error) -> Error {
    if ok.0 != 0 {
        Error(ERROR_SUCCESS)
    } else {
        last_error
    }
}

/// How one completion query translates into the shared result contract.
pub open spec fn spec_to_operation_result(ok: BOOL, size: DWORD, last_error: Error) -> OperationResult {
    let e = spec_effective_error(ok, last_error);
    if e.0 == ERROR_SUCCESS {
        OperationResult::Success(size as usize)
    } else if e.0 == ERROR_HANDLE_EOF {
        OperationResult::Success(0)
    } else if spec_is_pending(e) {
        OperationResult::Pending
    } else {
        OperationResult::Failure(IoError { code: e.0 as i64, kind: IoErrorKind::Other })
    }
}

/// Translate one completion query into the shared result contract.
///
/// `ok` and `size` are what the query call itself reported; `last_error` is
/// the thread-local last-error code read after the call. End-of-file is
/// `Success(0)`, never a failure; "still incomplete" and "still pending"
/// both mean `Pending`.
pub fn to_operation_result(ok: BOOL, size: DWORD, last_error: Error) -> (r: OperationResult)
    ensures
        r == spec_to_operation_result(ok, size, last_error),
{
    let e = if ok.to_bool() {
        Error(ERROR_SUCCESS)
    } else {
        last_error
    };
    if e.0 == ERROR_SUCCESS {
        OperationResult::Success(size as usize)
    } else if e.0 == ERROR_HANDLE_EOF {
        OperationResult::Success(0)
    } else if is_pending(e) {
        OperationResult::Pending
    } else {
        OperationResult::Failure(e.to_error())
    }
}

/// How one submission call translates into success-of-issue or a failure.
pub open spec fn spec_to_operation_error(ok: BOOL, last_error: Error) -> Result<(), IoError> {
    let e = spec_effective_error(ok, last_error);
    if e.0 == ERROR_SUCCESS || spec_is_pending(e) {
        Result::Ok(())
    } else {
        Result::Err(IoError { code: e.0 as i64, kind: IoErrorKind::Other })
    }
}

/// Translate one submission call into success-of-issue or a failure.
///
/// Immediate completion and the distinguished "completion pending" code are
/// both successful submission; only a genuinely different error rejects the
/// issue.
pub fn to_operation_error(ok: BOOL, last_error: Error) -> (r: Result<(), IoError>)
    ensures
        r == spec_to_operation_error(ok, last_error),
{
    let e = if ok.to_bool() {
        Error(ERROR_SUCCESS)
    } else {
        last_error
    };
    if e.0 == ERROR_SUCCESS || is_pending(e) {
        Result::Ok(())
    } else {
        Result::Err(e.to_error())
    }
}

/// End-of-file is not a failure: whatever a completion query's own flag
/// and byte count were, an end-of-file last-error code translates to
/// `Success`, never to `Failure`.
pub proof fn lemma_eof_is_success(ok: BOOL, size: DWORD)
    ensures
        spec_to_operation_result(ok, size, Error(ERROR_HANDLE_EOF)) is Success,
{
}

/// The requested-access mask handed to the native open call.
#[derive(Clone, Copy, Debug, PartialEq, Eq, Structural)]
pub struct ACCESS_MASK(pub DWORD);

pub const GENERIC_READ: DWORD = 0x80000000;

pub const GENERIC_WRITE: DWORD = 0x40000000;

/// What the native open call should do when the file does or does not
/// exist.
#[derive(Clone, Copy, Debug, PartialEq, Eq, Structural)]
pub struct CreationDisposition(pub DWORD);

/// Always create a fresh file, truncating an existing one.
pub const CREATE_ALWAYS: DWORD = 2;

/// Open the file only if it exists; a missing file fails the open.
pub const OPEN_EXISTING: DWORD = 3;

/// The flag word handed to the native open call.
#[derive(Clone, Copy, Debug, PartialEq, Eq, Structural)]
pub struct FlagsAndAttributes(pub DWORD);

/// The flag that opens the handle for asynchronous (overlapped) transfers.
pub const FILE_FLAG_OVERLAPPED: DWORD = 0x40000000;

/// The access mask and creation disposition for an open: create-mode
/// truncates or creates for exclusive write; open-mode opens for read and
/// fails on a missing file — only create-mode may bring a file into
/// being.
pub fn open_flags(create: bool) -> (r: (ACCESS_MASK, CreationDisposition))
    ensures
        create ==> r == (ACCESS_MASK(GENERIC_WRITE), CreationDisposition(CREATE_ALWAYS)),
        !create ==> r == (ACCESS_MASK(GENERIC_READ), CreationDisposition(OPEN_EXISTING)),
{
    if create {
        (ACCESS_MASK(GENERIC_WRITE), CreationDisposition(CREATE_ALWAYS))
    } else {
        (ACCESS_MASK(GENERIC_READ), CreationDisposition(OPEN_EXISTING))
    }
}

/// The explicit-offset half of a reusable transfer descriptor: the target
/// byte offset split into its low and high halves.
#[derive(Clone, Copy, Debug, PartialEq, Eq, Structural)]
pub struct OVERLAPPED_Offset {
    /// The low 32 bits of the target byte offset.
    pub Offset: DWORD,
    /// The high 32 bits of the target byte offset.
    pub OffsetHigh: DWORD,
}

impl OVERLAPPED_Offset {
    /// Split a 64-bit target offset into the descriptor's two halves.
    pub fn new(offset: u64) -> (r: OVERLAPPED_Offset)
        ensures
            r.Offset == offset & 0xffff_ffff,
            r.OffsetHigh == offset >> 32,
    {
        proof {
            assert((offset & 0xffff_ffff) <= 0xffff_ffff && (offset >> 32) <= 0xffff_ffff)
                by (bit_vector);
        }
        OVERLAPPED_Offset { Offset: (offset & 0xffff_ffff) as DWORD, OffsetHigh: (offset >> 32) as DWORD }
    }
}

/// Splitting an offset loses nothing: the two halves recombine to exactly
/// the offset that was requested.
pub proof fn lemma_offset_split_exact(offset: u64)
    ensures
        (offset & 0xffff_ffff) + (offset >> 32) * 0x1_0000_0000 == offset,
{
    assert(offset & 0xffff_ffff == offset % 0x1_0000_0000) by (bit_vector);
    assert(offset >> 32 == offset / 0x1_0000_0000) by (bit_vector);
    vstd::arithmetic::div_mod::lemma_fundamental_div_mod(offset as int, 0x1_0000_0000);
}

} // verus!
