//! A uniform abstraction for file I/O that can be issued, polled for
//! completion, and cancelled without blocking the issuing flow of control.
//!
//! The crate is organised in three layers:
//! - the shared result and error contracts (`async_io`, `error`);
//! - the platform-agnostic operation-lifetime protocol (`flight`) and the
//!   per-platform decision layers (`unix`, `windows`) that translate native
//!   status codes into the shared contracts;
//! - an in-memory filesystem double (`virtual_io`) for deterministic testing
//!   of the synchronous access layer.

use vstd::prelude::*;

pub mod async_io;
pub mod error;
pub mod flight;
pub mod text;
pub mod traits;
pub mod unix;
pub mod vfs;
pub mod virtual_io;
pub mod windows;

verus! {

/// A millisecond tick of the virtual clock.
pub struct Instant {
    /// Milliseconds since the clock was created.
    pub millis: u64,
}

impl Instant {
    /// The tick expressed in whole milliseconds.
    pub fn as_millis(&self) -> (r: u64)
        ensures
            r == self.millis,
    {
        self.millis
    }
}

} // verus!
