//! OS-level identity as plain data (no handles, no I/O).
use vstd::prelude::*;

verus! {

/// A value that distinguishes a specific process instance from a later reuse of the same
/// pid.
#[derive(Debug, Clone, Copy, PartialEq, Eq, Structural)]
pub enum ReuseToken {
    /// Process start time (e.g. jiffies since boot on Linux).
    StartTime(u64),
    /// No reuse discriminator available on this platform/backend.
    Unavailable,
}

/// The OS-level identity of a supervised process.
///
/// Combines the OS pid with a [`ReuseToken`] so PID reuse can be detected. This is plain
/// data: it never holds a live handle or file descriptor.
#[derive(Debug, Clone, Copy, PartialEq, Eq, Structural)]
pub struct OsIdentity {
    /// The operating-system process id.
    pub pid: u32,
    /// A discriminator that detects PID reuse.
    pub reuse_token: ReuseToken,
}

impl OsIdentity {
    /// Creates a new OS identity.
    #[must_use]
    pub fn new(pid: u32, reuse_token: ReuseToken) -> (identity: Self)
        ensures
            identity.pid == pid,
            identity.reuse_token == reuse_token,
    {
        Self { pid, reuse_token }
    }
}

} // verus!
