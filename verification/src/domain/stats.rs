//! Resource observations. Observations only, never verdicts.
use vstd::prelude::*;
use crate::domain::ids::ProcessId;
use crate::domain::time::Duration;

verus! {

/// The observed OS run-state of a process at sample time.
#[derive(Debug, Clone, Copy, PartialEq, Eq, Structural)]
pub enum ProcessState {
    /// Running or runnable.
    Running,
    /// Sleeping / waiting.
    Sleeping,
    /// Stopped (e.g. `SIGSTOP`).
    Stopped,
    /// Exited but not yet reaped.
    Zombie,
    /// State could not be determined.
    Unknown,
}

/// CPU time used over an interval. The fraction of one core is the work done, in seconds,
/// over the interval.
#[derive(Debug, Clone, Copy, PartialEq, Eq, Structural)]
pub struct CpuUsage {
    /// CPU time used, in clock units.
    pub work: u64,
    /// How many clock units make a second.
    pub units_per_second: u64,
    /// The interval over which the work was done.
    pub elapsed: Duration,
}

/// Raw resource sample produced by a backend (before the supervisor adds identity/uptime).
#[derive(Debug, Clone, Copy, PartialEq, Eq, Structural)]
pub struct RawStats {
    /// CPU time used since the previous sample; `None` when there is nothing to compare with.
    pub cpu_usage: Option<CpuUsage>,
    /// Resident set size, in bytes.
    pub memory_rss_bytes: u64,
    /// Virtual memory size, in bytes, if available.
    pub virtual_memory_bytes: Option<u64>,
    /// Peak resident set size, in bytes, if available.
    pub peak_rss_bytes: Option<u64>,
    /// Bytes read, if available.
    pub io_read_bytes: Option<u64>,
    /// Bytes written, if available.
    pub io_write_bytes: Option<u64>,
    /// Number of descendants observed, if available.
    pub descendant_count: Option<u32>,
    /// Observed run-state.
    pub state: ProcessState,
}

/// A point-in-time observation of a supervised process.
#[derive(Debug, Clone, Copy, PartialEq, Eq, Structural)]
pub struct ProcessStats {
    /// The supervised process the sample belongs to.
    pub pid: ProcessId,
    /// CPU time used since the previous sample; `None` when there is nothing to compare with.
    pub cpu_usage: Option<CpuUsage>,
    /// Resident set size, in bytes.
    pub memory_rss_bytes: u64,
    /// Virtual memory size, in bytes, if available.
    pub virtual_memory_bytes: Option<u64>,
    /// Peak resident set size, in bytes, if available.
    pub peak_rss_bytes: Option<u64>,
    /// Bytes read, if available.
    pub io_read_bytes: Option<u64>,
    /// Bytes written, if available.
    pub io_write_bytes: Option<u64>,
    /// Number of descendants observed, if available.
    pub descendant_count: Option<u32>,
    /// How long the process has been alive.
    pub uptime: Duration,
    /// Observed run-state.
    pub state: ProcessState,
}

/// A raw sample of `pid`, taken at `uptime`.
pub open spec fn observed(pid: ProcessId, raw: RawStats, uptime: Duration) -> ProcessStats {
    ProcessStats {
        pid,
        cpu_usage: raw.cpu_usage,
        memory_rss_bytes: raw.memory_rss_bytes,
        virtual_memory_bytes: raw.virtual_memory_bytes,
        peak_rss_bytes: raw.peak_rss_bytes,
        io_read_bytes: raw.io_read_bytes,
        io_write_bytes: raw.io_write_bytes,
        descendant_count: raw.descendant_count,
        uptime,
        state: raw.state,
    }
}

impl ProcessStats {
    /// Combines a [`RawStats`] sample with the supervised identity and uptime.
    #[must_use]
    pub fn from_raw(pid: ProcessId, raw: RawStats, uptime: Duration) -> (stats: Self)
        ensures
            stats == observed(pid, raw, uptime),
    {
        Self {
            pid,
            cpu_usage: raw.cpu_usage,
            memory_rss_bytes: raw.memory_rss_bytes,
            virtual_memory_bytes: raw.virtual_memory_bytes,
            peak_rss_bytes: raw.peak_rss_bytes,
            io_read_bytes: raw.io_read_bytes,
            io_write_bytes: raw.io_write_bytes,
            descendant_count: raw.descendant_count,
            uptime,
            state: raw.state,
        }
    }
}

} // verus!
