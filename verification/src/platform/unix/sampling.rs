//! Samples of the children of a Unix backend.
use vstd::prelude::*;
use vstd::string::StringExecFns;
use crate::domain::os::{OsIdentity, ReuseToken};
use crate::domain::stats::{CpuUsage, ProcessState, RawStats};
use crate::domain::time::{Duration, Instant};
use crate::platform::children::{child_key, identity_still_matches};
use crate::platform::procfs::{read_cpu_ticks, sample_process};
use crate::platform::unix::{ChildSlot, CpuSample, UnixProcessBackend};
use crate::supervision::error::StatsError;
use crate::supervision::ports::Spawned;

verus! {

/// The unit in which macOS CPU time is kept: nanoseconds.
pub const NANOS_PER_SECOND: u64 = 1_000_000_000;

/// What was read of a Linux child, in the order in which it was read. A file that could not be
/// read carries the reason.
#[derive(Debug)]
pub struct LinuxSample {
    /// The start time of the PID, before anything else was read.
    pub start: Option<u64>,
    /// The `status` file.
    pub status: Result<String, String>,
    /// The `io` file.
    pub io: Result<String, String>,
    /// The `stat` file.
    pub stat: Result<String, String>,
    /// When the `stat` file was read.
    pub taken_at: Instant,
    /// Clock ticks per second.
    pub ticks_per_second: i64,
    /// The start time of the PID, after everything else was read.
    pub start_after: Option<u64>,
}

/// The counters of a macOS task.
#[derive(Debug, Clone, Copy, PartialEq, Eq, Structural)]
pub struct TaskCounters {
    /// User time, in Mach time units.
    pub user: u64,
    /// System time, in Mach time units.
    pub system: u64,
    /// Resident memory, in bytes.
    pub resident: u64,
    /// Virtual memory, in bytes.
    pub mapped: u64,
}

/// What was read of a macOS child, in the order in which it was read.
#[derive(Debug)]
pub struct MacSample {
    /// The start time of the PID, before anything else was read.
    pub start: Option<u64>,
    /// The counters of its task, or why they could not be read.
    pub task: Result<TaskCounters, String>,
    /// Numerator and denominator of the Mach time unit in nanoseconds, if they could be read.
    pub timebase: Option<(u32, u32)>,
    /// When the counters were read.
    pub taken_at: Instant,
    /// The start time of the PID, after everything else was read.
    pub start_after: Option<u64>,
}

/// The CPU time used since the previous sample. The interval is never empty.
pub open spec fn cpu_since(previous: Option<CpuSample>, now: CpuSample, rate: u64) -> Option<
    CpuUsage,
> {
    match previous {
        None => None,
        Some(before) => Some(
            CpuUsage {
                work: if now.ticks >= before.ticks {
                    (now.ticks - before.ticks) as u64
                } else {
                    0
                },
                units_per_second: rate,
                elapsed: Duration {
                    nanos: if now.taken_at.nanos > before.taken_at.nanos {
                        (now.taken_at.nanos - before.taken_at.nanos) as u128
                    } else {
                        1
                    },
                },
            },
        ),
    }
}

pub(crate) fn used_since(previous: Option<CpuSample>, now: CpuSample, rate: u64) -> (used: Option<CpuUsage>)
    ensures
        used == cpu_since(previous, now, rate),
{
    match previous {
        None => None,
        Some(before) => {
            let work: u64 = if now.ticks >= before.ticks {
                now.ticks - before.ticks
            } else {
                0
            };
            let nanos: u128 = if now.taken_at.nanos > before.taken_at.nanos {
                now.taken_at.nanos - before.taken_at.nanos
            } else {
                1
            };
            Some(CpuUsage { work, units_per_second: rate, elapsed: Duration { nanos } })
        },
    }
}

/// Why a child of this identity cannot be sampled at all, if it cannot.
pub open spec fn unsafe_identity(os: OsIdentity, start: Option<u64>) -> Option<Seq<char>> {
    if os.reuse_token is Unavailable {
        Some("no safe sample identity available"@)
    } else if !crate::platform::children::still_matches(os, start) {
        Some("process identity no longer matches"@)
    } else {
        None
    }
}

fn refuse(cause: &str) -> (error: StatsError)
    ensures
        error matches StatsError::Backend(told) && told@ == cause@,
{
    StatsError::Backend(String::from_str(cause))
}

fn check_identity(os: &OsIdentity, start: Option<u64>) -> (checked: Result<(), StatsError>)
    ensures
        match checked {
            Ok(_) => unsafe_identity(*os, start) is None,
            Err(StatsError::Backend(told)) => unsafe_identity(*os, start) == Some(told@),
            Err(_) => false,
        },
{
    if matches!(os.reuse_token, ReuseToken::Unavailable) {
        return Err(refuse("no safe sample identity available"));
    }
    if !identity_still_matches(os, start) {
        return Err(refuse("process identity no longer matches"));
    }
    Ok(())
}

/// What the files of a Linux child say: its sample without CPU usage, and its CPU time; or why
/// they do not say it.
pub open spec fn linux_reading(os: OsIdentity, sample: LinuxSample) -> Result<
    (RawStats, u64),
    Seq<char>,
> {
    if let Some(cause) = unsafe_identity(os, sample.start) {
        Err(cause)
    } else {
        match (sample.status, sample.io, sample.stat) {
            (Err(cause), _, _) => Err(cause@),
            (Ok(_), Err(cause), _) => Err(cause@),
            (Ok(status), Ok(io), stat) => match crate::platform::procfs::sample_of(
                status@,
                io@,
            ) {
                None => Err("memory size out of range"@),
                Some(raw) => match stat {
                    Err(cause) => Err(cause@),
                    Ok(text) => match crate::platform::procfs::cpu_ticks(text@) {
                        Some(ticks) => Ok((raw, ticks)),
                        None => if crate::platform::procfs::stat_fields(text@) is None {
                            Err("invalid proc stat"@)
                        } else {
                            Err("invalid CPU counters"@)
                        },
                    },
                },
            },
        }
    }
}

fn read_linux(os: &OsIdentity, sample: &LinuxSample) -> (reading: Result<
    (RawStats, u64),
    StatsError,
>)
    ensures
        match reading {
            Ok(found) => linux_reading(*os, *sample) == Ok::<_, Seq<char>>(found),
            Err(StatsError::Backend(told)) => linux_reading(*os, *sample) == Err::<
                (RawStats, u64),
                _,
            >(told@),
            Err(_) => false,
        },
{
    match check_identity(os, sample.start) {
        Ok(()) => {},
        Err(error) => {
            return Err(error);
        },
    }
    let status = match &sample.status {
        Ok(text) => text,
        Err(cause) => {
            return Err(refuse(cause.as_str()));
        },
    };
    let io = match &sample.io {
        Ok(text) => text,
        Err(cause) => {
            return Err(refuse(cause.as_str()));
        },
    };
    let raw = match sample_process(status.as_str(), io.as_str()) {
        Ok(raw) => raw,
        Err(error) => {
            return Err(error);
        },
    };
    let stat = match &sample.stat {
        Ok(text) => text,
        Err(cause) => {
            return Err(refuse(cause.as_str()));
        },
    };
    match read_cpu_ticks(stat.as_str()) {
        Ok(ticks) => Ok((raw, ticks)),
        Err(error) => Err(error),
    }
}

/// CPU time in nanoseconds, at most the largest count.
pub open spec fn mach_nanos(task: TaskCounters, numer: u32, denom: u32) -> u64 {
    let nanos = (task.user + task.system) * numer / (denom as int);
    if nanos > u64::MAX {
        u64::MAX
    } else {
        nanos as u64
    }
}

/// What was read of a macOS child: its sample without CPU usage, and its CPU time; or why there
/// is none.
pub open spec fn mac_reading(os: OsIdentity, sample: MacSample) -> Result<
    (RawStats, u64),
    Seq<char>,
> {
    if let Some(cause) = unsafe_identity(os, sample.start) {
        Err(cause)
    } else {
        match sample.task {
            Err(cause) => Err(cause@),
            Ok(task) => match sample.timebase {
                None => Err("invalid Mach timebase"@),
                Some((numer, denom)) => if denom == 0 {
                    Err("invalid Mach timebase"@)
                } else {
                    Ok(
                        (
                            RawStats {
                                cpu_usage: None,
                                memory_rss_bytes: task.resident,
                                virtual_memory_bytes: Some(task.mapped),
                                peak_rss_bytes: None,
                                io_read_bytes: None,
                                io_write_bytes: None,
                                descendant_count: None,
                                state: ProcessState::Unknown,
                            },
                            mach_nanos(task, numer, denom),
                        ),
                    )
                },
            },
        }
    }
}

fn read_mac(os: &OsIdentity, sample: &MacSample) -> (reading: Result<(RawStats, u64), StatsError>)
    ensures
        match reading {
            Ok(found) => mac_reading(*os, *sample) == Ok::<_, Seq<char>>(found),
            Err(StatsError::Backend(told)) => mac_reading(*os, *sample) == Err::<
                (RawStats, u64),
                _,
            >(told@),
            Err(_) => false,
        },
{
    match check_identity(os, sample.start) {
        Ok(()) => {},
        Err(error) => {
            return Err(error);
        },
    }
    let task = match &sample.task {
        Ok(task) => *task,
        Err(cause) => {
            return Err(refuse(cause.as_str()));
        },
    };
    let (numer, denom) = match sample.timebase {
        Some(pair) => pair,
        None => {
            return Err(refuse("invalid Mach timebase"));
        },
    };
    if denom == 0 {
        return Err(refuse("invalid Mach timebase"));
    }
    let units: u128 = task.user as u128 + task.system as u128;
    proof {
        assert(units * numer <= 0x1_ffff_ffff_ffff_fffe * 0xffff_ffff) by (nonlinear_arith)
            requires
                units <= 0x1_ffff_ffff_ffff_fffe,
                numer <= 0xffff_ffff,
        ;
    }
    let nanos: u128 = units * numer as u128 / denom as u128;
    let ticks: u64 = if nanos > u64::MAX as u128 {
        u64::MAX
    } else {
        nanos as u64
    };
    Ok(
        (
            RawStats {
                cpu_usage: None,
                memory_rss_bytes: task.resident,
                virtual_memory_bytes: Some(task.mapped),
                peak_rss_bytes: None,
                io_read_bytes: None,
                io_write_bytes: None,
                descendant_count: None,
                state: ProcessState::Unknown,
            },
            ticks,
        ),
    )
}

/// The sample of `os` that `reading` makes, given the state before it; or why there is none.
pub open spec fn sampled(
    state: crate::platform::unix::UnixView,
    os: OsIdentity,
    reading: Result<(RawStats, u64), Seq<char>>,
    taken_at: Instant,
    rate: int,
    start_after: Option<u64>,
) -> Result<RawStats, Seq<char>> {
    let key = crate::platform::children::key_of(os);
    match reading {
        Err(cause) => Err(cause),
        Ok((raw, ticks)) => if !state.children.contains_key(key) {
            Err("child reaped during sample"@)
        } else if rate <= 0 {
            Err("invalid clock tick rate"@)
        } else if !crate::platform::children::still_matches(os, start_after) {
            Err("child changed during sample"@)
        } else {
            let previous = if state.samples.contains_key(key) {
                Some(state.samples[key])
            } else {
                None
            };
            Ok(
                RawStats {
                    cpu_usage: cpu_since(previous, CpuSample { taken_at, ticks }, rate as u64),
                    ..raw
                },
            )
        },
    }
}

/// The state after a sample: the CPU time of a registered child is remembered as soon as it was
/// read.
pub open spec fn remembered(
    state: crate::platform::unix::UnixView,
    os: OsIdentity,
    reading: Result<(RawStats, u64), Seq<char>>,
    taken_at: Instant,
) -> crate::platform::unix::UnixView {
    let key = crate::platform::children::key_of(os);
    match reading {
        Ok((_, ticks)) => if state.children.contains_key(key) {
            crate::platform::unix::UnixView {
                samples: state.samples.insert(key, CpuSample { taken_at, ticks }),
                ..state
            }
        } else {
            state
        },
        Err(_) => state,
    }
}

/// `result` is `expected`, with a failure told by the backend.
pub open spec fn backend_result<T>(
    result: Result<T, StatsError>,
    expected: Result<T, Seq<char>>,
) -> bool {
    match (result, expected) {
        (Ok(value), Ok(wanted)) => value == wanted,
        (Err(StatsError::Backend(told)), Err(wanted)) => told@ == wanted,
        _ => false,
    }
}

impl UnixProcessBackend {
    fn finish_sample(
        &mut self,
        os: &OsIdentity,
        raw: RawStats,
        now: CpuSample,
        ticks_per_second: i64,
        start_after: Option<u64>,
    ) -> (finished: Result<RawStats, StatsError>)
        requires
            old(self)@.wf(),
        ensures
            backend_result(
                finished,
                sampled(
                    old(self)@,
                    *os,
                    Ok((raw, now.ticks)),
                    now.taken_at,
                    ticks_per_second as int,
                    start_after,
                ),
            ),
            final(self)@ == remembered(old(self)@, *os, Ok((raw, now.ticks)), now.taken_at),
            final(self)@.wf(),
    {
        let key = child_key(os);
        if !self.children.contains(key) {
            return Err(refuse("child reaped during sample"));
        }
        let previous: Option<CpuSample> = self.samples.insert(key, now);
        proof {
            let after = remembered(old(self)@, *os, Ok((raw, now.ticks)), now.taken_at);
            assert(self@ =~= after);
            assert forall|other: crate::platform::children::ChildKey| #[trigger]
                after.samples.contains_key(other) implies after.children.contains_key(other) by {
                if other != key {
                    assert(old(self)@.samples.contains_key(other));
                }
            }
        }
        if ticks_per_second <= 0 {
            return Err(refuse("invalid clock tick rate"));
        }
        if !identity_still_matches(os, start_after) {
            return Err(refuse("child changed during sample"));
        }
        Ok(RawStats { cpu_usage: used_since(previous, now, ticks_per_second as u64), ..raw })
    }

    /// Makes a sample of a Linux child out of what was read of it.
    ///
    /// # Errors
    /// Returns [`StatsError::Backend`] if the PID was or became another process, if a file could
    /// not be read or makes no sense, or if the child was reaped meanwhile.
    pub fn sample_sync(&mut self, target: &Spawned, sample: &LinuxSample) -> (stats: Result<
        RawStats,
        StatsError,
    >)
        requires
            old(self)@.wf(),
        ensures
            backend_result(
                stats,
                sampled(
                    old(self)@,
                    target.os,
                    linux_reading(target.os, *sample),
                    sample.taken_at,
                    sample.ticks_per_second as int,
                    sample.start_after,
                ),
            ),
            final(self)@ == remembered(
                old(self)@,
                target.os,
                linux_reading(target.os, *sample),
                sample.taken_at,
            ),
            final(self)@.wf(),
    {
        match read_linux(&target.os, sample) {
            Err(error) => Err(error),
            Ok((raw, ticks)) => {
                let now = CpuSample { taken_at: sample.taken_at, ticks };
                self.finish_sample(
                    &target.os,
                    raw,
                    now,
                    sample.ticks_per_second,
                    sample.start_after,
                )
            },
        }
    }

    /// Makes a sample of a macOS child out of what was read of it.
    ///
    /// # Errors
    /// Returns [`StatsError::Backend`] if the PID was or became another process, if its counters
    /// could not be read, or if the child was reaped meanwhile.
    pub fn sample_mac(&mut self, target: &Spawned, sample: &MacSample) -> (stats: Result<
        RawStats,
        StatsError,
    >)
        requires
            old(self)@.wf(),
        ensures
            backend_result(
                stats,
                sampled(
                    old(self)@,
                    target.os,
                    mac_reading(target.os, *sample),
                    sample.taken_at,
                    NANOS_PER_SECOND as int,
                    sample.start_after,
                ),
            ),
            final(self)@ == remembered(
                old(self)@,
                target.os,
                mac_reading(target.os, *sample),
                sample.taken_at,
            ),
            final(self)@.wf(),
    {
        match read_mac(&target.os, sample) {
            Err(error) => Err(error),
            Ok((raw, ticks)) => {
                let now = CpuSample { taken_at: sample.taken_at, ticks };
                self.finish_sample(
                    &target.os,
                    raw,
                    now,
                    NANOS_PER_SECOND as i64,
                    sample.start_after,
                )
            },
        }
    }

    /// Admits a native sample of `target`: at most one runs per child, whatever became of whoever
    /// asked for it.
    ///
    /// # Errors
    /// Returns [`StatsError::Backend`] if the child was reaped, or if an earlier sample of it is
    /// still running.
    pub fn begin_sample(&mut self, target: &Spawned) -> (admitted: Result<(), StatsError>)
        requires
            old(self)@.wf(),
        ensures
            ({
                let key = crate::platform::children::key_of(target.os);
                if !old(self)@.children.contains_key(key) {
                    &&& admitted matches Err(StatsError::Backend(told))
                    &&& told@ == "process reaped"@
                    &&& final(self)@ == old(self)@
                } else if old(self)@.children[key].sampling {
                    &&& admitted matches Err(StatsError::Backend(told))
                    &&& told@ == "previous native sample still running"@
                    &&& final(self)@ == old(self)@
                } else {
                    &&& admitted is Ok
                    &&& final(self)@ == (crate::platform::unix::UnixView {
                        children: old(self)@.children.insert(
                            key,
                            ChildSlot { sampling: true, ..old(self)@.children[key] },
                        ),
                        ..old(self)@
                    })
                }
            }),
            final(self)@.wf(),
            admitted is Ok ==> final(self)@ == old(self)@.sampling(target.os, true),
    {
        let key = child_key(&target.os);
        let slot = match self.children.get(key) {
            None => {
                return Err(refuse("process reaped"));
            },
            Some(slot) => *slot,
        };
        if slot.sampling {
            return Err(refuse("previous native sample still running"));
        }
        let _ = self.children.insert(
            key,
            ChildSlot { scope: slot.scope, pidfd: slot.pidfd, sampling: true },
        );
        Ok(())
    }

    /// Takes note that the native sample of `target` has returned.
    pub fn end_sample(&mut self, target: &Spawned)
        requires
            old(self)@.wf(),
        ensures
            ({
                let key = crate::platform::children::key_of(target.os);
                final(self)@ == (if old(self)@.children.contains_key(key) {
                    crate::platform::unix::UnixView {
                        children: old(self)@.children.insert(
                            key,
                            ChildSlot { sampling: false, ..old(self)@.children[key] },
                        ),
                        ..old(self)@
                    }
                } else {
                    old(self)@
                })
            }),
            final(self)@.wf(),
            final(self)@ == old(self)@.sampling(target.os, false),
    {
        let key = child_key(&target.os);
        let known = match self.children.get(key) {
            Some(slot) => Some(*slot),
            None => None,
        };
        if let Some(slot) = known {
            let _ = self.children.insert(
                key,
                ChildSlot { scope: slot.scope, pidfd: slot.pidfd, sampling: false },
            );
        }
    }
}

} // verus!
