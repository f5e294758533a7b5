//! What the Windows backend remembers of its jobs and their children, and what it decides from
//! that.
use vstd::prelude::*;
use vstd::string::StringExecFns;
use crate::domain::capability::{Capabilities, Containment, Support};
use crate::domain::exit::RawExit;
use crate::domain::ids::ProcessScopeId;
use crate::domain::os::OsIdentity;
use crate::domain::spec::Signal;
use crate::domain::stats::{CpuUsage, ProcessState, RawStats};
use crate::domain::table::Table;
use crate::domain::time::{Duration, Instant};
use crate::observation::snapshot::ObservedProcessIdentity;
use crate::observation::usage::{ProcessUsage, UsageFailure};
use crate::platform::children::{child_key, ChildKey, Children};
use crate::platform::polling::ContainerState;
use crate::platform::unix::CpuSample;
use crate::supervision::error::{SpawnError, StatsError, TerminateError, WaitError};
use crate::supervision::ports::Spawned;

verus! {

/// The exit code that a terminated process is given.
pub const KILLED: u32 = 0xe000_0001;

/// The same exit code as it is reported.
pub const KILLED_CODE: i32 = -536_870_911;

/// Clock units of 100 nanoseconds in a second.
pub const UNITS_PER_SECOND: u64 = 10_000_000;

/// Seconds from the native epoch to the Unix epoch.
pub const UNIX_EPOCH_SECONDS: u64 = 11_644_473_600;

/// A point in time, or a span of it, in two halves.
#[derive(Debug, Clone, Copy, PartialEq, Eq, Structural)]
pub struct FileTime {
    /// The upper half.
    pub high: u32,
    /// The lower half.
    pub low: u32,
}

/// A native time as one number, in units of 100 nanoseconds.
pub open spec fn units(time: FileTime) -> u64 {
    (time.high * 0x1_0000_0000 + time.low) as u64
}

impl FileTime {
    /// The time as one number, in units of 100 nanoseconds.
    #[must_use]
    pub fn ticks(self) -> (ticks: u64)
        ensures
            ticks == units(self),
            ticks == self.high * 0x1_0000_0000 + self.low,
    {
        self.high as u64 * 0x1_0000_0000 + self.low as u64
    }
}

/// The CPU time of a process, in clock units, at most the largest count.
#[must_use]
pub fn cpu_units(kernel: FileTime, user: FileTime) -> (total: u64)
    ensures
        total == (if units(kernel) + units(user) > u64::MAX {
            u64::MAX
        } else {
            (units(kernel) + units(user)) as u64
        }),
{
    match kernel.ticks().checked_add(user.ticks()) {
        Some(total) => total,
        None => u64::MAX,
    }
}

/// The steps of putting a new, suspended child into the job of its scope.
#[derive(Debug, Clone, Copy, PartialEq, Eq, Structural)]
pub enum SetupStep {
    /// Find out its PID and its handle.
    Identify,
    /// Open a handle of its own to it.
    Open,
    /// Read when it was created.
    ReadTimes,
    /// Create the job of the scope, if there is none.
    EnsureJob,
    /// Assign it to the job.
    Assign,
    /// Let it run.
    Resume,
    /// Take note of it.
    Register,
}

/// The step that follows `step`: a child runs only once it is in its job.
pub open spec fn step_after(step: SetupStep) -> Option<SetupStep> {
    match step {
        SetupStep::Identify => Some(SetupStep::Open),
        SetupStep::Open => Some(SetupStep::ReadTimes),
        SetupStep::ReadTimes => Some(SetupStep::EnsureJob),
        SetupStep::EnsureJob => Some(SetupStep::Assign),
        SetupStep::Assign => Some(SetupStep::Resume),
        SetupStep::Resume => Some(SetupStep::Register),
        SetupStep::Register => None,
    }
}

/// The step that follows `step`, given what came of it; `None` once the child is set up.
///
/// # Errors
/// Returns [`SpawnError::Os`] if the step failed. The child is then killed and waited for.
pub fn next_setup(step: SetupStep, done: Result<(), String>) -> (next: Result<
    Option<SetupStep>,
    SpawnError,
>)
    ensures
        next == (match done {
            Ok(_) => Ok(step_after(step)),
            Err(cause) => Err(SpawnError::Os(cause)),
        }),
{
    match done {
        Err(cause) => Err(SpawnError::Os(cause)),
        Ok(()) => Ok(
            match step {
                SetupStep::Identify => Some(SetupStep::Open),
                SetupStep::Open => Some(SetupStep::ReadTimes),
                SetupStep::ReadTimes => Some(SetupStep::EnsureJob),
                SetupStep::EnsureJob => Some(SetupStep::Assign),
                SetupStep::Assign => Some(SetupStep::Resume),
                SetupStep::Resume => Some(SetupStep::Register),
                SetupStep::Register => None,
            },
        ),
    }
}

/// How a process ended that was told to die or not, with the code it left.
pub open spec fn exit_of(code: Option<i32>, killed: bool) -> RawExit {
    RawExit {
        code,
        signal: if killed && code == Some(KILLED_CODE) {
            Some(Signal::Kill)
        } else {
            None
        },
        core_dumped: false,
    }
}

/// How a process ended. It counts as killed only if it was told to die and has the exit code
/// that goes with that.
#[must_use]
pub fn job_exit(code: Option<i32>, killed: bool) -> (exit: RawExit)
    ensures
        exit.code == code,
        exit.signal == (if killed && code == Some(KILLED_CODE) {
            Some(Signal::Kill)
        } else {
            None
        }),
        !exit.core_dumped,
        exit == exit_of(code, killed),
{
    let forced = match code {
        Some(value) => killed && value == KILLED_CODE,
        None => false,
    };
    RawExit {
        code,
        signal: if forced {
            Some(Signal::Kill)
        } else {
            None
        },
        core_dumped: false,
    }
}

/// What a caller sees of the wait for a child.
#[derive(Debug, Clone, Copy, PartialEq, Eq, Structural)]
pub enum WaitSeen {
    /// It has not returned.
    Pending,
    /// It failed.
    Failed,
    /// The exit is confirmed.
    Exited,
}

/// What came of asking for another wait.
#[derive(Debug, Clone, Copy, PartialEq, Eq, Structural)]
pub enum RetrySent {
    /// It is asked for, by this caller or by an earlier one.
    Queued,
    /// Nobody waits any more.
    Closed,
}

/// What a caller does next.
#[derive(Debug, Clone, Copy, PartialEq, Eq, Structural)]
pub enum WaitPlan {
    /// Take the result as soon as there is one.
    Collect,
    /// Take the result of the wait that was asked for, not the failure that is there.
    AwaitRetry,
}

/// What a caller does; `None` if there is nothing to wait for any more.
pub open spec fn wait_planned(seen: WaitSeen, retry: RetrySent, now: WaitSeen) -> Option<WaitPlan> {
    if seen !is Failed {
        Some(WaitPlan::Collect)
    } else if retry is Queued {
        Some(WaitPlan::AwaitRetry)
    } else if now is Exited {
        Some(WaitPlan::Collect)
    } else {
        None
    }
}

/// What a caller does, given what it saw when it came, what came of asking for another wait if
/// it saw a failure, and what it sees after that.
///
/// # Errors
/// Returns [`WaitError::Backend`] if nobody waits any more and no exit is confirmed.
pub fn wait_plan(seen: WaitSeen, retry: RetrySent, now: WaitSeen) -> (plan: Result<
    WaitPlan,
    WaitError,
>)
    ensures
        if seen !is Failed {
            plan == Ok::<_, WaitError>(WaitPlan::Collect)
        } else if retry is Queued {
            plan == Ok::<_, WaitError>(WaitPlan::AwaitRetry)
        } else if now is Exited {
            plan == Ok::<_, WaitError>(WaitPlan::Collect)
        } else {
            plan matches Err(WaitError::Backend(told)) && told@ == "waiter closed"@
        },
        plan is Ok <==> wait_planned(seen, retry, now) is Some,
        plan matches Ok(found) ==> wait_planned(seen, retry, now) == Some(found),
{
    match seen {
        WaitSeen::Pending | WaitSeen::Exited => Ok(WaitPlan::Collect),
        WaitSeen::Failed => match retry {
            RetrySent::Queued => Ok(WaitPlan::AwaitRetry),
            RetrySent::Closed => match now {
                WaitSeen::Exited => Ok(WaitPlan::Collect),
                WaitSeen::Pending | WaitSeen::Failed => Err(
                    WaitError::Backend(String::from_str("waiter closed")),
                ),
            },
        },
    }
}

/// Whether the one who waits for a child is done: only a confirmed exit, or nobody left to ask
/// for another wait, ends its work.
#[must_use]
pub fn waiter_done(exit: &Result<RawExit, String>, retry_asked: bool) -> (done: bool)
    ensures
        done == (exit is Ok || !retry_asked),
{
    exit.is_ok() || !retry_asked
}

/// What was read of a process for one usage measurement.
#[derive(Debug, Clone, Copy, PartialEq, Eq, Structural)]
pub struct WindowsReading {
    /// When it was created.
    pub creation: FileTime,
    /// Time spent in the kernel.
    pub kernel: FileTime,
    /// Time spent outside of it.
    pub user: FileTime,
    /// Resident memory, in bytes.
    pub working_set: u64,
    /// When the measurement was taken.
    pub sampled_at: Instant,
}

/// Whether a process created at `creation` can be the one of `identity`, or why it is none.
pub open spec fn created_as(identity: ObservedProcessIdentity, creation: FileTime) -> Result<
    (),
    UsageFailure,
> {
    let seconds = units(creation) / UNITS_PER_SECOND;
    if identity.start_time_unix_seconds matches Some(wanted) && wanted != seconds
        - UNIX_EPOCH_SECONDS {
        Err(UsageFailure::IdentityChanged)
    } else {
        Ok(())
    }
}

/// Checks that a process created at `creation` can be the one of `identity`.
///
/// # Errors
/// Returns [`UsageFailure::Unavailable`] for a creation time before the Unix epoch, and
/// [`UsageFailure::IdentityChanged`] if the PID changed hands.
pub fn check_creation(identity: ObservedProcessIdentity, creation: FileTime) -> (checked: Result<
    (),
    UsageFailure,
>)
    ensures
        if units(creation) / UNITS_PER_SECOND < UNIX_EPOCH_SECONDS {
            checked matches Err(UsageFailure::Unavailable(cause)) && cause@
                == "invalid process creation time"@
        } else {
            checked == created_as(identity, creation)
        },
{
    match (creation.ticks() / UNITS_PER_SECOND).checked_sub(UNIX_EPOCH_SECONDS) {
        None => Err(
            UsageFailure::Unavailable(String::from_str("invalid process creation time")),
        ),
        Some(epoch) => match identity.start_time_unix_seconds {
            Some(wanted) => if wanted != epoch {
                Err(UsageFailure::IdentityChanged)
            } else {
                Ok(())
            },
            None => Ok(()),
        },
    }
}

/// The measurement that a reading makes, if the PID did not change hands and all fits.
pub open spec fn windows_measured(
    identity: ObservedProcessIdentity,
    reading: WindowsReading,
) -> Option<ProcessUsage> {
    if units(reading.creation) / UNITS_PER_SECOND >= UNIX_EPOCH_SECONDS && created_as(
        identity,
        reading.creation,
    ) is Ok && (units(reading.user) + units(reading.kernel)) * 100 <= u64::MAX {
        Some(
            ProcessUsage {
                identity,
                native_start: units(reading.creation),
                sampled_at: reading.sampled_at,
                cpu_time: Duration {
                    nanos: ((units(reading.user) + units(reading.kernel)) * 100) as u128,
                },
                resident_bytes: reading.working_set,
                physical_footprint_bytes: None,
                peak_physical_footprint_bytes: None,
                disk_read_bytes: None,
                disk_write_bytes: None,
            },
        )
    } else {
        None
    }
}

/// Puts a usage measurement together.
///
/// # Errors
/// Returns what [`check_creation`] does, and [`UsageFailure::Unavailable`] for a CPU time that
/// is out of range.
pub fn windows_usage(identity: ObservedProcessIdentity, reading: WindowsReading) -> (
    usage: Result<ProcessUsage, UsageFailure>)
    ensures
        if units(reading.creation) / UNITS_PER_SECOND < UNIX_EPOCH_SECONDS {
            usage matches Err(UsageFailure::Unavailable(cause)) && cause@
                == "invalid process creation time"@
        } else if created_as(identity, reading.creation) is Err {
            usage == Err::<ProcessUsage, _>(UsageFailure::IdentityChanged)
        } else if (units(reading.user) + units(reading.kernel)) * 100 > u64::MAX {
            usage matches Err(UsageFailure::Unavailable(cause)) && cause@ == "CPU overflow"@
        } else {
            usage == Ok::<_, UsageFailure>(
                ProcessUsage {
                    identity,
                    native_start: units(reading.creation),
                    sampled_at: reading.sampled_at,
                    cpu_time: Duration {
                        nanos: ((units(reading.user) + units(reading.kernel)) * 100) as u128,
                    },
                    resident_bytes: reading.working_set,
                    physical_footprint_bytes: None,
                    peak_physical_footprint_bytes: None,
                    disk_read_bytes: None,
                    disk_write_bytes: None,
                },
            )
        },
        usage is Ok <==> windows_measured(identity, reading) is Some,
        usage matches Ok(told) ==> windows_measured(identity, reading) == Some(told),
{
    match check_creation(identity, reading.creation) {
        Ok(()) => {},
        Err(failure) => {
            return Err(failure);
        },
    }
    let spent: Option<u64> = match reading.user.ticks().checked_add(reading.kernel.ticks()) {
        Some(total) => total.checked_mul(100),
        None => None,
    };
    match spent {
        None => Err(UsageFailure::Unavailable(String::from_str("CPU overflow"))),
        Some(nanos) => Ok(
            ProcessUsage {
                identity,
                native_start: reading.creation.ticks(),
                sampled_at: reading.sampled_at,
                cpu_time: Duration::from_nanos(nanos),
                resident_bytes: reading.working_set,
                physical_footprint_bytes: None,
                peak_physical_footprint_bytes: None,
                disk_read_bytes: None,
                disk_write_bytes: None,
            },
        ),
    }
}

/// What is kept of a child until its exit is confirmed.
#[derive(Debug, Clone, Copy, PartialEq, Eq, Structural)]
pub struct JobSlot {
    /// The scope the child was spawned in.
    pub scope: ProcessScopeId,
    /// Whether it was told to die.
    pub killed: bool,
    /// Whether a native sample of it is running.
    pub sampling: bool,
    /// Its CPU time at the last sample.
    pub previous: Option<CpuSample>,
}

/// What a [`WindowsJobBackend`] holds.
#[verifier::ext_equal]
pub struct JobView {
    /// The scopes that have a job.
    pub jobs: Set<u64>,
    /// The children whose exit is not confirmed.
    pub children: Map<ChildKey, JobSlot>,
}

impl JobView {
    /// What is held after a child was registered.
    pub open spec fn with_child(self, scope: ProcessScopeId, os: OsIdentity) -> JobView {
        JobView {
            children: self.children.insert(
                crate::platform::children::key_of(os),
                JobSlot { scope, killed: false, sampling: false, previous: None },
            ),
            ..self
        }
    }

    /// What is held after a running child was told to die.
    pub open spec fn told_to_die(self, os: OsIdentity, running: bool) -> JobView {
        let key = crate::platform::children::key_of(os);
        if running && self.children.contains_key(key) {
            JobView {
                children: self.children.insert(
                    key,
                    JobSlot { killed: true, ..self.children[key] },
                ),
                ..self
            }
        } else {
            self
        }
    }

    /// What is held after the wait for a child ended: only a confirmed exit makes it forgotten.
    pub open spec fn waited(self, os: OsIdentity, exit: Result<RawExit, String>) -> JobView {
        if exit is Ok {
            JobView {
                children: self.children.remove(crate::platform::children::key_of(os)),
                ..self
            }
        } else {
            self
        }
    }

    /// What is held while a native sample of a child runs, or after it returned.
    pub open spec fn sampling(self, os: OsIdentity, running: bool) -> JobView {
        let key = crate::platform::children::key_of(os);
        if self.children.contains_key(key) {
            JobView {
                children: self.children.insert(
                    key,
                    JobSlot { sampling: running, ..self.children[key] },
                ),
                ..self
            }
        } else {
            self
        }
    }

    /// What is held after every child of `scope` was told to die.
    pub open spec fn scope_told_to_die(self, scope: ProcessScopeId) -> JobView {
        JobView { children: marked(self.children, |of: ProcessScopeId| of == scope), ..self }
    }

    /// What is held after every child was told to die.
    pub open spec fn all_told_to_die(self) -> JobView {
        JobView { children: marked(self.children, |of: ProcessScopeId| true), ..self }
    }
}

/// The children with those that `pass` marked as told to die.
pub open spec fn marked(
    children: Map<ChildKey, JobSlot>,
    pass: spec_fn(ProcessScopeId) -> bool,
) -> Map<ChildKey, JobSlot> {
    children.map_values(
        |slot: JobSlot|
            if pass(slot.scope) {
                JobSlot { killed: true, ..slot }
            } else {
                slot
            },
    )
}

/// What the counters of a process say.
#[derive(Debug, Clone, Copy, PartialEq, Eq, Structural)]
pub struct JobSample {
    /// CPU time, in clock units.
    pub ticks: u64,
    /// When it was read.
    pub taken_at: Instant,
    /// Resident memory, in bytes.
    pub working_set: u64,
    /// Peak resident memory, in bytes.
    pub peak_working_set: u64,
    /// Bytes read.
    pub read: u64,
    /// Bytes written.
    pub written: u64,
}

/// The sample that the counters of a child make, given what was held before; or why there is none.
pub open spec fn job_sampled(state: JobView, os: OsIdentity, sample: JobSample) -> Result<
    RawStats,
    Seq<char>,
> {
    let key = crate::platform::children::key_of(os);
    if !state.children.contains_key(key) {
        Err("process reaped during sample"@)
    } else {
        Ok(
            RawStats {
                cpu_usage: crate::platform::unix::sampling::cpu_since(
                    state.children[key].previous,
                    CpuSample { taken_at: sample.taken_at, ticks: sample.ticks },
                    UNITS_PER_SECOND,
                ),
                memory_rss_bytes: sample.working_set,
                virtual_memory_bytes: None,
                peak_rss_bytes: Some(sample.peak_working_set),
                io_read_bytes: Some(sample.read),
                io_write_bytes: Some(sample.written),
                descendant_count: None,
                state: ProcessState::Unknown,
            },
        )
    }
}

/// What is held after a sample: the CPU time of a registered child is remembered.
pub open spec fn job_remembered(state: JobView, os: OsIdentity, sample: JobSample) -> JobView {
    let key = crate::platform::children::key_of(os);
    if !state.children.contains_key(key) {
        state
    } else {
        JobView {
            children: state.children.insert(
                key,
                JobSlot {
                    previous: Some(CpuSample { taken_at: sample.taken_at, ticks: sample.ticks }),
                    ..state.children[key]
                },
            ),
            ..state
        }
    }
}

/// What a forceful signal to a scope still asks for.
#[derive(Debug)]
pub struct JobKill {
    /// Whether there is a job to terminate.
    pub terminate: bool,
    /// The children to be waited for again, in case a wait failed.
    pub wake: Vec<ChildKey>,
}

/// The state of a Windows backend.
#[derive(Debug)]
pub struct WindowsJobBackend {
    jobs: Table<()>,
    children: Children<JobSlot>,
}

impl View for WindowsJobBackend {
    type V = JobView;

    closed spec fn view(&self) -> JobView {
        JobView { jobs: self.jobs@.dom(), children: self.children@ }
    }
}

impl WindowsJobBackend {
    /// A backend without jobs.
    #[must_use]
    pub fn new() -> (state: Self)
        ensures
            state@ == (JobView { jobs: Set::empty(), children: Map::empty() }),
    {
        let state = WindowsJobBackend { jobs: Table::new(), children: Children::new() };
        assert(state@.jobs =~= Set::empty());
        state
    }

    /// Whether a job has to be created for `scope`.
    #[must_use]
    pub fn needs_job(&self, scope: ProcessScopeId) -> (needed: bool)
        ensures
            needed == !self@.jobs.contains(scope.0),
    {
        !self.jobs.contains(scope.0)
    }

    /// Takes note of a new job. It stays, whatever becomes of the child it was created for.
    pub fn job_created(&mut self, scope: ProcessScopeId)
        ensures
            final(self)@ == (JobView { jobs: old(self)@.jobs.insert(scope.0), ..old(self)@ }),
    {
        let _ = self.jobs.insert(scope.0, ());
        assert(self@.jobs =~= old(self)@.jobs.insert(scope.0));
    }

    /// Takes note of a running child.
    pub fn register(&mut self, scope: ProcessScopeId, os: OsIdentity)
        ensures
            final(self)@ == (JobView {
                children: old(self)@.children.insert(
                    crate::platform::children::key_of(os),
                    JobSlot { scope, killed: false, sampling: false, previous: None },
                ),
                ..old(self)@
            }),
            final(self)@ == old(self)@.with_child(scope, os),
    {
        let _ = self.children.insert(
            child_key(&os),
            JobSlot { scope, killed: false, sampling: false, previous: None },
        );
    }

    /// Whether `target` was told to die.
    #[must_use]
    pub fn is_killed(&self, target: &Spawned) -> (killed: bool)
        ensures
            killed == (self@.children.contains_key(
                crate::platform::children::key_of(target.os),
            ) && self@.children[crate::platform::children::key_of(target.os)].killed),
    {
        match self.children.get(child_key(&target.os)) {
            Some(slot) => slot.killed,
            None => false,
        }
    }

    /// Whether `signal` is to be sent to `target`.
    ///
    /// # Errors
    /// Returns [`TerminateError::Signal`] for anything but a forceful signal.
    pub fn signal_plan(&self, target: &Spawned, signal: Signal) -> (send: Result<
        bool,
        TerminateError,
    >)
        ensures
            if signal !is Kill {
                send matches Err(TerminateError::Signal(told)) && told@
                    == "Windows has no general graceful process signal"@
            } else {
                send == Ok::<_, TerminateError>(
                    self@.children.contains_key(crate::platform::children::key_of(target.os)),
                )
            },
    {
        if signal != Signal::Kill {
            return Err(
                TerminateError::Signal(
                    String::from_str("Windows has no general graceful process signal"),
                ),
            );
        }
        Ok(self.children.contains(child_key(&target.os)))
    }

    /// Takes note of whether `target` still runs, and marks it as told to die if it does. Whether
    /// it is to be terminated.
    pub fn kill_running(&mut self, target: &Spawned, running: bool) -> (terminate: bool)
        ensures
            ({
                let key = crate::platform::children::key_of(target.os);
                &&& terminate == (running && old(self)@.children.contains_key(key))
                &&& final(self)@ == (if terminate {
                    JobView {
                        children: old(self)@.children.insert(
                            key,
                            JobSlot { killed: true, ..old(self)@.children[key] },
                        ),
                        ..old(self)@
                    }
                } else {
                    old(self)@
                })
            }),
            final(self)@ == old(self)@.told_to_die(target.os, running),
    {
        if !running {
            return false;
        }
        let key = child_key(&target.os);
        let slot = match self.children.get(key) {
            Some(slot) => *slot,
            None => {
                return false;
            },
        };
        let _ = self.children.insert(
            key,
            JobSlot {
                scope: slot.scope,
                killed: true,
                sampling: slot.sampling,
                previous: slot.previous,
            },
        );
        true
    }

    fn mark_killed(&mut self, scope: Option<ProcessScopeId>) -> (wake: Vec<ChildKey>)
        ensures
            final(self)@ == (JobView {
                children: marked(
                    old(self)@.children,
                    |of: ProcessScopeId| scope matches Some(only) ==> of == only,
                ),
                ..old(self)@
            }),
            wake@.no_duplicates(),
            forall|key: ChildKey| #[trigger]
                wake@.contains(key) <==> old(self)@.children.contains_key(key) && (
                scope matches Some(only) ==> old(self)@.children[key].scope == only),
    {
        let ghost before = self@;
        let ghost pass = |of: ProcessScopeId| scope matches Some(only) ==> of == only;
        let keys: Vec<ChildKey> = self.children.keys();
        let mut wake: Vec<ChildKey> = Vec::new();
        let mut i: usize = 0;
        assert(keys@.take(0) =~= Seq::empty());
        while i < keys.len()
            invariant
                i <= keys@.len(),
                keys@.no_duplicates(),
                pass == (|of: ProcessScopeId| scope matches Some(only) ==> of == only),
                forall|key: ChildKey| #[trigger]
                    keys@.contains(key) <==> before.children.contains_key(key),
                self@.jobs == before.jobs,
                self@.children.dom() == before.children.dom(),
                forall|k: int|
                    #![trigger keys@[k]]
                    0 <= k < i ==> self@.children[keys@[k]] == marked(
                        before.children,
                        pass,
                    )[keys@[k]],
                forall|k: int|
                    #![trigger keys@[k]]
                    i <= k < keys@.len() ==> self@.children[keys@[k]] == before.children[keys@[k]],
                wake@.no_duplicates(),
                forall|key: ChildKey| #[trigger]
                    wake@.contains(key) ==> before.children.contains_key(key) && pass(
                        before.children[key].scope,
                    ) && exists|k: int| 0 <= k < i && #[trigger] keys@[k] == key,
                forall|k: int|
                    #![trigger keys@[k]]
                    0 <= k < i && pass(before.children[keys@[k]].scope) ==> wake@.contains(
                        keys@[k],
                    ),
            decreases keys@.len() - i,
        {
            let key: ChildKey = keys[i];
            assert(keys@.contains(key));
            let slot = match self.children.get(key) {
                Some(slot) => Some(*slot),
                None => None,
            };
            if let Some(slot) = slot {
                let wanted = match scope {
                    Some(only) => slot.scope == only,
                    None => true,
                };
                if wanted {
                    let ghost earlier = wake@;
                    let _ = self.children.insert(
                        key,
                        JobSlot {
                            scope: slot.scope,
                            killed: true,
                            sampling: slot.sampling,
                            previous: slot.previous,
                        },
                    );
                    wake.push(key);
                    proof {
                        assert(self@.children.dom() =~= before.children.dom());
                        if earlier.contains(key) {
                            let k = choose|k: int| 0 <= k < i && #[trigger] keys@[k] == key;
                            assert(keys@[k] == keys@[i as int]);
                        }
                        crate::domain::table::lemma_pushed(earlier, key);
                        assert(keys@[i as int] == key);
                    }
                }
            }
            i = i + 1;
        }
        proof {
            assert forall|key: ChildKey| before.children.contains_key(key) implies #[trigger]
            self@.children[key] == marked(before.children, pass)[key] by {
                assert(keys@.contains(key));
                let k = keys@.index_of(key);
                assert(keys@[k] == key);
            }
            assert(self@.children =~= marked(before.children, pass));
            assert forall|key: ChildKey|
                before.children.contains_key(key) && pass(
                    before.children[key].scope,
                ) implies #[trigger] wake@.contains(key) by {
                assert(keys@.contains(key));
                let k = keys@.index_of(key);
                assert(keys@[k] == key);
            }
        }
        wake
    }

    /// Marks the children of `scope` as told to die. What is to be done about them: its job is
    /// terminated, if there is one, and each of them is waited for again.
    ///
    /// # Errors
    /// Returns [`TerminateError::Signal`] for anything but a forceful signal.
    pub fn signal_scope(&mut self, scope: ProcessScopeId, signal: Signal) -> (kill: Result<
        JobKill,
        TerminateError,
    >)
        ensures
            match kill {
                Ok(asked) => {
                    &&& signal is Kill
                    &&& asked.terminate == old(self)@.jobs.contains(scope.0)
                    &&& asked.wake@.no_duplicates()
                    &&& forall|key: ChildKey| #[trigger]
                        asked.wake@.contains(key) <==> old(self)@.children.contains_key(key)
                            && old(self)@.children[key].scope == scope
                    &&& final(self)@ == (JobView {
                        children: marked(
                            old(self)@.children,
                            |of: ProcessScopeId| of == scope,
                        ),
                        ..old(self)@
                    })
                },
                Err(TerminateError::Signal(told)) => {
                    &&& signal !is Kill
                    &&& told@ == "Job Objects support force termination only"@
                    &&& final(self)@ == old(self)@
                },
                Err(_) => false,
            },
            kill is Ok ==> final(self)@ == old(self)@.scope_told_to_die(scope),
    {
        if signal != Signal::Kill {
            return Err(
                TerminateError::Signal(
                    String::from_str("Job Objects support force termination only"),
                ),
            );
        }
        let terminate = self.jobs.contains(scope.0);
        let wake: Vec<ChildKey> = self.mark_killed(Some(scope));
        assert(self@.children =~= marked(
            old(self)@.children,
            |of: ProcessScopeId| of == scope,
        ));
        Ok(JobKill { terminate, wake })
    }

    /// Marks every child as told to die. The jobs to terminate, and the children to wait for
    /// again.
    pub fn hard_kill_all(&mut self) -> (asked: (Vec<u64>, Vec<ChildKey>))
        ensures
            crate::domain::table::lists(asked.0@, old(self)@.jobs),
            asked.1@.no_duplicates(),
            forall|key: ChildKey| #[trigger]
                asked.1@.contains(key) <==> old(self)@.children.contains_key(key),
            final(self)@.jobs == old(self)@.jobs,
            final(self)@.children.dom() == old(self)@.children.dom(),
            forall|key: ChildKey| #[trigger]
                old(self)@.children.contains_key(key) ==> final(self)@.children[key] == (JobSlot {
                    killed: true,
                    ..old(self)@.children[key]
                }),
            final(self)@ =~= old(self)@.all_told_to_die(),
    {
        let jobs: Vec<u64> = self.jobs.keys();
        let wake: Vec<ChildKey> = self.mark_killed(None);
        assert(self@.children.dom() =~= old(self)@.children.dom());
        (jobs, wake)
    }

    /// What a look at the job of `scope` shows, given how many processes run in it.
    #[must_use]
    pub fn job_state(&self, scope: ProcessScopeId, active: u32) -> (state: ContainerState)
        ensures
            state == (if !self@.jobs.contains(scope.0) {
                ContainerState::Gone
            } else if active == 0 {
                ContainerState::Empty
            } else {
                ContainerState::Busy
            }),
    {
        if !self.jobs.contains(scope.0) {
            ContainerState::Gone
        } else if active == 0 {
            ContainerState::Empty
        } else {
            ContainerState::Busy
        }
    }

    /// Forgets the job of a scope that was seen empty.
    pub fn job_removed(&mut self, scope: ProcessScopeId)
        ensures
            final(self)@ == (JobView { jobs: old(self)@.jobs.remove(scope.0), ..old(self)@ }),
    {
        let _ = self.jobs.remove(scope.0);
        assert(self@.jobs =~= old(self)@.jobs.remove(scope.0));
    }

    /// Whether `target` can be waited for.
    ///
    /// # Errors
    /// Returns [`WaitError::Backend`] if no such child is registered.
    pub fn wait_target(&self, target: &Spawned) -> (known: Result<(), WaitError>)
        ensures
            match known {
                Ok(_) => self@.children.contains_key(
                    crate::platform::children::key_of(target.os),
                ),
                Err(WaitError::Backend(told)) => {
                    &&& !self@.children.contains_key(
                        crate::platform::children::key_of(target.os),
                    )
                    &&& told@ == "unknown process handle"@
                },
                Err(_) => false,
            },
    {
        if self.children.contains(child_key(&target.os)) {
            Ok(())
        } else {
            Err(WaitError::Backend(String::from_str("unknown process handle")))
        }
    }

    /// Collects how the wait for `target` ended. A child is only forgotten once its exit is
    /// confirmed.
    ///
    /// # Errors
    /// Returns [`WaitError::Backend`] if the wait failed.
    pub fn finish_wait(&mut self, target: &Spawned, exit: Result<RawExit, String>) -> (
        collected: Result<RawExit, WaitError>)
        ensures
            collected == (match exit {
                Ok(raw) => Ok(raw),
                Err(cause) => Err(WaitError::Backend(cause)),
            }),
            final(self)@ == (if exit is Ok {
                JobView {
                    children: old(self)@.children.remove(
                        crate::platform::children::key_of(target.os),
                    ),
                    ..old(self)@
                }
            } else {
                old(self)@
            }),
            final(self)@ == old(self)@.waited(target.os, exit),
    {
        match exit {
            Ok(raw) => {
                let _ = self.children.remove(child_key(&target.os));
                Ok(raw)
            },
            Err(cause) => Err(WaitError::Backend(cause)),
        }
    }

    /// Admits a native sample of `target`: at most one runs per child.
    ///
    /// # Errors
    /// Returns [`StatsError::Backend`] if the child was reaped, or if an earlier sample of it is
    /// still running.
    pub fn begin_sample(&mut self, target: &Spawned) -> (admitted: Result<(), StatsError>)
        ensures
            ({
                let key = crate::platform::children::key_of(target.os);
                if !old(self)@.children.contains_key(key) {
                    &&& admitted matches Err(StatsError::Backend(told))
                    &&& told@ == "process reaped"@
                    &&& final(self)@ == old(self)@
                } else if old(self)@.children[key].sampling {
                    &&& admitted matches Err(StatsError::Backend(told))
                    &&& told@ == "previous native sample still running"@
                    &&& final(self)@ == old(self)@
                } else {
                    &&& admitted is Ok
                    &&& final(self)@ == (JobView {
                        children: old(self)@.children.insert(
                            key,
                            JobSlot { sampling: true, ..old(self)@.children[key] },
                        ),
                        ..old(self)@
                    })
                }
            }),
            admitted is Ok ==> final(self)@ == old(self)@.sampling(target.os, true),
    {
        let key = child_key(&target.os);
        let slot = match self.children.get(key) {
            None => {
                return Err(StatsError::Backend(String::from_str("process reaped")));
            },
            Some(slot) => *slot,
        };
        if slot.sampling {
            return Err(
                StatsError::Backend(String::from_str("previous native sample still running")),
            );
        }
        let _ = self.children.insert(
            key,
            JobSlot {
                scope: slot.scope,
                killed: slot.killed,
                sampling: true,
                previous: slot.previous,
            },
        );
        Ok(())
    }

    /// Takes note that the native sample of `target` has returned.
    pub fn end_sample(&mut self, target: &Spawned)
        ensures
            ({
                let key = crate::platform::children::key_of(target.os);
                final(self)@ == (if old(self)@.children.contains_key(key) {
                    JobView {
                        children: old(self)@.children.insert(
                            key,
                            JobSlot { sampling: false, ..old(self)@.children[key] },
                        ),
                        ..old(self)@
                    }
                } else {
                    old(self)@
                })
            }),
            final(self)@ == old(self)@.sampling(target.os, false),
    {
        let key = child_key(&target.os);
        let known = match self.children.get(key) {
            Some(slot) => Some(*slot),
            None => None,
        };
        if let Some(slot) = known {
            let _ = self.children.insert(
                key,
                JobSlot {
                    scope: slot.scope,
                    killed: slot.killed,
                    sampling: false,
                    previous: slot.previous,
                },
            );
        }
    }

    /// Makes a sample of a child out of its counters, and remembers its CPU time.
    ///
    /// # Errors
    /// Returns [`StatsError::Backend`] if the child was reaped meanwhile.
    pub fn sample_sync(&mut self, target: &Spawned, sample: JobSample) -> (stats: Result<
        RawStats,
        StatsError,
    >)
        ensures
            ({
                let key = crate::platform::children::key_of(target.os);
                let now = CpuSample { taken_at: sample.taken_at, ticks: sample.ticks };
                if !old(self)@.children.contains_key(key) {
                    &&& stats matches Err(StatsError::Backend(told))
                    &&& told@ == "process reaped during sample"@
                    &&& final(self)@ == old(self)@
                } else {
                    &&& stats == Ok::<_, StatsError>(
                        RawStats {
                            cpu_usage: crate::platform::unix::sampling::cpu_since(
                                old(self)@.children[key].previous,
                                now,
                                UNITS_PER_SECOND,
                            ),
                            memory_rss_bytes: sample.working_set,
                            virtual_memory_bytes: None,
                            peak_rss_bytes: Some(sample.peak_working_set),
                            io_read_bytes: Some(sample.read),
                            io_write_bytes: Some(sample.written),
                            descendant_count: None,
                            state: ProcessState::Unknown,
                        },
                    )
                    &&& final(self)@ == (JobView {
                        children: old(self)@.children.insert(
                            key,
                            JobSlot { previous: Some(now), ..old(self)@.children[key] },
                        ),
                        ..old(self)@
                    })
                }
            }),
            crate::platform::unix::sampling::backend_result(
                stats,
                job_sampled(old(self)@, target.os, sample),
            ),
            final(self)@ == job_remembered(old(self)@, target.os, sample),
    {
        let key = child_key(&target.os);
        let slot = match self.children.get(key) {
            None => {
                return Err(
                    StatsError::Backend(String::from_str("process reaped during sample")),
                );
            },
            Some(slot) => *slot,
        };
        let now = CpuSample { taken_at: sample.taken_at, ticks: sample.ticks };
        let cpu_usage: Option<CpuUsage> = crate::platform::unix::sampling::used_since(
            slot.previous,
            now,
            UNITS_PER_SECOND,
        );
        let _ = self.children.insert(
            key,
            JobSlot {
                scope: slot.scope,
                killed: slot.killed,
                sampling: slot.sampling,
                previous: Some(now),
            },
        );
        Ok(
            RawStats {
                cpu_usage,
                memory_rss_bytes: sample.working_set,
                virtual_memory_bytes: None,
                peak_rss_bytes: Some(sample.peak_working_set),
                io_read_bytes: Some(sample.read),
                io_write_bytes: Some(sample.written),
                descendant_count: None,
                state: ProcessState::Unknown,
            },
        )
    }

    /// What the backend can do.
    #[must_use]
    pub fn capabilities(&self) -> (able: Capabilities)
        ensures
            able == (Capabilities {
                descendant_containment: Containment::JobObject,
                cpu: Support::Supported,
                rss: Support::Supported,
                peak_rss: Support::Supported,
                io: Support::Supported,
                force_termination: true,
            }),
    {
        Capabilities {
            descendant_containment: Containment::JobObject,
            cpu: Support::Supported,
            rss: Support::Supported,
            peak_rss: Support::Supported,
            io: Support::Supported,
            force_termination: true,
        }
    }
}

} // verus!
