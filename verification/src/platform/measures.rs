//! What samples measure: the distance from one to the next.
use vstd::prelude::*;
use crate::domain::os::OsIdentity;
use crate::domain::stats::{CpuUsage, RawStats};
use crate::domain::time::Instant;
use crate::platform::unix::sampling::{LinuxSample, MacSample};
use crate::platform::unix::UnixView;
use crate::platform::windows::{FileTime, JobSample, JobSlot, JobView, SetupStep};

verus! {

/// `used` spans the time from `first` to `second` and the work from `before` to `after`.
pub open spec fn spans(
    used: Option<CpuUsage>,
    first: Instant,
    before: u64,
    second: Instant,
    after: u64,
) -> bool {
    &&& used is Some
    &&& first.nanos < second.nanos ==> first.nanos + used->0.elapsed.nanos == second.nanos
    &&& first.nanos >= second.nanos ==> used->0.elapsed.nanos == 1
    &&& before <= after ==> before + used->0.work == after
    &&& before > after ==> used->0.work == 0
}

/// The second sample of a Unix child tells the CPU time and the time that passed since the first
/// one, in clock ticks of the rate it was read at.
pub proof fn samples_of_a_child_tell_what_lies_between(
    state: UnixView,
    os: OsIdentity,
    earlier: RawStats,
    before: u64,
    first: Instant,
    later: RawStats,
    after: u64,
    second: Instant,
    rate: int,
    start_after: Option<u64>,
)
    requires
        state.children.contains_key(crate::platform::children::key_of(os)),
        0 < rate <= u64::MAX,
        crate::platform::children::still_matches(os, start_after),
    ensures
        ({
            let between = crate::platform::unix::sampling::remembered(
                state,
                os,
                Ok((earlier, before)),
                first,
            );
            let answer = crate::platform::unix::sampling::sampled(
                between,
                os,
                Ok((later, after)),
                second,
                rate,
                start_after,
            );
            &&& answer is Ok
            &&& spans(answer->Ok_0.cpu_usage, first, before, second, after)
            &&& answer->Ok_0.cpu_usage->0.units_per_second == rate
        }),
{
}

/// The first sample of a Unix child has nothing to compare with; and of every sample all but the
/// CPU usage is as it was read.
pub proof fn samples_tell_what_was_read(
    state: UnixView,
    os: OsIdentity,
    raw: RawStats,
    ticks: u64,
    taken_at: Instant,
    rate: int,
    start_after: Option<u64>,
)
    ensures
        ({
            let key = crate::platform::children::key_of(os);
            let answer = crate::platform::unix::sampling::sampled(
                state,
                os,
                Ok((raw, ticks)),
                taken_at,
                rate,
                start_after,
            );
            &&& answer is Ok <==> {
                &&& state.children.contains_key(key)
                &&& rate > 0
                &&& crate::platform::children::still_matches(os, start_after)
            }
            &&& answer is Ok ==> {
                let told = answer->Ok_0;
                &&& told.cpu_usage is None <==> !state.samples.contains_key(key)
                &&& told.memory_rss_bytes == raw.memory_rss_bytes
                &&& told.virtual_memory_bytes == raw.virtual_memory_bytes
                &&& told.peak_rss_bytes == raw.peak_rss_bytes
                &&& told.io_read_bytes == raw.io_read_bytes
                &&& told.io_write_bytes == raw.io_write_bytes
                &&& told.descendant_count == raw.descendant_count
                &&& told.state == raw.state
            }
        }),
        forall|cause: Seq<char>|
            #[trigger] crate::platform::unix::sampling::sampled(
                state,
                os,
                Err(cause),
                taken_at,
                rate,
                start_after,
            ) == Err::<RawStats, _>(cause),
{
}

/// A sample is remembered for its own child only, and only once its CPU time was read.
pub proof fn a_sample_is_remembered_for_its_child(
    state: UnixView,
    os: OsIdentity,
    raw: RawStats,
    ticks: u64,
    taken_at: Instant,
    cause: Seq<char>,
    other: OsIdentity,
)
    requires
        crate::platform::children::key_of(other) != crate::platform::children::key_of(os),
    ensures
        ({
            let key = crate::platform::children::key_of(os);
            let beside = crate::platform::children::key_of(other);
            let after = crate::platform::unix::sampling::remembered(
                state,
                os,
                Ok((raw, ticks)),
                taken_at,
            );
            &&& state.children.contains_key(key) ==> {
                &&& after.samples.contains_key(key)
                &&& after.samples[key].ticks == ticks
                &&& after.samples[key].taken_at == taken_at
            }
            &&& !state.children.contains_key(key) ==> after == state
            &&& after.samples.contains_key(beside) <==> state.samples.contains_key(beside)
            &&& state.samples.contains_key(beside) ==> after.samples[beside]
                == state.samples[beside]
            &&& after.children == state.children
            &&& after.groups == state.groups
            &&& after.anchors == state.anchors
            &&& after.cgroups == state.cgroups
        }),
        crate::platform::unix::sampling::remembered(state, os, Err(cause), taken_at) == state,
{
}

/// A child without a start time of its own is never sampled, and neither is one whose PID has
/// another start time by now; whatever its files say.
pub proof fn only_the_child_itself_is_sampled(
    os: OsIdentity,
    linux: LinuxSample,
    mac: MacSample,
)
    ensures
        crate::platform::unix::sampling::linux_reading(os, linux) is Ok ==> {
            &&& os.reuse_token is StartTime
            &&& linux.start == Some(os.reuse_token->StartTime_0)
            &&& linux.status is Ok && linux.io is Ok && linux.stat is Ok
        },
        crate::platform::unix::sampling::mac_reading(os, mac) is Ok ==> {
            &&& os.reuse_token is StartTime
            &&& mac.start == Some(os.reuse_token->StartTime_0)
            &&& mac.task is Ok
        },
        os.reuse_token is StartTime && mac.start == Some(os.reuse_token->StartTime_0)
            && mac.task is Ok && mac.timebase is Some && (mac.timebase->0).1 != 0
            ==> crate::platform::unix::sampling::mac_reading(os, mac) is Ok,
        os.reuse_token is StartTime && linux.start == Some(os.reuse_token->StartTime_0)
            && linux.status is Ok && linux.io is Ok && linux.stat is Ok
            && crate::platform::procfs::sample_of(linux.status->Ok_0@, linux.io->Ok_0@) is Some
            && crate::platform::procfs::cpu_ticks(linux.stat->Ok_0@) is Some ==> {
            &&& crate::platform::unix::sampling::linux_reading(os, linux) is Ok
            &&& crate::platform::unix::sampling::linux_reading(os, linux)->Ok_0.0
                == crate::platform::procfs::sample_of(
                linux.status->Ok_0@,
                linux.io->Ok_0@,
            )->0
            &&& crate::platform::unix::sampling::linux_reading(os, linux)->Ok_0.1
                == crate::platform::procfs::cpu_ticks(linux.stat->Ok_0@)->0
        },
{
}

/// The memory of a macOS child is that of its task, and its CPU time that of its task in
/// nanoseconds, rounded down: user and system time together, in Mach time units.
pub proof fn mac_samples_tell_the_task(os: OsIdentity, mac: MacSample)
    requires
        crate::platform::unix::sampling::mac_reading(os, mac) is Ok,
    ensures
        ({
            let (raw, nanos) = crate::platform::unix::sampling::mac_reading(os, mac)->Ok_0;
            let task = mac.task->Ok_0;
            let numer = (mac.timebase->0).0;
            let denom = (mac.timebase->0).1;
            &&& denom > 0
            &&& raw.memory_rss_bytes == task.resident
            &&& raw.virtual_memory_bytes == Some(task.mapped)
            &&& nanos < u64::MAX ==> nanos * denom <= (task.user + task.system) * numer < (nanos
                + 1) * denom
            &&& nanos == u64::MAX ==> u64::MAX * denom <= (task.user + task.system) * numer
        }),
{
    let task = mac.task->Ok_0;
    let numer = (mac.timebase->0).0;
    let denom = (mac.timebase->0).1;
    let spent = (task.user + task.system) * numer;
    let exact = spent / (denom as int);
    assert(exact * denom <= spent < (exact + 1) * denom) by (nonlinear_arith)
        requires
            exact == spent / (denom as int),
            denom > 0,
    ;
    if exact > u64::MAX {
        assert(u64::MAX * denom <= exact * denom) by (nonlinear_arith)
            requires
                exact > u64::MAX,
                denom > 0,
        ;
    }
    assert(exact >= 0) by (nonlinear_arith)
        requires
            exact == (task.user + task.system) * numer / (denom as int),
            denom > 0,
    ;
}

/// The second sample of a Windows child tells the CPU time and the time that passed since the
/// first one, in units of 100 nanoseconds; its memory and its traffic are as they were counted.
pub proof fn samples_of_a_job_child_tell_what_lies_between(
    state: JobView,
    os: OsIdentity,
    earlier: JobSample,
    later: JobSample,
)
    requires
        state.children.contains_key(crate::platform::children::key_of(os)),
    ensures
        ({
            let between = crate::platform::windows::job_remembered(state, os, earlier);
            let answer = crate::platform::windows::job_sampled(between, os, later);
            &&& answer is Ok
            &&& spans(
                answer->Ok_0.cpu_usage,
                earlier.taken_at,
                earlier.ticks,
                later.taken_at,
                later.ticks,
            )
            &&& answer->Ok_0.cpu_usage->0.units_per_second * 100 == 1_000_000_000
            &&& answer->Ok_0.memory_rss_bytes == later.working_set
            &&& answer->Ok_0.peak_rss_bytes == Some(later.peak_working_set)
            &&& answer->Ok_0.io_read_bytes == Some(later.read)
            &&& answer->Ok_0.io_write_bytes == Some(later.written)
        }),
{
}

/// A sample of a Windows child needs a registered child, and changes nothing but what is
/// remembered of it.
pub proof fn a_job_sample_is_remembered_for_its_child(
    state: JobView,
    os: OsIdentity,
    sample: JobSample,
    other: OsIdentity,
)
    requires
        crate::platform::children::key_of(other) != crate::platform::children::key_of(os),
    ensures
        ({
            let key = crate::platform::children::key_of(os);
            let beside = crate::platform::children::key_of(other);
            let after = crate::platform::windows::job_remembered(state, os, sample);
            &&& crate::platform::windows::job_sampled(state, os, sample) is Ok
                <==> state.children.contains_key(key)
            &&& state.children.contains_key(key) && state.children[key].previous is None
                ==> crate::platform::windows::job_sampled(
                state,
                os,
                sample,
            )->Ok_0.cpu_usage is None
            &&& after.jobs == state.jobs
            &&& after.children.dom() == state.children.dom()
            &&& state.children.contains_key(beside) ==> after.children[beside]
                == state.children[beside]
            &&& state.children.contains_key(key) ==> {
                &&& after.children[key].scope == state.children[key].scope
                &&& after.children[key].killed == state.children[key].killed
                &&& after.children[key].sampling == state.children[key].sampling
            }
        }),
{
    let key = crate::platform::children::key_of(os);
    assert(crate::platform::windows::job_remembered(state, os, sample).children.dom()
        =~= state.children.dom());
}

/// A child is known by its PID and its start time together; a missing start time counts as zero.
pub proof fn children_are_told_apart(one: OsIdentity, other: OsIdentity)
    ensures
        one.pid != other.pid ==> crate::platform::children::key_of(one)
            != crate::platform::children::key_of(other),
        one.reuse_token is StartTime && other.reuse_token is StartTime && one.reuse_token
            != other.reuse_token ==> crate::platform::children::key_of(one)
            != crate::platform::children::key_of(other),
        one == other ==> crate::platform::children::key_of(one)
            == crate::platform::children::key_of(other),
        crate::platform::children::key_of(one).pid == one.pid,
        one.reuse_token is StartTime ==> crate::platform::children::key_of(one).token
            == one.reuse_token->StartTime_0,
        one.reuse_token is Unavailable ==> crate::platform::children::key_of(one).token == 0,
{
}

/// A child with a start time is itself as long as exactly that start time is read of its PID. One
/// without is taken for itself.
pub proof fn a_start_time_tells_a_child(os: OsIdentity, start: Option<u64>)
    ensures
        os.reuse_token is Unavailable ==> crate::platform::children::still_matches(os, start),
        os.reuse_token is StartTime ==> (crate::platform::children::still_matches(os, start) <==> (
        start is Some && start->0 == os.reuse_token->StartTime_0)),
{
}

/// The two halves of a native time can be read back out of its one number.
pub proof fn a_native_time_is_made_of_its_halves(time: FileTime)
    ensures
        crate::platform::windows::units(time) / 0x1_0000_0000 == time.high,
        crate::platform::windows::units(time) % 0x1_0000_0000 == time.low,
{
}

/// A process counts as created when `identity` says if its creation, counted in whole seconds from
/// the native epoch, lies as many seconds behind the Unix epoch.
pub proof fn creation_decides_who_a_process_is(
    identity: crate::observation::snapshot::ObservedProcessIdentity,
    creation: FileTime,
    seconds: u64,
)
    requires
        identity.start_time_unix_seconds == Some(seconds),
    ensures
        crate::platform::windows::created_as(identity, creation) is Ok <==> {
            &&& (seconds + 11_644_473_600) * 10_000_000
                <= crate::platform::windows::units(creation)
            &&& crate::platform::windows::units(creation) < (seconds + 11_644_473_600 + 1)
                * 10_000_000
        },
        crate::platform::windows::created_as(
            crate::observation::snapshot::ObservedProcessIdentity {
                start_time_unix_seconds: None,
                ..identity
            },
            creation,
        ) is Ok,
{
}

/// A child is set up in a fixed order: it is assigned to the job of its scope before it runs, and
/// registered when it does.
pub proof fn a_child_runs_only_in_its_job(i: int)
    ensures
        ({
            let order = seq![
                SetupStep::Identify,
                SetupStep::Open,
                SetupStep::ReadTimes,
                SetupStep::EnsureJob,
                SetupStep::Assign,
                SetupStep::Resume,
                SetupStep::Register,
            ];
            &&& 0 <= i < 6 ==> crate::platform::windows::step_after(order[i]) == Some(order[i + 1])
            &&& crate::platform::windows::step_after(order[6]) is None
        }),
{
}

/// Only the children of the chosen scopes are marked, and nothing else of them changes.
pub proof fn marking_keeps_everything_else(
    children: Map<crate::platform::children::ChildKey, JobSlot>,
    pass: spec_fn(crate::domain::ids::ProcessScopeId) -> bool,
    key: crate::platform::children::ChildKey,
)
    ensures
        ({
            let after = crate::platform::windows::marked(children, pass);
            &&& after.contains_key(key) <==> children.contains_key(key)
            &&& children.contains_key(key) ==> {
                &&& after[key].killed <==> children[key].killed || pass(children[key].scope)
                &&& after[key].scope == children[key].scope
                &&& after[key].sampling == children[key].sampling
                &&& after[key].previous == children[key].previous
            }
        }),
{
}

} // verus!
