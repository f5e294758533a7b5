//! What measurements, jobs and in-memory processes come to.
use vstd::prelude::*;
use crate::domain::exit::RawExit;
use crate::domain::ids::ProcessScopeId;
use crate::domain::os::OsIdentity;
use crate::domain::spec::Signal;
use crate::domain::time::Instant;
use crate::observation::snapshot::ObservedProcessIdentity;
use crate::observation::usage::UsageEntry;
use crate::platform::cgroup::GroupFiles;
use crate::platform::children::ChildKey;
use crate::platform::macos::{BsdStart, MacReading, RusageFlavor};
use crate::platform::null::{NullProc, NullView};
use crate::platform::procfs::LinuxReading;
use crate::platform::unix::Root;
use crate::platform::windows::{JobView, RetrySent, WaitPlan, WaitSeen, WindowsReading};

verus! {

/// A Linux measurement is of the process it names, with the counters as they were read. Its CPU
/// time is off by half a nanosecond at most.
pub proof fn linux_measurements_tell_the_reading(
    identity: ObservedProcessIdentity,
    reading: LinuxReading,
    rate: i64,
)
    ensures
        ({
            let told = crate::platform::procfs::linux_measured(identity, reading, rate);
            &&& rate <= 0 || reading.start_after != reading.start ==> told is None
            &&& rate > 0 && reading.start_after == reading.start
                && identity.start_time_unix_seconds is None ==> told is Some
            &&& rate > 0 && reading.start_after == reading.start
                && identity.start_time_unix_seconds is Some ==> (told is Some <==> {
                let passed = identity.start_time_unix_seconds->0 - reading.boot;
                passed >= 0 && passed * rate <= reading.start < (passed + 1) * rate
            })
            &&& told is Some ==> {
                &&& told->0.identity == identity
                &&& told->0.native_start == reading.start
                &&& told->0.sampled_at == reading.sampled_at
                &&& told->0.resident_bytes == reading.resident_bytes
                &&& told->0.physical_footprint_bytes is None
                &&& told->0.peak_physical_footprint_bytes is None
                &&& told->0.disk_read_bytes is None
                &&& told->0.disk_write_bytes is None
                &&& (2 * told->0.cpu_time.nanos - 1) * rate <= 2 * reading.ticks * 1_000_000_000
                    <= (2 * told->0.cpu_time.nanos + 1) * rate
            }
        }),
{
    if rate > 0 {
        if identity.start_time_unix_seconds is Some {
            crate::platform::records::a_process_is_known_by_the_second_it_started(
                identity,
                identity.start_time_unix_seconds->0,
                reading.start,
                reading.boot,
                rate as u64,
            );
        }
        let spent = reading.ticks * 1_000_000_000;
        let below = spent / (rate as int);
        let rest = spent % (rate as int);
        let exact = crate::platform::procfs::nearest(spent, rate as int);
        assert(spent == below * rate + rest && 0 <= rest < rate && 0 <= below <= spent)
            by (nonlinear_arith)
            requires
                below == spent / (rate as int),
                rest == spent % (rate as int),
                rate > 0,
                spent >= 0,
        ;
        assert((2 * exact - 1) * rate <= 2 * spent <= (2 * exact + 1) * rate) by (nonlinear_arith)
            requires
                spent == below * rate + rest,
                0 <= rest < rate,
                exact == below && 2 * rest <= rate || exact == below + 1 && 2 * rest >= rate,
        ;
    }
}

/// A Windows measurement is of a process that was created in the second it names. Its CPU time is
/// user and kernel time together, in steps of 100 nanoseconds.
pub proof fn windows_measurements_tell_the_reading(
    identity: ObservedProcessIdentity,
    reading: WindowsReading,
)
    ensures
        ({
            let told = crate::platform::windows::windows_measured(identity, reading);
            let spent = (crate::platform::windows::units(reading.user)
                + crate::platform::windows::units(reading.kernel)) * 100;
            &&& crate::platform::windows::units(reading.creation) < 11_644_473_600 * 10_000_000
                || spent > u64::MAX ==> told is None
            &&& identity.start_time_unix_seconds is None
                && crate::platform::windows::units(reading.creation) >= 11_644_473_600 * 10_000_000
                && spent <= u64::MAX ==> told is Some
            &&& identity.start_time_unix_seconds is Some && spent <= u64::MAX ==> (told is Some
                <==> {
                let second = identity.start_time_unix_seconds->0 + 11_644_473_600;
                second * 10_000_000 <= crate::platform::windows::units(reading.creation) < (second
                    + 1) * 10_000_000
            })
            &&& told is Some ==> {
                &&& told->0.identity == identity
                &&& told->0.native_start == crate::platform::windows::units(reading.creation)
                &&& told->0.sampled_at == reading.sampled_at
                &&& told->0.resident_bytes == reading.working_set
                &&& told->0.cpu_time.nanos == spent
                &&& told->0.physical_footprint_bytes is None
                &&& told->0.peak_physical_footprint_bytes is None
                &&& told->0.disk_read_bytes is None
                &&& told->0.disk_write_bytes is None
            }
        }),
{
    if identity.start_time_unix_seconds is Some {
        crate::platform::measures::creation_decides_who_a_process_is(
            identity,
            reading.creation,
            identity.start_time_unix_seconds->0,
        );
    }
}

/// A macOS measurement is of a process that started in the second it names and did not change
/// while it was read. Its CPU time is rounded down to a nanosecond; what the record of an older
/// version lacks is not told.
pub proof fn mac_measurements_tell_the_reading(identity: ObservedProcessIdentity, reading: MacReading)
    ensures
        ({
            let told = crate::platform::macos::mac_measured(identity, reading);
            let denom = (reading.timebase->0).1;
            let spent = (reading.counters.user + reading.counters.system) * (
            reading.timebase->0).0;
            &&& told is Some ==> {
                &&& reading.before == reading.after
                &&& identity.start_time_unix_seconds is Some
                    ==> identity.start_time_unix_seconds->0 == reading.before.seconds
                &&& reading.timebase is Some
                &&& denom > 0
                &&& told->0.cpu_time.nanos * denom <= spent < (told->0.cpu_time.nanos + 1) * denom
                &&& told->0.identity == identity
                &&& told->0.native_start == reading.counters.native_start
                &&& told->0.sampled_at == reading.sampled_at
                &&& told->0.resident_bytes == reading.counters.resident
                &&& told->0.physical_footprint_bytes == Some(reading.counters.footprint)
                &&& reading.flavor is V4 ==> told->0.peak_physical_footprint_bytes == Some(
                    reading.counters.peak_footprint,
                )
                &&& !(reading.flavor is V4) ==> told->0.peak_physical_footprint_bytes is None
                &&& reading.flavor is V0 ==> told->0.disk_read_bytes is None
                    && told->0.disk_write_bytes is None
                &&& !(reading.flavor is V0) ==> told->0.disk_read_bytes == Some(
                    reading.counters.disk_read,
                ) && told->0.disk_write_bytes == Some(reading.counters.disk_write)
            }
            &&& reading.before == reading.after && (identity.start_time_unix_seconds is Some
                ==> identity.start_time_unix_seconds->0 == reading.before.seconds)
                && reading.timebase is Some && denom > 0 && spent <= u64::MAX ==> told is Some
        }),
{
    let numer = (reading.timebase->0).0;
    let denom = (reading.timebase->0).1;
    let spent = (reading.counters.user + reading.counters.system) * numer;
    if denom > 0 {
        let exact = spent / (denom as int);
        assert(spent >= 0) by (nonlinear_arith)
            requires
                spent == (reading.counters.user + reading.counters.system) * numer,
        ;
        assert(0 <= exact <= spent && exact * denom <= spent < (exact + 1) * denom)
            by (nonlinear_arith)
            requires
                exact == spent / (denom as int),
                denom > 0,
                spent >= 0,
        ;
    }
}

/// A later start has a larger token, and every start its own, as long as they fit.
pub proof fn start_tokens_keep_the_order(one: BsdStart, other: BsdStart)
    requires
        one.micros < 1_000_000,
        other.micros < 1_000_000,
        other.seconds < 18_446_744_073_709,
        one.seconds < other.seconds || one.seconds == other.seconds && one.micros < other.micros,
    ensures
        crate::platform::macos::token_of(one) < crate::platform::macos::token_of(other),
        crate::platform::macos::token_of(other) / 1_000_000 == other.seconds,
        crate::platform::macos::token_of(other) % 1_000_000 == other.micros,
{
}

/// The members of a group are the valid PIDs but that of its leader, in order.
pub proof fn a_group_is_listed_without_its_leader(earlier: Seq<i32>, pid: i32, pgid: i32)
    ensures
        ({
            let before = crate::platform::macos::members_of(earlier, pgid);
            let after = crate::platform::macos::members_of(earlier.push(pid), pgid);
            &&& pid <= 0 || pid == pgid ==> after == before
            &&& pid > 0 && pid != pgid ==> {
                &&& after.len() == before.len() + 1
                &&& after.drop_last() == before
                &&& after.last().os_pid == pid
                &&& after.last().start_time_unix_seconds is None
            }
        }),
        crate::platform::macos::members_of(Seq::empty(), pgid).len() == 0,
{
    assert(earlier.push(pid).drop_last() =~= earlier);
    let before = crate::platform::macos::members_of(earlier, pgid);
    let after = crate::platform::macos::members_of(earlier.push(pid), pgid);
    if pid > 0 && pid != pgid {
        assert(after.drop_last() =~= before);
    }
}

/// The accounting of a group takes each figure from its own file, the CPU time in microseconds;
/// what a missing file would say stays untold.
pub proof fn groups_are_accounted_file_by_file(files: GroupFiles<'_>, sampled_at: Instant)
    ensures
        ({
            let told = crate::platform::cgroup::accounted(files, sampled_at);
            &&& told.sampled_at == sampled_at
            &&& files.cpu is None ==> told.cpu_time is None
            &&& files.memory is None ==> told.memory_bytes is None
            &&& files.io is None ==> told.io_read_bytes is None && told.io_write_bytes is None
            &&& files.pids is None ==> told.member_count is None
            &&& told.peak_commit_bytes is None
            &&& files.cpu is Some ==> (told.cpu_time is Some
                <==> crate::platform::cgroup::cpu_micros(Some((files.cpu->0)@)) is Some)
            &&& told.cpu_time is Some ==> told.cpu_time->0.nanos
                == crate::platform::cgroup::cpu_micros(Some((files.cpu->0)@))->0 * 1000
            &&& files.memory is Some ==> told.memory_bytes
                == crate::platform::cgroup::single_value(Some((files.memory->0)@))
            &&& files.pids is Some ==> told.member_count == crate::platform::cgroup::single_value(
                Some((files.pids->0)@),
            )
            &&& files.io is Some ==> told.io_read_bytes == crate::platform::cgroup::device_total(
                crate::platform::text::lines((files.io->0)@),
                "rbytes="@,
            )
            &&& files.io is Some ==> told.io_write_bytes == crate::platform::cgroup::device_total(
                crate::platform::text::lines((files.io->0)@),
                "wbytes="@,
            )
        }),
{
}

/// A child of a job ends with the code it left. It counts as killed exactly if it was told to die
/// and left the code that goes with that.
pub proof fn a_job_child_is_killed_only_if_told(code: Option<i32>, killed: bool)
    ensures
        ({
            let exit = crate::platform::windows::exit_of(code, killed);
            &&& exit.code == code
            &&& exit.signal == Some(Signal::Kill) <==> killed && code == Some(-536_870_911i32)
            &&& exit.signal is None <==> !(killed && code == Some(-536_870_911i32))
            &&& !exit.core_dumped
        }),
{
}

/// A failure that was seen is never taken for the result: another wait is awaited, or an exit that
/// was confirmed meanwhile is collected, or nothing comes of it.
pub proof fn a_failed_wait_is_not_collected(seen: WaitSeen, retry: RetrySent, now: WaitSeen)
    ensures
        ({
            let plan = crate::platform::windows::wait_planned(seen, retry, now);
            &&& seen is Failed && retry is Queued <==> plan == Some(WaitPlan::AwaitRetry)
            &&& plan == Some(WaitPlan::Collect) <==> seen !is Failed || retry is Closed
                && now is Exited
            &&& plan is None <==> seen is Failed && retry is Closed && now !is Exited
        }),
{
}

/// A child of a job is kept with its scope until its exit is confirmed, and nothing else changes.
pub proof fn a_job_child_is_kept_until_it_ended(
    view: JobView,
    scope: ProcessScopeId,
    os: OsIdentity,
    exit: Result<RawExit, String>,
    other: ChildKey,
)
    requires
        other != crate::platform::children::key_of(os),
    ensures
        ({
            let key = crate::platform::children::key_of(os);
            let with = view.with_child(scope, os);
            let after = view.waited(os, exit);
            &&& with.children.contains_key(key)
            &&& with.children[key].scope == scope
            &&& !with.children[key].killed
            &&& !with.children[key].sampling
            &&& with.children[key].previous is None
            &&& with.jobs == view.jobs
            &&& with.children.contains_key(other) <==> view.children.contains_key(other)
            &&& view.children.contains_key(other) ==> with.children[other] == view.children[other]
            &&& exit is Err ==> after == view
            &&& exit is Ok ==> !after.children.contains_key(key)
            &&& after.jobs == view.jobs
            &&& after.children.contains_key(other) <==> view.children.contains_key(other)
            &&& view.children.contains_key(other) ==> after.children[other] == view.children[other]
        }),
{
}

/// Only a registered child that runs is told to die, alone; a scope or everything is told to die
/// child by child.
pub proof fn death_reaches_whom_it_is_meant_for(
    view: JobView,
    os: OsIdentity,
    running: bool,
    scope: ProcessScopeId,
    key: ChildKey,
)
    ensures
        ({
            let aimed = crate::platform::children::key_of(os);
            let one = view.told_to_die(os, running);
            let some = view.scope_told_to_die(scope);
            let all = view.all_told_to_die();
            &&& one.jobs == view.jobs && some.jobs == view.jobs && all.jobs == view.jobs
            &&& one.children.contains_key(key) <==> view.children.contains_key(key)
            &&& some.children.contains_key(key) <==> view.children.contains_key(key)
            &&& all.children.contains_key(key) <==> view.children.contains_key(key)
            &&& view.children.contains_key(key) ==> {
                let slot = view.children[key];
                &&& one.children[key].killed <==> slot.killed || running && key == aimed
                &&& some.children[key].killed <==> slot.killed || slot.scope == scope
                &&& all.children[key].killed
                &&& one.children[key].scope == slot.scope
                &&& some.children[key].scope == slot.scope
                &&& all.children[key].scope == slot.scope
                &&& one.children[key].sampling == slot.sampling
                &&& some.children[key].sampling == slot.sampling
                &&& all.children[key].sampling == slot.sampling
                &&& one.children[key].previous == slot.previous
                &&& some.children[key].previous == slot.previous
                &&& all.children[key].previous == slot.previous
            }
        }),
{
}

/// A sample of a job child that begins and returns leaves it as it was.
pub proof fn a_job_sample_is_marked_while_it_runs(view: JobView, os: OsIdentity)
    requires
        view.children.contains_key(crate::platform::children::key_of(os)),
        !view.children[crate::platform::children::key_of(os)].sampling,
    ensures
        view.sampling(os, true).children[crate::platform::children::key_of(os)].sampling,
        view.sampling(os, true).sampling(os, false) == view,
        view.sampling(os, true).jobs == view.jobs,
{
    assert(view.sampling(os, true).sampling(os, false).children =~= view.children);
}

/// An in-memory process starts under a PID that nothing had before, and lives until it is told to
/// end, unless its program says otherwise.
pub proof fn an_in_memory_process_starts_fresh(view: NullView, scope: ProcessScopeId, program: Seq<u8>)
    requires
        view.wf(),
        view.last_pid < u32::MAX,
    ensures
        ({
            let after = view.with_process(scope, program);
            let pid = (view.last_pid + 1) as u64;
            &&& !view.procs.contains_key(pid)
            &&& after.last_pid == pid
            &&& after.procs.remove(pid) == view.procs
            &&& after.procs.contains_key(pid)
            &&& after.procs[pid].scope == scope
            &&& after.procs[pid].exit is Some <==> program == vstd::utf8::encode_utf8(
                "exit-immediately"@,
            )
            &&& after.procs[pid].ignores_graceful <==> program == vstd::utf8::encode_utf8(
                "ignore-graceful"@,
            )
            &&& after.procs[pid].exit is Some ==> after.procs[pid].exit->0.code == Some(0i32)
                && after.procs[pid].exit->0.signal is None
        }),
{
    let pid = (view.last_pid + 1) as u64;
    assert(view.with_process(scope, program).procs.remove(pid) =~= view.procs);
}

/// A live in-memory process ends with code zero on a graceful signal it does not ignore, and by
/// the signal on a forceful one; other signals pass it by. One that ended keeps its end.
pub proof fn signals_end_in_memory_processes(proc: NullProc, signal: Signal)
    ensures
        ({
            let after = proc.signalled(signal);
            &&& after.scope == proc.scope
            &&& after.ignores_graceful == proc.ignores_graceful
            &&& proc.exit is Some ==> after.exit == proc.exit
            &&& proc.exit is None && signal is Kill ==> {
                &&& after.exit is Some
                &&& after.exit->0.code is None
                &&& after.exit->0.signal == Some(Signal::Kill)
                &&& !after.exit->0.core_dumped
            }
            &&& proc.exit is None && (signal is Term || signal is Interrupt)
                && !proc.ignores_graceful ==> {
                &&& after.exit is Some
                &&& after.exit->0.code == Some(0i32)
                &&& after.exit->0.signal is None
                &&& !after.exit->0.core_dumped
            }
            &&& (signal is Term || signal is Interrupt) && proc.ignores_graceful ==> after.exit
                == proc.exit
            &&& signal is Custom ==> after.exit == proc.exit
        }),
{
}

/// Signals reach the process, the scope or everything that they are meant for.
pub proof fn in_memory_signals_reach_their_aim(
    view: NullView,
    aim: u32,
    scope: ProcessScopeId,
    signal: Signal,
    pid: u64,
)
    ensures
        ({
            let one = view.one_signalled(aim, signal);
            let some = view.scope_signalled(scope, signal);
            let all = view.all_killed();
            &&& one.last_pid == view.last_pid && some.last_pid == view.last_pid && all.last_pid
                == view.last_pid
            &&& one.procs.contains_key(pid) <==> view.procs.contains_key(pid)
            &&& some.procs.contains_key(pid) <==> view.procs.contains_key(pid)
            &&& all.procs.contains_key(pid) <==> view.procs.contains_key(pid)
            &&& view.procs.contains_key(pid) ==> {
                &&& pid == aim ==> one.procs[pid] == view.procs[pid].signalled(signal)
                &&& pid != aim ==> one.procs[pid] == view.procs[pid]
                &&& view.procs[pid].scope == scope ==> some.procs[pid]
                    == view.procs[pid].signalled(signal)
                &&& view.procs[pid].scope != scope ==> some.procs[pid] == view.procs[pid]
                &&& all.procs[pid] == view.procs[pid].signalled(Signal::Kill)
            }
        }),
{
}

/// The last resort reaches a child through its descriptor, or by its PID while that has the start
/// time of the child. A child without start time is not reached by its PID.
pub proof fn the_last_resort_kills_nobody_else(root: Root, start: Option<u64>)
    ensures
        ({
            let kill = crate::platform::unix::root_killed(root, start);
            &&& kill is PidFd <==> root.pidfd
            &&& kill is Pid ==> kill->Pid_0 == root.key.pid
            &&& kill is Pid <==> !root.pidfd && start is Some && start->0 == root.key.token
                && root.key.token > 0
        }),
{
}

/// Ever older versions of a record are asked for, and only because the newer one was unknown.
pub proof fn records_fall_back_version_by_version(flavor: RusageFlavor)
    ensures
        flavor.fallback(false) is None,
        flavor.fallback(true) is None <==> flavor is V0,
        flavor is V4 ==> flavor.fallback(true) == Some(RusageFlavor::V2),
        flavor is V2 ==> flavor.fallback(true) == Some(RusageFlavor::V0),
{
}

/// A member that left its group is reported as changed, under its identity; one that stayed is
/// reported as it was measured.
pub proof fn members_that_left_are_reported_as_changed(entry: UsageEntry, of: i32, pgid: i32)
    ensures
        ({
            let told = crate::platform::macos::confirmed_entry(entry, of, pgid);
            &&& told.identity == entry.identity
            &&& of == pgid ==> told == entry
            &&& of != pgid ==> told.measurement is Err
                && told.measurement->Err_0 is IdentityChanged
        }),
{
}

} // verus!
