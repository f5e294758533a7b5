//! What each change does to a process or a scope, case by case.
use vstd::prelude::*;
use crate::domain::error::DomainError;
use crate::domain::event::DomainEvent;
use crate::domain::exit::{ProcessExit, TerminationOutcome};
use crate::domain::ids::ProcessId;
use crate::domain::lifecycle::{ProcessLifecycle, ScopeState};
use crate::domain::process::ProcessView;
use crate::domain::scope::ScopeView;
use crate::domain::stats::RawStats;
use crate::domain::time::Duration;

verus! {

/// Exactly the outcomes of a confirmed end are verified: neither a failure nor anything that could
/// not be verified is.
pub proof fn only_a_confirmed_end_is_verified(outcome: TerminationOutcome)
    ensures
        match outcome {
            TerminationOutcome::ExitedNaturally => crate::domain::exit::verified(outcome),
            TerminationOutcome::GracefulSuccess => crate::domain::exit::verified(outcome),
            TerminationOutcome::ForcedRequired => crate::domain::exit::verified(outcome),
            TerminationOutcome::Failed => !crate::domain::exit::verified(outcome),
            TerminationOutcome::CleanupUnverified(_) => !crate::domain::exit::verified(outcome),
        },
{
}

/// A process counts as alive until it exited or could not be started, and the states from which
/// nothing leads on are the last ones.
pub proof fn life_ends_with_the_exit(state: ProcessLifecycle)
    ensures
        state.live() <==> crate::domain::laws::rank(state) < crate::domain::laws::rank(
            ProcessLifecycle::ExitedUnreaped,
        ),
        state.terminal() <==> crate::domain::laws::rank(state) > crate::domain::laws::rank(
            ProcessLifecycle::ExitedUnreaped,
        ),
        state.live() ==> state != ProcessLifecycle::ExitedUnreaped && !state.terminal(),
{
}

/// Only the state of a process changes when it is asked to stop, and only that of one which runs.
pub proof fn request_moves_a_running_process(process: ProcessView)
    requires
        process.wf(),
    ensures
        process.requested() == (ProcessView { state: process.requested().state, ..process }),
        process.state is Running ==> process.requested().state is GracefulRequested,
        process.state !is Running ==> process.requested().state == process.state,
        process.can_request() <==> process.state is Running,
{
}

/// Escalation marks a process that runs or was asked to stop as forced, and changes no other.
pub proof fn escalation_moves_a_process_that_goes_on(process: ProcessView)
    requires
        process.wf(),
    ensures
        process.escalated() == (ProcessView {
            state: process.escalated().state,
            forced: process.escalated().forced,
            ..process
        }),
        process.state is Running || process.state is GracefulRequested ==> {
            &&& process.escalated().state is Forcing
            &&& process.escalated().forced
            &&& process.can_escalate()
        },
        process.state !is Running && process.state !is GracefulRequested ==> {
            &&& process.escalated() == process
            &&& !process.can_escalate()
        },
{
}

/// An observed exit ends the life of a process and changes nothing else.
pub proof fn exit_ends_the_life(process: ProcessView)
    requires
        process.wf(),
    ensures
        process.exited() == (ProcessView { state: process.exited().state, ..process }),
        process.state.live() ==> process.exited().state is ExitedUnreaped,
        !process.state.live() ==> process.exited() == process,
{
}

/// A reap puts its exit on record where there is none, or where it is the first verified one; else
/// it changes nothing.
pub proof fn reap_records_the_exit(process: ProcessView, exit: ProcessExit)
    requires
        process.wf(),
    ensures
        process.reaped(exit) == (ProcessView {
            state: process.reaped(exit).state,
            exit: process.reaped(exit).exit,
            ..process
        }),
        process.exit is None ==> {
            &&& process.can_reap(exit)
            &&& process.reaped(exit).exit == Some(exit)
            &&& process.reaped(exit).state is Reaped
        },
        process.exit matches Some(earlier) ==> {
            let replaces = !crate::domain::exit::verified(earlier.outcome)
                && crate::domain::exit::verified(exit.outcome);
            &&& process.can_reap(exit) <==> replaces
            &&& process.reaped(exit).exit == if replaces {
                Some(exit)
            } else {
                Some(earlier)
            }
            &&& process.reaped(exit).state is Reaped
        },
{
}

/// A process is attached exactly where its scope is open and does not own it yet; the event names
/// both, and each refusal has its own error.
pub proof fn attaching_needs_an_open_scope(scope: ScopeView, pid: ProcessId)
    ensures
        scope.attach_result(pid) is Ok <==> scope.state is Open && !scope.processes.contains_key(
            pid.0,
        ),
        scope.attach_result(pid) matches Ok(event) ==> event == (DomainEvent::ProcessSpawned {
            scope: scope.id,
            pid,
        }),
        scope.attach_result(pid) matches Err(error) ==> {
            ||| scope.state !is Open && error == DomainError::ScopeClosed(scope.id)
            ||| scope.state is Open && error is InvalidTransition
        },
{
}

/// A new process runs, under the identity and the spec that it was attached with.
pub proof fn new_process_runs(
    pid: ProcessId,
    os: crate::domain::os::OsIdentity,
    spec: crate::domain::spec::ProcessSpec,
)
    ensures
        ({
            let process = ProcessView::running(pid, os, spec);
            &&& process.id == pid
            &&& process.os == os
            &&& process.spec == spec
            &&& process.state is Running
            &&& !process.forced
            &&& process.exit is None
        }),
{
}

/// A scope that starts to drain takes no more processes and asks each of its processes to stop:
/// those that run are asked now, and no other changes.
pub proof fn draining_asks_every_running_process(scope: ScopeView, pid: u64)
    requires
        scope.wf(),
    ensures
        scope.draining().id == scope.id,
        scope.state is Open ==> scope.draining().state is Draining,
        scope.state !is Open ==> scope.draining().state == scope.state,
        scope.draining().processes.contains_key(pid) <==> scope.processes.contains_key(pid),
        scope.processes.contains_key(pid) ==> {
            let before = scope.processes[pid];
            let after = scope.draining().processes[pid];
            &&& after == (ProcessView { state: after.state, ..before })
            &&& before.state is Running ==> after.state is GracefulRequested
            &&& before.state !is Running ==> after.state == before.state
        },
        scope.stoppable().contains(pid) <==> scope.processes.contains_key(pid)
            && scope.processes[pid].state is Running,
{
}

/// The live processes of a scope are those that it owns and that have not ended.
pub proof fn live_processes_have_not_ended(scope: ScopeView, pid: u64)
    requires
        scope.wf(),
    ensures
        scope.live().contains(pid) <==> {
            &&& scope.processes.contains_key(pid)
            &&& scope.processes[pid].state is Running
                || scope.processes[pid].state is GracefulRequested
                || scope.processes[pid].state is Forcing
        },
{
}

/// The events of a draining scope ask each process that was listed, in that order.
pub proof fn requests_follow_the_list(
    scope: crate::domain::ids::ProcessScopeId,
    pids: Seq<u64>,
    i: int,
)
    requires
        0 <= i < pids.len(),
    ensures
        crate::domain::scope::requests(scope, pids).len() == pids.len(),
        crate::domain::scope::requests(scope, pids)[i] == (DomainEvent::TerminationRequested {
            scope,
            pid: ProcessId(pids[i]),
        }),
{
}

/// A reap changes its own process only, and of the scope no more than that it may close.
pub proof fn reap_touches_one_process(
    scope: ScopeView,
    pid: ProcessId,
    exit: ProcessExit,
    other: u64,
)
    requires
        scope.wf(),
        scope.processes.contains_key(pid.0),
    ensures
        scope.reaped(pid, exit).id == scope.id,
        scope.reaped(pid, exit).processes[pid.0] == scope.processes[pid.0].reaped(exit),
        scope.reaped(pid, exit).processes.contains_key(other) <==> scope.processes.contains_key(
            other,
        ),
        other != pid.0 && scope.processes.contains_key(other) ==> scope.reaped(
            pid,
            exit,
        ).processes[other] == scope.processes[other],
        scope.state is Open ==> scope.reaped(pid, exit).state is Open,
        scope.state is Draining ==> scope.reaped(pid, exit).state is Draining || scope.reaped(
            pid,
            exit,
        ).state is Closed,
{
}

/// A reap that is put on record is announced first, with its scope, its process and its exit; one
/// that changes nothing is not announced.
pub proof fn reap_is_announced_as_recorded(scope: ScopeView, pid: ProcessId, exit: ProcessExit)
    requires
        scope.wf(),
        scope.processes.contains_key(pid.0),
    ensures
        ({
            let events = scope.reap_events(pid, exit);
            let changed = scope.reaped(pid, exit).processes[pid.0] != scope.processes[pid.0];
            &&& changed ==> events.len() >= 1 && events[0] == (DomainEvent::ProcessReaped {
                scope: scope.id,
                pid,
                exit,
            })
            &&& events.len() == 0 ==> !changed
            &&& events.len() >= 1 ==> scope.reaped(pid, exit).processes[pid.0].exit == Some(exit)
            &&& events.len() <= 2
            &&& events.len() == 2 ==> events[1] == (DomainEvent::ScopeClosed { scope: scope.id })
        }),
{
}

/// Pruning takes exactly its process away, and only with a verified exit.
pub proof fn pruning_forgets_one_ended_process(scope: ScopeView, pid: ProcessId, other: u64)
    ensures
        scope.pruned(pid).id == scope.id,
        scope.pruned(pid).state == scope.state,
        scope.pruned(pid).processes.contains_key(other) <==> {
            &&& scope.processes.contains_key(other)
            &&& other != pid.0 || scope.processes[other].exit is None
                || !crate::domain::exit::verified(scope.processes[other].exit->0.outcome)
        },
        scope.pruned(pid).processes.contains_key(other) ==> scope.pruned(pid).processes[other]
            == scope.processes[other],
{
}

/// Scopes go one way, from open over draining to closed.
pub proof fn scope_states_are_ordered(state: ScopeState)
    ensures
        ScopeState::Open.rank() < ScopeState::Draining.rank(),
        ScopeState::Draining.rank() < ScopeState::Closed.rank(),
        state.rank() == ScopeState::Open.rank() <==> state is Open,
{
}

/// A sample of a process carries its identity, its uptime and every measured value unchanged.
pub proof fn sample_keeps_what_was_measured(pid: ProcessId, raw: RawStats, uptime: Duration)
    ensures
        ({
            let stats = crate::domain::stats::observed(pid, raw, uptime);
            &&& stats.pid == pid
            &&& stats.uptime == uptime
            &&& raw == (RawStats {
                cpu_usage: stats.cpu_usage,
                memory_rss_bytes: stats.memory_rss_bytes,
                virtual_memory_bytes: stats.virtual_memory_bytes,
                peak_rss_bytes: stats.peak_rss_bytes,
                io_read_bytes: stats.io_read_bytes,
                io_write_bytes: stats.io_write_bytes,
                descendant_count: stats.descendant_count,
                state: stats.state,
            })
        }),
{
}

} // verus!
