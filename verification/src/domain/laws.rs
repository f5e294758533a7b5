//! What holds of processes and scopes whatever is done to them.
use vstd::prelude::*;
use crate::domain::error::DomainError;
use crate::domain::event::DomainEvent;
use crate::domain::exit::ProcessExit;
use crate::domain::ids::ProcessId;
use crate::domain::lifecycle::{ProcessLifecycle, ScopeState};
use crate::domain::os::OsIdentity;
use crate::domain::process::ProcessView;
use crate::domain::scope::ScopeView;
use crate::domain::spec::ProcessSpec;

verus! {

/// Asking a process to stop twice is the same as asking it once, and only the first request has
/// an effect.
pub proof fn termination_request_is_idempotent(process: ProcessView)
    ensures
        process.requested().requested() == process.requested(),
        !process.requested().can_request(),
{
}

/// Escalating twice is the same as escalating once, and only the first escalation has an effect.
pub proof fn escalation_is_idempotent(process: ProcessView)
    ensures
        process.escalated().escalated() == process.escalated(),
        !process.escalated().can_escalate(),
{
}

/// Recording an exit twice is the same as recording it once.
pub proof fn exit_is_idempotent(process: ProcessView)
    ensures
        process.exited().exited() == process.exited(),
        !process.exited().state.live(),
{
}

/// A process with a verified exit is not changed by anything any more.
pub proof fn verified_exit_stands(process: ProcessView, exit: ProcessExit)
    requires
        process.wf(),
        process.settled(),
    ensures
        process.requested() == process,
        process.escalated() == process,
        process.exited() == process,
        process.reaped(exit) == process,
        !process.can_reap(exit),
{
}

/// A verified exit takes the place of an unverified one.
pub proof fn unverified_exit_can_be_corrected(process: ProcessView, exit: ProcessExit)
    requires
        process.wf(),
        !process.settled(),
        crate::domain::exit::verified(exit.outcome),
    ensures
        process.can_reap(exit),
        process.reaped(exit).settled(),
        process.reaped(exit).exit == Some(exit),
{
}

/// How far a process has come.
pub open spec fn rank(state: ProcessLifecycle) -> nat {
    match state {
        ProcessLifecycle::Spawning => 0,
        ProcessLifecycle::Running => 1,
        ProcessLifecycle::GracefulRequested => 2,
        ProcessLifecycle::Forcing => 3,
        ProcessLifecycle::ExitedUnreaped => 4,
        ProcessLifecycle::Reaped => 5,
        ProcessLifecycle::SpawnFailed => 5,
    }
}

/// The life of a process never goes back, keeps its identity, and stays well formed.
pub proof fn process_life_goes_forward(process: ProcessView, exit: ProcessExit)
    requires
        process.wf(),
    ensures
        forall|next: ProcessView|
            next == process.requested() || next == process.escalated() || next == process.exited()
                || next == process.reaped(exit) ==> {
                &&& rank(process.state) <= #[trigger] rank(next.state)
                &&& next.wf()
                &&& next.id == process.id
                &&& next.os == process.os
                &&& next.spec == process.spec
                &&& process.forced ==> next.forced
            },
{
}

/// A scope never goes back: once it drains it never accepts a process again.
pub proof fn scope_never_reopens(
    scope: ScopeView,
    pid: ProcessId,
    process: ProcessView,
    exit: ProcessExit,
)
    ensures
        scope.state.rank() <= scope.draining().state.rank(),
        scope.state.rank() <= scope.reaped(pid, exit).state.rank(),
        scope.state.rank() <= scope.pruned(pid).state.rank(),
        scope.state.rank() <= scope.with(pid, process).state.rank(),
        scope.draining().state !is Open,
{
}

/// A scope that drains or is closed accepts no process.
pub proof fn only_an_open_scope_accepts(scope: ScopeView, pid: ProcessId)
    requires
        scope.state !is Open,
    ensures
        scope.attach_result(pid) == Err::<DomainEvent, _>(DomainError::ScopeClosed(scope.id)),
{
}

/// A process that a scope owns cannot be replaced by attaching another one under its identity.
pub proof fn attaching_never_replaces(scope: ScopeView, pid: ProcessId)
    requires
        scope.processes.contains_key(pid.0),
    ensures
        scope.attach_result(pid) is Err,
{
}

/// Terminating a scope twice is the same as terminating it once: the second time nothing is left
/// to be asked to stop.
pub proof fn scope_termination_is_idempotent(scope: ScopeView)
    ensures
        scope.draining().draining() == scope.draining(),
        scope.draining().stoppable() =~= Set::<u64>::empty(),
{
    assert(scope.draining().draining().processes =~= scope.draining().processes);
    assert(scope.draining().draining() =~= scope.draining());
}

/// Only pruning takes a process away from its scope.
pub proof fn processes_stay_owned(
    scope: ScopeView,
    pid: ProcessId,
    process: ProcessView,
    exit: ProcessExit,
)
    ensures
        scope.draining().processes.dom() =~= scope.processes.dom(),
        scope.processes.contains_key(pid.0) ==> scope.reaped(pid, exit).processes.dom()
            =~= scope.processes.dom(),
        scope.processes.dom().subset_of(scope.with(pid, process).processes.dom()),
{
}

/// Pruning takes away nothing but a process whose exit is verified: neither a live one nor one
/// whose reap failed.
pub proof fn only_a_verified_process_is_pruned(scope: ScopeView, pid: ProcessId, other: u64)
    requires
        scope.wf(),
        scope.processes.contains_key(other),
        !scope.processes[other].settled(),
    ensures
        scope.pruned(pid).processes.contains_key(other),
        scope.pruned(pid).processes[other] == scope.processes[other],
{
}

/// A verified reap makes the process prunable.
pub proof fn a_verified_process_can_be_pruned(scope: ScopeView, pid: ProcessId, exit: ProcessExit)
    requires
        scope.wf(),
        scope.processes.contains_key(pid.0),
        crate::domain::exit::verified(exit.outcome),
    ensures
        !scope.reaped(pid, exit).pruned(pid).processes.contains_key(pid.0),
{
    let process = scope.processes[pid.0];
    assert(process.wf());
    if process.settled() {
        verified_exit_stands(process, exit);
    } else {
        unverified_exit_can_be_corrected(process, exit);
    }
}

/// A verified reap is announced at most once: whatever is reported after it announces nothing.
pub proof fn verified_reap_is_announced_once(
    scope: ScopeView,
    pid: ProcessId,
    exit: ProcessExit,
    later: ProcessExit,
)
    requires
        scope.wf(),
        scope.processes.contains_key(pid.0),
        crate::domain::exit::verified(exit.outcome),
    ensures
        scope.reaped(pid, exit).reap_events(pid, later) =~= Seq::<DomainEvent>::empty(),
        scope.reaped(pid, exit).reaped(pid, later) == scope.reaped(pid, exit),
{
    let process = scope.processes[pid.0];
    assert(process.wf());
    let after = scope.reaped(pid, exit);
    assert(after.processes[pid.0] == process.reaped(exit));
    if process.settled() {
        verified_exit_stands(process, exit);
    } else {
        unverified_exit_can_be_corrected(process, exit);
    }
    process_life_goes_forward(process, exit);
    assert(process.reaped(exit).wf()) by {
        assert(rank(process.reaped(exit).state) >= 0);
    }
    verified_exit_stands(process.reaped(exit), later);
    assert(after.reaped(pid, later).processes =~= after.processes);
    assert(after.reaped(pid, later) =~= after);
}

/// A draining scope closes with the reap that leaves only verified exits behind, and with no
/// other.
pub proof fn draining_scope_closes_with_the_last_reap(
    scope: ScopeView,
    pid: ProcessId,
    exit: ProcessExit,
)
    requires
        scope.wf(),
        scope.state is Draining,
        scope.processes.contains_key(pid.0),
        scope.processes[pid.0].can_reap(exit),
    ensures
        scope.reaped(pid, exit).state is Closed <==> scope.reaped(pid, exit).all_settled(),
        scope.reaped(pid, exit).state is Closed <==> scope.reap_events(pid, exit).contains(
            DomainEvent::ScopeClosed { scope: scope.id },
        ),
{
    let next = scope.with(pid, scope.processes[pid.0].reaped(exit));
    assert(scope.reaped(pid, exit).processes == next.processes);
    assert(scope.reaped(pid, exit).all_settled() == next.all_settled());
    let events = scope.reap_events(pid, exit);
    if scope.closes_on(pid, exit) {
        assert(events[1] == (DomainEvent::ScopeClosed { scope: scope.id }));
    } else {
        assert(events.len() == 1);
    }
}

/// A closed scope owns nothing but processes with a verified exit, and what is done to it later
/// changes that no more.
pub proof fn closed_scope_stays_verified(scope: ScopeView, pid: ProcessId, exit: ProcessExit)
    requires
        scope.wf(),
        scope.state is Closed,
    ensures
        scope.all_settled(),
        scope.draining() == scope,
        scope.processes.contains_key(pid.0) ==> scope.reaped(pid, exit) == scope,
        scope.pruned(pid).all_settled(),
{
    assert forall|other: u64| scope.processes.contains_key(other) implies #[trigger]
    scope.processes[other].requested() == scope.processes[other] by {
        verified_exit_stands(scope.processes[other], exit);
    }
    assert(scope.draining().processes =~= scope.processes);
    assert(scope.draining() =~= scope);
    if scope.processes.contains_key(pid.0) {
        verified_exit_stands(scope.processes[pid.0], exit);
        assert(scope.reaped(pid, exit).processes =~= scope.processes);
        assert(scope.reaped(pid, exit) =~= scope);
    }
}

/// A process that was just attached is running, and everything else the scope owns is as before.
pub proof fn attaching_adds_one_running_process(
    scope: ScopeView,
    pid: ProcessId,
    os: OsIdentity,
    spec: ProcessSpec,
    other: u64,
)
    requires
        scope.attach_result(pid) is Ok,
    ensures
        ({
            let after = scope.with(pid, ProcessView::running(pid, os, spec));
            &&& after.processes[pid.0].state is Running
            &&& after.processes[pid.0].wf()
            &&& other != pid.0 ==> (after.processes.contains_key(other)
                <==> scope.processes.contains_key(other))
            &&& other != pid.0 && scope.processes.contains_key(other) ==> after.processes[other]
                == scope.processes[other]
        }),
{
}

} // verus!
