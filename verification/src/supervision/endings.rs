//! How processes are brought to their end, and what their end is told as.
use vstd::prelude::*;
use crate::domain::event::DomainEvent;
use crate::domain::exit::{ProcessExit, RawExit, TerminationOutcome, UnverifiedReason};
use crate::domain::ids::{ProcessId, ProcessScopeId};
use crate::domain::process::ProcessView;
use crate::domain::spec::Signal;
use crate::supervision::error::{TerminateError, WaitError};
use crate::supervision::supervisor::terminate::{
    Retry, RetryAction, RetryEvent, RetryPhase, Termination, TerminationAction, TerminationEvent,
    TerminationPhase,
};
use crate::supervision::supervisor::SupervisorView;

verus! {

/// A termination sends exactly two signals. The graceful one goes out once the request was
/// dispatched without an exit on record, and gets the whole grace period that was asked for. Force
/// follows when that period ran out, and gets the whole force limit.
pub proof fn each_signal_gets_the_time_that_was_asked_for(
    termination: Termination,
    event: TerminationEvent,
)
    ensures
        (termination.phase is Requested && event == TerminationEvent::Dispatched(None)) <==> (
        termination.next(event) == (
            TerminationPhase::Graceful,
            TerminationAction::Signal {
                signal: termination.target.graceful,
                limit: Some(termination.options.grace.0),
            },
        )),
        (termination.phase is Graceful && event is Elapsed) ==> termination.next(event) == (
            TerminationPhase::Forcing,
            TerminationAction::Signal {
                signal: Signal::Kill,
                limit: termination.options.force_timeout,
            },
        ),
        termination.next(event).1 is Signal ==> {
            ||| termination.phase is Requested && event == TerminationEvent::Dispatched(None)
            ||| termination.phase is Graceful && event is Elapsed
        },
{
}

/// A termination answers with the exit that was observed, just as it was observed; one on record
/// that is not verified is handed to a retry.
pub proof fn termination_answers_with_the_observed_exit(
    termination: Termination,
    exit: ProcessExit,
)
    ensures
        termination.phase is Graceful || termination.phase is Forcing ==> termination.next(
            TerminationEvent::Exited(exit),
        ) == (TerminationPhase::Finished, TerminationAction::Finish(exit)),
        termination.phase is Requested ==> termination.next(
            TerminationEvent::Dispatched(Some(exit)),
        ) == (
            TerminationPhase::Finished,
            match exit.outcome {
                TerminationOutcome::ExitedNaturally => TerminationAction::Finish(exit),
                TerminationOutcome::GracefulSuccess => TerminationAction::Finish(exit),
                TerminationOutcome::ForcedRequired => TerminationAction::Finish(exit),
                TerminationOutcome::Failed => TerminationAction::Retry,
                TerminationOutcome::CleanupUnverified(_) => TerminationAction::Retry,
            },
        ),
{
}

/// A termination whose force limit ran out answers that the end of its own process is not
/// confirmed, after how long a wait; without a force limit it waits on.
pub proof fn termination_without_an_end_says_so(termination: Termination)
    requires
        termination.phase is Forcing,
    ensures
        match termination.options.force_timeout {
            Some(limit) => {
                let (phase, action) = termination.next(TerminationEvent::Elapsed);
                &&& phase is Finished
                &&& action matches TerminationAction::Finish(exit)
                &&& exit.pid == termination.target.pid
                &&& exit.code is None
                &&& exit.signal is None
                &&& exit.forced
                &&& exit.outcome == TerminationOutcome::CleanupUnverified(
                    UnverifiedReason::WaitTimedOut { waited: limit },
                )
            },
            None => termination.next(TerminationEvent::Elapsed) == (
                TerminationPhase::Forcing,
                TerminationAction::Ignore,
            ),
        },
{
}

/// An event that does not belong to the current phase changes nothing.
pub proof fn termination_ignores_stray_events(termination: Termination, event: TerminationEvent)
    requires
        match termination.phase {
            TerminationPhase::Requested => event !is Dispatched,
            TerminationPhase::Graceful => event is Dispatched,
            TerminationPhase::Forcing => event is Dispatched,
            TerminationPhase::Finished => true,
        },
    ensures
        termination.next(event) == (termination.phase, TerminationAction::Ignore),
{
}

/// A retry uses force once the grace period ran out, whether or not its first wait failed, and
/// gives it the whole force limit. A fresh wait is started exactly where the first one failed.
pub proof fn retry_forces_after_the_grace_period(retry: Retry)
    ensures
        retry.phase is Observing || retry.phase is Failed ==> {
            &&& retry.next_phase(RetryEvent::Elapsed) is Forcing
            &&& retry.next_action(RetryEvent::Elapsed) == (RetryAction::Signal {
                signal: Signal::Kill,
                observe: retry.phase is Failed,
                limit: retry.options.force_timeout,
            })
        },
{
}

/// A wait that failed within the grace period does not cut that period short; one that failed
/// after force was used ends the retry with an exit that is not confirmed.
pub proof fn retry_survives_one_failed_wait(retry: Retry, failure: WaitError)
    ensures
        ({
            let event = RetryEvent::Waited(Err(failure));
            &&& retry.phase is Observing ==> retry.next_phase(event) is Failed
                && retry.next_action(event) is AwaitGrace
            &&& retry.phase is Forcing ==> {
                &&& retry.next_phase(event) is Finished
                &&& retry.next_action(event) matches RetryAction::Finish(exit)
                &&& exit.pid == retry.target.pid
                &&& exit.code is None
                &&& exit.signal is None
                &&& exit.forced
                &&& exit.outcome == TerminationOutcome::CleanupUnverified(
                    UnverifiedReason::ReapFailed,
                )
            }
            &&& retry.phase is Failed || retry.phase is Finished ==> retry.next_phase(event)
                == retry.phase && retry.next_action(event) is Ignore
        }),
{
}

/// A retry whose force limit ran out answers that the end is not confirmed, after how long a wait;
/// without a force limit it waits on.
pub proof fn retry_without_an_end_says_so(retry: Retry)
    requires
        retry.phase is Forcing,
    ensures
        match retry.options.force_timeout {
            Some(limit) => {
                &&& retry.next_phase(RetryEvent::Elapsed) is Finished
                &&& retry.next_action(RetryEvent::Elapsed) matches RetryAction::Finish(exit)
                &&& exit.pid == retry.target.pid
                &&& exit.code is None
                &&& exit.signal is None
                &&& exit.forced
                &&& exit.outcome == TerminationOutcome::CleanupUnverified(
                    UnverifiedReason::WaitTimedOut { waited: limit },
                )
            },
            None => {
                &&& retry.next_phase(RetryEvent::Elapsed) is Forcing
                &&& retry.next_action(RetryEvent::Elapsed) is Ignore
            },
        },
{
}

/// A fresh wait that finished ends a retry that waits, and nothing else confirms anything.
pub proof fn retry_ends_with_a_finished_wait(retry: Retry, event: RetryEvent)
    ensures
        retry.confirms(event) <==> {
            &&& event matches RetryEvent::Waited(waited)
            &&& waited is Ok
            &&& retry.phase is Observing || retry.phase is Forcing
        },
        retry.confirms(event) ==> retry.next_phase(event) is Finished,
{
}

/// The exit `exit` tells how the process `pid` ended that was waited for with result `raw`: force
/// counts only where the process was killed, and a request only where one was made.
pub open spec fn tells(exit: ProcessExit, pid: ProcessId, raw: RawExit, requested: bool) -> bool {
    &&& exit.pid == pid
    &&& exit.code == raw.code
    &&& exit.signal == raw.signal
    &&& exit.forced <==> raw.signal == Some(Signal::Kill)
    &&& exit.outcome is ForcedRequired <==> requested && raw.signal == Some(Signal::Kill)
    &&& exit.outcome is GracefulSuccess <==> requested && raw.signal != Some(Signal::Kill)
    &&& exit.outcome is ExitedNaturally <==> !requested
}

/// The first finished wait for an owned process puts its end on record as it was: the code and
/// signal of the wait, forced exactly where it was killed, and with an outcome that depends on
/// whether it had been asked to stop. The same outcome is gathered for a scope under termination.
pub proof fn finished_wait_is_recorded_as_it_was<O>(
    view: SupervisorView<O>,
    scope: ProcessScopeId,
    pid: ProcessId,
    raw: RawExit,
)
    requires
        view.wf(),
        view.registry.owns(scope.0, pid.0),
        view.registry.scopes[scope.0].processes[pid.0].exit is None,
    ensures
        ({
            let before = view.registry.scopes[scope.0].processes[pid.0];
            let requested = before.state is GracefulRequested || before.state is Forcing;
            let after = view.monitored(scope, pid, Ok(raw));
            let ended = after.registry.scopes[scope.0].processes[pid.0];
            &&& after.registry.owns(scope.0, pid.0)
            &&& ended.state is Reaped
            &&& ended.exit is Some
            &&& tells(ended.exit->0, pid, raw, requested)
            &&& view.registry.scopes[scope.0].state !is Open ==> {
                &&& after.gathered(scope).contains_key(pid.0)
                &&& after.gathered(scope)[pid.0] == ended.exit->0.outcome
            }
            &&& view.registry.scopes[scope.0].state is Open ==> after.gathered(scope)
                == view.gathered(scope)
        }),
{
}

/// A wait that failed puts an end on record that is not verified and claims nothing else.
pub proof fn failed_wait_is_recorded_as_unverified<O>(
    view: SupervisorView<O>,
    scope: ProcessScopeId,
    pid: ProcessId,
    failure: WaitError,
)
    requires
        view.wf(),
        view.registry.owns(scope.0, pid.0),
        view.registry.scopes[scope.0].processes[pid.0].exit is None,
    ensures
        ({
            let after = view.monitored(scope, pid, Err(failure));
            let ended = after.registry.scopes[scope.0].processes[pid.0];
            &&& ended.state is Reaped
            &&& ended.exit == Some(
                ProcessExit {
                    pid,
                    code: None,
                    signal: None,
                    outcome: TerminationOutcome::CleanupUnverified(UnverifiedReason::ReapFailed),
                    forced: false,
                },
            )
            &&& after.outputs == view.outputs
            &&& after.completed == view.completed
            &&& view.registry.scopes[scope.0].state !is Open ==> {
                &&& after.gathered(scope).contains_key(pid.0)
                &&& after.gathered(scope)[pid.0] == ended.exit->0.outcome
            }
        }),
{
}

/// The end of a process leaves everything else alone: its identity, the other processes, the
/// other scopes and what is known about released ones. Only its sample goes.
pub proof fn end_of_a_process_touches_nothing_else<O>(
    view: SupervisorView<O>,
    scope: ProcessScopeId,
    pid: ProcessId,
    waited: Result<RawExit, WaitError>,
    other: u64,
)
    requires
        view.wf(),
        view.registry.owns(scope.0, pid.0),
        other != pid.0,
    ensures
        ({
            let after = view.monitored(scope, pid, waited);
            let before = view.registry.scopes[scope.0];
            &&& after.registry.scopes[scope.0].processes[pid.0].id == before.processes[pid.0].id
            &&& after.registry.scopes[scope.0].processes[pid.0].os == before.processes[pid.0].os
            &&& after.registry.scopes[scope.0].processes[pid.0].spec
                == before.processes[pid.0].spec
            &&& after.registry.owns(scope.0, other) == view.registry.owns(scope.0, other)
            &&& view.registry.owns(scope.0, other)
                ==> after.registry.scopes[scope.0].processes[other] == before.processes[other]
            &&& !after.samples.contains_key(pid.0)
            &&& after.samples.contains_key(other) == view.samples.contains_key(other)
            &&& view.samples.contains_key(other) ==> after.samples[other] == view.samples[other]
            &&& after.spawn_times == view.spawn_times
            &&& after.reports == view.reports
            &&& after.os_pids == view.os_pids
            &&& after.shutting_down == view.shutting_down
        }),
{
}

/// The events of the end of a process: that it exited, if it was alive, and then that it was
/// reaped, with the exit that is put on record. A closed scope is not announced with them.
pub proof fn end_of_a_process_is_announced(
    scope: crate::domain::scope::ScopeView,
    pid: ProcessId,
    exit: ProcessExit,
)
    requires
        scope.wf(),
        scope.processes.contains_key(pid.0),
        scope.processes[pid.0].exit is None,
    ensures
        ({
            let events = crate::supervision::supervisor::monitor::end_events(scope, pid, exit);
            let alive = scope.processes[pid.0].state.live();
            &&& events.len() == if alive {
                2int
            } else {
                1
            }
            &&& alive ==> events[0] == (DomainEvent::ProcessExited { scope: scope.id, pid })
            &&& events.last() == (DomainEvent::ProcessReaped { scope: scope.id, pid, exit })
        }),
{
}

/// A process whose first wait failed and that was reaped after all is put on record as it ended,
/// and that is what the recovery answers. One that is verified already stays as it is.
pub proof fn recovered_end_is_recorded_as_it_was<O>(
    view: SupervisorView<O>,
    scope: ProcessScopeId,
    pid: ProcessId,
    raw: RawExit,
)
    requires
        view.wf(),
        view.registry.owns(scope.0, pid.0),
    ensures
        ({
            let before = view.registry.scopes[scope.0].processes[pid.0];
            let after = view.recovered(scope, pid, raw);
            let ended = after.registry.scopes[scope.0].processes[pid.0];
            &&& ended.exit == Some(view.recovery(scope, pid, raw))
            &&& before.settled() ==> ended == before && view.recovery_events(scope, pid, raw).len()
                == 0
            &&& !before.settled() ==> {
                &&& tells(ended.exit->0, pid, raw, true)
                &&& view.recovery_events(scope, pid, raw) == seq![
                    DomainEvent::ProcessReaped {
                        scope: view.registry.scopes[scope.0].id,
                        pid,
                        exit: ended.exit->0,
                    },
                ]
                &&& view.registry.scopes[scope.0].state !is Open ==> {
                    &&& after.gathered(scope).contains_key(pid.0)
                    &&& after.gathered(scope)[pid.0] == ended.exit->0.outcome
                }
            }
        }),
{
}

/// A recovery of a process that its scope has let go is answered as it ended, and changes nothing
/// but the history of captures.
pub proof fn late_recovery_is_only_answered<O>(
    view: SupervisorView<O>,
    scope: ProcessScopeId,
    pid: ProcessId,
    raw: RawExit,
)
    requires
        !view.registry.owns(scope.0, pid.0),
    ensures
        tells(view.recovery(scope, pid, raw), pid, raw, true),
        view.recovery_events(scope, pid, raw).len() == 0,
        view.recovered(scope, pid, raw).registry == view.registry,
        view.recovered(scope, pid, raw).pending == view.pending,
{
}

/// A termination has nothing to do exactly where a verified exit is on record with the waiters or
/// the process, or where nobody owns the process; only the last is an error, and only without any
/// exit on record.
pub proof fn termination_has_nothing_to_do_after_the_end<O>(
    view: SupervisorView<O>,
    pid: ProcessId,
    recorded: Option<ProcessExit>,
)
    ensures
        match view.termination_known(pid, recorded) {
            Some(Ok(exit)) => {
                ||| recorded == Some(exit) && (crate::domain::exit::verified(exit.outcome)
                    || !view.owned(pid))
                ||| view.owned(pid) && view.process(pid).exit == Some(exit)
                    && crate::domain::exit::verified(exit.outcome)
            },
            Some(Err(error)) => {
                &&& error == TerminateError::UnknownProcess(pid)
                &&& recorded is None
                &&& !view.owned(pid)
            },
            None => {
                &&& view.owned(pid)
                &&& recorded matches Some(exit) ==> !crate::domain::exit::verified(exit.outcome)
                &&& view.process(pid).exit matches Some(exit)
                    ==> !crate::domain::exit::verified(exit.outcome)
            },
        },
        recorded matches Some(exit) ==> (crate::domain::exit::verified(exit.outcome)
            ==> view.termination_known(pid, recorded) == Some(Ok::<_, TerminateError>(exit))),
{
}

/// A termination is aimed at the process as it is owned: its scope, its OS identity, and the
/// graceful signal that its spec asks for.
pub proof fn termination_is_aimed_at_the_owned_process<O>(view: SupervisorView<O>, pid: ProcessId)
    requires
        view.wf(),
        view.owned(pid),
    ensures
        ({
            let target = view.target(pid);
            let process = view.registry.scopes[target.scope.0].processes[pid.0];
            &&& target.pid == pid
            &&& view.registry.owns(target.scope.0, pid.0)
            &&& target.spawned.os == process.os
            &&& target.graceful == process.spec.graceful_signal
        }),
{
    assert(view.registry.owns(view.owner(pid), pid.0));
}

/// `after` differs from `before` in the state and the force mark of one process only.
pub open spec fn differs_in_one_process<O>(
    before: SupervisorView<O>,
    after: SupervisorView<O>,
    scope: u64,
    pid: u64,
) -> bool {
    &&& after == (SupervisorView { registry: after.registry, ..before })
    &&& after.registry.next_scope == before.registry.next_scope
    &&& after.registry.next_process == before.registry.next_process
    &&& forall|id: u64| #[trigger]
        after.registry.scopes.contains_key(id) <==> before.registry.scopes.contains_key(id)
    &&& forall|id: u64|
        id != scope && before.registry.scopes.contains_key(id) ==> #[trigger]
        after.registry.scopes[id] == before.registry.scopes[id]
    &&& after.registry.scopes[scope].id == before.registry.scopes[scope].id
    &&& after.registry.scopes[scope].state == before.registry.scopes[scope].state
    &&& forall|other: u64| #[trigger]
        after.registry.scopes[scope].processes.contains_key(other)
            <==> before.registry.scopes[scope].processes.contains_key(other)
    &&& forall|other: u64|
        other != pid && before.registry.scopes[scope].processes.contains_key(other) ==> #[trigger]
        after.registry.scopes[scope].processes[other]
            == before.registry.scopes[scope].processes[other]
    &&& after.registry.scopes[scope].processes[pid] == (ProcessView {
        state: after.registry.scopes[scope].processes[pid].state,
        forced: after.registry.scopes[scope].processes[pid].forced,
        ..before.registry.scopes[scope].processes[pid]
    })
}

/// A request reaches its process and no other: a running one is asked to stop, any other stays as
/// it is.
pub proof fn request_reaches_its_process_only<O>(view: SupervisorView<O>, pid: ProcessId)
    requires
        view.wf(),
        view.owned(pid),
    ensures
        ({
            let scope = view.owner(pid);
            let before = view.registry.scopes[scope].processes[pid.0];
            let after = view.termination_requested(pid);
            let asked = after.registry.scopes[scope].processes[pid.0];
            &&& differs_in_one_process(view, after, scope, pid.0)
            &&& before.state is Running ==> asked.state is GracefulRequested
            &&& before.state !is Running ==> asked.state == before.state
            &&& asked.forced == before.forced
        }),
{
    assert(view.registry.owns(view.owner(pid), pid.0));
}

/// Force reaches its process and no other: one that has not ended is marked as forced, any other
/// stays as it is.
pub proof fn force_reaches_its_process_only<O>(
    view: SupervisorView<O>,
    scope: ProcessScopeId,
    pid: ProcessId,
)
    requires
        view.wf(),
    ensures
        ({
            let after = view.force_escalated(scope, pid);
            let before = view.registry.scopes[scope.0].processes[pid.0];
            let forced = after.registry.scopes[scope.0].processes[pid.0];
            &&& !view.registry.owns(scope.0, pid.0) ==> after == view
            &&& view.registry.owns(scope.0, pid.0) ==> {
                &&& differs_in_one_process(view, after, scope.0, pid.0)
                &&& before.state is Running || before.state is GracefulRequested
                    ==> forced.state is Forcing && forced.forced
                &&& before.state !is Running && before.state !is GracefulRequested ==> forced
                    == before
            }
        }),
{
}

} // verus!
