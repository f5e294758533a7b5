//! What holds of a supervisor whatever happens to it.
use vstd::prelude::*;
use crate::domain::event::DomainEvent;
use crate::domain::exit::{ProcessExit, RawExit, TerminationOutcome};
use crate::domain::ids::{ProcessId, ProcessScopeId};
use crate::domain::os::OsIdentity;
use crate::domain::scope::ScopeView;
use crate::domain::spec::{ProcessSpec, Signal};
use crate::domain::stats::ProcessStats;
use crate::domain::time::Instant;
use crate::supervision::error::{SpawnError, StatsError, TerminateError, WaitError};
use crate::supervision::registry::RegistryView;
use crate::supervision::report::{CleanupView, ReportView};
use crate::supervision::supervisor::terminate::{
    Retry, RetryAction, RetryEvent, Termination, TerminationAction, TerminationEvent,
    TerminationPhase,
};
use crate::supervision::supervisor::SupervisorView;
use crate::supervision::waiters::WaitersView;

verus! {

/// Everything that can happen to what a supervisor owns.
pub enum Step<O> {
    /// A scope is created.
    Create {
        /// Whether it is the scope of a scoped block.
        scoped_block: bool,
    },
    /// A started process is attached.
    Attach {
        /// The scope it was started in.
        scope: ProcessScopeId,
        /// Its new identity.
        pid: ProcessId,
        /// What it was started from.
        spec: ProcessSpec,
        /// Its OS identity.
        os: OsIdentity,
        /// When it was attached.
        now: Instant,
        /// The handle of its capture.
        output: Option<O>,
    },
    /// A started process is refused; the identity that was meant for it is used up.
    Refuse {
        /// The scope it was started in.
        scope: ProcessScopeId,
    },
    /// The wait for a process finished.
    Monitor {
        /// The scope that owns it.
        scope: ProcessScopeId,
        /// The process.
        pid: ProcessId,
        /// What the wait came to.
        waited: Result<RawExit, WaitError>,
    },
    /// A process whose first wait failed was reaped after all.
    Recover {
        /// The scope it was started in.
        scope: ProcessScopeId,
        /// The process.
        pid: ProcessId,
        /// How it ended.
        raw: RawExit,
    },
    /// A process is asked to stop.
    Request {
        /// The process.
        pid: ProcessId,
    },
    /// A process is escalated to force.
    Escalate {
        /// The scope it was started in.
        scope: ProcessScopeId,
        /// The process.
        pid: ProcessId,
    },
    /// The termination of a scope begins.
    Drain {
        /// The scope.
        scope: ProcessScopeId,
    },
    /// The end of a process is joined by the termination of its scope.
    Join {
        /// The scope under termination.
        scope: ProcessScopeId,
        /// The process.
        pid: ProcessId,
        /// What its end came to.
        outcome: TerminationOutcome,
    },
    /// The outcomes of a swept scope are gathered.
    Settle {
        /// The scope under termination.
        scope: ProcessScopeId,
        /// The outcomes.
        outcomes: Map<u64, TerminationOutcome>,
    },
    /// A scope is released.
    Release {
        /// The scope.
        scope: ProcessScopeId,
        /// The report of its termination.
        report: ReportView,
    },
    /// A process is forgotten after its end was dispatched.
    Prune {
        /// The dispatched event.
        event: DomainEvent,
    },
    /// The capture of a process is claimed.
    TakeOutput {
        /// The process.
        pid: ProcessId,
    },
    /// The claimed capture of a process is given back.
    ReturnOutput {
        /// The process.
        pid: ProcessId,
        /// The handle of its capture.
        output: O,
    },
    /// Observations are filed or forgotten.
    Observe {
        /// The latest samples.
        samples: Map<u64, Result<ProcessStats, StatsError>>,
        /// When each process was attached.
        spawn_times: Map<u64, Instant>,
        /// Whether the sampler was started.
        sampler_started: bool,
    },
    /// No new work is admitted any more.
    Close {
        /// Whether the last owner is gone.
        owners_dropped: bool,
    },
}

impl<O> Step<O> {
    /// The step can happen to a supervisor that knows `view`.
    pub open spec fn enabled(self, view: SupervisorView<O>) -> bool {
        match self {
            Step::Create { .. } => !view.shutting_down && view.registry.next_scope < u64::MAX,
            Step::Attach { scope, pid, .. } => view.orphaned(scope) is None && pid.0
                == view.registry.next_process + 1,
            Step::Refuse { scope } => view.orphaned(scope) is Some && !view.owners_dropped
                && view.registry.next_process < u64::MAX,
            Step::Monitor { scope, pid, .. } => view.registry.owns(scope.0, pid.0),
            Step::Recover { .. } => true,
            Step::Request { pid } => view.owned(pid),
            Step::Escalate { .. } => true,
            Step::Drain { scope } => view.registry.scopes.contains_key(scope.0),
            Step::Join { .. } => true,
            Step::Settle { scope, .. } => view.registry.scopes.contains_key(scope.0),
            Step::Release { scope, report } => {
                &&& view.registry.scopes.contains_key(scope.0)
                &&& view.pending.contains_key(scope.0)
                &&& report.scope == scope
                &&& report.reports(view.pending[scope.0])
                &&& report.verified()
            },
            Step::Prune { .. } => true,
            Step::TakeOutput { .. } => true,
            Step::ReturnOutput { .. } => true,
            Step::Observe { samples, .. } => crate::supervision::supervisor::samples_wf(samples),
            Step::Close { .. } => true,
        }
    }

    /// What the supervisor knows after the step.
    pub open spec fn applied(self, view: SupervisorView<O>) -> SupervisorView<O> {
        match self {
            Step::Create { scoped_block } => {
                let scope = ProcessScopeId((view.registry.next_scope + 1) as u64);
                SupervisorView {
                    registry: RegistryView {
                        scopes: view.registry.scopes.insert(scope.0, ScopeView::fresh(scope)),
                        next_scope: scope.0,
                        ..view.registry
                    },
                    scoped: if scoped_block {
                        view.scoped.insert(scope.0)
                    } else {
                        view.scoped
                    },
                    ..view
                }
            },
            Step::Attach { scope, pid, spec, os, now, output } => view.attached(
                scope,
                pid,
                spec,
                os,
                now,
                output,
            ),
            Step::Refuse { .. } => view.minted(),
            Step::Monitor { scope, pid, waited } => view.monitored(scope, pid, waited),
            Step::Recover { scope, pid, raw } => view.recovered(scope, pid, raw),
            Step::Request { pid } => view.termination_requested(pid),
            Step::Escalate { scope, pid } => view.force_escalated(scope, pid),
            Step::Drain { scope } => view.drained(scope),
            Step::Join { scope, pid, outcome } => view.joined(scope, pid, outcome),
            Step::Settle { scope, outcomes } => view.settled(scope, outcomes),
            Step::Release { scope, report } => view.released(scope, report),
            Step::Prune { event } => SupervisorView {
                registry: crate::supervision::dispatch::pruned_after(view.registry, event),
                ..view
            },
            Step::TakeOutput { pid } => view.output_taken(pid),
            Step::ReturnOutput { pid, output } => view.output_returned(pid, output),
            Step::Observe { samples, spawn_times, sampler_started } => SupervisorView {
                samples,
                spawn_times,
                sampler_started,
                ..view
            },
            Step::Close { owners_dropped } => SupervisorView {
                shutting_down: true,
                owners_dropped: view.owners_dropped || owners_dropped,
                ..view
            },
        }
    }

    /// The one scope that the step is about, if it is about one.
    pub open spec fn concerns(self, view: SupervisorView<O>) -> Option<u64> {
        match self {
            Step::Create { .. } => Some((view.registry.next_scope + 1) as u64),
            Step::Attach { scope, .. } => Some(scope.0),
            Step::Refuse { .. } => None,
            Step::Monitor { scope, .. } => Some(scope.0),
            Step::Recover { scope, .. } => Some(scope.0),
            Step::Request { pid } => Some(view.owner(pid)),
            Step::Escalate { scope, .. } => Some(scope.0),
            Step::Drain { scope } => Some(scope.0),
            Step::Join { scope, .. } => Some(scope.0),
            Step::Settle { scope, .. } => Some(scope.0),
            Step::Release { scope, .. } => Some(scope.0),
            Step::Prune { event } => match event {
                DomainEvent::ProcessReaped { scope, .. } => Some(scope.0),
                _ => None,
            },
            Step::TakeOutput { .. } => None,
            Step::ReturnOutput { .. } => None,
            Step::Observe { .. } => None,
            Step::Close { .. } => None,
        }
    }
}

/// A report names `pid` with a verified outcome.
pub open spec fn confirmed_by(report: ReportView, pid: u64) -> bool {
    exists|i: int|
        0 <= i < report.outcomes.len() && (#[trigger] report.outcomes[i]).0.0 == pid
            && crate::domain::exit::verified(report.outcomes[i].1)
}

/// A process belongs to one scope only, and its identity was given out before.
pub proof fn process_belongs_to_one_scope<O>(view: SupervisorView<O>, a: u64, b: u64, pid: u64)
    requires
        view.wf(),
        view.registry.owns(a, pid),
        view.registry.owns(b, pid),
    ensures
        a == b,
        pid <= view.registry.next_process,
{
}

/// The identity that an attached process gets was never owned before.
pub proof fn attached_identity_is_new<O>(view: SupervisorView<O>, pid: ProcessId)
    requires
        view.wf(),
        pid.0 == view.registry.next_process + 1,
    ensures
        !view.owned(pid),
{
    if view.owned(pid) {
        assert(view.registry.owns(view.owner(pid), pid.0));
    }
}

/// A report of the gathered outcomes confirms every process whose outcome was gathered.
pub proof fn lemma_report_confirms(
    report: ReportView,
    outcomes: Map<u64, TerminationOutcome>,
    pid: u64,
)
    requires
        report.reports(outcomes),
        report.verified(),
        outcomes.contains_key(pid),
    ensures
        confirmed_by(report, pid),
{
    let pids = Seq::new(report.outcomes.len(), |i: int| report.outcomes[i].0.0);
    assert(pids.contains(pid));
    let at = pids.index_of(pid);
    assert(report.outcomes[at].0.0 == pid);
}

/// A process stays in its scope until its end is confirmed: it leaves the scope only with a
/// verified exit on record, or when the scope is released with a report that confirms it. The
/// release of a scope waits until every process is accounted for.
pub proof fn ownership_ends_only_with_a_confirmed_end<O>(
    view: SupervisorView<O>,
    step: Step<O>,
    scope: u64,
    pid: u64,
)
    requires
        view.wf(),
        step.enabled(view),
        step is Release ==> view.accounted(step->Release_scope, Set::empty()),
        view.registry.owns(scope, pid),
        !step.applied(view).registry.owns(scope, pid),
    ensures
        view.registry.scopes[scope].processes[pid].settled() || (step is Release
            && confirmed_by(step->report, pid)),
{
    match step {
        Step::Release { scope: released, report } => {
            assert(released.0 == scope);
            assert(view.gathered(released).contains_key(pid));
            lemma_report_confirms(report, view.pending[released.0], pid);
        },
        Step::Request { pid: asked } => {
            assert(view.registry.owns(view.owner(asked), asked.0));
        },
        _ => {},
    }
}

/// A step changes nothing about any scope but the one it is about: neither its processes nor the
/// outcomes gathered for it.
pub proof fn steps_leave_other_scopes_alone<O>(view: SupervisorView<O>, step: Step<O>, other: u64)
    requires
        view.wf(),
        step.enabled(view),
        step.concerns(view) != Some(other),
    ensures
        step.applied(view).registry.scopes.contains_key(other)
            <==> view.registry.scopes.contains_key(other),
        view.registry.scopes.contains_key(other) ==> step.applied(view).registry.scopes[other]
            == view.registry.scopes[other],
        step.applied(view).gathered(ProcessScopeId(other)) == view.gathered(
            ProcessScopeId(other),
        ),
{
}

/// When the termination of a scope begins, every process it owns is accounted for as one whose
/// end is waited for.
pub proof fn draining_accounts_for_every_process<O>(
    view: SupervisorView<O>,
    scope: ProcessScopeId,
)
    requires
        view.registry.scopes.contains_key(scope.0),
    ensures
        view.drained(scope).accounted(scope, view.registry.scopes[scope.0].processes.dom()),
{
}

/// The processes that are waited for once `step` happened during the termination of `scope`.
pub open spec fn still_waiting<O>(step: Step<O>, scope: ProcessScopeId, waiting: Set<u64>) -> Set<
    u64,
> {
    match step {
        Step::Join { scope: joined, pid, .. } => if joined == scope {
            waiting.remove(pid.0)
        } else {
            waiting
        },
        _ => waiting,
    }
}

/// While a scope is under termination, every step keeps its processes accounted for: nothing
/// joins the scope, and a process is only waited for no longer when its outcome is gathered.
pub proof fn steps_keep_processes_accounted_for<O>(
    view: SupervisorView<O>,
    step: Step<O>,
    scope: ProcessScopeId,
    waiting: Set<u64>,
)
    requires
        view.wf(),
        step.enabled(view),
        view.registry.scopes.contains_key(scope.0),
        view.registry.scopes[scope.0].state !is Open,
        view.accounted(scope, waiting),
    ensures
        step.applied(view).accounted(scope, still_waiting(step, scope, waiting)),
        step.applied(view).registry.scopes.contains_key(scope.0) ==> step.applied(
            view,
        ).registry.scopes[scope.0].state !is Open,
{
    let after = step.applied(view);
    assert forall|pid: u64| #[trigger] after.registry.owns(scope.0, pid) implies still_waiting(
        step,
        scope,
        waiting,
    ).contains(pid) || after.gathered(scope).contains_key(pid) by {
        if step.concerns(view) != Some(scope.0) {
            steps_leave_other_scopes_alone(view, step, scope.0);
            assert(view.registry.owns(scope.0, pid));
        } else {
            match step {
                Step::Request { pid: asked } => {
                    assert(view.registry.owns(view.owner(asked), asked.0));
                    assert(view.registry.owns(scope.0, pid));
                },
                _ => {
                    assert(view.registry.owns(scope.0, pid));
                },
            }
        }
    }
}

/// Once every process was joined, a scope is released only if each process it still owns has a
/// verified outcome.
pub proof fn released_scope_is_confirmed_throughout<O>(
    view: SupervisorView<O>,
    scope: ProcessScopeId,
    outcomes: Map<u64, TerminationOutcome>,
    report: ReportView,
    pid: u64,
)
    requires
        view.registry.scopes.contains_key(scope.0),
        view.accounted(scope, Set::empty()),
        report.reports(view.settled(scope, outcomes).pending[scope.0]),
        report.verified(),
        view.registry.owns(scope.0, pid),
    ensures
        confirmed_by(report, pid),
{
    assert(view.gathered(scope).contains_key(pid));
    lemma_report_confirms(report, view.settled(scope, outcomes).pending[scope.0], pid);
}

/// A scope under termination admits nothing, whatever was queued for it.
pub proof fn draining_scope_admits_nothing<O>(
    view: SupervisorView<O>,
    scope: ProcessScopeId,
    finished: bool,
)
    requires
        view.registry.scopes.contains_key(scope.0),
    ensures
        view.drained(scope).spawn_admission(scope, finished) == Err::<(), _>(
            SpawnError::ScopeClosed(scope),
        ),
        view.drained(scope).orphaned(scope) is Some,
        view.drained(scope).orphaned(scope)->0.error == SpawnError::ScopeClosed(scope),
{
}

/// A supervisor that shuts down admits nothing.
pub proof fn closing_supervisor_admits_nothing<O>(
    view: SupervisorView<O>,
    scope: ProcessScopeId,
    finished: bool,
)
    requires
        view.shutting_down,
    ensures
        view.spawn_admission(scope, finished) == Err::<(), _>(SpawnError::ScopeClosed(scope)),
        forall|scoped_block: bool| !(#[trigger] Step::<O>::Create { scoped_block }.enabled(view)),
{
}

/// Shutting down is final.
pub proof fn shutdown_is_final<O>(view: SupervisorView<O>, step: Step<O>)
    requires
        view.shutting_down,
        step.enabled(view),
    ensures
        step.applied(view).shutting_down,
{
}

/// Terminating a released scope again answers with its report, and spawning in it is refused.
pub proof fn released_scope_keeps_its_report<O>(
    view: SupervisorView<O>,
    scope: ProcessScopeId,
    report: ReportView,
    finished: bool,
)
    requires
        view.wf(),
        view.registry.scopes.contains_key(scope.0),
    ensures
        view.released(scope, report).scope_known(scope) == Some(
            Ok::<_, TerminateError>(report),
        ),
        view.released(scope, report).spawn_request(scope) == Err::<(), _>(
            SpawnError::ScopeClosed(scope),
        ),
        view.released(scope, report).spawn_admission(scope, finished) == Err::<(), _>(
            SpawnError::ScopeClosed(scope),
        ),
{
    if view.completed_scopes.len() == crate::supervision::history::HISTORY_BOUND {
        let oldest = view.completed_scopes[0];
        assert(view.completed_scopes.contains(oldest));
        assert(view.completed_scopes.to_set().contains(oldest));
        assert(view.reports.contains_key(oldest));
    }
}

/// A verified outcome that was gathered stays, whatever else is joined or gathered.
pub proof fn verified_outcome_is_never_replaced(
    outcomes: Map<u64, TerminationOutcome>,
    more: Map<u64, TerminationOutcome>,
    pid: u64,
    joined: u64,
    outcome: TerminationOutcome,
)
    requires
        outcomes.contains_key(pid),
        crate::domain::exit::verified(outcomes[pid]),
    ensures
        crate::supervision::supervisor::scope_termination::merged(
            outcomes,
            joined,
            outcome,
        ).contains_key(pid),
        crate::supervision::supervisor::scope_termination::merged(
            outcomes,
            joined,
            outcome,
        )[pid] == outcomes[pid],
        crate::supervision::supervisor::scope_termination::merged_all(
            outcomes,
            more,
        ).contains_key(pid),
        crate::supervision::supervisor::scope_termination::merged_all(outcomes, more)[pid]
            == outcomes[pid],
{
}

/// A capture that was claimed and given back can be claimed once more.
pub proof fn returned_capture_can_be_claimed_again<O>(
    view: SupervisorView<O>,
    pid: ProcessId,
    output: O,
)
    requires
        view.wf(),
    ensures
        view.output_taken(pid).output_returned(pid, output).outputs.contains_key(pid.0),
        view.output_taken(pid).output_returned(pid, output).outputs[pid.0] == output,
{
    let taken = view.output_taken(pid);
    crate::supervision::history::lemma_forget(view.completed, pid.0);
    if taken.completed.len() == crate::supervision::history::HISTORY_BOUND {
        let oldest = taken.completed[0];
        assert(taken.completed.contains(oldest));
        assert(taken.completed.to_set().contains(oldest));
        assert(oldest != pid.0);
    }
}

/// A failed wait is never a verified end, and a finished one always is.
pub proof fn only_a_finished_wait_verifies(
    process: crate::domain::process::ProcessView,
    pid: ProcessId,
    waited: Result<RawExit, WaitError>,
)
    ensures
        crate::domain::exit::verified(
            crate::supervision::supervisor::monitor::monitored_exit(process, pid, waited).outcome,
        ) <==> waited is Ok,
{
}

/// A termination answers with a verified exit only if that exit was observed: sending a signal is
/// never a success by itself.
pub proof fn signal_alone_is_never_a_success(termination: Termination, event: TerminationEvent)
    ensures
        termination.next(event).1 matches TerminationAction::Finish(exit) ==> (
        crate::domain::exit::verified(exit.outcome) ==> event == TerminationEvent::Exited(exit)
            || event == TerminationEvent::Dispatched(Some(exit))),
{
}

/// Force is used only after the graceful signal was sent and the grace period ran out.
pub proof fn force_comes_only_after_grace(termination: Termination, event: TerminationEvent)
    ensures
        termination.next(event).0 is Forcing && termination.phase !is Forcing ==> {
            &&& termination.phase is Graceful
            &&& event is Elapsed
        },
        termination.next(event).1 matches TerminationAction::Signal { signal, .. } ==> (signal
            != termination.target.graceful ==> {
            &&& signal == Signal::Kill
            &&& termination.phase is Graceful
            &&& event is Elapsed
        }),
{
}

/// How many steps a termination can still take.
pub open spec fn steps_left(phase: TerminationPhase) -> nat {
    match phase {
        TerminationPhase::Requested => 3,
        TerminationPhase::Graceful => 2,
        TerminationPhase::Forcing => 1,
        TerminationPhase::Finished => 0,
    }
}

/// Every event that concerns a termination brings it nearer to its end.
pub proof fn termination_goes_forward(termination: Termination, event: TerminationEvent)
    ensures
        termination.next(event).1 is Ignore ==> termination.next(event).0 == termination.phase,
        termination.next(event).1 !is Ignore ==> steps_left(termination.next(event).0)
            < steps_left(termination.phase),
{
}

/// A retry answers with a verified exit only if a fresh wait confirmed it, and starts at most one
/// wait after the first.
pub proof fn retry_needs_a_fresh_wait(retry: Retry, event: RetryEvent)
    requires
        !retry.confirms(event),
    ensures
        retry.next_action(event) matches RetryAction::Finish(exit)
            ==> !crate::domain::exit::verified(exit.outcome),
        retry.next_action(event) matches RetryAction::Signal { observe, .. } ==> (observe
            ==> retry.waits_left() > (Retry { phase: retry.next_phase(event), ..retry }).waits_left()),
        (Retry { phase: retry.next_phase(event), ..retry }).waits_left() <= retry.waits_left(),
{
}

/// A verified exit on record stays on record as it is: a later report, verified or not, changes
/// nothing.
pub proof fn recorded_verified_exit_stands(
    waiters: WaitersView,
    pid: ProcessId,
    exit: ProcessExit,
)
    requires
        waiters.settled(pid),
    ensures
        waiters.signalled(pid, exit) == waiters,
{
}

/// The first exit of a process is on record as soon as it is reported, whether or not anybody
/// waited for it; and it leaves the record only when the bounded history is full.
pub proof fn reported_exit_is_on_record(waiters: WaitersView, pid: ProcessId, exit: ProcessExit)
    requires
        waiters.wf(),
        waiters.recorded(pid) is None,
    ensures
        waiters.signalled(pid, exit).recorded(pid) == Some(exit),
        forall|other: ProcessId|
            other != pid && waiters.completed.len()
                < crate::supervision::history::HISTORY_BOUND ==> #[trigger] waiters.signalled(
                pid,
                exit,
            ).recorded(other) == waiters.recorded(other),
{
    if waiters.completed.len() == crate::supervision::history::HISTORY_BOUND {
        let oldest = waiters.completed[0];
        assert(waiters.completed.contains(oldest));
        assert(waiters.slots[oldest] is Some);
    }
}

/// A published verified cleanup stays: whatever is published after it changes nothing.
pub proof fn verified_cleanup_is_never_downgraded(
    slot: Option<CleanupView>,
    first: CleanupView,
    later: CleanupView,
)
    requires
        first.verified(),
    ensures
        ({
            let after = crate::supervision::supervisor::scoped::published(slot, first);
            &&& crate::supervision::supervisor::scoped::slot_verified(after)
            &&& crate::supervision::supervisor::scoped::published(after, later) == after
        }),
{
}

/// A bounded history keeps its newest entries, in order, and drops the oldest one first.
pub proof fn history_drops_the_oldest_first(order: Seq<u64>, key: u64)
    requires
        order.len() <= crate::supervision::history::HISTORY_BOUND,
    ensures
        ({
            let kept = crate::supervision::history::newest(order.push(key));
            &&& kept.len() <= crate::supervision::history::HISTORY_BOUND
            &&& kept.last() == key
            &&& order.len() < crate::supervision::history::HISTORY_BOUND ==> kept == order.push(key)
            &&& order.len() == crate::supervision::history::HISTORY_BOUND ==> kept == order.skip(
                1,
            ).push(key)
        }),
{
    let grown = order.push(key);
    if order.len() == crate::supervision::history::HISTORY_BOUND {
        assert(grown.skip(1) =~= order.skip(1).push(key));
    }
}

} // verus!
