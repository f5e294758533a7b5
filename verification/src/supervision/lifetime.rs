//! What holds of a supervisor over its whole lifetime, after any number of steps.
use vstd::prelude::*;
use crate::domain::event::DomainEvent;
use crate::domain::exit::{ProcessExit, RawExit, TerminationOutcome};
use crate::domain::ids::{ProcessId, ProcessScopeId};
use crate::domain::scope::ScopeView;
use crate::domain::time::Duration;
use crate::supervision::error::WaitError;
use crate::supervision::laws::Step;
use crate::supervision::report::ReportView;
use crate::supervision::supervisor::SupervisorView;

verus! {

/// A supervisor together with the processes that each termination under way still waits for.
pub struct Lifetime<O> {
    /// What the supervisor knows.
    pub view: SupervisorView<O>,
    /// The processes whose end was not joined yet, by the scope under termination.
    pub waiting: Map<u64, Set<u64>>,
}

impl<O> Lifetime<O> {
    /// A supervisor that was just created.
    pub open spec fn start(stats_interval: Duration) -> Lifetime<O> {
        Lifetime { view: SupervisorView::fresh(stats_interval), waiting: Map::empty() }
    }

    /// The step can come next. A scope is released only by a termination that joined the end of
    /// every process.
    pub open spec fn admits(self, step: Step<O>) -> bool {
        &&& step.enabled(self.view)
        &&& match step {
            Step::Release { scope, .. } => {
                &&& self.waiting.contains_key(scope.0)
                &&& self.waiting[scope.0] =~= Set::empty()
            },
            _ => true,
        }
    }

    /// After the step.
    pub open spec fn after(self, step: Step<O>) -> Lifetime<O> {
        Lifetime {
            view: step.applied(self.view),
            waiting: match step {
                Step::Drain { scope } => self.waiting.insert(
                    scope.0,
                    self.view.registry.scopes[scope.0].processes.dom(),
                ),
                Step::Join { scope, pid, .. } => if self.waiting.contains_key(scope.0) {
                    self.waiting.insert(scope.0, self.waiting[scope.0].remove(pid.0))
                } else {
                    self.waiting
                },
                Step::Release { scope, .. } => self.waiting.remove(scope.0),
                _ => self.waiting,
            },
        }
    }

    /// The supervisor is consistent, and every scope under termination is closed to new
    /// processes, accounts for those it owns and has gathered the exits on record.
    pub open spec fn sound(self) -> bool {
        &&& self.view.wf()
        &&& forall|scope: u64| #[trigger]
            self.waiting.contains_key(scope) ==> {
                &&& self.view.registry.scopes.contains_key(scope)
                &&& self.view.registry.scopes[scope].state !is Open
                &&& self.view.accounted(ProcessScopeId(scope), self.waiting[scope])
                &&& exits_gathered(self.view, scope)
            }
    }
}

/// The outcome of every process of `scope` with an exit on record is gathered.
pub open spec fn exits_gathered<O>(view: SupervisorView<O>, scope: u64) -> bool {
    forall|pid: u64| #[trigger]
        view.registry.owns(scope, pid) && view.registry.scopes[scope].processes[pid].exit is Some
            ==> view.gathered(ProcessScopeId(scope)).contains_key(pid)
}

/// The supervisor after `steps`.
pub open spec fn lived<O>(stats_interval: Duration, steps: Seq<Step<O>>) -> Lifetime<O>
    decreases steps.len(),
{
    if steps.len() == 0 {
        Lifetime::start(stats_interval)
    } else {
        lived(stats_interval, steps.drop_last()).after(steps.last())
    }
}

/// `steps` can happen to a supervisor, one after the other.
pub open spec fn possible<O>(stats_interval: Duration, steps: Seq<Step<O>>) -> bool
    decreases steps.len(),
{
    steps.len() == 0 || {
        &&& possible(stats_interval, steps.drop_last())
        &&& lived(stats_interval, steps.drop_last()).admits(steps.last())
    }
}

/// The step takes `pid` from `scope`, and the end of the process is confirmed: its verified exit is
/// on record, or the report that the scope is released with confirms it.
pub open spec fn confirms_the_end<O>(
    view: SupervisorView<O>,
    step: Step<O>,
    scope: u64,
    pid: u64,
) -> bool {
    &&& view.registry.owns(scope, pid)
    &&& !step.applied(view).registry.owns(scope, pid)
    &&& view.registry.scopes[scope].processes[pid].settled() || (step is Release
        && crate::supervision::laws::confirmed_by(step->report, pid))
}

/// A scope stays consistent when the end of a process is observed and recorded.
proof fn lemma_ended_scope(scope: ScopeView, pid: ProcessId, exit: ProcessExit)
    requires
        scope.wf(),
        scope.processes.contains_key(pid.0),
    ensures
        scope.reaped(pid, exit).wf(),
        scope.with(pid, scope.processes[pid.0].exited()).reaped(pid, exit).wf(),
{
}

/// A scope stays consistent when it drains.
proof fn lemma_draining_scope(scope: ScopeView)
    requires
        scope.wf(),
    ensures
        scope.draining().wf(),
        scope.draining().processes.dom() =~= scope.processes.dom(),
{
    assert(scope.draining().processes.dom() =~= scope.processes.dom());
}

/// A supervisor stays consistent when a scope takes on another consistent state without gaining
/// a process.
proof fn lemma_scope_changed<O>(view: SupervisorView<O>, id: u64, scope: ScopeView)
    requires
        view.wf(),
        view.registry.scopes.contains_key(id),
        scope.id.0 == id,
        scope.wf(),
        scope.processes.dom().subset_of(view.registry.scopes[id].processes.dom()),
    ensures
        (SupervisorView { registry: view.registry.with(id, scope), ..view }).wf(),
{
    let after = SupervisorView { registry: view.registry.with(id, scope), ..view };
    assert(after.registry.scopes.dom() =~= view.registry.scopes.dom());
    assert forall|other: u64, pid: u64| #[trigger]
        after.registry.owns(other, pid) implies view.registry.owns(other, pid) by {}
}

/// A supervisor stays consistent when outcomes are gathered for a scope it owns.
proof fn lemma_gathered<O>(
    view: SupervisorView<O>,
    id: u64,
    outcomes: Map<u64, TerminationOutcome>,
)
    requires
        view.wf(),
        view.registry.scopes.contains_key(id),
    ensures
        (SupervisorView { pending: view.pending.insert(id, outcomes), ..view }).wf(),
{
}

/// A supervisor stays consistent when the capture of a completed process joins the history.
proof fn lemma_capture_retained<O>(view: SupervisorView<O>, pid: ProcessId)
    requires
        view.wf(),
    ensures
        view.output_retained(pid).wf(),
{
    if view.outputs.contains_key(pid.0) && !view.completed.contains(pid.0) {
        crate::supervision::history::lemma_push_recent(view.completed, pid.0);
    }
}

/// A supervisor stays consistent when a capture is claimed.
proof fn lemma_capture_taken<O>(view: SupervisorView<O>, pid: ProcessId)
    requires
        view.wf(),
    ensures
        view.output_taken(pid).wf(),
{
    crate::supervision::history::lemma_forget(view.completed, pid.0);
}

/// A supervisor stays consistent when a scope is created.
proof fn lemma_scope_created<O>(view: SupervisorView<O>, scoped_block: bool)
    requires
        view.wf(),
        view.registry.next_scope < u64::MAX,
    ensures
        (Step::Create { scoped_block }).applied(view).wf(),
{
    let after = (Step::Create { scoped_block }).applied(view);
    let id = after.registry.next_scope;
    assert(after.registry.scopes[id].processes.dom() =~= Set::empty());
    assert forall|other: u64, pid: u64| #[trigger]
        after.registry.owns(other, pid) implies view.registry.owns(other, pid) by {}
    if view.completed_scoped.contains(id) {
        assert(view.completed_scoped.to_set().contains(id));
        assert(view.scoped.contains(id));
    }
}

/// A supervisor stays consistent when a process is attached.
proof fn lemma_attached<O>(view: SupervisorView<O>, step: Step<O>)
    requires
        view.wf(),
        step is Attach,
        step.enabled(view),
    ensures
        step.applied(view).wf(),
{
    let after = step.applied(view);
    if let Step::Attach { scope, pid, os, .. } = step {
        crate::supervision::laws::attached_identity_is_new(view, pid);
        assert forall|other: u64, owned: u64| #[trigger]
            after.registry.owns(other, owned) implies view.registry.owns(other, owned) || (other
            == scope.0 && owned == pid.0) by {}
        assert(forall|other: u64| !view.registry.owns(other, pid.0));
        assert(after.registry.scopes.dom() =~= view.registry.scopes.dom());
        let known = view.os_pids;
        if !known.by_pid.contains_key(pid.0) {
            assert(!known.order.contains(pid.0)) by {
                assert(known.order.to_set().contains(pid.0) <==> known.by_pid.dom().contains(
                    pid.0,
                ));
            }
            crate::supervision::history::lemma_push_recent(known.order, pid.0);
            if known.order.len() == crate::supervision::history::HISTORY_BOUND {
                assert(known.order.contains(known.order[0]));
            }
        }
        assert(after.os_pids.order.to_set() =~= after.os_pids.by_pid.dom());
    }
}

/// A supervisor stays consistent when a scope is released with a verified report.
proof fn lemma_released<O>(view: SupervisorView<O>, scope: ProcessScopeId, report: ReportView)
    requires
        view.wf(),
        view.registry.scopes.contains_key(scope.0),
        report.scope == scope,
        report.verified(),
    ensures
        view.released(scope, report).wf(),
{
    let after = view.released(scope, report);
    assert forall|other: u64, pid: u64| #[trigger]
        after.registry.owns(other, pid) implies view.registry.owns(other, pid) by {}
    assert(!view.completed_scopes.contains(scope.0)) by {
        if view.completed_scopes.contains(scope.0) {
            assert(view.completed_scopes.to_set().contains(scope.0));
        }
    }
    crate::supervision::history::lemma_push_recent(view.completed_scopes, scope.0);
    if view.completed_scopes.len() == crate::supervision::history::HISTORY_BOUND {
        assert(view.completed_scopes.contains(view.completed_scopes[0]));
    }
    assert(after.completed_scopes.to_set() =~= after.reports.dom());
    if view.scoped.contains(scope.0) {
        crate::supervision::history::lemma_push_recent(view.completed_scoped, scope.0);
        if view.completed_scoped.len() == crate::supervision::history::HISTORY_BOUND {
            assert(view.completed_scoped.contains(view.completed_scoped[0]));
            assert(view.completed_scoped.to_set().contains(view.completed_scoped[0]));
        }
    }
    assert forall|id: u64| #[trigger] after.scoped.contains(id) implies {
        &&& id <= after.registry.next_scope
        &&& after.registry.scopes.contains_key(id) != after.completed_scoped.contains(id)
    } by {
        assert(view.scoped.contains(id));
        assert(after.completed_scoped.contains(id) <==> after.completed_scoped.to_set().contains(
            id,
        ));
        assert(view.completed_scoped.contains(id) <==> view.completed_scoped.to_set().contains(id));
    }
}

/// A supervisor stays consistent when the wait for a process finished.
proof fn lemma_monitored<O>(
    view: SupervisorView<O>,
    scope: ProcessScopeId,
    pid: ProcessId,
    waited: Result<RawExit, WaitError>,
)
    requires
        view.wf(),
        view.registry.owns(scope.0, pid.0),
    ensures
        view.monitored(scope, pid, waited).wf(),
{
    let before = view.registry.scopes[scope.0];
    let exit = crate::supervision::supervisor::monitor::monitored_exit(
        before.processes[pid.0],
        pid,
        waited,
    );
    let ended = before.with(pid, before.processes[pid.0].exited()).reaped(pid, exit);
    lemma_ended_scope(before, pid, exit);
    assert(ended.processes.dom() =~= before.processes.dom());
    lemma_scope_changed(view, scope.0, ended);
    let recorded = SupervisorView {
        registry: view.registry.with(scope.0, ended),
        samples: view.samples.remove(pid.0),
        ..view
    };
    assert(recorded.wf());
    lemma_gathered(recorded, scope.0, recorded.gathered(scope).insert(pid.0, exit.outcome));
    let gathered = if before.state is Open {
        recorded
    } else {
        recorded.outcome_recorded(scope, pid, exit.outcome)
    };
    lemma_capture_retained(gathered, pid);
}

/// A supervisor stays consistent when a failed wait is corrected.
proof fn lemma_recovered<O>(
    view: SupervisorView<O>,
    scope: ProcessScopeId,
    pid: ProcessId,
    raw: RawExit,
)
    requires
        view.wf(),
    ensures
        view.recovered(scope, pid, raw).wf(),
{
    let exit = crate::supervision::supervisor::monitor::recovered_exit(pid, raw);
    let before = view.registry.scopes[scope.0];
    if view.registry.owns(scope.0, pid.0) && !before.processes[pid.0].settled() {
        lemma_ended_scope(before, pid, exit);
        assert(before.reaped(pid, exit).processes.dom() =~= before.processes.dom());
        lemma_scope_changed(view, scope.0, before.reaped(pid, exit));
        let recorded = SupervisorView {
            registry: view.registry.with(scope.0, before.reaped(pid, exit)),
            ..view
        };
        lemma_gathered(recorded, scope.0, recorded.gathered(scope).insert(pid.0, exit.outcome));
        lemma_capture_retained(recorded, pid);
        lemma_capture_retained(recorded.outcome_recorded(scope, pid, exit.outcome), pid);
    } else {
        lemma_capture_retained(view, pid);
    }
}

/// Every step keeps a supervisor consistent.
pub proof fn steps_keep_the_supervisor_consistent<O>(view: SupervisorView<O>, step: Step<O>)
    requires
        view.wf(),
        step.enabled(view),
    ensures
        step.applied(view).wf(),
{
    match step {
        Step::Create { scoped_block } => {
            lemma_scope_created(view, scoped_block);
        },
        Step::Attach { .. } => {
            lemma_attached(view, step);
        },
        Step::Refuse { .. } => {
            assert forall|id: u64, pid: u64| #[trigger]
                step.applied(view).registry.owns(id, pid) implies view.registry.owns(id, pid) by {}
        },
        Step::Monitor { scope, pid, waited } => {
            lemma_monitored(view, scope, pid, waited);
        },
        Step::Recover { scope, pid, raw } => {
            lemma_recovered(view, scope, pid, raw);
        },
        Step::Request { pid } => {
            let owner = view.owner(pid);
            assert(view.registry.owns(owner, pid.0));
            let asked = view.registry.scopes[owner].with(pid, view.process(pid).requested());
            assert(asked.processes.dom() =~= view.registry.scopes[owner].processes.dom());
            lemma_scope_changed(view, owner, asked);
        },
        Step::Escalate { scope, pid } => {
            if view.registry.owns(scope.0, pid.0) {
                let before = view.registry.scopes[scope.0];
                let forced = before.with(pid, before.processes[pid.0].escalated());
                assert(forced.processes.dom() =~= before.processes.dom());
                lemma_scope_changed(view, scope.0, forced);
            }
        },
        Step::Drain { scope } => {
            let before = view.registry.scopes[scope.0];
            lemma_draining_scope(before);
            lemma_scope_changed(view, scope.0, before.draining());
            lemma_gathered(
                SupervisorView {
                    registry: view.registry.with(scope.0, before.draining()),
                    ..view
                },
                scope.0,
                crate::supervision::supervisor::scope_termination::captured(
                    view.gathered(scope),
                    before.processes,
                ),
            );
        },
        Step::Join { .. } => {},
        Step::Settle { .. } => {},
        Step::Release { scope, report } => {
            lemma_released(view, scope, report);
        },
        Step::Prune { event } => {
            if let DomainEvent::ProcessReaped { scope, pid, .. } = event {
                if view.registry.scopes.contains_key(scope.0) {
                    lemma_scope_changed(
                        view,
                        scope.0,
                        view.registry.scopes[scope.0].pruned(pid),
                    );
                }
            }
        },
        Step::TakeOutput { pid } => {
            lemma_capture_taken(view, pid);
        },
        Step::ReturnOutput { pid, output } => {
            let unclaimed = SupervisorView { outputs: view.outputs.insert(pid.0, output), ..view };
            assert(unclaimed.wf());
            lemma_capture_retained(unclaimed, pid);
        },
        Step::Observe { .. } => {},
        Step::Close { .. } => {},
    }
}

/// A scope under termination goes on gathering the exits on record.
proof fn lemma_exits_stay_gathered<O>(view: SupervisorView<O>, step: Step<O>, scope: u64)
    requires
        view.wf(),
        step.enabled(view),
        view.registry.scopes.contains_key(scope),
        view.registry.scopes[scope].state !is Open,
        exits_gathered(view, scope),
    ensures
        exits_gathered(step.applied(view), scope),
{
    let after = step.applied(view);
    let id = ProcessScopeId(scope);
    assert forall|pid: u64| #[trigger]
        after.registry.owns(scope, pid)
            && after.registry.scopes[scope].processes[pid].exit is Some implies after.gathered(
        id,
    ).contains_key(pid) by {
        if step.concerns(view) != Some(scope) {
            crate::supervision::laws::steps_leave_other_scopes_alone(view, step, scope);
            assert(view.registry.owns(scope, pid));
        } else {
            if let Step::Request { pid: asked } = step {
                assert(view.registry.owns(view.owner(asked), asked.0));
            }
            assert(view.registry.owns(scope, pid));
        }
    }
}

/// A scope gathers the exits on record as its termination begins.
proof fn lemma_drain_gathers_exits<O>(view: SupervisorView<O>, scope: ProcessScopeId)
    requires
        view.registry.scopes.contains_key(scope.0),
    ensures
        exits_gathered(view.drained(scope), scope.0),
{
    let after = view.drained(scope);
    assert forall|pid: u64| #[trigger]
        after.registry.owns(scope.0, pid)
            && after.registry.scopes[scope.0].processes[pid].exit is Some implies after.gathered(
        scope,
    ).contains_key(pid) by {
        assert(view.registry.scopes[scope.0].processes.contains_key(pid));
    }
}

/// A sound lifetime stays sound with every step that can come next.
proof fn lemma_stays_sound<O>(lifetime: Lifetime<O>, step: Step<O>)
    requires
        lifetime.sound(),
        lifetime.admits(step),
    ensures
        lifetime.after(step).sound(),
{
    let after = lifetime.after(step);
    steps_keep_the_supervisor_consistent(lifetime.view, step);
    assert forall|scope: u64| #[trigger] after.waiting.contains_key(scope) implies {
        &&& after.view.registry.scopes.contains_key(scope)
        &&& after.view.registry.scopes[scope].state !is Open
        &&& after.view.accounted(ProcessScopeId(scope), after.waiting[scope])
        &&& exits_gathered(after.view, scope)
    } by {
        let id = ProcessScopeId(scope);
        match step {
            Step::Drain { scope: drained } if drained.0 == scope => {
                crate::supervision::laws::draining_accounts_for_every_process(
                    lifetime.view,
                    drained,
                );
                lemma_drain_gathers_exits(lifetime.view, drained);
            },
            _ => {
                assert(lifetime.waiting.contains_key(scope));
                crate::supervision::laws::steps_keep_processes_accounted_for(
                    lifetime.view,
                    step,
                    id,
                    lifetime.waiting[scope],
                );
                lemma_exits_stay_gathered(lifetime.view, step, scope);
                if step.concerns(lifetime.view) != Some(scope) {
                    crate::supervision::laws::steps_leave_other_scopes_alone(
                        lifetime.view,
                        step,
                        scope,
                    );
                }
                assert(after.waiting[scope] =~= crate::supervision::laws::still_waiting(
                    step,
                    id,
                    lifetime.waiting[scope],
                ));
            },
        }
    }
}

/// Whatever happens to a supervisor, what it knows stays consistent, and every scope under
/// termination stays closed to new processes, accounts for those it owns and has gathered the
/// exits on record.
pub proof fn every_lifetime_is_sound<O>(stats_interval: Duration, steps: Seq<Step<O>>)
    requires
        possible(stats_interval, steps),
    ensures
        lived(stats_interval, steps).sound(),
    decreases steps.len(),
{
    if steps.len() > 0 {
        every_lifetime_is_sound(stats_interval, steps.drop_last());
        lemma_stays_sound(lived(stats_interval, steps.drop_last()), steps.last());
    } else {
        let view = SupervisorView::<O>::fresh(stats_interval);
        assert(view.completed_scopes.to_set() =~= view.reports.dom());
        assert(view.os_pids.order.to_set() =~= view.os_pids.by_pid.dom());
    }
}

/// A step gives a scope a process only by attaching it under a new identity.
proof fn lemma_only_attachment_adds<O>(
    view: SupervisorView<O>,
    step: Step<O>,
    scope: u64,
    pid: u64,
)
    requires
        view.wf(),
        step.enabled(view),
        step.applied(view).registry.owns(scope, pid),
        !view.registry.owns(scope, pid),
    ensures
        step is Attach,
        pid == view.registry.next_process + 1,
{
    match step {
        Step::Request { pid: asked } => {
            assert(view.registry.owns(view.owner(asked), asked.0));
        },
        _ => {},
    }
}

/// No step takes an identity back.
proof fn lemma_identities_grow<O>(view: SupervisorView<O>, step: Step<O>)
    requires
        view.wf(),
        step.enabled(view),
    ensures
        step.applied(view).registry.next_process >= view.registry.next_process,
{
}

/// A process that a scope owned at some time is owned by that scope still, unless a step since
/// then took it away with its end confirmed; and no other scope has owned it since.
pub proof fn process_is_owned_until_its_end_is_confirmed<O>(
    stats_interval: Duration,
    steps: Seq<Step<O>>,
    at: int,
    scope: u64,
    pid: u64,
)
    requires
        possible(stats_interval, steps),
        0 <= at <= steps.len(),
        lived(stats_interval, steps.take(at)).view.registry.owns(scope, pid),
    ensures
        lived(stats_interval, steps).view.registry.owns(scope, pid) || exists|i: int|
            at <= i < steps.len() && #[trigger] confirms_the_end(
                lived(stats_interval, steps.take(i)).view,
                steps[i],
                scope,
                pid,
            ),
        forall|other: u64| #[trigger]
            lived(stats_interval, steps).view.registry.owns(other, pid) ==> other == scope,
        pid <= lived(stats_interval, steps).view.registry.next_process,
    decreases steps.len(),
{
    every_lifetime_is_sound(stats_interval, steps);
    if at == steps.len() {
        assert(steps.take(at) =~= steps);
    } else {
        let earlier = steps.drop_last();
        let before = lived(stats_interval, earlier);
        let step = steps.last();
        let last = steps.len() - 1;
        assert(earlier.take(at) =~= steps.take(at));
        assert(steps.take(last) =~= earlier);
        process_is_owned_until_its_end_is_confirmed(stats_interval, earlier, at, scope, pid);
        every_lifetime_is_sound(stats_interval, earlier);
        lemma_identities_grow(before.view, step);
        assert forall|other: u64| #[trigger]
            lived(stats_interval, steps).view.registry.owns(other, pid) implies other == scope by {
            if !before.view.registry.owns(other, pid) {
                lemma_only_attachment_adds(before.view, step, other, pid);
            }
        }
        if before.view.registry.owns(scope, pid) {
            if !step.applied(before.view).registry.owns(scope, pid) {
                crate::supervision::laws::ownership_ends_only_with_a_confirmed_end(
                    before.view,
                    step,
                    scope,
                    pid,
                );
                assert(confirms_the_end(
                    lived(stats_interval, steps.take(last)).view,
                    steps[last],
                    scope,
                    pid,
                ));
            }
        } else {
            let i = choose|i: int|
                at <= i < earlier.len() && #[trigger] confirms_the_end(
                    lived(stats_interval, earlier.take(i)).view,
                    earlier[i],
                    scope,
                    pid,
                );
            assert(earlier.take(i) =~= steps.take(i));
            assert(confirms_the_end(
                lived(stats_interval, steps.take(i)).view,
                steps[i],
                scope,
                pid,
            ));
        }
    }
}

/// Nothing is left behind: once a supervisor owns no scope any more, the end of every process
/// that was ever attached is confirmed.
pub proof fn nothing_is_left_behind<O>(stats_interval: Duration, steps: Seq<Step<O>>, at: int)
    requires
        possible(stats_interval, steps),
        0 <= at < steps.len(),
        steps[at] is Attach,
        lived(stats_interval, steps).view.registry.scopes.dom() =~= Set::empty(),
    ensures
        exists|i: int|
            at < i < steps.len() && #[trigger] confirms_the_end(
                lived(stats_interval, steps.take(i)).view,
                steps[i],
                steps[at]->Attach_scope.0,
                steps[at]->Attach_pid.0,
            ),
{
    let scope = steps[at]->Attach_scope.0;
    let pid = steps[at]->Attach_pid.0;
    let until = steps.take(at + 1);
    assert(until.drop_last() =~= steps.take(at));
    assert(until.last() == steps[at]);
    assert(lived(stats_interval, until).view.registry.owns(scope, pid));
    process_is_owned_until_its_end_is_confirmed(stats_interval, steps, at + 1, scope, pid);
}

} // verus!
