//! What the end of a process is recorded as.
use vstd::prelude::*;
use crate::domain::event::DomainEvent;
use crate::domain::exit::{ProcessExit, RawExit, TerminationOutcome, UnverifiedReason};
use crate::domain::ids::{ProcessId, ProcessScopeId};
use crate::domain::process::ProcessView;
use crate::domain::scope::ScopeView;
use crate::domain::spec::Signal;
use crate::supervision::error::WaitError;
use crate::supervision::supervisor::{ProcessSupervisor, SupervisorView};

verus! {

/// The exit that a finished wait for `process` stands for: a failed wait is never a verified
/// exit, and force counts only when the process was actually killed.
pub open spec fn monitored_exit(
    process: ProcessView,
    pid: ProcessId,
    waited: Result<RawExit, WaitError>,
) -> ProcessExit {
    match waited {
        Err(_) => ProcessExit {
            pid,
            code: None,
            signal: None,
            outcome: TerminationOutcome::CleanupUnverified(UnverifiedReason::ReapFailed),
            forced: false,
        },
        Ok(raw) => ProcessExit {
            pid,
            code: raw.code,
            signal: raw.signal,
            outcome: if !(process.state is GracefulRequested || process.state is Forcing) {
                TerminationOutcome::ExitedNaturally
            } else if raw.signal == Some(Signal::Kill) {
                TerminationOutcome::ForcedRequired
            } else {
                TerminationOutcome::GracefulSuccess
            },
            forced: raw.signal == Some(Signal::Kill),
        },
    }
}

/// The exit that a wait after an earlier failure stands for.
pub open spec fn recovered_exit(pid: ProcessId, raw: RawExit) -> ProcessExit {
    ProcessExit {
        pid,
        code: raw.code,
        signal: raw.signal,
        outcome: if raw.signal == Some(Signal::Kill) {
            TerminationOutcome::ForcedRequired
        } else {
            TerminationOutcome::GracefulSuccess
        },
        forced: raw.signal == Some(Signal::Kill),
    }
}

/// The events that leave the aggregate at once: a closed scope is only announced after its
/// containment was swept.
pub open spec fn announced(events: Seq<DomainEvent>) -> Seq<DomainEvent> {
    events.filter(|event: DomainEvent| !(event is ScopeClosed))
}

/// The events of a process of `scope` that exited and was reaped with `exit`.
pub open spec fn end_events(scope: ScopeView, pid: ProcessId, exit: ProcessExit) -> Seq<
    DomainEvent,
> {
    let process = scope.processes[pid.0];
    let exited = if process.state.live() {
        seq![DomainEvent::ProcessExited { scope: scope.id, pid }]
    } else {
        Seq::empty()
    };
    if process.exited().can_reap(exit) {
        exited.push(DomainEvent::ProcessReaped { scope: scope.id, pid, exit })
    } else {
        exited
    }
}

/// The events of a reap with `exit`, without the closing of the scope.
pub open spec fn correction_events(scope: ScopeView, pid: ProcessId, exit: ProcessExit) -> Seq<
    DomainEvent,
> {
    if scope.processes[pid.0].can_reap(exit) {
        seq![DomainEvent::ProcessReaped { scope: scope.id, pid, exit }]
    } else {
        Seq::empty()
    }
}

impl<O> SupervisorView<O> {
    /// After the wait for an owned process finished.
    pub open spec fn monitored(
        self,
        scope: ProcessScopeId,
        pid: ProcessId,
        waited: Result<RawExit, WaitError>,
    ) -> SupervisorView<O> {
        let before = self.registry.scopes[scope.0];
        let exit = monitored_exit(before.processes[pid.0], pid, waited);
        let ended = before.with(pid, before.processes[pid.0].exited()).reaped(pid, exit);
        let recorded = SupervisorView {
            registry: self.registry.with(scope.0, ended),
            samples: self.samples.remove(pid.0),
            ..self
        };
        let gathered = if before.state is Open {
            recorded
        } else {
            recorded.outcome_recorded(scope, pid, exit.outcome)
        };
        if waited is Ok {
            gathered.output_retained(pid)
        } else {
            gathered
        }
    }

    /// The exit that a recovery reports: one that is already verified stands.
    pub open spec fn recovery(self, scope: ProcessScopeId, pid: ProcessId, raw: RawExit) -> ProcessExit {
        if self.registry.owns(scope.0, pid.0)
            && self.registry.scopes[scope.0].processes[pid.0].settled() {
            self.registry.scopes[scope.0].processes[pid.0].exit->0
        } else {
            recovered_exit(pid, raw)
        }
    }

    /// After a process whose first wait failed was reaped after all.
    pub open spec fn recovered(self, scope: ProcessScopeId, pid: ProcessId, raw: RawExit) -> SupervisorView<
        O,
    > {
        let exit = recovered_exit(pid, raw);
        let before = self.registry.scopes[scope.0];
        let corrected = if self.registry.owns(scope.0, pid.0)
            && !before.processes[pid.0].settled() {
            let recorded = SupervisorView {
                registry: self.registry.with(scope.0, before.reaped(pid, exit)),
                ..self
            };
            if before.state is Open {
                recorded
            } else {
                recorded.outcome_recorded(scope, pid, exit.outcome)
            }
        } else {
            self
        };
        corrected.output_retained(pid)
    }

    /// The events of a recovery.
    pub open spec fn recovery_events(
        self,
        scope: ProcessScopeId,
        pid: ProcessId,
        raw: RawExit,
    ) -> Seq<DomainEvent> {
        if self.registry.owns(scope.0, pid.0)
            && !self.registry.scopes[scope.0].processes[pid.0].settled() {
            correction_events(self.registry.scopes[scope.0], pid, recovered_exit(pid, raw))
        } else {
            Seq::empty()
        }
    }
}

/// Appends those of `more` that do not close a scope.
fn announce(events: &mut Vec<DomainEvent>, more: &Vec<DomainEvent>)
    ensures
        final(events)@ == old(events)@ + announced(more@),
{
    let ghost open = |event: DomainEvent| !(event is ScopeClosed);
    let ghost base = old(events)@;
    let mut i: usize = 0;
    assert(more@.take(0).filter(open) =~= Seq::empty()) by {
        reveal(Seq::filter);
    }
    assert(events@ =~= base + more@.take(0).filter(open));
    while i < more.len()
        invariant
            i <= more@.len(),
            open == (|event: DomainEvent| !(event is ScopeClosed)),
            base == old(events)@,
            events@ == base + more@.take(i as int).filter(open),
        decreases more@.len() - i,
    {
        let event = more[i];
        proof {
            assert(more@.take(i + 1).drop_last() =~= more@.take(i as int));
            reveal(Seq::filter);
        }
        if !matches!(event, DomainEvent::ScopeClosed { .. }) {
            events.push(event);
        }
        assert(events@ =~= base + more@.take(i + 1).filter(open));
        i = i + 1;
    }
    assert(more@.take(i as int) =~= more@);
}

/// The announced events of a reap.
proof fn lemma_announced_reap(scope: ScopeView, pid: ProcessId, exit: ProcessExit)
    ensures
        announced(scope.reap_events(pid, exit)) == correction_events(scope, pid, exit),
{
    let open = |event: DomainEvent| !(event is ScopeClosed);
    let events = scope.reap_events(pid, exit);
    reveal_with_fuel(Seq::filter, 3);
    if events.len() == 2 {
        assert(events.drop_last() =~= seq![DomainEvent::ProcessReaped { scope: scope.id, pid, exit }]);
        assert(events.drop_last().drop_last() =~= Seq::empty());
        assert(events.filter(open) =~= seq![DomainEvent::ProcessReaped { scope: scope.id, pid, exit }]);
    } else if events.len() == 1 {
        assert(events.drop_last() =~= Seq::empty());
        assert(events.filter(open) =~= events);
    } else {
        assert(events.filter(open) =~= Seq::empty());
    }
}

impl<O> ProcessSupervisor<O> {
    /// Records the end of a process from the result of its wait, and answers the events to
    /// dispatch, or `None` when the process is no longer owned by `scope`.
    ///
    /// The outcome follows from what happened, not from which signals were sent: a process
    /// that exits in the window before an escalation takes hold is not reported as forced.
    pub fn record_wait_result(
        &mut self,
        scope: ProcessScopeId,
        pid: ProcessId,
        waited: Result<RawExit, WaitError>,
    ) -> (events: Option<Vec<DomainEvent>>)
        requires
            old(self).wf(),
        ensures
            final(self).wf(),
            match events {
                Some(events) => {
                    &&& old(self)@.registry.owns(scope.0, pid.0)
                    &&& final(self)@ == old(self)@.monitored(scope, pid, waited)
                    &&& events@ == end_events(
                        old(self)@.registry.scopes[scope.0],
                        pid,
                        monitored_exit(
                            old(self)@.registry.scopes[scope.0].processes[pid.0],
                            pid,
                            waited,
                        ),
                    )
                },
                None => {
                    &&& !old(self)@.registry.owns(scope.0, pid.0)
                    &&& final(self)@ == old(self)@
                },
            },
    {
        let ghost before = *old(self);
        let ghost held = before@.registry.scopes[scope.0];
        proof {
            self.registry.lemma_wf();
        }
        let verified_reap = waited.is_ok();
        let mut events: Vec<DomainEvent> = Vec::new();
        let open;
        let outcome;
        match self.registry.get_mut(scope) {
            None => {
                return None;
            },
            Some(found) => {
                let terminating = match found.get(pid) {
                    None => {
                        assert(found@ == held);
                        assert(self@.registry =~= before@.registry);
                        return None;
                    },
                    Some(process) => process.state().is_terminating(),
                };
                let exit = match waited {
                    Ok(raw) => {
                        let killed = raw.signal == Some(Signal::Kill);
                        ProcessExit {
                            pid,
                            code: raw.code,
                            signal: raw.signal,
                            outcome: if !terminating {
                                TerminationOutcome::ExitedNaturally
                            } else if killed {
                                TerminationOutcome::ForcedRequired
                            } else {
                                TerminationOutcome::GracefulSuccess
                            },
                            forced: killed,
                        }
                    },
                    Err(_) => ProcessExit {
                        pid,
                        code: None,
                        signal: None,
                        outcome: TerminationOutcome::CleanupUnverified(
                            UnverifiedReason::ReapFailed,
                        ),
                        forced: false,
                    },
                };
                outcome = exit.outcome;
                if let Ok(exited) = found.record_exit(pid) {
                    events = exited;
                }
                let ghost after_exit = found@;
                if let Ok(reaped) = found.record_reaped(pid, exit) {
                    announce(&mut events, &reaped);
                    proof {
                        lemma_announced_reap(after_exit, pid, exit);
                    }
                }
                open = found.is_open();
            },
        }
        proof {
            let exit = monitored_exit(held.processes[pid.0], pid, waited);
            assert(events@ =~= end_events(held, pid, exit));
            assert(self@.registry.scopes[scope.0].processes.dom() =~= held.processes.dom());
            Self::lemma_same_owners(before, *self, scope.0);
        }
        if !open {
            self.record_outcome(scope, pid, outcome);
        }
        self.samples.remove(pid.0);
        if verified_reap {
            self.retain_completed_output(pid);
        }
        assert(self@ =~= before@.monitored(scope, pid, waited));
        Some(events)
    }

    /// Forgets when a process was attached, once its end was dispatched.
    pub fn forget_spawn_time(&mut self, pid: ProcessId)
        requires
            old(self).wf(),
        ensures
            final(self)@ == (SupervisorView {
                spawn_times: old(self)@.spawn_times.remove(pid.0),
                ..old(self)@
            }),
            final(self).wf(),
    {
        self.spawn_times.remove(pid.0);
        assert(self@ =~= SupervisorView {
            spawn_times: old(self)@.spawn_times.remove(pid.0),
            ..old(self)@
        });
    }

    /// Records the end of a process whose first wait failed, and answers the exit to report
    /// and the events to dispatch. An exit that is already verified is never replaced.
    pub fn record_recovered_exit(
        &mut self,
        scope: ProcessScopeId,
        pid: ProcessId,
        raw: RawExit,
    ) -> (result: (ProcessExit, Vec<DomainEvent>))
        requires
            old(self).wf(),
        ensures
            final(self).wf(),
            result.0 == old(self)@.recovery(scope, pid, raw),
            result.1@ == old(self)@.recovery_events(scope, pid, raw),
            final(self)@ == old(self)@.recovered(scope, pid, raw),
    {
        let ghost before = *old(self);
        let ghost held = before@.registry.scopes[scope.0];
        proof {
            self.registry.lemma_wf();
        }
        let killed = raw.signal == Some(Signal::Kill);
        let mut exit = ProcessExit {
            pid,
            code: raw.code,
            signal: raw.signal,
            outcome: if killed {
                TerminationOutcome::ForcedRequired
            } else {
                TerminationOutcome::GracefulSuccess
            },
            forced: killed,
        };
        let mut events: Vec<DomainEvent> = Vec::new();
        let mut gather = false;
        match self.registry.get_mut(scope) {
            None => {},
            Some(found) => {
                let previous = match found.get(pid) {
                    Some(process) => Some((process.exit(), process.is_settled())),
                    None => None,
                };
                match previous {
                    None => {
                        assert(found@ == held);
                    },
                    Some((recorded, settled)) => {
                        if settled {
                            assert(found@ == held);
                            if let Some(verified) = recorded {
                                exit = verified;
                            }
                        } else {
                            if let Ok(reaped) = found.record_reaped(pid, exit) {
                                announce(&mut events, &reaped);
                                proof {
                                    lemma_announced_reap(held, pid, exit);
                                }
                            }
                            gather = !found.is_open();
                        }
                    },
                }
            },
        }
        proof {
            assert(self@.registry.scopes =~= before@.registry.scopes
                || before@.registry.owns(scope.0, pid.0));
            if before@.registry.scopes.contains_key(scope.0) {
                assert(self@.registry.scopes[scope.0].processes.dom() =~= held.processes.dom());
                assert(self@.registry =~= before@.registry.with(
                    scope.0,
                    self@.registry.scopes[scope.0],
                ));
                Self::lemma_same_owners(before, *self, scope.0);
            }
            assert(events@ =~= before@.recovery_events(scope, pid, raw));
        }
        if gather {
            self.record_outcome(scope, pid, exit.outcome);
        }
        self.retain_completed_output(pid);
        assert(self@ =~= before@.recovered(scope, pid, raw));
        (exit, events)
    }
}

} // verus!
