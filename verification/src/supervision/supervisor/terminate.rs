//! Two-phase termination of a single process.
use vstd::prelude::*;
use crate::domain::event::DomainEvent;
use crate::domain::exit::{ProcessExit, RawExit, TerminationOutcome, UnverifiedReason};
use crate::domain::ids::{ProcessId, ProcessScopeId};
use crate::domain::spec::Signal;
use crate::domain::time::Duration;
use crate::supervision::error::{TerminateError, WaitError};
use crate::supervision::ports::{Spawned, TerminateOptions};
use crate::supervision::supervisor::{ProcessSupervisor, SupervisorView};

verus! {

/// The process a termination is aimed at.
#[derive(Debug, Clone, Copy, PartialEq, Eq, Structural)]
pub struct TerminationTarget {
    /// The scope that owns the process.
    pub scope: ProcessScopeId,
    /// The supervised identity.
    pub pid: ProcessId,
    /// The OS identity that signals and waits go to.
    pub spawned: Spawned,
    /// The signal of the graceful phase.
    pub graceful: Signal,
}

/// How a termination starts.
#[derive(Debug, PartialEq, Eq)]
pub enum TerminationStart {
    /// There is nothing to do: this is the answer.
    Finished(Result<ProcessExit, TerminateError>),
    /// An earlier wait failed: the process has to be signalled and waited for again.
    Retry(TerminationTarget),
    /// Termination was requested: the events are dispatched, then the phases run.
    Requested(TerminationTarget, Vec<DomainEvent>),
}

/// The exit reported when the end of a process could not be confirmed.
pub open spec fn unconfirmed(pid: ProcessId, reason: UnverifiedReason) -> ProcessExit {
    ProcessExit {
        pid,
        code: None,
        signal: None,
        outcome: TerminationOutcome::CleanupUnverified(reason),
        forced: true,
    }
}

fn unconfirmed_exit(pid: ProcessId, reason: UnverifiedReason) -> (exit: ProcessExit)
    ensures
        exit == unconfirmed(pid, reason),
{
    ProcessExit {
        pid,
        code: None,
        signal: None,
        outcome: TerminationOutcome::CleanupUnverified(reason),
        forced: true,
    }
}

impl<O> SupervisorView<O> {
    /// The target of a termination of the owned process `pid`.
    pub open spec fn target(self, pid: ProcessId) -> TerminationTarget {
        TerminationTarget {
            scope: ProcessScopeId(self.owner(pid)),
            pid,
            spawned: Spawned { os: self.process(pid).os },
            graceful: self.process(pid).spec.graceful_signal,
        }
    }

    /// What is known of the end of `pid` without doing anything: a verified exit, or that
    /// nobody owns it.
    pub open spec fn termination_known(self, pid: ProcessId, recorded: Option<ProcessExit>) -> Option<
        Result<ProcessExit, TerminateError>,
    > {
        if recorded is Some && crate::domain::exit::verified(recorded->0.outcome) {
            Some(Ok(recorded->0))
        } else if !self.owned(pid) {
            Some(
                match recorded {
                    Some(exit) => Ok(exit),
                    None => Err(TerminateError::UnknownProcess(pid)),
                },
            )
        } else if self.process(pid).settled() {
            Some(Ok(self.process(pid).exit->0))
        } else {
            None
        }
    }

    /// With `process` in place of the process `pid` of `scope`.
    pub open spec fn with_process(
        self,
        scope: ProcessScopeId,
        pid: ProcessId,
        process: crate::domain::process::ProcessView,
    ) -> SupervisorView<O> {
        SupervisorView {
            registry: self.registry.with(
                scope.0,
                self.registry.scopes[scope.0].with(pid, process),
            ),
            ..self
        }
    }

    /// After termination of the owned process `pid` was requested.
    pub open spec fn termination_requested(self, pid: ProcessId) -> SupervisorView<O> {
        self.with_process(
            ProcessScopeId(self.owner(pid)),
            pid,
            self.process(pid).requested(),
        )
    }

    /// After the process `pid` of `scope`, if there still is one, was escalated to force.
    pub open spec fn force_escalated(self, scope: ProcessScopeId, pid: ProcessId) -> SupervisorView<
        O,
    > {
        if self.registry.owns(scope.0, pid.0) {
            self.with_process(
                scope,
                pid,
                self.registry.scopes[scope.0].processes[pid.0].escalated(),
            )
        } else {
            self
        }
    }
}

impl<O> ProcessSupervisor<O> {
    /// Starts terminating `pid`. `recorded` is the exit that its waiters recorded, if any.
    ///
    /// A verified exit is answered at once. A process whose wait failed is retried. Anything
    /// else that is owned is asked to stop.
    pub fn begin_termination(&mut self, pid: ProcessId, recorded: Option<ProcessExit>) -> (start:
        TerminationStart)
        requires
            old(self).wf(),
        ensures
            final(self).wf(),
            match start {
                TerminationStart::Finished(result) => {
                    &&& old(self)@.termination_known(pid, recorded) == Some(result)
                    &&& final(self)@ == old(self)@
                },
                TerminationStart::Retry(target) => {
                    &&& old(self)@.termination_known(pid, recorded) is None
                    &&& old(self)@.process(pid).exit is Some
                    &&& target == old(self)@.target(pid)
                    &&& final(self)@ == old(self)@
                },
                TerminationStart::Requested(target, events) => {
                    &&& old(self)@.termination_known(pid, recorded) is None
                    &&& old(self)@.process(pid).exit is None
                    &&& target == old(self)@.target(pid)
                    &&& final(self)@ == old(self)@.termination_requested(pid)
                    &&& events@ == (if old(self)@.process(pid).can_request() {
                        seq![DomainEvent::TerminationRequested { scope: target.scope, pid }]
                    } else {
                        Seq::empty()
                    })
                },
            },
    {
        if let Some(exit) = recorded {
            if exit.outcome.is_verified() {
                return TerminationStart::Finished(Ok(exit));
            }
        }
        let ghost before = *old(self);
        let found = match self.find(pid) {
            None => {
                return match recorded {
                    Some(exit) => TerminationStart::Finished(Ok(exit)),
                    None => TerminationStart::Finished(Err(TerminateError::UnknownProcess(pid))),
                };
            },
            Some((scope, process)) => {
                if process.is_settled() {
                    if let Some(exit) = process.exit() {
                        return TerminationStart::Finished(Ok(exit));
                    }
                }
                (
                    TerminationTarget {
                        scope,
                        pid,
                        spawned: Spawned { os: process.os_identity() },
                        graceful: process.spec().graceful_signal,
                    },
                    process.exit().is_some(),
                )
            },
        };
        let target = found.0;
        let quarantined = found.1;
        assert(target == before@.target(pid));
        if quarantined {
            return TerminationStart::Retry(target);
        }
        let scope = target.scope;
        proof {
            self.registry.lemma_wf();
        }
        let mut events: Vec<DomainEvent> = Vec::new();
        if let Some(owner) = self.registry.get_mut(scope) {
            if let Ok(requested) = owner.request_termination(pid) {
                events = requested;
            }
        }
        proof {
            assert(self@.registry.scopes[scope.0].processes.dom()
                =~= before@.registry.scopes[scope.0].processes.dom());
            assert(self@ =~= before@.termination_requested(pid));
            Self::lemma_same_owners(before, *self, scope.0);
        }
        TerminationStart::Requested(target, events)
    }

    /// Escalates a process to force, if `scope` still owns it.
    fn escalate(&mut self, scope: ProcessScopeId, pid: ProcessId)
        requires
            old(self).wf(),
        ensures
            final(self)@ == old(self)@.force_escalated(scope, pid),
            final(self).wf(),
    {
        let ghost before = *old(self);
        proof {
            self.registry.lemma_wf();
        }
        if let Some(owner) = self.registry.get_mut(scope) {
            let _ = owner.escalate_termination(pid);
        }
        proof {
            assert(self@ =~= before@.force_escalated(scope, pid));
            if before@.registry.scopes.contains_key(scope.0) {
                assert(self@.registry.scopes[scope.0].processes.dom()
                    =~= before@.registry.scopes[scope.0].processes.dom());
                assert(self@.registry =~= before@.registry.with(
                    scope.0,
                    self@.registry.scopes[scope.0],
                ));
                Self::lemma_same_owners(before, *self, scope.0);
            }
        }
    }
}

/// How far a termination has come.
#[derive(Debug, Clone, Copy, PartialEq, Eq, Structural)]
pub enum TerminationPhase {
    /// The request is being dispatched.
    Requested,
    /// The graceful signal was sent.
    Graceful,
    /// The process is being killed.
    Forcing,
    /// The termination was answered or handed on.
    Finished,
}

/// What happened to a process under termination.
#[derive(Debug, Clone, Copy, PartialEq, Eq, Structural)]
pub enum TerminationEvent {
    /// The request was dispatched; this exit is on record by now.
    Dispatched(Option<ProcessExit>),
    /// The process reached its recorded end.
    Exited(ProcessExit),
    /// The wait of the current phase ran out.
    Elapsed,
}

/// What has to be done next about a process under termination.
#[derive(Debug, Clone, Copy, PartialEq, Eq, Structural)]
pub enum TerminationAction {
    /// Send `signal`, then wait for the exit, at most `limit` long.
    Signal {
        /// The signal to send.
        signal: Signal,
        /// How long to wait; `None` waits forever.
        limit: Option<Duration>,
    },
    /// Hand over to a retry: the recorded end is not verified.
    Retry,
    /// Answer with this exit.
    Finish(ProcessExit),
    /// Nothing: the event does not concern the current phase.
    Ignore,
}

/// A running two-phase termination.
#[derive(Debug, Clone, Copy, PartialEq, Eq, Structural)]
pub struct Termination {
    /// The process to end.
    pub target: TerminationTarget,
    /// Grace and force limits.
    pub options: TerminateOptions,
    /// How far it has come.
    pub phase: TerminationPhase,
}

impl Termination {
    /// What `event` leads to: the next phase and the action.
    pub open spec fn next(self, event: TerminationEvent) -> (TerminationPhase, TerminationAction) {
        match (self.phase, event) {
            (TerminationPhase::Requested, TerminationEvent::Dispatched(Some(exit))) => (
                TerminationPhase::Finished,
                if crate::domain::exit::verified(exit.outcome) {
                    TerminationAction::Finish(exit)
                } else {
                    TerminationAction::Retry
                },
            ),
            (TerminationPhase::Requested, TerminationEvent::Dispatched(None)) => (
                TerminationPhase::Graceful,
                TerminationAction::Signal {
                    signal: self.target.graceful,
                    limit: Some(self.options.grace.0),
                },
            ),
            (TerminationPhase::Graceful, TerminationEvent::Exited(exit)) => (
                TerminationPhase::Finished,
                TerminationAction::Finish(exit),
            ),
            (TerminationPhase::Graceful, TerminationEvent::Elapsed) => (
                TerminationPhase::Forcing,
                TerminationAction::Signal {
                    signal: Signal::Kill,
                    limit: self.options.force_timeout,
                },
            ),
            (TerminationPhase::Forcing, TerminationEvent::Exited(exit)) => (
                TerminationPhase::Finished,
                TerminationAction::Finish(exit),
            ),
            (TerminationPhase::Forcing, TerminationEvent::Elapsed) => match self.options.force_timeout {
                Some(waited) => (
                    TerminationPhase::Finished,
                    TerminationAction::Finish(
                        unconfirmed(self.target.pid, UnverifiedReason::WaitTimedOut { waited }),
                    ),
                ),
                None => (self.phase, TerminationAction::Ignore),
            },
            _ => (self.phase, TerminationAction::Ignore),
        }
    }

    /// A termination whose request is about to be dispatched.
    #[must_use]
    pub fn new(target: TerminationTarget, options: TerminateOptions) -> (termination: Self)
        ensures
            termination.target == target,
            termination.options == options,
            termination.phase == TerminationPhase::Requested,
    {
        Termination { target, options, phase: TerminationPhase::Requested }
    }

    /// Advances the termination by one event. Running out of grace escalates the process to
    /// force; running out of the force limit ends with an unverified exit.
    pub fn step<O>(&mut self, supervision: &mut ProcessSupervisor<O>, event: TerminationEvent) -> (action:
        TerminationAction)
        requires
            old(supervision).wf(),
        ensures
            final(supervision).wf(),
            (final(self).phase, action) == old(self).next(event),
            final(self).target == old(self).target,
            final(self).options == old(self).options,
            final(supervision)@ == (if old(self).phase is Graceful && event is Elapsed {
                old(supervision)@.force_escalated(old(self).target.scope, old(self).target.pid)
            } else {
                old(supervision)@
            }),
    {
        match (self.phase, event) {
            (TerminationPhase::Requested, TerminationEvent::Dispatched(Some(exit))) => {
                self.phase = TerminationPhase::Finished;
                if exit.outcome.is_verified() {
                    TerminationAction::Finish(exit)
                } else {
                    TerminationAction::Retry
                }
            },
            (TerminationPhase::Requested, TerminationEvent::Dispatched(None)) => {
                self.phase = TerminationPhase::Graceful;
                TerminationAction::Signal {
                    signal: self.target.graceful,
                    limit: Some(self.options.grace.as_duration()),
                }
            },
            (TerminationPhase::Graceful, TerminationEvent::Exited(exit)) => {
                self.phase = TerminationPhase::Finished;
                TerminationAction::Finish(exit)
            },
            (TerminationPhase::Graceful, TerminationEvent::Elapsed) => {
                supervision.escalate(self.target.scope, self.target.pid);
                self.phase = TerminationPhase::Forcing;
                TerminationAction::Signal {
                    signal: Signal::Kill,
                    limit: self.options.force_timeout,
                }
            },
            (TerminationPhase::Forcing, TerminationEvent::Exited(exit)) => {
                self.phase = TerminationPhase::Finished;
                TerminationAction::Finish(exit)
            },
            (TerminationPhase::Forcing, TerminationEvent::Elapsed) => {
                match self.options.force_timeout {
                    Some(waited) => {
                        self.phase = TerminationPhase::Finished;
                        TerminationAction::Finish(
                            unconfirmed_exit(
                                self.target.pid,
                                UnverifiedReason::WaitTimedOut { waited },
                            ),
                        )
                    },
                    None => TerminationAction::Ignore,
                }
            },
            _ => TerminationAction::Ignore,
        }
    }
}

/// How far a retry has come.
#[derive(Debug, Clone, Copy, PartialEq, Eq, Structural)]
pub enum RetryPhase {
    /// The graceful signal was sent and the first fresh wait runs.
    Observing,
    /// The first fresh wait failed; the rest of the grace period runs.
    Failed,
    /// The process is being killed and the last wait runs.
    Forcing,
    /// The retry was answered.
    Finished,
}

/// What happened to a process under retry.
#[derive(Debug, PartialEq, Eq)]
pub enum RetryEvent {
    /// The running wait came back.
    Waited(Result<RawExit, WaitError>),
    /// The wait of the current phase ran out.
    Elapsed,
}

/// What has to be done next about a process under retry.
#[derive(Debug, PartialEq, Eq)]
pub enum RetryAction {
    /// Send `signal` and go on waiting, at most `limit` long, on a fresh wait where `observe`
    /// says so.
    Signal {
        /// The signal to send.
        signal: Signal,
        /// Whether to start a fresh wait.
        observe: bool,
        /// How long to wait; `None` waits forever.
        limit: Option<Duration>,
    },
    /// Let the rest of the grace period pass: a failed wait is no reason to skip force.
    AwaitGrace,
    /// Answer with an exit that was recovered: publish it, then dispatch the events.
    Recovered(ProcessExit, Vec<DomainEvent>),
    /// Answer with this exit, which is not verified.
    Finish(ProcessExit),
    /// Nothing: the event does not concern the current phase.
    Ignore,
}

/// A retry of the end of a process whose wait failed.
#[derive(Debug, Clone, Copy, PartialEq, Eq, Structural)]
pub struct Retry {
    /// The process to end.
    pub target: TerminationTarget,
    /// Grace and force limits.
    pub options: TerminateOptions,
    /// How far it has come.
    pub phase: RetryPhase,
}

impl Retry {
    /// How many more waits a retry may start.
    pub open spec fn waits_left(self) -> nat {
        match self.phase {
            RetryPhase::Observing => 1,
            RetryPhase::Failed => 1,
            RetryPhase::Forcing => 0,
            RetryPhase::Finished => 0,
        }
    }

    /// The event brings a confirmed exit to a retry that waits for one.
    pub open spec fn confirms(self, event: RetryEvent) -> bool {
        (self.phase is Observing || self.phase is Forcing) && (event matches RetryEvent::Waited(
            waited,
        ) && waited is Ok)
    }

    /// The phase that `event` leads to.
    pub open spec fn next_phase(self, event: RetryEvent) -> RetryPhase {
        if self.confirms(event) {
            RetryPhase::Finished
        } else {
            match (self.phase, event) {
                (RetryPhase::Observing, RetryEvent::Waited(_)) => RetryPhase::Failed,
                (RetryPhase::Observing, RetryEvent::Elapsed) => RetryPhase::Forcing,
                (RetryPhase::Failed, RetryEvent::Elapsed) => RetryPhase::Forcing,
                (RetryPhase::Forcing, RetryEvent::Waited(_)) => RetryPhase::Finished,
                (RetryPhase::Forcing, RetryEvent::Elapsed) => if self.options.force_timeout is Some {
                    RetryPhase::Finished
                } else {
                    RetryPhase::Forcing
                },
                _ => self.phase,
            }
        }
    }

    /// What `event` leads to when it does not confirm the exit.
    pub open spec fn next_action(self, event: RetryEvent) -> RetryAction {
        match (self.phase, event) {
            (RetryPhase::Observing, RetryEvent::Waited(_)) => RetryAction::AwaitGrace,
            (RetryPhase::Observing, RetryEvent::Elapsed) => RetryAction::Signal {
                signal: Signal::Kill,
                observe: false,
                limit: self.options.force_timeout,
            },
            (RetryPhase::Failed, RetryEvent::Elapsed) => RetryAction::Signal {
                signal: Signal::Kill,
                observe: true,
                limit: self.options.force_timeout,
            },
            (RetryPhase::Forcing, RetryEvent::Waited(_)) => RetryAction::Finish(
                unconfirmed(self.target.pid, UnverifiedReason::ReapFailed),
            ),
            (RetryPhase::Forcing, RetryEvent::Elapsed) => match self.options.force_timeout {
                Some(waited) => RetryAction::Finish(
                    unconfirmed(self.target.pid, UnverifiedReason::WaitTimedOut { waited }),
                ),
                None => RetryAction::Ignore,
            },
            _ => RetryAction::Ignore,
        }
    }

    /// What a retry asks for first.
    pub open spec fn first_action(target: TerminationTarget, options: TerminateOptions) -> RetryAction {
        RetryAction::Signal {
            signal: target.graceful,
            observe: true,
            limit: Some(options.grace.0),
        }
    }

    /// Starts a retry: the graceful signal goes out and a fresh wait runs for the grace period.
    #[must_use]
    pub fn new(target: TerminationTarget, options: TerminateOptions) -> (started: (
        Self,
        RetryAction,
    ))
        ensures
            started.0.target == target,
            started.0.options == options,
            started.0.phase == RetryPhase::Observing,
            started.1 == (RetryAction::Signal {
                signal: target.graceful,
                observe: true,
                limit: Some(options.grace.0),
            }),
            started.1 == Self::first_action(target, options),
    {
        (
            Retry { target, options, phase: RetryPhase::Observing },
            RetryAction::Signal {
                signal: target.graceful,
                observe: true,
                limit: Some(options.grace.as_duration()),
            },
        )
    }

    /// Advances the retry by one event. A confirmed exit is recorded; anything else leads to
    /// force, at most one more wait, and then an unverified exit.
    pub fn step<O>(&mut self, supervision: &mut ProcessSupervisor<O>, event: RetryEvent) -> (action:
        RetryAction)
        requires
            old(supervision).wf(),
        ensures
            final(supervision).wf(),
            final(self).target == old(self).target,
            final(self).options == old(self).options,
            final(self).phase == old(self).next_phase(event),
            if old(self).confirms(event) {
                let raw = event->Waited_0->Ok_0;
                let scope = old(self).target.scope;
                let pid = old(self).target.pid;
                &&& action matches RetryAction::Recovered(exit, events)
                &&& exit == old(supervision)@.recovery(scope, pid, raw)
                &&& events@ == old(supervision)@.recovery_events(scope, pid, raw)
                &&& final(supervision)@ == old(supervision)@.recovered(scope, pid, raw)
            } else {
                &&& action == old(self).next_action(event)
                &&& final(supervision)@ == old(supervision)@
            },
    {
        match (self.phase, event) {
            (RetryPhase::Observing, RetryEvent::Waited(waited)) => match waited {
                Ok(raw) => {
                    self.phase = RetryPhase::Finished;
                    let (exit, events) = supervision.record_recovered_exit(
                        self.target.scope,
                        self.target.pid,
                        raw,
                    );
                    RetryAction::Recovered(exit, events)
                },
                Err(_) => {
                    self.phase = RetryPhase::Failed;
                    RetryAction::AwaitGrace
                },
            },
            (RetryPhase::Observing, RetryEvent::Elapsed) => {
                self.phase = RetryPhase::Forcing;
                RetryAction::Signal {
                    signal: Signal::Kill,
                    observe: false,
                    limit: self.options.force_timeout,
                }
            },
            (RetryPhase::Failed, RetryEvent::Elapsed) => {
                self.phase = RetryPhase::Forcing;
                RetryAction::Signal {
                    signal: Signal::Kill,
                    observe: true,
                    limit: self.options.force_timeout,
                }
            },
            (RetryPhase::Forcing, RetryEvent::Waited(waited)) => {
                self.phase = RetryPhase::Finished;
                match waited {
                    Ok(raw) => {
                        let (exit, events) = supervision.record_recovered_exit(
                            self.target.scope,
                            self.target.pid,
                            raw,
                        );
                        RetryAction::Recovered(exit, events)
                    },
                    Err(_) => RetryAction::Finish(
                        unconfirmed_exit(self.target.pid, UnverifiedReason::ReapFailed),
                    ),
                }
            },
            (RetryPhase::Forcing, RetryEvent::Elapsed) => match self.options.force_timeout {
                Some(waited) => {
                    self.phase = RetryPhase::Finished;
                    RetryAction::Finish(
                        unconfirmed_exit(
                            self.target.pid,
                            UnverifiedReason::WaitTimedOut { waited },
                        ),
                    )
                },
                None => RetryAction::Ignore,
            },
            _ => RetryAction::Ignore,
        }
    }
}

} // verus!
