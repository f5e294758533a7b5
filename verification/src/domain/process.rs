//! The `Process` entity, reachable only through its owning scope aggregate.
use vstd::prelude::*;
use crate::domain::exit::ProcessExit;
use crate::domain::ids::ProcessId;
use crate::domain::lifecycle::ProcessLifecycle;
use crate::domain::os::OsIdentity;
use crate::domain::spec::ProcessSpec;

verus! {

/// What there is to know about a supervised process.
pub struct ProcessView {
    /// The supervised identity.
    pub id: ProcessId,
    /// The OS identity.
    pub os: OsIdentity,
    /// The spec the process was spawned from.
    pub spec: ProcessSpec,
    /// The lifecycle state.
    pub state: ProcessLifecycle,
    /// Whether force was required.
    pub forced: bool,
    /// The recorded terminal exit.
    pub exit: Option<ProcessExit>,
}

impl ProcessView {
    /// A process that was just spawned.
    pub open spec fn running(id: ProcessId, os: OsIdentity, spec: ProcessSpec) -> ProcessView {
        ProcessView {
            id,
            os,
            spec,
            state: ProcessLifecycle::Running,
            forced: false,
            exit: None,
        }
    }

    /// An owned process has been spawned, and has an exit exactly when it was reaped.
    pub open spec fn wf(self) -> bool {
        &&& self.state is Reaped <==> self.exit is Some
        &&& !(self.state is Spawning)
        &&& !(self.state is SpawnFailed)
    }

    /// The exit is recorded and stands for verified cleanup.
    pub open spec fn settled(self) -> bool {
        self.exit is Some && crate::domain::exit::verified(self.exit->0.outcome)
    }

    /// A graceful request would start termination.
    pub open spec fn can_request(self) -> bool {
        self.state is Running || self.state is Spawning
    }

    /// After a graceful request.
    pub open spec fn requested(self) -> ProcessView {
        if self.can_request() {
            ProcessView { state: ProcessLifecycle::GracefulRequested, ..self }
        } else {
            self
        }
    }

    /// Force would take over from here.
    pub open spec fn can_escalate(self) -> bool {
        self.can_request() || self.state is GracefulRequested
    }

    /// After escalation to force.
    pub open spec fn escalated(self) -> ProcessView {
        if self.can_escalate() {
            ProcessView { state: ProcessLifecycle::Forcing, forced: true, ..self }
        } else {
            self
        }
    }

    /// After the exit was observed.
    pub open spec fn exited(self) -> ProcessView {
        if self.state.live() {
            ProcessView { state: ProcessLifecycle::ExitedUnreaped, ..self }
        } else {
            self
        }
    }

    /// A reap with `exit` is recorded: the first one is, and later only a verified exit that
    /// corrects an unverified one.
    pub open spec fn can_reap(self, exit: ProcessExit) -> bool {
        ||| self.state is ExitedUnreaped
        ||| self.state is Running
        ||| self.state is GracefulRequested
        ||| self.state is Forcing
        ||| {
            &&& self.state is Reaped
            &&& self.exit is Some
            &&& !crate::domain::exit::verified(self.exit->0.outcome)
            &&& crate::domain::exit::verified(exit.outcome)
        }
    }

    /// After a reap with `exit`.
    pub open spec fn reaped(self, exit: ProcessExit) -> ProcessView {
        if self.can_reap(exit) {
            ProcessView { state: ProcessLifecycle::Reaped, exit: Some(exit), ..self }
        } else {
            self
        }
    }
}

/// A single supervised OS process.
///
/// An entity (identity = [`ProcessId`]) that lives inside exactly one scope. Its fields are
/// private: all mutation happens through methods, and transitions are idempotent where
/// repetition must be safe.
#[derive(Debug, Clone, PartialEq, Eq)]
pub struct Process {
    id: ProcessId,
    os: OsIdentity,
    spec: ProcessSpec,
    state: ProcessLifecycle,
    forced: bool,
    exit: Option<ProcessExit>,
}

impl View for Process {
    type V = ProcessView;

    closed spec fn view(&self) -> ProcessView {
        ProcessView {
            id: self.id,
            os: self.os,
            spec: self.spec,
            state: self.state,
            forced: self.forced,
            exit: self.exit,
        }
    }
}

impl Process {
    /// Creates a running process from a successful spawn.
    #[must_use]
    pub(crate) fn running(id: ProcessId, os: OsIdentity, spec: ProcessSpec) -> (process: Self)
        ensures
            process@ == ProcessView::running(id, os, spec),
    {
        Self { id, os, spec, state: ProcessLifecycle::Running, forced: false, exit: None }
    }

    /// The supervised identity.
    #[must_use]
    pub fn id(&self) -> (id: ProcessId)
        ensures
            id == self@.id,
    {
        self.id
    }

    /// The OS identity (pid + reuse token).
    #[must_use]
    pub fn os_identity(&self) -> (os: OsIdentity)
        ensures
            os == self@.os,
    {
        self.os
    }

    /// The spec used to spawn this process.
    #[must_use]
    pub fn spec(&self) -> (spec: &ProcessSpec)
        ensures
            *spec == self@.spec,
    {
        &self.spec
    }

    /// The current lifecycle state.
    #[must_use]
    pub fn state(&self) -> (state: ProcessLifecycle)
        ensures
            state == self@.state,
    {
        self.state
    }

    /// Whether force was required during termination.
    #[must_use]
    pub fn was_forced(&self) -> (forced: bool)
        ensures
            forced == self@.forced,
    {
        self.forced
    }

    /// The recorded terminal exit, if reaped.
    #[must_use]
    pub fn exit(&self) -> (exit: Option<ProcessExit>)
        ensures
            exit == self@.exit,
    {
        self.exit
    }

    /// Whether the recorded exit stands for verified cleanup.
    #[must_use]
    pub fn is_settled(&self) -> (settled: bool)
        ensures
            settled == self@.settled(),
    {
        match self.exit {
            Some(exit) => exit.outcome.is_verified(),
            None => false,
        }
    }

    /// Requests graceful termination.
    ///
    /// Returns `true` if this call moved the process into the graceful phase (i.e. a signal
    /// should now be sent). Idempotent: repeated calls on an already-terminating or terminal
    /// process return `false`.
    pub(crate) fn request_graceful(&mut self) -> (started: bool)
        ensures
            final(self)@ == old(self)@.requested(),
            started == old(self)@.can_request(),
    {
        match self.state {
            ProcessLifecycle::Running | ProcessLifecycle::Spawning => {
                self.state = ProcessLifecycle::GracefulRequested;
                true
            },
            _ => false,
        }
    }

    /// Escalates to forceful termination.
    ///
    /// Returns `true` if this call moved the process into the forcing phase. Idempotent.
    pub(crate) fn escalate_to_force(&mut self) -> (started: bool)
        ensures
            final(self)@ == old(self)@.escalated(),
            started == old(self)@.can_escalate(),
    {
        match self.state {
            ProcessLifecycle::Running
            | ProcessLifecycle::Spawning
            | ProcessLifecycle::GracefulRequested => {
                self.state = ProcessLifecycle::Forcing;
                self.forced = true;
                true
            },
            _ => false,
        }
    }

    /// Records that the process was observed to have exited.
    ///
    /// Returns `true` if this call transitioned a live process to exited. Idempotent for
    /// already-exited/terminal processes.
    pub(crate) fn mark_exited(&mut self) -> (changed: bool)
        ensures
            final(self)@ == old(self)@.exited(),
            changed == old(self)@.state.live(),
    {
        if self.state.is_live() {
            self.state = ProcessLifecycle::ExitedUnreaped;
            true
        } else {
            false
        }
    }

    /// Records that the process was reaped, storing its terminal exit.
    ///
    /// Returns `true` if this call recorded `exit`. Once reaped, only a verified exit that
    /// corrects an unverified one is still recorded.
    pub(crate) fn mark_reaped(&mut self, exit: ProcessExit) -> (changed: bool)
        ensures
            final(self)@ == old(self)@.reaped(exit),
            changed == old(self)@.can_reap(exit),
    {
        match self.state {
            ProcessLifecycle::ExitedUnreaped
            | ProcessLifecycle::Running
            | ProcessLifecycle::GracefulRequested
            | ProcessLifecycle::Forcing => {
                self.state = ProcessLifecycle::Reaped;
                self.exit = Some(exit);
                true
            },
            ProcessLifecycle::Reaped => {
                let correctable = match self.exit {
                    Some(recorded) => !recorded.outcome.is_verified(),
                    None => false,
                };
                if correctable && exit.outcome.is_verified() {
                    self.exit = Some(exit);
                    true
                } else {
                    false
                }
            },
            _ => false,
        }
    }
}

} // verus!
