//! Admission of new processes.
use vstd::prelude::*;
use crate::domain::event::DomainEvent;
use crate::domain::ids::{ProcessId, ProcessScopeId};
use crate::domain::os::OsIdentity;
use crate::domain::process::ProcessView;
use crate::domain::spec::ProcessSpec;
use crate::domain::time::Instant;
use crate::supervision::error::SpawnError;
use crate::supervision::registry::RegistryView;
use crate::supervision::supervisor::{ProcessSupervisor, SupervisorView};

verus! {

/// A process that was started but could not be attached. It has to be killed and reaped
/// before the error is reported.
#[derive(Debug, PartialEq, Eq)]
pub struct Orphan {
    /// Nobody is left to clean up: everything the backend still runs is killed first.
    pub sweep: bool,
    /// What the caller is told.
    pub error: SpawnError,
}

impl<O> SupervisorView<O> {
    /// What a caller is told before it may queue for `scope`.
    pub open spec fn spawn_request(self, scope: ProcessScopeId) -> Result<(), SpawnError> {
        if self.registry.scopes.contains_key(scope.0) {
            Ok(())
        } else if self.reports.contains_key(scope.0) {
            Err(SpawnError::ScopeClosed(scope))
        } else {
            Err(SpawnError::UnknownScope(scope))
        }
    }

    /// What a caller is told once it is its turn on `scope`.
    pub open spec fn spawn_admission(self, scope: ProcessScopeId, finished: bool) -> Result<
        (),
        SpawnError,
    > {
        if finished || self.shutting_down || self.reports.contains_key(scope.0) {
            Err(SpawnError::ScopeClosed(scope))
        } else if !self.registry.scopes.contains_key(scope.0) {
            Err(SpawnError::UnknownScope(scope))
        } else if !(self.registry.scopes[scope.0].state is Open) {
            Err(SpawnError::ScopeClosed(scope))
        } else {
            Ok(())
        }
    }

    /// Why a started process cannot be attached to `scope`.
    pub open spec fn orphaned(self, scope: ProcessScopeId) -> Option<Orphan> {
        if self.owners_dropped {
            Some(Orphan { sweep: true, error: SpawnError::ScopeClosed(scope) })
        } else if !self.registry.scopes.contains_key(scope.0) {
            Some(Orphan { sweep: false, error: SpawnError::UnknownScope(scope) })
        } else if !(self.registry.scopes[scope.0].state is Open) {
            Some(Orphan { sweep: false, error: SpawnError::ScopeClosed(scope) })
        } else {
            None
        }
    }

    /// After the next process identifier was minted.
    pub open spec fn minted(self) -> SupervisorView<O> {
        SupervisorView {
            registry: RegistryView {
                next_process: (self.registry.next_process + 1) as u64,
                ..self.registry
            },
            ..self
        }
    }

    /// After a started process was attached to `scope` as `pid`.
    pub open spec fn attached(
        self,
        scope: ProcessScopeId,
        pid: ProcessId,
        spec: ProcessSpec,
        os: OsIdentity,
        now: Instant,
        output: Option<O>,
    ) -> SupervisorView<O> {
        let minted = self.minted();
        SupervisorView {
            registry: minted.registry.with(
                scope.0,
                self.registry.scopes[scope.0].with(pid, ProcessView::running(pid, os, spec)),
            ),
            spawn_times: self.spawn_times.insert(pid.0, now),
            os_pids: self.os_pids.remembered(pid, os.pid),
            outputs: match output {
                Some(handle) => self.outputs.insert(pid.0, handle),
                None => self.outputs,
            },
            ..minted
        }
    }
}

impl<O> ProcessSupervisor<O> {
    /// Whether a caller may queue to start a process in `scope`.
    ///
    /// # Errors
    /// Returns [`SpawnError::ScopeClosed`] if the scope was already terminated and
    /// [`SpawnError::UnknownScope`] if nothing is known of it.
    pub fn request_spawn(&self, scope: ProcessScopeId) -> (result: Result<(), SpawnError>)
        requires
            self.wf(),
        ensures
            result == self@.spawn_request(scope),
    {
        if self.registry.get(scope).is_some() {
            Ok(())
        } else if self.reports.contains(scope.0) {
            Err(SpawnError::ScopeClosed(scope))
        } else {
            Err(SpawnError::UnknownScope(scope))
        }
    }

    /// Whether a caller whose turn it is may start a process in `scope`. `finished` tells
    /// whether the scope's termination completed while the caller was queued.
    ///
    /// # Errors
    /// Returns [`SpawnError::ScopeClosed`] if the scope no longer accepts processes or
    /// shutdown started, and [`SpawnError::UnknownScope`] if nothing is known of it.
    pub fn admit_spawn(&self, scope: ProcessScopeId, finished: bool) -> (result: Result<
        (),
        SpawnError,
    >)
        requires
            self.wf(),
        ensures
            result == self@.spawn_admission(scope, finished),
    {
        if finished || self.shutting_down || self.reports.contains(scope.0) {
            return Err(SpawnError::ScopeClosed(scope));
        }
        match self.registry.get(scope) {
            None => Err(SpawnError::UnknownScope(scope)),
            Some(found) => if found.is_open() {
                Ok(())
            } else {
                Err(SpawnError::ScopeClosed(scope))
            },
        }
    }

    /// Attaches a started process to `scope` under a fresh identifier, with its attachment
    /// time, OS identity and capture observer.
    ///
    /// # Errors
    /// Returns an [`Orphan`] if the last owner is gone, or if the scope closed or vanished
    /// while the process was being started.
    pub fn attach_spawned(
        &mut self,
        scope: ProcessScopeId,
        spec: ProcessSpec,
        os: OsIdentity,
        now: Instant,
        output: Option<O>,
    ) -> (result: Result<(ProcessId, DomainEvent), Orphan>)
        requires
            old(self).wf(),
            old(self)@.registry.next_process < u64::MAX,
        ensures
            final(self).wf(),
            match result {
                Ok((pid, event)) => {
                    &&& old(self)@.orphaned(scope) is None
                    &&& pid.0 == old(self)@.registry.next_process + 1
                    &&& event == (DomainEvent::ProcessSpawned { scope, pid })
                    &&& final(self)@ == old(self)@.attached(scope, pid, spec, os, now, output)
                },
                Err(orphan) => {
                    &&& old(self)@.orphaned(scope) == Some(orphan)
                    &&& final(self)@ == (if old(self)@.owners_dropped {
                        old(self)@
                    } else {
                        old(self)@.minted()
                    })
                },
            },
    {
        if self.owners_dropped {
            return Err(Orphan { sweep: true, error: SpawnError::ScopeClosed(scope) });
        }
        let ghost before = old(self)@;
        proof {
            self.registry.lemma_wf();
        }
        let pid = self.registry.next_process_id();
        assert(self@ =~= before.minted());
        proof {
            assert forall|id: u64, other: u64| #[trigger]
                self@.registry.owns(id, other) <==> before.registry.owns(id, other) by {}
            assert(self.wf());
            assert(!before.registry.owns(scope.0, pid.0));
        }
        match self.registry.get_mut(scope) {
            None => {
                return Err(Orphan { sweep: false, error: SpawnError::UnknownScope(scope) });
            },
            Some(found) => {
                let attached = found.attach_spawned(pid, os, spec);
                if attached.is_err() {
                    assert(self@.registry.scopes =~= before.registry.scopes);
                    assert(self@ =~= before.minted());
                    return Err(Orphan { sweep: false, error: SpawnError::ScopeClosed(scope) });
                }
            },
        }
        self.spawn_times.insert(pid.0, now);
        self.os_pids.remember(pid, os.pid);
        if let Some(handle) = output {
            self.outputs.insert(pid.0, handle);
        }
        proof {
            self.registry.lemma_wf();
            assert(self@ =~= before.attached(scope, pid, spec, os, now, output));
            assert forall|id: u64, other: u64| #[trigger]
                self@.registry.owns(id, other) <==> before.registry.owns(id, other) || (id
                == scope.0 && other == pid.0) by {}
            assert(self@.registry.exclusive());
            assert(self@.captures_wf());
            assert(self@.scoped_wf());
            assert(self@.reports_wf());
        }
        Ok((pid, DomainEvent::ProcessSpawned { scope, pid }))
    }

    /// Claims the one start of the sampler. Answers whether it is up to the caller.
    pub fn start_sampler(&mut self) -> (first: bool)
        requires
            old(self).wf(),
        ensures
            first == !old(self)@.sampler_started,
            final(self)@ == (SupervisorView { sampler_started: true, ..old(self)@ }),
            final(self).wf(),
    {
        let first = !self.sampler_started;
        self.sampler_started = true;
        first
    }
}

} // verus!
