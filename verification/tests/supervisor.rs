//! Whole supervision scenarios: the supervisor, the waiters and the in-memory backend driven
//! step by step, with injected faults.
use std::cell::{Cell, RefCell};
use std::collections::BTreeMap;
use std::rc::Rc;

use shepherd::blocking::run::{
    BlockingRun, BlockingRunError, OutputDrain, RunAttempt, RunEnding, RunOptions,
};
use shepherd::supervision::dispatch::translate;
use shepherd::supervision::supervisor::sampler::{SampleResult, Sampler};
use shepherd::supervision::supervisor::scope_termination::{ends_target, ScopeTerminationStart};
use shepherd::supervision::supervisor::scoped::{
    settle_cleanup, CleanupSlot, ScopedProcesses, ScopedSpawns,
};
use shepherd::supervision::supervisor::shutdown::Shutdown;
use shepherd::supervision::supervisor::terminate::{
    Retry, RetryAction, RetryEvent, Termination, TerminationAction, TerminationEvent,
    TerminationStart, TerminationTarget,
};
use shepherd::{
    DomainEvent, Duration, GracePeriod, InMemoryWaiters, Instant, IntegrationEvent, NativeString,
    NullBackend, OsIdentity, OutputStream, ProcessExit, ProcessId, ProcessOutput, ProcessScopeId,
    ProcessSpec, ProcessSupervisor, RawExit, ReuseToken, ScopeCreationError,
    ScopeTerminationReport, ShutdownError, ShutdownReport, Signal, SpawnError, Spawned, StatsError,
    TerminateError, TerminateOptions, TerminationOutcome, UnverifiedReason, WaitError,
    WithScopeResult,
};

fn spec(program: &str) -> ProcessSpec {
    ProcessSpec::new(NativeString::new(program))
}

fn short_opts() -> TerminateOptions {
    TerminateOptions {
        grace: GracePeriod::new(Duration::from_millis(50)),
        force_timeout: Some(Duration::from_secs(2)),
    }
}

fn run_opts(deadline: Duration) -> RunOptions {
    RunOptions { deadline, terminate: short_opts(), output_drain: Duration::from_millis(20) }
}

/// What goes wrong, and how.
#[derive(Default)]
struct Faults {
    /// Spawns fail from this one on.
    spawns_from: Option<usize>,
    /// Waits fail.
    wait: bool,
    /// This many waits fail, and then no more.
    first_waits: Cell<usize>,
    /// Signals are not delivered.
    signal: bool,
    /// A process ends just before a signal reaches it.
    exit_in_signal: bool,
    /// Waits never end.
    hang: bool,
    /// A kill makes waits work again.
    recover_on_kill: bool,
    /// This many sweeps fail.
    sweeps: usize,
}

/// A supervisor with its waiters, backend, publisher and scoped blocks.
struct World {
    supervisor: ProcessSupervisor<ProcessOutput>,
    waiters: InMemoryWaiters,
    backend: NullBackend,
    slots: BTreeMap<u64, Rc<RefCell<CleanupSlot>>>,
    monitored: Vec<(ProcessScopeId, ProcessId, Spawned)>,
    published: Vec<IntegrationEvent>,
    signals: Vec<Signal>,
    faults: Faults,
    spawns: usize,
    sweeps: usize,
    waits: Cell<usize>,
    captures: bool,
}

impl World {
    fn new() -> Self {
        World::with_faults(Faults::default())
    }

    fn with_faults(faults: Faults) -> Self {
        World {
            supervisor: ProcessSupervisor::new(),
            waiters: InMemoryWaiters::new(),
            backend: NullBackend::new(),
            slots: BTreeMap::new(),
            monitored: Vec::new(),
            published: Vec::new(),
            signals: Vec::new(),
            faults,
            spawns: 0,
            sweeps: 0,
            waits: Cell::new(0),
            captures: false,
        }
    }

    fn create_scope(&mut self) -> ProcessScopeId {
        self.supervisor.try_create_scope(false).expect("open supervisor")
    }

    fn dispatch(&mut self, events: &[DomainEvent]) {
        for event in events {
            if let Some((pid, exit)) = self.supervisor.registry().exit_notification(*event) {
                self.waiters.signal_exit(pid, exit);
            }
            self.supervisor.prune_after(*event);
            self.published.extend(translate(*event));
        }
    }

    fn scope_count(&self, scope: ProcessScopeId) -> usize {
        let closed = IntegrationEvent::ScopeTerminated { scope };
        self.published.iter().filter(|event| **event == closed).count()
    }

    fn spawn(&mut self, scope: ProcessScopeId, spec: ProcessSpec) -> Result<ProcessId, SpawnError> {
        self.supervisor.request_spawn(scope)?;
        self.supervisor.admit_spawn(scope, false)?;
        self.spawns += 1;
        if self.faults.spawns_from.is_some_and(|first| self.spawns >= first) {
            return Err(SpawnError::Os("injected spawn failure".to_string()));
        }
        let spawned = self.backend.spawn(scope, &spec)?;
        let output = self.captures.then(|| {
            let mut output = ProcessOutput::capture(64, 16);
            output.push(OutputStream::Stdout, &spec.program.bytes);
            output.close(OutputStream::Stdout, None);
            output.close(OutputStream::Stderr, None);
            output
        });
        match self.supervisor.attach_spawned(scope, spec, spawned.os, Instant { nanos: 0 }, output)
        {
            Ok((pid, event)) => {
                self.monitored.push((scope, pid, spawned));
                self.supervisor.start_sampler();
                self.dispatch(&[event]);
                Ok(pid)
            }
            Err(orphan) => {
                if orphan.sweep {
                    self.backend.hard_kill_all();
                }
                self.backend.signal(&spawned, Signal::Kill).unwrap();
                assert!(self.backend.wait(&spawned).unwrap().is_some(), "orphans are reaped");
                Err(orphan.error)
            }
        }
    }

    /// What waiting for a process comes to by now.
    fn observe(&self, spawned: &Spawned) -> Option<Result<RawExit, WaitError>> {
        if self.faults.hang {
            return None;
        }
        self.waits.set(self.waits.get() + 1);
        let failures = self.faults.first_waits.get();
        self.faults.first_waits.set(failures.saturating_sub(1));
        if self.faults.wait || failures > 0 {
            return Some(Err(WaitError::Backend("lost child handle".to_string())));
        }
        self.backend.wait(spawned).transpose()
    }

    /// Lets every monitor whose wait ended record it.
    fn pump(&mut self) {
        for (scope, pid, spawned) in std::mem::take(&mut self.monitored) {
            match self.observe(&spawned) {
                Some(waited) => {
                    if let Some(events) = self.supervisor.record_wait_result(scope, pid, waited) {
                        self.dispatch(&events);
                        self.supervisor.forget_spawn_time(pid);
                    }
                }
                None => self.monitored.push((scope, pid, spawned)),
            }
        }
    }

    /// The end of a process, or `None` where a caller would have to go on waiting.
    fn wait(&mut self, pid: ProcessId) -> Option<Result<ProcessExit, WaitError>> {
        self.pump();
        match self.supervisor.wait_answer(pid, self.waiters.try_get(pid)) {
            Some(answer) => Some(answer),
            None => self.waiters.register(pid).map(Ok),
        }
    }

    fn ended(&mut self, pid: ProcessId) -> ProcessExit {
        self.wait(pid).expect("ended").expect("known")
    }

    fn signal(&mut self, spawned: &Spawned, signal: Signal) {
        self.signals.push(signal);
        if signal == Signal::Kill && self.faults.recover_on_kill {
            self.faults.wait = false;
        }
        if self.faults.signal {
            return;
        }
        if self.faults.exit_in_signal {
            let _ = self.backend.signal(spawned, Signal::Term);
        }
        let _ = self.backend.signal(spawned, signal);
    }

    fn terminate(
        &mut self,
        pid: ProcessId,
        options: TerminateOptions,
    ) -> Result<ProcessExit, TerminateError> {
        match self.supervisor.begin_termination(pid, self.waiters.try_get(pid)) {
            TerminationStart::Finished(result) => result,
            TerminationStart::Retry(target) => Ok(self.retry(target, options)),
            TerminationStart::Requested(target, events) => {
                self.dispatch(&events);
                let mut termination = Termination::new(target, options);
                let mut event = TerminationEvent::Dispatched(self.waiters.try_get(pid));
                loop {
                    match termination.step(&mut self.supervisor, event) {
                        TerminationAction::Signal { signal, limit } => {
                            self.signal(&target.spawned, signal);
                            self.pump();
                            event = match self.waiters.register(pid) {
                                Some(exit) => TerminationEvent::Exited(exit),
                                None => {
                                    assert!(limit.is_some(), "would wait forever");
                                    TerminationEvent::Elapsed
                                }
                            };
                        }
                        TerminationAction::Retry => return Ok(self.retry(target, options)),
                        TerminationAction::Finish(exit) => return Ok(exit),
                        TerminationAction::Ignore => panic!("nothing to ignore here"),
                    }
                }
            }
        }
    }

    fn retry(&mut self, target: TerminationTarget, options: TerminateOptions) -> ProcessExit {
        let (mut retry, mut action) = Retry::new(target, options);
        loop {
            let event = match action {
                RetryAction::Signal { signal, observe: _, limit } => {
                    self.signal(&target.spawned, signal);
                    match self.observe(&target.spawned) {
                        Some(waited) => RetryEvent::Waited(waited),
                        None => {
                            assert!(limit.is_some(), "would wait forever");
                            RetryEvent::Elapsed
                        }
                    }
                }
                RetryAction::AwaitGrace => RetryEvent::Elapsed,
                RetryAction::Recovered(exit, events) => {
                    self.waiters.signal_exit(exit.pid, exit);
                    self.dispatch(&events);
                    return exit;
                }
                RetryAction::Finish(exit) => return exit,
                RetryAction::Ignore => panic!("nothing to ignore here"),
            };
            action = retry.step(&mut self.supervisor, event);
        }
    }

    fn sweep(&mut self, scope: ProcessScopeId) -> Result<(), TerminateError> {
        self.sweeps += 1;
        if self.faults.sweeps > 0 {
            self.faults.sweeps -= 1;
            return Err(TerminateError::Signal("injected containment failure".to_string()));
        }
        self.backend.signal_scope(scope, Signal::Kill)
    }

    fn terminate_scope(
        &mut self,
        scope: ProcessScopeId,
        options: TerminateOptions,
    ) -> Result<ScopeTerminationReport, TerminateError> {
        self.terminate_queued(scope, options, None)
    }

    fn terminate_queued(
        &mut self,
        scope: ProcessScopeId,
        options: TerminateOptions,
        finished: Option<ScopeTerminationReport>,
    ) -> Result<ScopeTerminationReport, TerminateError> {
        let (mut draining, targets, events) =
            match self.supervisor.begin_scope_termination(scope, finished) {
                ScopeTerminationStart::Finished(result) => return result,
                ScopeTerminationStart::Draining(draining, targets, events) => {
                    (draining, targets, events)
                }
            };
        self.dispatch(&events);
        for target in targets {
            let result = match target.exit {
                Some(exit) if ends_target(exit) => Ok(exit),
                _ => self.terminate(target.pid, options),
            };
            draining.join(&mut self.supervisor, target.pid, result);
        }
        assert!(draining.is_joined());
        let contained = self.sweep(scope);
        let mut swept = draining.sweep(&self.supervisor, contained)?;
        for pid in swept.unverified() {
            let waited = self.wait(pid);
            swept.reobserve(pid, waited);
        }
        let (report, closure) = swept.finish(&mut self.supervisor)?;
        if let Some(closure) = closure {
            if closure.scoped_block {
                self.slots[&scope.get()].borrow_mut().publish(Ok(report.clone()));
            }
            if let Some(expired) = closure.expired {
                self.slots.remove(&expired.get());
            }
            self.dispatch(&[closure.event]);
        }
        Ok(report)
    }

    fn shutdown(&mut self) -> Result<ShutdownReport, ShutdownError> {
        let mut shutdown = Shutdown::new();
        for scope in self.supervisor.begin_shutdown() {
            let result = self.terminate_scope(scope, short_opts());
            shutdown.record(result);
        }
        shutdown.finish()
    }

    fn with_scope<T>(
        &mut self,
        specs: Vec<ProcessSpec>,
        body: impl FnOnce(&mut World, &mut ScopedProcesses) -> T,
    ) -> WithScopeResult<T> {
        let scope = self.supervisor.try_create_scope(true).expect("open supervisor");
        // The worker of the block keeps its slot, even where the lookup drops it.
        let slot = Rc::new(RefCell::new(CleanupSlot::new()));
        self.slots.insert(scope.get(), Rc::clone(&slot));
        let mut spawns = ScopedSpawns::new();
        for spec in specs {
            if !spawns.record(self.spawn(scope, spec)) {
                break;
            }
        }
        let result = spawns
            .into_processes(scope)
            .map(|mut processes| body(self, &mut processes));
        let retained = slot.borrow().verified_report();
        let result_of_cleanup = match retained {
            Some(report) => Ok(report),
            None => self.terminate_scope(scope, short_opts()),
        };
        let (settled, kill) = settle_cleanup(&slot.borrow(), result_of_cleanup);
        if kill {
            self.backend.signal_scope(scope, Signal::Kill).unwrap();
        }
        slot.borrow_mut().publish(settled);
        let termination = slot.borrow().current().expect("published");
        WithScopeResult { scope, result, termination }
    }

    fn wait_scope_cleanup(
        &self,
        scope: ProcessScopeId,
    ) -> Option<Result<ScopeTerminationReport, TerminateError>> {
        match self.slots.get(&scope.get()) {
            Some(slot) => slot.borrow().current(),
            None => Some(Err(TerminateError::UnknownScope(scope))),
        }
    }

    fn prune(&self, scope: &mut ScopedProcesses) {
        let recorded = scope
            .authorized_ids()
            .into_iter()
            .filter(|pid| self.waiters.try_get(*pid).is_some())
            .collect();
        scope.retain_observable(&self.supervisor, &recorded);
    }

    fn scoped_spawn(&mut self, scope: &mut ScopedProcesses, program: &str) -> ProcessId {
        let pid = self.spawn(scope.id(), spec(program)).expect("scoped spawn");
        self.prune(scope);
        scope.authorize(pid);
        pid
    }

    fn scoped_wait(
        &mut self,
        scope: &mut ScopedProcesses,
        pid: ProcessId,
    ) -> Option<Result<ProcessExit, WaitError>> {
        self.prune(scope);
        if !scope.is_authorized(pid) {
            return Some(Err(WaitError::UnknownProcess(pid)));
        }
        let result = self.wait(pid);
        self.prune(scope);
        result
    }

    fn scoped_output(&mut self, scope: &mut ScopedProcesses, pid: ProcessId) -> bool {
        self.prune(scope);
        scope.is_authorized(pid) && self.supervisor.take_output(pid).is_some()
    }

    fn run(
        &mut self,
        spec: ProcessSpec,
        options: RunOptions,
    ) -> Result<BlockingRun, BlockingRunError> {
        self.run_gated(spec, options, |_| {})
    }

    fn run_gated(
        &mut self,
        spec: ProcessSpec,
        options: RunOptions,
        before_cleanup: impl FnOnce(&mut World),
    ) -> Result<BlockingRun, BlockingRunError> {
        let scope = self.supervisor.try_create_scope(false).map_err(BlockingRunError::Scope)?;
        let started = self.spawn(scope, spec);
        let admitted = started.as_ref().ok().copied();
        let attempt = match started {
            Err(error) => RunAttempt::Failed(BlockingRunError::Spawn(error)),
            Ok(pid) => match self.wait(pid) {
                Some(Ok(exit)) => RunAttempt::Exited(pid, exit),
                Some(Err(error)) => RunAttempt::Failed(BlockingRunError::Wait(error)),
                None => RunAttempt::Expired,
            },
        };
        let listed = self.supervisor.processes(scope);
        let ending = RunEnding::new(attempt, admitted, listed.as_ref());
        let capture =
            ending.capture.and_then(|pid| Some((pid, self.supervisor.take_output(pid)?)));
        before_cleanup(self);
        let cleanup = self.terminate_scope(scope, options.terminate);
        let output = match capture {
            Some((_, mut capture)) if cleanup.is_ok() => {
                Some(OutputDrain::new(capture.read()).finish())
            }
            Some((pid, capture)) => {
                self.supervisor.return_output(pid, capture);
                None
            }
            None => None,
        };
        ending.finish(cleanup, output)
    }
}

#[test]
fn spawn_wait_natural_exit_outside_async() {
    let mut sup = World::new();
    let scope = sup.create_scope();
    let pid = sup.spawn(scope, spec("exit-immediately")).unwrap();
    let os = sup.supervisor.os_pid(pid).expect("OS pid remains after an immediate natural exit");
    let exit = sup.ended(pid);
    assert_eq!(sup.supervisor.os_pid(pid), Some(os));
    assert_eq!(exit.outcome, TerminationOutcome::ExitedNaturally);
    assert!(sup.terminate_scope(scope, short_opts()).unwrap().all_verified());
    sup.shutdown().unwrap();
}

#[test]
fn graceful_and_forced_termination() {
    let mut sup = World::new();
    let scope = sup.create_scope();
    let polite = sup.spawn(scope, spec("respect-graceful")).unwrap();
    let exit = sup.terminate(polite, short_opts()).unwrap();
    assert_eq!(exit.outcome, TerminationOutcome::GracefulSuccess);
    let stubborn = sup.spawn(scope, spec("ignore-graceful")).unwrap();
    let exit = sup.terminate(stubborn, short_opts()).unwrap();
    assert_eq!(exit.outcome, TerminationOutcome::ForcedRequired);
    assert!(exit.forced);
    sup.shutdown().unwrap();
}

#[test]
fn graceful_termination_reports_graceful_success() {
    let mut sup = World::new();
    let scope = sup.create_scope();
    let pid = sup.spawn(scope, spec("respect-graceful")).unwrap();
    let exit = sup.terminate(pid, short_opts()).unwrap();
    assert_eq!(exit.outcome, TerminationOutcome::GracefulSuccess);
}

#[test]
fn ignoring_graceful_escalates_to_force() {
    let mut sup = World::new();
    let scope = sup.create_scope();
    let pid = sup.spawn(scope, spec("ignore-graceful")).unwrap();
    let exit = sup.terminate(pid, short_opts()).unwrap();
    assert_eq!(exit.outcome, TerminationOutcome::ForcedRequired);
    assert!(exit.forced);
    assert_eq!(sup.signals, vec![Signal::Term, Signal::Kill]);
}

#[test]
fn natural_exit_is_reported() {
    let mut sup = World::new();
    let scope = sup.create_scope();
    let pid = sup.spawn(scope, spec("exit-immediately")).unwrap();
    assert_eq!(sup.ended(pid).outcome, TerminationOutcome::ExitedNaturally);
}

#[test]
fn blocking_terminate_scope_cannot_touch_another_scope() {
    let mut sup = World::new();
    let scope_a = sup.create_scope();
    let scope_b = sup.create_scope();
    let _a = sup.spawn(scope_a, spec("respect-graceful")).unwrap();
    let b = sup.spawn(scope_b, spec("ignore-graceful")).unwrap();
    assert!(sup.terminate_scope(scope_a, short_opts()).unwrap().all_verified());
    assert_eq!(sup.supervisor.processes(scope_b).expect("scope b"), vec![b]);
    assert!(sup.terminate_scope(scope_b, short_opts()).unwrap().all_verified());
}

#[test]
fn contract_terminate_scope_cannot_touch_another_scope() {
    let mut sup = World::new();
    let scope_a = sup.create_scope();
    let scope_b = sup.create_scope();
    let _a = sup.spawn(scope_a, spec("respect-graceful")).unwrap();
    let b = sup.spawn(scope_b, spec("ignore-graceful")).unwrap();
    let report = sup.terminate_scope(scope_a, short_opts()).unwrap();
    assert!(report.all_verified());
    let live_b = sup.supervisor.processes(scope_b).expect("scope b exists");
    assert_eq!(live_b, vec![b], "terminating A must not affect B");
    let report_b = sup.terminate_scope(scope_b, short_opts()).unwrap();
    assert!(report_b.all_verified());
}

#[test]
fn repeated_terminate_is_idempotent() {
    let mut sup = World::new();
    let scope = sup.create_scope();
    let pid = sup.spawn(scope, spec("ignore-graceful")).unwrap();
    let first = sup.terminate(pid, short_opts()).unwrap();
    let second = sup.terminate(pid, short_opts()).unwrap();
    assert_eq!(first.outcome, TerminationOutcome::ForcedRequired);
    assert_eq!(second.outcome, TerminationOutcome::ForcedRequired);
    assert_eq!(
        sup.terminate(ProcessId::new(99), short_opts()),
        Err(TerminateError::UnknownProcess(ProcessId::new(99)))
    );
}

#[test]
fn blocking_draining_scope_rejects_new_spawns() {
    let mut sup = World::new();
    let scope = sup.create_scope();
    sup.terminate_scope(scope, short_opts()).unwrap();
    let err = sup.spawn(scope, spec("respect-graceful")).unwrap_err();
    assert!(matches!(err, SpawnError::ScopeClosed(_)));
}

#[test]
fn contract_draining_scope_rejects_new_spawns() {
    let mut sup = World::with_faults(Faults { sweeps: 1, ..Faults::default() });
    let scope = sup.create_scope();
    assert!(sup.terminate_scope(scope, short_opts()).is_err());
    let err = sup.spawn(scope, spec("respect-graceful")).unwrap_err();
    assert!(matches!(err, SpawnError::ScopeClosed(_)), "still draining");
    sup.terminate_scope(scope, short_opts()).unwrap();
    let err = sup.spawn(scope, spec("respect-graceful")).unwrap_err();
    assert!(matches!(err, SpawnError::ScopeClosed(_)), "released");
    let unknown = ProcessScopeId::new(1000);
    assert_eq!(sup.spawn(unknown, spec("x")), Err(SpawnError::UnknownScope(unknown)));
}

#[test]
fn spawn_queued_behind_cleanup_reports_scope_closed() {
    let mut sup = World::new();
    let scope = sup.create_scope();
    // The spawn is admitted to the queue first, and its turn comes after the cleanup.
    assert_eq!(sup.supervisor.request_spawn(scope), Ok(()));
    assert!(sup.terminate_scope(scope, short_opts()).unwrap().all_verified());
    assert!(sup.supervisor.processes(scope).is_none());
    for finished in [false, true] {
        assert_eq!(
            sup.supervisor.admit_spawn(scope, finished),
            Err(SpawnError::ScopeClosed(scope))
        );
    }
}

#[test]
fn queued_operations_retain_results_after_lookup_history_eviction() {
    let mut sup = World::new();
    let scope = sup.create_scope();
    let report = sup.terminate_scope(scope, short_opts()).unwrap();
    assert!(report.all_verified());
    for _ in 0..650 {
        let old = sup.create_scope();
        sup.terminate_scope(old, short_opts()).unwrap();
    }
    assert_eq!(
        sup.supervisor.scope_report(scope),
        Some(Err(TerminateError::UnknownScope(scope)))
    );
    let queued = sup.terminate_queued(scope, short_opts(), Some(report)).unwrap();
    assert!(queued.all_verified());
    assert_eq!(
        sup.supervisor.admit_spawn(scope, true),
        Err(SpawnError::ScopeClosed(scope))
    );
}

#[test]
fn completed_scope_reports_are_bounded() {
    let mut sup = World::new();
    let oldest = sup.create_scope();
    sup.terminate_scope(oldest, short_opts()).unwrap();
    for _ in 0..256 {
        let scope = sup.create_scope();
        assert!(sup.terminate_scope(scope, short_opts()).unwrap().all_verified());
        assert!(sup.terminate_scope(scope, short_opts()).unwrap().all_verified());
    }
    assert_eq!(
        sup.terminate_scope(oldest, short_opts()),
        Err(TerminateError::UnknownScope(oldest))
    );
}

#[test]
fn shutdown_is_idempotent() {
    let mut sup = World::new();
    let scope = sup.create_scope();
    let _ = sup.spawn(scope, spec("respect-graceful")).unwrap();
    sup.shutdown().unwrap();
    sup.shutdown().unwrap();
}

#[test]
fn shutdown_rejects_new_scopes_and_is_idempotent() {
    let mut sup = World::new();
    let scope = sup.create_scope();
    let _ = sup.spawn(scope, spec("respect-graceful")).unwrap();
    sup.shutdown().unwrap();
    sup.shutdown().unwrap();
    assert_eq!(
        sup.supervisor.try_create_scope(false),
        Err(ScopeCreationError::SupervisorClosed)
    );
}

#[test]
fn rejected_creation_does_not_allocate_or_poison_shutdown_state() {
    let mut sup = World::new();
    let admitted = sup.create_scope();
    sup.shutdown().unwrap();
    assert!(sup.supervisor.is_shutting_down());
    for _ in 0..1000 {
        assert_eq!(
            sup.supervisor.try_create_scope(true),
            Err(ScopeCreationError::SupervisorClosed)
        );
    }
    assert!(sup.supervisor.registry().scope_ids().is_empty());
    assert!(sup.supervisor.scope_report(admitted).unwrap().is_ok());
    assert!(sup.shutdown().unwrap().scopes.is_empty());
}

#[test]
fn wait_failure_is_cleanup_unverified() {
    let mut sup = World::with_faults(Faults { wait: true, ..Faults::default() });
    let scope = sup.create_scope();
    let pid = sup.spawn(scope, spec("respect-graceful")).unwrap();
    let exit = sup.ended(pid);
    assert_eq!(
        exit.outcome,
        TerminationOutcome::CleanupUnverified(UnverifiedReason::ReapFailed)
    );
    for _ in 0..2 {
        let report = sup.terminate_scope(scope, short_opts()).unwrap();
        assert!(!report.all_verified());
        assert_eq!(report.outcomes, vec![(pid, exit.outcome)]);
        assert_eq!(sup.shutdown().unwrap_err(), ShutdownError::Unverified(1));
    }
}

#[test]
fn shutdown_retries_failed_containment_for_empty_and_reaped_scopes() {
    for mode in ["empty", "respect-graceful", "exit-immediately"] {
        let mut sup = World::with_faults(Faults { sweeps: 2, ..Faults::default() });
        let scope = sup.create_scope();
        let pid = (mode != "empty").then(|| {
            let pid = sup.spawn(scope, spec(mode)).unwrap();
            if mode == "exit-immediately" {
                sup.ended(pid);
            }
            pid
        });
        for expected in 1..=2 {
            assert_eq!(sup.shutdown().unwrap_err(), ShutdownError::Unverified(1));
            assert_eq!(sup.sweeps, expected);
            assert_eq!(sup.supervisor.processes(scope), Some(Vec::new()));
            assert_eq!(sup.scope_count(scope), 0, "published before verified cleanup");
        }
        let report = sup.shutdown().unwrap();
        assert_eq!(report.scopes.len(), 1);
        assert!(report.scopes[0].all_verified());
        if mode == "respect-graceful" {
            assert_eq!(
                report.scopes[0].outcomes,
                vec![(pid.unwrap(), TerminationOutcome::GracefulSuccess)]
            );
        }
        assert_eq!(sup.supervisor.processes(scope), None);
        assert!(sup.terminate_scope(scope, short_opts()).unwrap().all_verified());
        assert!(sup.shutdown().unwrap().scopes.is_empty());
        assert_eq!(sup.sweeps, 3);
        assert_eq!(sup.scope_count(scope), 1);
        assert_eq!(sup.spawn(scope, spec("unused")), Err(SpawnError::ScopeClosed(scope)));
    }
}

#[test]
fn cancellation_before_workers_complete_preserves_reaped_outcomes() {
    let mut sup = World::new();
    let scope = sup.create_scope();
    let pid = sup.spawn(scope, spec("respect-graceful")).unwrap();
    match sup.supervisor.begin_scope_termination(scope, None) {
        ScopeTerminationStart::Draining(_, targets, events) => {
            assert_eq!(targets.len(), 1);
            sup.dispatch(&events);
        }
        ScopeTerminationStart::Finished(result) => panic!("nothing is finished: {result:?}"),
    }
    sup.backend.signal_scope(scope, Signal::Kill).unwrap();
    let exit = sup.ended(pid);
    assert_eq!(exit.outcome, TerminationOutcome::ForcedRequired);
    assert_eq!(sup.scope_count(scope), 0);
    let report = sup.terminate_scope(scope, short_opts()).unwrap();
    assert_eq!(report.outcomes, vec![(pid, exit.outcome)]);
    assert_eq!(sup.terminate_scope(scope, short_opts()).unwrap().outcomes, report.outcomes);
    assert_eq!(sup.scope_count(scope), 1);
}

#[test]
fn draining_captures_reap_recorded_open_before_monitor_prune() {
    let mut sup = World::new();
    let scope = sup.create_scope();
    let pid = sup.spawn(scope, spec("exit-immediately")).unwrap();
    // The monitor records the reap, but its events are not dispatched yet.
    let exit = RawExit { code: Some(0), signal: None, core_dumped: false };
    sup.monitored.clear();
    let events = sup.supervisor.record_wait_result(scope, pid, Ok(exit)).unwrap();
    match sup.supervisor.begin_scope_termination(scope, None) {
        ScopeTerminationStart::Draining(_, _, events) => sup.dispatch(&events),
        ScopeTerminationStart::Finished(result) => panic!("nothing is finished: {result:?}"),
    }
    sup.dispatch(&events);
    assert_eq!(sup.supervisor.registry().get(scope).unwrap().process_ids(), Vec::new());
    let retry = sup.terminate_scope(scope, short_opts()).unwrap();
    assert_eq!(retry.outcomes, vec![(pid, TerminationOutcome::ExitedNaturally)]);
}

#[test]
fn quarantined_root_retries_signals_and_accepts_only_fresh_verified_reap() {
    for program in ["respect-graceful", "ignore-graceful"] {
        let mut sup = World::with_faults(Faults { wait: true, ..Faults::default() });
        let scope = sup.create_scope();
        let pid = sup.spawn(scope, spec(program)).unwrap();
        assert!(!sup.ended(pid).outcome.is_verified());
        sup.faults.wait = false;
        let recovered = sup.terminate(pid, short_opts()).unwrap();
        assert!(recovered.outcome.is_verified());
        assert_eq!(sup.ended(pid), recovered);
        assert_eq!(sup.terminate(pid, short_opts()).unwrap(), recovered);
        assert_eq!(
            sup.signals,
            if program == "respect-graceful" {
                vec![Signal::Term]
            } else {
                vec![Signal::Term, Signal::Kill]
            }
        );
        assert!(sup.supervisor.processes(scope).unwrap().is_empty());
        assert!(sup.terminate_scope(scope, short_opts()).unwrap().all_verified());
    }
}

#[test]
fn quarantined_retry_still_forces_when_wait_errors_or_times_out() {
    for hangs in [false, true] {
        let mut sup = World::with_faults(Faults { wait: true, ..Faults::default() });
        let scope = sup.create_scope();
        let pid = sup.spawn(scope, spec("ignore-graceful")).unwrap();
        assert!(!sup.ended(pid).outcome.is_verified());
        sup.faults.hang = hangs;
        let retry = sup.terminate(pid, short_opts()).unwrap();
        assert!(!retry.outcome.is_verified());
        assert_eq!(
            retry.outcome,
            TerminationOutcome::CleanupUnverified(if hangs {
                UnverifiedReason::WaitTimedOut { waited: Duration::from_secs(2) }
            } else {
                UnverifiedReason::ReapFailed
            })
        );
        assert_eq!(sup.signals, vec![Signal::Term, Signal::Kill]);
        assert!(!sup.ended(pid).outcome.is_verified());
        sup.faults.hang = false;
        sup.faults.wait = false;
        let recovered = sup.terminate(pid, short_opts()).unwrap();
        assert_eq!(recovered.outcome, TerminationOutcome::ForcedRequired);
        assert!(sup.shutdown().is_ok());
    }
}

#[test]
fn fresh_retry_wait_error_still_forces_then_records_recovered_scope_outcome() {
    let mut sup = World::with_faults(Faults { wait: true, ..Faults::default() });
    let scope = sup.create_scope();
    let pid = sup.spawn(scope, spec("ignore-graceful")).unwrap();
    assert!(!sup.ended(pid).outcome.is_verified());
    sup.faults.recover_on_kill = true;
    let report = sup.terminate_scope(scope, short_opts()).unwrap();
    assert_eq!(report.outcomes, vec![(pid, TerminationOutcome::ForcedRequired)]);
    assert_eq!(sup.signals, vec![Signal::Term, Signal::Kill]);
    assert!(sup.ended(pid).outcome.is_verified());
    assert!(sup.shutdown().is_ok());
}

#[test]
fn lost_waiter_stays_unverified_in_scope_and_shutdown() {
    let mut sup = World::with_faults(Faults { hang: true, ..Faults::default() });
    let scope = sup.create_scope();
    let pid = sup.spawn(scope, spec("ignore-graceful")).unwrap();
    let report = sup.terminate_scope(scope, short_opts()).unwrap();
    assert_eq!(
        report.outcomes,
        vec![(
            pid,
            TerminationOutcome::CleanupUnverified(UnverifiedReason::WaitTimedOut {
                waited: Duration::from_secs(2)
            })
        )]
    );
    assert_eq!(sup.shutdown().unwrap_err(), ShutdownError::Unverified(1));
    sup.faults.hang = false;
    assert!(sup.shutdown().unwrap().scopes[0].all_verified());
}

#[test]
fn admitted_spawn_after_last_owner_drop_still_kills_and_reaps() {
    let mut sup = World::new();
    let scope = sup.create_scope();
    sup.supervisor.admit_spawn(scope, false).unwrap();
    let spawned = sup.backend.spawn(scope, &spec("ignore-graceful")).unwrap();
    assert!(sup.supervisor.drop_owners(), "dropped without a shutdown");
    let orphan = sup
        .supervisor
        .attach_spawned(scope, spec("ignore-graceful"), spawned.os, Instant { nanos: 0 }, None)
        .unwrap_err();
    assert!(orphan.sweep);
    assert_eq!(orphan.error, SpawnError::ScopeClosed(scope));
    assert!(!sup.supervisor.drop_owners());
}

#[test]
fn drop_without_shutdown_does_not_hang() {
    let mut sup = World::new();
    let scope = sup.create_scope();
    let pid = sup.spawn(scope, spec("ignore-graceful")).unwrap();
    assert!(sup.supervisor.drop_owners());
    sup.backend.hard_kill_all();
    let exit = sup.ended(pid);
    assert_eq!(exit.outcome, TerminationOutcome::ExitedNaturally);
    assert!(exit.forced);
}

#[test]
fn spawn_racing_a_closing_scope_is_an_orphan() {
    let mut sup = World::new();
    let scope = sup.create_scope();
    let os = OsIdentity::new(77, ReuseToken::StartTime(1));
    sup.supervisor.begin_scope_termination(scope, None);
    let orphan = sup
        .supervisor
        .attach_spawned(scope, spec("x"), os, Instant { nanos: 0 }, None)
        .unwrap_err();
    assert!(!orphan.sweep);
    assert_eq!(orphan.error, SpawnError::ScopeClosed(scope));
    let unknown = ProcessScopeId::new(9);
    let orphan = sup
        .supervisor
        .attach_spawned(unknown, spec("x"), os, Instant { nanos: 0 }, None)
        .unwrap_err();
    assert_eq!(orphan.error, SpawnError::UnknownScope(unknown));
}

#[test]
fn unclaimed_capture_is_bounded_without_evicting_live_or_transferred_observers() {
    let mut sup = World::new();
    sup.captures = true;
    let scope = sup.create_scope();
    let live = sup.spawn(scope, spec("respect-graceful")).unwrap();
    let transferred = sup.spawn(scope, spec("exit-immediately")).unwrap();
    let mut observer = sup.supervisor.take_output(transferred).unwrap();
    assert!(sup.supervisor.take_output(transferred).is_none(), "a capture moves once");
    sup.ended(transferred);
    let mut completed = Vec::new();
    for _ in 0..320 {
        let pid = sup.spawn(scope, spec("exit-immediately")).unwrap();
        sup.ended(pid);
        completed.push(pid);
    }
    for pid in &completed[..64] {
        assert!(sup.supervisor.take_output(*pid).is_none());
    }
    for pid in &completed[64..] {
        assert!(sup.supervisor.take_output(*pid).is_some());
    }
    assert!(sup.supervisor.take_output(live).is_some());
    assert!(observer.read().errors.is_empty());
    sup.shutdown().unwrap();
}

#[test]
fn os_pid_history_stays_bounded_when_monitor_loses_the_registry() {
    let mut sup = World::new();
    let mut pids = Vec::new();
    for _ in 0..300 {
        let scope = sup.create_scope();
        let pid = sup.spawn(scope, spec("exit-immediately")).unwrap();
        pids.push(pid);
        assert!(sup.supervisor.os_pid(pid).is_some());
        assert!(sup.ended(pid).outcome.is_verified());
        assert!(sup.terminate_scope(scope, short_opts()).unwrap().all_verified());
    }
    assert!(sup.supervisor.os_pid(pids[299]).is_some());
    assert!(sup.supervisor.os_pid(pids[44]).is_some());
    assert_eq!(sup.supervisor.os_pid(pids[43]), None);
    assert_eq!(sup.supervisor.os_pid(pids[0]), None);
}

#[test]
fn with_scope_preserves_result_and_cleanup() {
    let mut sup = World::new();
    for fail in [false, true] {
        let result = sup.with_scope(vec![spec("ignore-graceful")], |_, scope| {
            assert_eq!(scope.processes().len(), 1);
            if fail {
                Err("closure error")
            } else {
                Ok::<_, &str>(42)
            }
        });
        assert_eq!(
            result.result.unwrap(),
            if fail { Err("closure error") } else { Ok(42) }
        );
        assert!(result.termination.unwrap().all_verified());
    }
}

#[test]
fn success_and_question_mark_error_preserve_result_and_cleanup() {
    let mut sup = World::new();
    let result = sup.with_scope(vec![spec("ignore-graceful")], |_, _| Err::<(), _>("body"));
    assert_eq!(result.result.unwrap(), Err("body"));
    let report = result.termination.unwrap();
    assert_eq!(report.outcomes[0].1, TerminationOutcome::ForcedRequired);
}

#[test]
fn with_scope_body_can_spawn_and_wait() {
    let mut sup = World::new();
    let result = sup.with_scope(Vec::new(), |sup, scope| {
        let pid = sup.scoped_spawn(scope, "exit-immediately");
        sup.scoped_wait(scope, pid).expect("ended").expect("scoped wait").outcome
    });
    assert_eq!(result.result.unwrap(), TerminationOutcome::ExitedNaturally);
    assert!(result.termination.unwrap().all_verified());
}

#[test]
fn from_runtime_current_thread_with_scope_body_can_spawn_and_wait() {
    let mut sup = World::new();
    let result = sup.with_scope(vec![spec("ignore-graceful")], |sup, scope| {
        let pid = sup.scoped_spawn(scope, "exit-immediately");
        sup.scoped_wait(scope, pid).expect("ended").expect("scoped wait").outcome
    });
    assert_eq!(result.result.unwrap(), TerminationOutcome::ExitedNaturally);
    assert!(result.termination.unwrap().all_verified());
}

#[test]
fn nested_with_scope_blocks_are_independent() {
    let mut sup = World::new();
    let outer = sup.with_scope(vec![spec("ignore-graceful")], |sup, outer| {
        let inner = sup.with_scope(vec![spec("respect-graceful")], |_, inner| inner.id());
        assert_ne!(outer.id(), inner.result.unwrap());
        assert!(inner.termination.unwrap().all_verified());
        outer.id()
    });
    assert!(outer.termination.unwrap().all_verified());
}

#[test]
fn with_scope_wait_rejects_foreign_process() {
    let mut sup = World::new();
    let foreign_scope = sup.create_scope();
    let foreign = sup.spawn(foreign_scope, spec("exit-immediately")).unwrap();
    let result = sup.with_scope(Vec::new(), |sup, scope| {
        sup.scoped_wait(scope, foreign)
            .expect("answered")
            .expect_err("must not wait a foreign pid")
    });
    assert!(matches!(result.result.unwrap(), WaitError::UnknownProcess(_)));
    assert!(result.termination.unwrap().all_verified());
    assert!(sup.terminate_scope(foreign_scope, short_opts()).unwrap().all_verified());
}

#[test]
fn with_scope_partial_spawn_still_cleans() {
    let mut sup = World::with_faults(Faults { spawns_from: Some(2), ..Faults::default() });
    let result = sup.with_scope(
        vec![spec("exit-immediately"), spec("fail-this-one")],
        |_, _| panic!("body must not run after partial spawn failure"),
    );
    assert!(result.result.is_err(), "{:?}", result.result.err());
    assert!(result.termination.unwrap().all_verified());
}

#[test]
fn empty_with_scope_still_reports_cleanup() {
    let mut sup = World::new();
    let result = sup.with_scope(Vec::new(), |_, scope| {
        assert!(scope.processes().is_empty());
        7
    });
    assert_eq!(result.result.unwrap(), 7);
    assert!(result.termination.unwrap().all_verified());
}

#[test]
fn with_scope_terminate_then_block_cleanup_is_idempotent() {
    let mut sup = World::new();
    let result = sup.with_scope(vec![spec("ignore-graceful")], |sup, scope| {
        sup.terminate_scope(scope.id(), short_opts()).unwrap().all_verified()
    });
    assert!(result.result.unwrap());
    let termination = result.termination.expect("outer cleanup");
    assert!(
        termination.all_verified(),
        "second terminate_scope after body must be idempotent: {termination:?}"
    );
}

#[test]
fn with_scope_panic_keeps_cleanup_error_visible() {
    let mut sup = World::with_faults(Faults { sweeps: 1, ..Faults::default() });
    let result = sup.with_scope(vec![spec("ignore-graceful")], |_, scope| scope.id());
    let cleanup = sup.wait_scope_cleanup(result.scope).expect("published");
    assert!(cleanup.is_err(), "cleanup failure must stay visible: {cleanup:?}");
}

#[test]
fn scope_guard_preserves_unverified_per_process_report() {
    let mut sup = World::with_faults(Faults { wait: true, ..Faults::default() });
    let result = sup.with_scope(vec![spec("ignore-graceful")], |sup, scope| {
        let pid = scope.processes()[0];
        sup.scoped_wait(scope, pid).unwrap().unwrap();
        pid
    });
    let pid = result.result.unwrap();
    let report = result.termination.unwrap();
    assert_eq!(
        report.outcomes,
        vec![(pid, TerminationOutcome::CleanupUnverified(UnverifiedReason::ReapFailed))]
    );
}

#[test]
fn scoped_cleanup_history_evicts_oldest() {
    let mut sup = World::new();
    let first = sup.with_scope(Vec::new(), |_, scope| scope.id()).scope;
    let mut last = first;
    for _ in 0..256 {
        last = sup.with_scope(Vec::new(), |_, scope| scope.id()).scope;
    }
    assert!(
        sup.wait_scope_cleanup(first).unwrap().is_err(),
        "history is bounded; the oldest scoped report must evict"
    );
    assert!(sup.wait_scope_cleanup(last).unwrap().unwrap().all_verified());
}

#[test]
fn ordinary_scope_history_does_not_evict_scoped_cleanup_results() {
    let mut sup = World::new();
    let first = sup.with_scope(Vec::new(), |_, _| ()).scope;
    for _ in 0..650 {
        let scope = sup.create_scope();
        sup.terminate_scope(scope, short_opts()).unwrap();
    }
    assert!(sup.wait_scope_cleanup(first).unwrap().unwrap().all_verified());
    assert_eq!(sup.slots.len(), 1);
    for _ in 0..256 {
        assert!(sup.with_scope(Vec::new(), |_, _| ()).termination.unwrap().all_verified());
    }
    assert_eq!(
        sup.wait_scope_cleanup(first),
        Some(Err(TerminateError::UnknownScope(first)))
    );
    assert_eq!(sup.slots.len(), 256);
}

#[test]
fn with_scope_prunes_authorization_after_observation_history_bound() {
    let mut sup = World::new();
    let result = sup.with_scope(Vec::new(), |sup, scope| {
        let mut first = None;
        let mut latest = None;
        for _ in 0..300 {
            let pid = sup.scoped_spawn(scope, "exit-immediately");
            first.get_or_insert(pid);
            latest = Some(pid);
            assert!(sup.scoped_wait(scope, pid).unwrap().unwrap().outcome.is_verified());
            assert!(
                scope.authorized_len() <= 257,
                "blocking scope retained every completed id: {}",
                scope.authorized_len()
            );
        }
        let first = first.expect("first pid");
        let latest = latest.expect("latest pid");
        assert!(
            matches!(sup.scoped_wait(scope, first),
                Some(Err(WaitError::UnknownProcess(id))) if id == first),
            "expired observation history must drop authorization"
        );
        assert!(sup.scoped_wait(scope, latest).unwrap().unwrap().outcome.is_verified());
        scope.authorized_len()
    });
    assert!(result.result.unwrap() <= 257);
    assert!(result.termination.unwrap().all_verified());
}

#[test]
fn scoped_dynamic_membership_expires_history_but_keeps_quarantine_and_observations() {
    let mut sup = World::with_faults(Faults { wait: true, ..Faults::default() });
    sup.captures = true;
    let result = sup.with_scope(Vec::new(), |sup, scope| {
        let quarantined = sup.scoped_spawn(scope, "respect-graceful");
        assert!(!sup.scoped_wait(scope, quarantined).unwrap().unwrap().outcome.is_verified());
        sup.faults.wait = false;
        let mut pids = Vec::new();
        for _ in 0..650 {
            let pid = sup.scoped_spawn(scope, "exit-immediately");
            pids.push(pid);
            assert!(sup.scoped_wait(scope, pid).unwrap().unwrap().outcome.is_verified());
            assert!(scope.authorized_len() <= 258, "expired completed IDs were retained");
        }
        let (expired, latest) = (pids[0], pids[649]);
        assert_eq!(
            sup.scoped_wait(scope, expired),
            Some(Err(WaitError::UnknownProcess(expired)))
        );
        assert!(!sup.scoped_output(scope, expired));
        assert!(sup.scoped_output(scope, latest));
        assert!(sup.scoped_wait(scope, latest).unwrap().unwrap().outcome.is_verified());
        // The registry still holds the process whose wait failed.
        assert!(!sup.scoped_wait(scope, quarantined).unwrap().unwrap().outcome.is_verified());
        sup.faults.wait = true;
        latest
    });
    let latest = result.result.unwrap();
    assert!(!result.termination.unwrap().all_verified());
    assert!(sup.supervisor.os_pid(latest).is_some());
}

#[test]
fn wait_scope_cleanup_can_register_before_the_body_returns() {
    let mut sup = World::new();
    let result = sup.with_scope(Vec::new(), |sup, scope| {
        assert_eq!(
            sup.wait_scope_cleanup(scope.id()),
            None,
            "waiter must block until cleanup, not return UnknownScope"
        );
        7
    });
    assert!(sup.wait_scope_cleanup(result.scope).unwrap().unwrap().all_verified());
    assert_eq!(result.result.unwrap(), 7);
}

#[test]
fn wait_scope_cleanup_sees_recovered_terminate_after_initial_failure() {
    let mut sup = World::with_faults(Faults { sweeps: 1, ..Faults::default() });
    let result = sup.with_scope(Vec::new(), |_, _| ());
    assert!(
        result.termination.is_err(),
        "first cleanup must fail: {:?}",
        result.termination
    );
    assert!(sup.terminate_scope(result.scope, short_opts()).unwrap().all_verified());
    assert!(
        sup.wait_scope_cleanup(result.scope).unwrap().unwrap().all_verified(),
        "shared channel must publish the recovered success"
    );
}

#[test]
fn recovered_scoped_cleanups_enter_bounded_history_once() {
    let mut sup = World::new();
    let mut first = None;
    for _ in 0..300 {
        sup.faults.sweeps = 1;
        let failed = sup.with_scope(Vec::new(), |_, _| ());
        assert!(failed.result.is_ok());
        assert!(failed.termination.is_err());
        first.get_or_insert(failed.scope);
        for _ in 0..2 {
            assert!(sup.terminate_scope(failed.scope, short_opts()).unwrap().all_verified());
        }
    }
    assert_eq!(sup.slots.len(), 256);
    let first = first.unwrap();
    assert_eq!(
        sup.wait_scope_cleanup(first),
        Some(Err(TerminateError::UnknownScope(first)))
    );
}

#[test]
fn run_completed_natural_exit() {
    let mut sup = World::new();
    let run = sup.run(spec("exit-immediately"), run_opts(Duration::from_secs(2))).unwrap();
    assert!(!run.timed_out());
    assert!(run.all_verified());
    match run {
        BlockingRun::Completed { exit, .. } => {
            assert_eq!(exit.outcome, TerminationOutcome::ExitedNaturally);
        }
        other => panic!("expected completion, got {other:?}"),
    }
}

#[test]
fn run_deadline_kills_and_reaps() {
    let mut sup = World::new();
    let run = sup.run(spec("ignore-graceful"), run_opts(Duration::from_millis(80))).unwrap();
    assert!(run.timed_out());
    assert!(
        run.all_verified(),
        "deadline expiry must still confirm group cleanup: {:?}",
        run.termination()
    );
}

#[test]
fn run_zero_deadline_still_confirms_cleanup() {
    let mut sup = World::new();
    let run = sup.run(spec("ignore-graceful"), run_opts(Duration::from_secs(0))).unwrap();
    assert!(run.timed_out());
    assert!(
        run.all_verified(),
        "deadline 0 must still terminate and reap: {:?}",
        run.termination()
    );
}

#[test]
fn run_near_deadline_success_does_not_starve_cleanup() {
    let mut sup = World::new();
    let run = sup.run(spec("exit-immediately"), run_opts(Duration::from_millis(1))).unwrap();
    assert!(run.all_verified(), "{:?}", run.termination());
    run.into_verified().expect("verified");
}

#[test]
fn run_spawn_failure_still_terminates_the_admitted_scope() {
    let mut sup =
        World::with_faults(Faults { spawns_from: Some(1), sweeps: 1, ..Faults::default() });
    let err = sup
        .run(spec("anything"), run_opts(Duration::from_secs(2)))
        .expect_err("spawn and cleanup both fail");
    assert!(
        matches!(err, BlockingRunError::Terminate(_)),
        "cleanup failure must not be hidden behind spawn: {err:?}"
    );
}

#[test]
fn run_spawn_failure_with_verified_cleanup_returns_spawn() {
    let mut sup = World::with_faults(Faults { spawns_from: Some(1), ..Faults::default() });
    let err = sup
        .run(spec("anything"), run_opts(Duration::from_secs(2)))
        .expect_err("spawn fails");
    assert!(
        matches!(err, BlockingRunError::Spawn(_)),
        "verified cleanup should preserve the spawn error: {err:?}"
    );
}

#[test]
fn run_after_shutdown_is_supervisor_closed() {
    let mut sup = World::new();
    sup.shutdown().unwrap();
    let err = sup
        .run(spec("exit-immediately"), run_opts(Duration::from_secs(1)))
        .expect_err("closed supervisor");
    assert!(matches!(err, BlockingRunError::Scope(_)), "{err:?}");
}

#[test]
fn clone_shares_runtime_and_survives_sibling_drop() {
    let mut sup = World::new();
    let scope = sup.create_scope();
    let pid = sup.spawn(scope, spec("exit-immediately")).unwrap();
    assert_eq!(sup.ended(pid).outcome, TerminationOutcome::ExitedNaturally);
    assert!(sup.terminate_scope(scope, short_opts()).unwrap().all_verified());
}

#[test]
fn repeated_run_cycles_stay_verified() {
    let mut sup = World::new();
    for i in 0..32 {
        let program = if i % 2 == 0 { "exit-immediately" } else { "ignore-graceful" };
        let run = sup.run(spec(program), run_opts(Duration::from_millis(80))).unwrap();
        assert!(run.all_verified(), "cycle {i} unverified: {:?}", run.termination());
    }
    sup.shutdown().unwrap();
}

#[test]
fn slow_spawn_is_waited_then_cleaned() {
    let mut sup = World::new();
    let scope = sup.create_scope();
    // The deadline passes while the spawn is still under way; the spawn goes on.
    let ending = RunEnding::new(RunAttempt::Expired, None, None);
    assert_eq!(ending.capture, None);
    let pid = sup.spawn(scope, spec("ignore-graceful")).unwrap();
    let cleanup = sup.terminate_scope(scope, short_opts());
    let run = ending.finish(cleanup, None).unwrap();
    assert!(run.timed_out());
    assert_eq!(run.termination().outcomes, vec![(pid, TerminationOutcome::ForcedRequired)]);
    assert!(run.all_verified(), "in-flight spawn must not be abandoned");
}

#[test]
fn run_timeout_surfaces_containment_failure() {
    let mut sup = World::with_faults(Faults { sweeps: 1, ..Faults::default() });
    let err = sup
        .run(spec("ignore-graceful"), run_opts(Duration::from_millis(20)))
        .expect_err("cleanup failure after timeout must surface");
    assert!(
        matches!(err, BlockingRunError::Terminate(_)),
        "must not return TimedOut that hides a failed reap: {err:?}"
    );
}

#[test]
fn run_wait_failure_is_not_a_verified_success() {
    let mut sup = World::with_faults(Faults { wait: true, ..Faults::default() });
    let run = sup.run(spec("ignore-graceful"), run_opts(Duration::from_secs(2))).unwrap();
    assert!(!run.all_verified(), "a failed reap must not look successful: {run:?}");
    assert!(
        run.into_verified().is_err(),
        "hosts that refuse unverified reaps go through into_verified"
    );
}

#[test]
fn run_keeps_capture_while_cleanup_is_gated() {
    let mut sup = World::new();
    sup.captures = true;
    let run = sup
        .run_gated(spec("exit-immediately"), run_opts(Duration::from_secs(2)), |sup| {
            for _ in 0..257 {
                let scope = sup.create_scope();
                let pid = sup.spawn(scope, spec("exit-immediately")).expect("flood spawn");
                assert!(sup.ended(pid).outcome.is_verified());
                assert!(sup.terminate_scope(scope, short_opts()).unwrap().all_verified());
            }
        })
        .expect("completed");
    assert!(!run.timed_out(), "{run:?}");
    assert!(run.all_verified(), "{:?}", run.termination());
    let snapshot = run.output().expect("run kept its capture");
    let bytes: Vec<u8> =
        snapshot.chunks.iter().flat_map(|chunk| chunk.bytes.iter().copied()).collect();
    assert_eq!(bytes, b"exit-immediately".to_vec());
}

#[test]
fn nothing_is_left_behind_by_a_shutdown() {
    let mut world = World::new();
    let (first, second) = (world.create_scope(), world.create_scope());
    let kept = world.spawn(first, spec("worker")).unwrap();
    let stubborn = world.spawn(first, spec("ignore-graceful")).unwrap();
    let finished = world.spawn(second, spec("exit-immediately")).unwrap();
    assert_eq!(world.supervisor.processes(first), Some(vec![kept, stubborn]));
    assert!(world.ended(finished).outcome.is_verified());
    let report = world.shutdown().unwrap();
    assert!(report.scopes.iter().all(|scope| scope.all_verified()));
    let confirmed: Vec<ProcessId> =
        report.scopes[0].outcomes.iter().map(|(pid, _)| *pid).collect();
    assert_eq!(confirmed, vec![kept, stubborn]);
    assert!(world.supervisor.registry().scope_ids().is_empty());
}

#[test]
fn signal_failure_never_fakes_exit_and_retry_can_reap() {
    let mut sup = World::with_faults(Faults { signal: true, ..Faults::default() });
    let scope = sup.create_scope();
    let pid = sup.spawn(scope, spec("owned")).unwrap();
    assert!(!sup.terminate(pid, short_opts()).unwrap().outcome.is_verified());
    assert_eq!(sup.supervisor.processes(scope).unwrap(), vec![pid]);
    sup.faults.signal = false;
    assert!(sup.terminate_scope(scope, short_opts()).unwrap().all_verified());
}

#[test]
fn spawn_and_sampler_failures_keep_ownership_honest() {
    let mut sup = World::with_faults(Faults { spawns_from: Some(1), ..Faults::default() });
    let scope = sup.create_scope();
    assert!(sup.spawn(scope, spec("owned")).is_err());
    assert!(sup.supervisor.processes(scope).unwrap().is_empty());
    sup.faults.spawns_from = None;
    let pid = sup.spawn(scope, spec("owned")).unwrap();
    let mut sampler = Sampler::new();
    assert_eq!(sampler.tick(&sup.supervisor).start.len(), 1);
    let failure = StatsError::Backend("injected sampler failure".to_string());
    sampler.complete(
        &mut sup.supervisor,
        pid,
        SampleResult::Observed(Err(failure)),
        Instant { nanos: 5 },
    );
    assert!(matches!(sup.supervisor.stats(pid), Err(StatsError::Backend(_))));
    assert_eq!(sup.supervisor.processes(scope).unwrap(), vec![pid]);
    assert!(sup.terminate_scope(scope, short_opts()).unwrap().all_verified());
}

#[test]
fn exit_during_sample_does_not_resurrect_cache() {
    let mut sup = World::new();
    let scope = sup.create_scope();
    let pid = sup.spawn(scope, spec("owned")).unwrap();
    let mut sampler = Sampler::new();
    let target = sampler.tick(&sup.supervisor).start[0];
    sup.backend.signal(&target.spawned, Signal::Term).unwrap();
    let observed = sup.backend.sample(&target.spawned);
    sup.ended(pid);
    sampler.complete(
        &mut sup.supervisor,
        pid,
        SampleResult::Observed(observed),
        Instant { nanos: 5 },
    );
    assert!(matches!(sup.supervisor.stats(pid), Err(StatsError::UnknownProcess(_))));
    sup.terminate_scope(scope, short_opts()).unwrap();
}

#[test]
fn exit_between_lookup_and_signal_and_shutdown_races_are_idempotent() {
    let mut sup = World::with_faults(Faults { exit_in_signal: true, ..Faults::default() });
    let scope = sup.create_scope();
    let pid = sup.spawn(scope, spec("owned")).unwrap();
    assert!(sup.terminate(pid, short_opts()).unwrap().outcome.is_verified());
    assert!(sup.terminate_scope(scope, short_opts()).unwrap().all_verified());
    assert!(sup.shutdown().is_ok());
}

#[test]
fn failed_final_sweep_is_not_a_verified_shutdown() {
    let mut sup = World::with_faults(Faults { sweeps: 2, ..Faults::default() });
    let scope = sup.create_scope();
    sup.spawn(scope, spec("owned")).unwrap();
    assert!(sup.terminate_scope(scope, short_opts()).is_err());
    assert!(sup.shutdown().is_err());
    assert!(sup.shutdown().is_ok());
}

#[test]
fn hundreds_of_simultaneous_exits_do_not_outlive_registered_waiters() {
    let mut sup = World::new();
    let scope = sup.create_scope();
    for _ in 0..600 {
        sup.spawn(scope, spec("owned")).unwrap();
    }
    let report = sup.terminate_scope(scope, short_opts()).unwrap();
    assert_eq!(report.outcomes.len(), 600);
    assert!(report.all_verified());
}

#[test]
fn worker_panics_become_typed_unverified_or_sampling_errors() {
    let mut sup = World::new();
    let scope = sup.create_scope();
    let pid = sup.spawn(scope, spec("owned")).unwrap();
    let mut sampler = Sampler::new();
    sampler.tick(&sup.supervisor);
    sampler.complete(&mut sup.supervisor, pid, SampleResult::Panicked, Instant { nanos: 5 });
    assert!(matches!(sup.supervisor.stats(pid), Err(StatsError::Backend(_))));
    assert!(sup.terminate_scope(scope, short_opts()).unwrap().all_verified());
    let mut sup = World::with_faults(Faults { wait: true, ..Faults::default() });
    let scope = sup.create_scope();
    let pid = sup.spawn(scope, spec("owned")).unwrap();
    assert_eq!(
        sup.ended(pid).outcome,
        TerminationOutcome::CleanupUnverified(UnverifiedReason::ReapFailed)
    );
    assert!(!sup.terminate_scope(scope, short_opts()).unwrap().all_verified());
}

#[test]
fn stalled_roots_do_not_delay_updates_or_new_roots() {
    let mut sup = World::new();
    let scope = sup.create_scope();
    let mut sampler = Sampler::new();
    let mut stalled = vec![sup.spawn(scope, spec("stalled")).unwrap()];
    assert_eq!(sampler.tick(&sup.supervisor).start.len(), 1);
    for _ in 0..99 {
        stalled.push(sup.spawn(scope, spec("stalled")).unwrap());
    }
    let healthy = sup.spawn(scope, spec("healthy")).unwrap();
    assert_eq!(sampler.tick(&sup.supervisor).start.len(), 100);
    let newcomer = sup.spawn(scope, spec("healthy")).unwrap();
    let mut started = vec![healthy];
    for round in 1u64..4 {
        for pid in started {
            let mut raw = sup.backend.sample(&sup.monitored[0].2).unwrap();
            raw.memory_rss_bytes = round;
            sampler.complete(
                &mut sup.supervisor,
                pid,
                SampleResult::Observed(Ok(raw)),
                Instant { nanos: 5 },
            );
        }
        assert_eq!(sup.supervisor.stats(healthy).unwrap().memory_rss_bytes, round);
        // One observation per root: the stalled ones are not started again.
        started = sampler.tick(&sup.supervisor).start.iter().map(|target| target.pid).collect();
        assert_eq!(started, vec![healthy, newcomer]);
    }
    assert!(sup.supervisor.stats(newcomer).is_ok());
    assert!(stalled.iter().all(|pid| sampler.is_active(*pid)));
    assert!(sup.terminate_scope(scope, short_opts()).unwrap().all_verified());
    assert_eq!(sampler.tick(&sup.supervisor).abort.len(), 102);
    assert!(matches!(sup.supervisor.stats(healthy), Err(StatsError::UnknownProcess(_))));
}

#[test]
fn scoped_observers_reject_live_and_completed_siblings_but_keep_dynamic_outputs() {
    let mut sup = World::new();
    sup.captures = true;
    let sibling = sup.create_scope();
    let live = sup.spawn(sibling, spec("respect-graceful")).unwrap();
    let completed = sup.spawn(sibling, spec("exit-immediately")).unwrap();
    sup.ended(completed);
    let result = sup.with_scope(vec![spec("exit-immediately")], |sup, scope| {
        for pid in [live, completed] {
            assert!(!sup.scoped_output(scope, pid));
            assert_eq!(sup.scoped_wait(scope, pid), Some(Err(WaitError::UnknownProcess(pid))));
        }
        let initial = scope.processes()[0];
        sup.scoped_wait(scope, initial).unwrap().unwrap();
        assert!(sup.scoped_output(scope, initial));
        let dynamic = sup.scoped_spawn(scope, "exit-immediately");
        sup.scoped_wait(scope, dynamic).unwrap().unwrap();
        assert!(sup.scoped_output(scope, dynamic));
        assert!(!sup.scoped_output(scope, dynamic));
    });
    assert!(result.termination.unwrap().all_verified());
    assert!(sup.supervisor.take_output(live).is_some());
    assert!(sup.supervisor.take_output(completed).is_some());
    sup.shutdown().unwrap();
}

#[test]
fn nested_blocks_are_independent_scopes() {
    let mut sup = World::new();
    let outer = sup.with_scope(vec![spec("ignore-graceful")], |sup, outer| {
        let inner = sup.with_scope(vec![spec("respect-graceful")], |_, inner| inner.id());
        assert_ne!(outer.id(), inner.result.unwrap());
        assert!(inner.termination.unwrap().all_verified());
        assert_eq!(sup.wait(outer.processes()[0]), None);
    });
    assert!(outer.termination.unwrap().all_verified());
}

fn run_scope_retry(failures: usize) {
    let mut sup =
        World::with_faults(Faults { first_waits: Cell::new(failures), ..Faults::default() });
    let scope = sup.create_scope();
    let pid = sup.spawn(scope, spec("recovering")).unwrap();
    assert_eq!(
        sup.ended(pid).outcome,
        TerminationOutcome::CleanupUnverified(UnverifiedReason::ReapFailed)
    );
    let options = TerminateOptions {
        grace: GracePeriod::new(Duration::from_millis(1)),
        force_timeout: Some(Duration::from_millis(100)),
    };
    let report = sup.terminate_scope(scope, options).unwrap();
    assert_eq!(report.all_verified(), failures < 3);
    assert!(sup.waits.get() >= 2);
    assert_eq!(sup.signals.first(), Some(&Signal::Term));
    if failures > 1 {
        assert!(sup.signals.contains(&Signal::Kill), "a failed wait skipped the forced attempt");
    }
    assert_eq!(sup.ended(pid).outcome.is_verified(), failures < 3);
}

#[test]
fn scope_retry_does_not_short_circuit_on_cached_failed_reap() {
    run_scope_retry(1);
}

#[test]
fn scope_retry_catches_panics_in_both_fresh_wait_attempts() {
    run_scope_retry(2);
    run_scope_retry(3);
}

#[test]
fn active_block_retains_external_cleanup_after_report_eviction() {
    let mut sup = World::new();
    let result = sup.with_scope(Vec::new(), |sup, scope| {
        assert!(sup.terminate_scope(scope.id(), short_opts()).unwrap().all_verified());
        for _ in 0..650 {
            assert!(sup.with_scope(Vec::new(), |_, _| ()).termination.unwrap().all_verified());
        }
        let unknown = TerminateError::UnknownScope(scope.id());
        assert_eq!(sup.supervisor.scope_report(scope.id()), Some(Err(unknown.clone())));
        assert_eq!(sup.wait_scope_cleanup(scope.id()), Some(Err(unknown)));
        42
    });
    assert_eq!(result.result.unwrap(), 42);
    assert!(result.termination.unwrap().all_verified());
}

#[test]
fn a_report_answers_until_the_history_is_full() {
    let mut sup = World::new();
    let scope = sup.create_scope();
    let pid = sup.spawn(scope, spec("respect-graceful")).unwrap();
    let report = sup.terminate_scope(scope, short_opts()).unwrap();
    assert_eq!(report.outcomes[0].0, pid);
    for _ in 0..255 {
        let other = sup.create_scope();
        sup.terminate_scope(other, short_opts()).unwrap();
    }
    let sweeps = sup.sweeps;
    assert_eq!(sup.terminate_scope(scope, short_opts()).unwrap().outcomes, report.outcomes);
    assert_eq!(sup.sweeps, sweeps);
    assert_eq!(sup.spawn(scope, spec("late")), Err(SpawnError::ScopeClosed(scope)));
    let other = sup.create_scope();
    sup.terminate_scope(other, short_opts()).unwrap();
    assert_eq!(
        sup.terminate_scope(scope, short_opts()),
        Err(TerminateError::UnknownScope(scope))
    );
    assert_eq!(sup.spawn(scope, spec("late")), Err(SpawnError::UnknownScope(scope)));
}

#[test]
fn a_failed_sweep_keeps_the_outcomes_for_the_next_attempt() {
    let mut sup = World::with_faults(Faults { sweeps: 1, ..Faults::default() });
    let scope = sup.create_scope();
    let pid = sup.spawn(scope, spec("respect-graceful")).unwrap();
    assert!(sup.terminate_scope(scope, short_opts()).is_err());
    assert_eq!(sup.supervisor.processes(scope), Some(Vec::new()));
    assert_eq!(sup.supervisor.scope_report(scope), None);
    assert_eq!(sup.scope_count(scope), 0);
    let report = sup.terminate_scope(scope, short_opts()).unwrap();
    assert_eq!(report.outcomes, vec![(pid, TerminationOutcome::GracefulSuccess)]);
    assert_eq!((sup.sweeps, sup.scope_count(scope)), (2, 1));
    assert_eq!(sup.shutdown().unwrap().scopes, Vec::new());
    assert_eq!(sup.shutdown().unwrap().scopes, Vec::new());
    assert_eq!(
        sup.supervisor.try_create_scope(false),
        Err(ScopeCreationError::SupervisorClosed)
    );
}

#[test]
fn a_run_whose_cleanup_fails_gives_its_capture_back() {
    let mut sup = World::with_faults(Faults { sweeps: 1, ..Faults::default() });
    sup.captures = true;
    let run = sup.run(spec("exit-immediately"), run_opts(Duration::from_secs(2)));
    assert!(matches!(run, Err(BlockingRunError::Terminate(_))));
    let pid = ProcessId::new(1);
    let mut capture = sup.supervisor.take_output(pid).expect("unclaimed");
    assert_eq!(capture.read().chunks[0].bytes, b"exit-immediately".to_vec());
    assert!(sup.supervisor.take_output(pid).is_none());
    // It takes part in the bounded history of completed captures again.
    sup.supervisor.return_output(pid, capture);
    let scope = sup.create_scope();
    for _ in 0..256 {
        let other = sup.spawn(scope, spec("exit-immediately")).unwrap();
        sup.ended(other);
    }
    assert!(sup.supervisor.take_output(pid).is_none());
    // That of a live process is not part of it.
    let live = sup.spawn(scope, spec("respect-graceful")).unwrap();
    let capture = sup.supervisor.take_output(live).unwrap();
    sup.supervisor.return_output(live, capture);
    for _ in 0..256 {
        let other = sup.spawn(scope, spec("exit-immediately")).unwrap();
        sup.ended(other);
    }
    assert!(sup.supervisor.take_output(live).is_some());
}
