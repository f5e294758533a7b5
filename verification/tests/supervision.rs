//! Parts of the supervisor: registry, waiters, dispatch, histories, cleanup slots and errors.
use shepherd::blocking::drive::{
    worker_threads, CallerRuntime, DriveMode, DriveRefusal, Driver,
};
use shepherd::blocking::run::{
    BlockingRun, BlockingRunError, OutputDrain, RunAttempt, RunEnding, RunOptions,
};
use shepherd::supervision::dispatch::{exit_notification, translate};
use shepherd::supervision::history::OsPidHistory;
use shepherd::supervision::supervisor::sampler::{SampleResult, Sampler};
use shepherd::supervision::supervisor::scope_termination::{ends_target, worker_failure};
use shepherd::supervision::supervisor::scoped::{
    cleanup_failure, cleanup_stopped, interrupted_cleanup, settle_cleanup, CleanupSlot,
    ScopedSpawns,
};
use shepherd::supervision::supervisor::shutdown::Shutdown;
use shepherd::{
    DomainError, DomainEvent, Duration, EventDispatcher, HandlerError, InMemoryWaiters, Instant,
    IntegrationEvent, NativeString, OsIdentity, OutputChunk, OutputSnapshot, OutputStream,
    ProcessExit, ProcessId, ProcessOutput, ProcessScopeId, ProcessSpec, ProcessState,
    ProcessSupervisor, RawStats, ReuseToken, ScopeCreationError, ScopeRegistry,
    ScopeTerminationReport, ShutdownError, Signal, SpawnError, StatsError, TerminateError,
    TerminateOptions, TerminationOutcome, UnverifiedReason, WaitError,
};

fn spec(program: &str) -> ProcessSpec {
    ProcessSpec::new(NativeString::new(program))
}

fn failed_exit(pid: ProcessId) -> ProcessExit {
    ProcessExit {
        pid,
        code: None,
        signal: None,
        outcome: TerminationOutcome::CleanupUnverified(UnverifiedReason::ReapFailed),
        forced: false,
    }
}

fn natural_exit(pid: ProcessId) -> ProcessExit {
    ProcessExit {
        pid,
        code: Some(0),
        signal: None,
        outcome: TerminationOutcome::ExitedNaturally,
        forced: false,
    }
}

fn report(scope: u64, outcomes: Vec<(ProcessId, TerminationOutcome)>) -> ScopeTerminationReport {
    ScopeTerminationReport { scope: ProcessScopeId::new(scope), outcomes }
}

fn unverified_report(scope: u64) -> ScopeTerminationReport {
    report(scope, vec![(ProcessId::new(1), failed_exit(ProcessId::new(1)).outcome)])
}

#[test]
fn remember_evicts_oldest_without_a_verified_reap() {
    let mut history = OsPidHistory::new();
    let ids: Vec<_> = (0..300).map(ProcessId::new).collect();
    for (index, pid) in ids.iter().copied().enumerate() {
        history.remember(pid, u32::try_from(index).expect("os pid"));
        assert!(history.len() <= 256);
    }
    assert_eq!(history.len(), 256);
    assert_eq!(history.get(ids[0]), None);
    assert_eq!(history.get(ids[43]), None);
    assert_eq!(history.get(ids[44]), Some(44));
    assert_eq!(history.get(ids[299]), Some(299));
}

#[test]
fn remembering_again_replaces_without_a_new_place() {
    let mut history = OsPidHistory::new();
    history.remember(ProcessId::new(1), 10);
    history.remember(ProcessId::new(2), 20);
    history.remember(ProcessId::new(1), 11);
    assert_eq!(history.len(), 2);
    assert_eq!(history.get(ProcessId::new(1)), Some(11));
}

#[test]
fn stale_failure_cannot_replace_correction_or_resurrect_evicted_history() {
    let mut registry = ScopeRegistry::new();
    let mut waiters = InMemoryWaiters::new();
    let scope = registry.create_scope();
    let pid = registry.next_process_id();
    let failed = failed_exit(pid);
    {
        let owner = registry.get_mut(scope).unwrap();
        owner
            .attach_spawned(pid, OsIdentity::new(1, ReuseToken::Unavailable), spec("unused"))
            .unwrap();
        owner.record_reaped(pid, failed).unwrap();
    }
    let stale = DomainEvent::ProcessReaped { scope, pid, exit: failed };
    let (told, exit) = registry.exit_notification(stale).unwrap();
    waiters.signal_exit(told, exit);
    assert_eq!(waiters.try_get(pid), Some(failed));
    let verified =
        ProcessExit { code: Some(0), outcome: TerminationOutcome::GracefulSuccess, ..failed };
    registry.get_mut(scope).unwrap().record_reaped(pid, verified).unwrap();
    let corrected = DomainEvent::ProcessReaped { scope, pid, exit: verified };
    let (told, exit) = registry.exit_notification(corrected).unwrap();
    waiters.signal_exit(told, exit);
    assert_eq!(registry.exit_notification(stale), None);
    assert_eq!(waiters.try_get(pid), Some(verified));
    registry.prune_after(stale);
    assert!(registry.get(scope).unwrap().contains(pid), "an unverified reap prunes nothing");
    registry.prune_after(corrected);
    assert!(!registry.get(scope).unwrap().contains(pid));
    // After the waiters' history expired, only the verified exit may come back.
    let mut waiters = InMemoryWaiters::new();
    assert_eq!(registry.exit_notification(stale), None);
    assert_eq!(waiters.try_get(pid), None);
    let (told, exit) = registry.exit_notification(corrected).unwrap();
    waiters.signal_exit(told, exit);
    assert_eq!(waiters.try_get(pid), Some(verified));
}

#[test]
fn compatibility_constructor_delivers_without_a_registry() {
    let mut waiters = InMemoryWaiters::new();
    let pid = ProcessId::new(1);
    let exit = failed_exit(pid);
    let event = DomainEvent::ProcessReaped { scope: ProcessScopeId::new(1), pid, exit };
    let (told, told_exit) = exit_notification(event).unwrap();
    waiters.signal_exit(told, told_exit);
    assert_eq!(waiters.try_get(pid), Some(exit));
    assert_eq!(
        exit_notification(DomainEvent::ScopeClosed { scope: ProcessScopeId::new(1) }),
        None
    );
}

#[test]
fn loom_registry_spawn_vs_close_and_unique_ids() {
    for close_first in [false, true] {
        let mut registry = ScopeRegistry::new();
        let scope = registry.create_scope();
        let mut ids = Vec::new();
        for closes in [close_first, !close_first] {
            if closes {
                registry.get_mut(scope).unwrap().begin_scope_termination();
                ids.push(registry.next_process_id());
            } else {
                let pid = registry.next_process_id();
                let owner = registry.get_mut(scope).unwrap();
                let result = owner.attach_spawned(
                    pid,
                    OsIdentity::new(1, ReuseToken::StartTime(1)),
                    spec("model"),
                );
                assert_eq!(result.is_err(), close_first);
                if result.is_err() {
                    assert!(!owner.is_open());
                }
                ids.push(pid);
            }
        }
        assert_ne!(ids[0], ids[1]);
        assert!(!registry.get(scope).unwrap().is_open());
    }
}

#[test]
fn registries_know_their_scopes() {
    let mut registry = ScopeRegistry::new();
    let (a, b) = (registry.create_scope(), registry.create_scope());
    assert!(registry.has_scope_ids() && registry.has_process_ids());
    assert_eq!((a.get(), b.get()), (1, 2));
    assert_eq!(registry.next_scope_id().get(), 3);
    let pid = registry.next_process_id();
    registry
        .get_mut(b)
        .unwrap()
        .attach_spawned(pid, OsIdentity::new(1, ReuseToken::Unavailable), spec("x"))
        .unwrap();
    assert_eq!(registry.scope_of(pid), Some(b));
    assert_eq!(registry.scope_of(ProcessId::new(77)), None);
    assert_eq!(registry.scope_ids(), vec![a, b]);
    registry.remove(b);
    assert_eq!(registry.scope_ids(), vec![a]);
    assert!(registry.get(b).is_none());
}

#[test]
fn verified_correction_survives_delayed_unverified_publication() {
    let mut waiters = InMemoryWaiters::new();
    let pid = ProcessId::new(1);
    let failed = failed_exit(pid);
    assert!(waiters.signal_exit(pid, failed).delivered);
    let exit =
        ProcessExit { outcome: TerminationOutcome::GracefulSuccess, code: Some(0), ..failed };
    assert!(waiters.signal_exit(pid, exit).delivered);
    assert!(!waiters.signal_exit(pid, failed).delivered);
    assert_eq!(waiters.try_get(pid), Some(exit));
    assert_eq!(waiters.register(pid), Some(exit));
    assert_eq!(waiters.len(), 1);
}

#[test]
fn exit_before_first_subscriber_is_retained() {
    let mut waiters = InMemoryWaiters::new();
    let pid = ProcessId::new(1);
    let exit = natural_exit(pid);
    waiters.signal_exit(pid, exit);
    assert_eq!(waiters.try_get(pid), Some(exit));
    assert_eq!(waiters.register(pid), Some(exit));
    assert_eq!(waiters.len(), 1);
}

#[test]
fn loom_waiter_registration_vs_completion() {
    let pid = ProcessId::new(1);
    let exit = natural_exit(pid);
    for registers_first in [false, true] {
        let mut waiters = InMemoryWaiters::new();
        if registers_first {
            assert_eq!(waiters.register(pid), None);
            assert!(waiters.signal_exit(pid, exit).delivered);
        } else {
            assert!(waiters.signal_exit(pid, exit).delivered);
            assert_eq!(waiters.register(pid), Some(exit));
        }
        assert_eq!(waiters.try_get(pid), Some(exit));
    }
}

#[test]
fn completed_history_is_bounded_without_invalidating_registered_waiters() {
    let mut waiters = InMemoryWaiters::new();
    assert_eq!(waiters.register(ProcessId::new(1)), None);
    for id in 1..1000 {
        let pid = ProcessId::new(id);
        let signal = waiters.signal_exit(pid, natural_exit(pid));
        assert!(signal.delivered, "whoever registered is told before its slot expires");
        assert_eq!(signal.expired.map(|old| old.get()), id.checked_sub(256).filter(|old| *old > 0));
    }
    assert!(waiters.try_get(ProcessId::new(1)).is_none());
    assert_eq!(waiters.len(), 256);
}

#[test]
fn handlers_get_each_event_in_order() {
    let dispatcher = EventDispatcher::new(vec!["waiters", "prune", "publish"]);
    assert_eq!(dispatcher.handlers(), &vec!["waiters", "prune", "publish"]);
    let closed = DomainEvent::ScopeClosed { scope: ProcessScopeId::new(1) };
    assert_eq!(
        dispatcher.dispatch(&vec![closed, closed]),
        vec![(0, 0), (0, 1), (0, 2), (1, 0), (1, 1), (1, 2)]
    );
    assert!(dispatcher.dispatch(&Vec::new()).is_empty());
}

#[test]
fn only_ends_are_published() {
    let scope = ProcessScopeId::new(4);
    let pid = ProcessId::new(2);
    assert_eq!(
        translate(DomainEvent::ProcessReaped { scope, pid, exit: natural_exit(pid) }),
        Some(IntegrationEvent::ProcessTerminated {
            scope,
            pid,
            outcome: TerminationOutcome::ExitedNaturally
        })
    );
    assert_eq!(
        translate(DomainEvent::ScopeClosed { scope }),
        Some(IntegrationEvent::ScopeTerminated { scope })
    );
    assert_eq!(translate(DomainEvent::ProcessExited { scope, pid }), None);
}

#[test]
fn worker_error_publication_cannot_downgrade_verified_external_cleanup() {
    let scope = ProcessScopeId::new(1);
    let mut slot = CleanupSlot::new();
    assert!(slot.publish(Ok(report(1, Vec::new()))));
    assert!(!slot.publish(Err(TerminateError::UnknownScope(scope))));
    assert!(!slot.publish(Err(TerminateError::Signal("worker panicked".to_string()))));
    let (settled, kill) = settle_cleanup(&slot, Err(TerminateError::UnknownScope(scope)));
    assert!(!kill);
    slot.publish(settled);
    assert_eq!(interrupted_cleanup(&slot), None);
    assert!(slot.current().unwrap().unwrap().all_verified());
}

#[test]
fn runtime_shutdown_reports_unverified_instead_of_hanging_on_cleanup() {
    let mut slot = CleanupSlot::new();
    let failure = interrupted_cleanup(&slot).expect("an unfinished cleanup is unverified");
    assert!(matches!(&failure, TerminateError::Signal(_)));
    slot.publish(Err(failure.clone()));
    assert_eq!(slot.current(), Some(Err(failure)));
    assert_eq!(slot.verified_report(), None);
    assert!(slot.publish(Ok(report(1, Vec::new()))), "a later cleanup is still published");
    assert!(slot.verified_report().is_some());
}

#[test]
fn completed_cleanup_is_observable_after_runtime_drop_without_join_observer() {
    let mut slot = CleanupSlot::new();
    let (settled, kill) = settle_cleanup(&slot, Ok(report(3, Vec::new())));
    assert!(!kill);
    assert!(slot.publish(settled));
    let seen = slot.current().unwrap().unwrap();
    assert_eq!(seen.scope, ProcessScopeId::new(3));
    assert!(seen.all_verified());
}

#[test]
fn unverified_cleanups_are_killed_and_kept_as_they_are() {
    let slot = CleanupSlot::new();
    let (settled, kill) = settle_cleanup(&slot, Ok(unverified_report(1)));
    assert!(kill);
    assert!(!settled.unwrap().all_verified());
    let (settled, kill) = settle_cleanup(&slot, Err(cleanup_failure("task panicked")));
    assert!(kill);
    assert_eq!(
        settled.unwrap_err(),
        TerminateError::Signal("scope cleanup worker failed: task panicked".to_string())
    );
    assert_eq!(
        cleanup_stopped(),
        TerminateError::Signal("scope cleanup worker stopped".to_string())
    );
    assert_eq!(
        worker_failure("cancelled"),
        TerminateError::Signal("termination worker failed: cancelled".to_string())
    );
    assert!(ends_target(natural_exit(ProcessId::new(1))));
    assert!(!ends_target(failed_exit(ProcessId::new(1))));
}

#[test]
fn the_first_failed_spawn_ends_a_series() {
    let scope = ProcessScopeId::new(1);
    let mut spawns = ScopedSpawns::new();
    assert!(spawns.record(Ok(ProcessId::new(5))));
    assert!(spawns.record(Ok(ProcessId::new(6))));
    let processes = spawns.into_processes(scope).unwrap();
    assert_eq!(processes.processes(), &vec![ProcessId::new(5), ProcessId::new(6)]);
    assert_eq!(processes.id(), scope);
    assert_eq!(processes.authorized_len(), 2);
    assert!(!processes.is_authorized(ProcessId::new(7)));
    let mut spawns = ScopedSpawns::new();
    assert!(!spawns.record(Err(SpawnError::Os("no".to_string()))));
    assert!(!spawns.record(Err(SpawnError::Os("later".to_string()))));
    assert_eq!(
        spawns.into_processes(scope).err(),
        Some(SpawnError::Os("no".to_string()))
    );
}

#[test]
fn shutdown_counts_what_was_not_verified() {
    let mut shutdown = Shutdown::new();
    shutdown.record(Ok(report(1, Vec::new())));
    shutdown.record(Ok(report(2, Vec::new())));
    assert_eq!(shutdown.finish().unwrap().scopes.len(), 2);
    let mut shutdown = Shutdown::new();
    shutdown.record(Ok(report(1, Vec::new())));
    shutdown.record(Ok(unverified_report(2)));
    shutdown.record(Err(TerminateError::UnknownScope(ProcessScopeId::new(3))));
    assert_eq!(shutdown.finish().unwrap_err(), ShutdownError::Unverified(2));
}

#[test]
fn sampler_observes_each_live_root_once_at_a_time() {
    let mut supervisor: ProcessSupervisor<ProcessOutput> =
        ProcessSupervisor::with_stats_interval(Duration::from_secs(0));
    assert_eq!(supervisor.stats_interval(), Duration::from_millis(1));
    let scope = supervisor.try_create_scope(false).unwrap();
    let mut start = |pid: u32| {
        supervisor
            .attach_spawned(
                scope,
                spec("x"),
                OsIdentity::new(pid, ReuseToken::StartTime(1)),
                Instant { nanos: 1_000 },
                None,
            )
            .unwrap()
            .0
    };
    let (stalled, healthy) = (start(10), start(11));
    assert!(supervisor.start_sampler());
    assert!(!supervisor.start_sampler());
    assert_eq!(supervisor.stats(healthy), Err(StatsError::NotReady(healthy)));
    let raw = RawStats {
        cpu_usage: None,
        memory_rss_bytes: 9,
        virtual_memory_bytes: None,
        peak_rss_bytes: None,
        io_read_bytes: None,
        io_write_bytes: None,
        descendant_count: None,
        state: ProcessState::Running,
    };
    let mut sampler = Sampler::new();
    let tick = sampler.tick(&supervisor);
    assert_eq!(tick.start.iter().map(|t| t.pid).collect::<Vec<_>>(), vec![stalled, healthy]);
    assert!(tick.abort.is_empty());
    sampler.complete(
        &mut supervisor,
        healthy,
        SampleResult::Observed(Ok(raw)),
        Instant { nanos: 5_000 },
    );
    let stats = supervisor.stats(healthy).unwrap();
    assert_eq!(stats.memory_rss_bytes, 9);
    assert_eq!(stats.uptime, Duration::from_nanos(4_000));
    let tick = sampler.tick(&supervisor);
    assert_eq!(tick.start.iter().map(|t| t.pid).collect::<Vec<_>>(), vec![healthy]);
    assert!(sampler.is_active(stalled));
    sampler.complete(&mut supervisor, stalled, SampleResult::TimedOut, Instant { nanos: 6 });
    assert_eq!(
        supervisor.stats(stalled),
        Err(StatsError::Backend("sampler timeout".to_string()))
    );
    sampler.complete(&mut supervisor, healthy, SampleResult::Panicked, Instant { nanos: 6 });
    assert_eq!(
        supervisor.stats(healthy),
        Err(StatsError::Backend("sampler panicked".to_string()))
    );
    // A result after the reap must not bring a sample back.
    let tick = sampler.tick(&supervisor);
    assert_eq!(tick.start.len(), 2);
    let events = supervisor
        .record_wait_result(scope, stalled, Err(WaitError::Backend("lost".to_string())))
        .unwrap();
    assert!(!events.is_empty());
    assert_eq!(sampler.tick(&supervisor).abort, vec![stalled]);
    sampler.complete(
        &mut supervisor,
        stalled,
        SampleResult::Observed(Ok(raw)),
        Instant { nanos: 7 },
    );
    assert_eq!(supervisor.stats(stalled), Err(StatsError::UnknownProcess(stalled)));
}

#[test]
fn errors_have_messages() {
    let (scope, pid) = (ProcessScopeId::new(3), ProcessId::new(4));
    assert_eq!(ScopeCreationError::SupervisorClosed.message(), "supervisor is no longer accepting scopes");
    assert_eq!(SpawnError::UnknownScope(scope).message(), "unknown scope scope#3");
    assert_eq!(SpawnError::ScopeClosed(scope).message(), "scope scope#3 is not accepting new processes");
    assert_eq!(SpawnError::Os("no".to_string()).message(), "failed to spawn process: no");
    assert_eq!(
        SpawnError::Domain(DomainError::ScopeClosed(scope)).message(),
        "scope scope#3 is not accepting new processes"
    );
    assert_eq!(TerminateError::UnknownProcess(pid).message(), "unknown process proc#4");
    assert_eq!(TerminateError::UnknownScope(scope).message(), "unknown scope scope#3");
    assert_eq!(TerminateError::Signal("x".to_string()).message(), "failed to signal process: x");
    assert_eq!(StatsError::NotReady(pid).message(), "no sample available yet for process proc#4");
    assert_eq!(StatsError::UnknownProcess(pid).message(), "unknown or exited process proc#4");
    assert_eq!(StatsError::Backend("x".to_string()).message(), "failed to sample process: x");
    assert_eq!(WaitError::UnknownProcess(pid).message(), "unknown process proc#4");
    assert_eq!(WaitError::Backend("x".to_string()).message(), "failed to wait for process: x");
    assert_eq!(
        ShutdownError::Unverified(2).message(),
        "shutdown could not verify cleanup of 2 scope(s)"
    );
    let handler = HandlerError::new("prune", "lost".to_string());
    assert_eq!(handler.message(), "event handler 'prune' failed: lost");
}

#[test]
fn into_verified_rejects_unverified_report() {
    let run = BlockingRun::TimedOut {
        output: None,
        termination: report(
            1,
            vec![(
                ProcessId::new(1),
                TerminationOutcome::CleanupUnverified(UnverifiedReason::ReapFailed),
            )],
        ),
    };
    assert!(!run.all_verified());
    assert!(matches!(run.into_verified(), Err(BlockingRunError::Unverified { .. })));
}

#[test]
fn runs_end_by_attempt_and_cleanup() {
    let pid = ProcessId::new(1);
    let verified = || Ok(report(1, vec![(pid, TerminationOutcome::ForcedRequired)]));
    let spawn_failure =
        || RunAttempt::Failed(BlockingRunError::Spawn(SpawnError::Os("no".to_string())));
    let ending = RunEnding::new(RunAttempt::Expired, Some(pid), None);
    assert_eq!(ending.capture, Some(pid));
    let run = ending.finish(verified(), None).unwrap();
    assert!(run.timed_out() && run.all_verified());
    // Where the spawn was not seen to end, the scope's own list tells what was started.
    assert_eq!(
        RunEnding::new(RunAttempt::Expired, None, Some(&vec![ProcessId::new(9)])).capture,
        Some(ProcessId::new(9))
    );
    let failed = RunEnding::new(spawn_failure(), None, None);
    assert!(matches!(
        failed.finish(verified(), None),
        Err(BlockingRunError::Spawn(SpawnError::Os(_)))
    ));
    let failed = RunEnding::new(spawn_failure(), None, None);
    assert!(matches!(
        failed.finish(Err(TerminateError::Signal("x".to_string())), None),
        Err(BlockingRunError::Terminate(_))
    ));
    let failed = RunEnding::new(spawn_failure(), None, None);
    match failed.finish(Ok(unverified_report(1)), None) {
        Err(BlockingRunError::Unverified { run: Some(cause), .. }) => {
            assert!(matches!(*cause, BlockingRunError::Spawn(_)));
        }
        other => panic!("expected an unverified cleanup, got {other:?}"),
    }
    let options = RunOptions::with_deadline(Duration::from_secs(3));
    assert_eq!(options.deadline, Duration::from_secs(3));
    assert_eq!(options.output_drain, Duration::from_secs(1));
}

#[test]
fn run_errors_have_messages() {
    assert_eq!(
        BlockingRunError::Scope(ScopeCreationError::SupervisorClosed).message(),
        "supervisor is no longer accepting scopes"
    );
    assert_eq!(
        BlockingRunError::Wait(WaitError::Backend("x".to_string())).message(),
        "failed to wait for process: x"
    );
    let unverified =
        BlockingRunError::Unverified { run: None, termination: unverified_report(1) };
    assert_eq!(unverified.message(), "scope cleanup was not verified");
}

#[test]
fn drains_collect_every_chunk_once() {
    let snapshot = |byte: u8, closed: bool| OutputSnapshot {
        chunks: vec![OutputChunk { stream: OutputStream::Stdout, bytes: vec![byte] }],
        tail: vec![],
        dropped_bytes: u64::from(byte),
        stdout_closed: closed,
        stderr_closed: closed,
        errors: vec![],
    };
    let mut drain = OutputDrain::new(snapshot(1, false));
    assert!(drain.goes_on(Instant { nanos: 1 }, Instant { nanos: 2 }));
    assert!(!drain.goes_on(Instant { nanos: 2 }, Instant { nanos: 2 }));
    drain.add_read(snapshot(2, true));
    assert!(!drain.goes_on(Instant { nanos: 1 }, Instant { nanos: 2 }));
    let all = drain.finish();
    assert_eq!(
        all.chunks.iter().map(|chunk| chunk.bytes[0]).collect::<Vec<_>>(),
        vec![1, 2]
    );
    assert_eq!(all.dropped_bytes, 2);
    assert!(all.stdout_closed && all.stderr_closed);
}

#[test]
fn from_handle_current_thread_from_sync_panics_instead_of_hanging() {
    let driver = Driver::Borrowed { current_thread: true };
    assert_eq!(driver.drive_mode(None), Err(DriveRefusal::BorrowedCurrentThread));
    let inside = CallerRuntime { driving: true, current_thread: true, may_block_in_place: false };
    assert_eq!(driver.drive_mode(Some(inside)), Err(DriveRefusal::NestedCurrentThread));
    let foreign = CallerRuntime { driving: false, current_thread: true, may_block_in_place: false };
    assert_eq!(driver.drive_mode(Some(foreign)), Err(DriveRefusal::BorrowedCurrentThread));
}

#[test]
fn from_runtime_current_thread_from_sync_code() {
    let driver = Driver::Owned { current_thread: true };
    assert_eq!(driver.drive_mode(None), Ok(DriveMode::Direct));
    assert!(driver.body_needs_helper(), "the body could not drive its own calls");
    let inside = CallerRuntime { driving: true, current_thread: true, may_block_in_place: false };
    assert_eq!(driver.drive_mode(Some(inside)), Err(DriveRefusal::NestedCurrentThread));
}

#[test]
fn from_handle_multi_thread_from_sync_code() {
    let driver = Driver::Borrowed { current_thread: false };
    assert_eq!(driver.drive_mode(None), Ok(DriveMode::Direct));
    assert!(!driver.body_needs_helper());
    let worker = CallerRuntime { driving: true, current_thread: false, may_block_in_place: true };
    assert_eq!(driver.drive_mode(Some(worker)), Ok(DriveMode::InPlace));
}

#[test]
fn from_handle_inside_localset_on_multi_thread() {
    let driver = Driver::Borrowed { current_thread: false };
    let local = CallerRuntime { driving: true, current_thread: false, may_block_in_place: false };
    assert_eq!(driver.drive_mode(Some(local)), Ok(DriveMode::HelperThread));
}

#[test]
fn foreign_runtimes_do_not_stop_an_owned_one() {
    let driver = Driver::Owned { current_thread: false };
    let current = CallerRuntime { driving: false, current_thread: true, may_block_in_place: false };
    assert_eq!(driver.drive_mode(Some(current)), Ok(DriveMode::HelperThread));
    let multi = CallerRuntime { driving: false, current_thread: false, may_block_in_place: true };
    assert_eq!(driver.drive_mode(Some(multi)), Ok(DriveMode::HelperThread));
    assert_eq!(worker_threads(0), 2);
    assert_eq!(worker_threads(5), 5);
}

#[test]
fn options_have_defaults() {
    let options = TerminateOptions::default();
    assert_eq!(options.grace.as_duration(), Duration::from_secs(5));
    assert_eq!(options.force_timeout, Some(Duration::from_secs(10)));
    assert_ne!(Signal::Term, Signal::Kill);
}

#[test]
fn sampling_goes_by_scope_and_then_by_process() {
    let mut supervisor: ProcessSupervisor<u32> = ProcessSupervisor::new();
    let first = supervisor.try_create_scope(false).unwrap();
    let second = supervisor.try_create_scope(false).unwrap();
    let mut start = |scope: ProcessScopeId, pid: u32| {
        supervisor
            .attach_spawned(
                scope,
                spec("x"),
                OsIdentity::new(pid, ReuseToken::StartTime(1)),
                Instant { nanos: 0 },
                None,
            )
            .unwrap()
            .0
    };
    let (a, b, c) = (start(second, 20), start(first, 21), start(first, 22));
    let tick = Sampler::new().tick(&supervisor);
    assert_eq!(tick.start.iter().map(|t| t.pid).collect::<Vec<_>>(), vec![b, c, a]);
    assert_eq!(tick.start.iter().map(|t| t.spawned.os.pid).collect::<Vec<_>>(), vec![21, 22, 20]);
}

#[test]
fn identifiers_of_removed_scopes_are_not_given_out_again() {
    let mut registry = ScopeRegistry::new();
    let first = registry.create_scope();
    let minted = registry.next_scope_id();
    registry.remove(first);
    let second = registry.create_scope();
    assert_eq!((first.get(), minted.get(), second.get()), (1, 2, 3));
    assert!(first < minted && minted < second);
    assert_eq!(registry.scope_ids(), vec![second]);
    assert!(registry.get(second).is_some_and(|scope| scope.is_open()));
    assert!(ProcessId::new(2) < ProcessId::new(10));
    assert_eq!(ProcessId::new(10).max(ProcessId::new(2)).get(), 10);
}
