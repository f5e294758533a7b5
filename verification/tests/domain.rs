//! Values, the process entity and the scope aggregate.
use shepherd::domain::time::{Duration, Instant};
use shepherd::{
    Capabilities, Containment, DomainError, DomainEvent, EnvPolicy, GracePeriod, InvalidTransition,
    NativeString, OsIdentity, OutputMode, ProcessExit, ProcessId, ProcessLifecycle, ProcessScope,
    ProcessScopeId, ProcessSpec, ProcessState, ProcessStats, RawStats, ReuseToken, ScopeState,
    Signal, Support, TerminateOptions, TerminationOutcome, UnverifiedReason,
};

fn native(text: &str) -> NativeString {
    NativeString::new(text)
}

fn os(pid: u32) -> OsIdentity {
    OsIdentity::new(pid, ReuseToken::Unavailable)
}

fn spec() -> ProcessSpec {
    ProcessSpec::new(native("dummy"))
}

fn exit(pid: ProcessId, outcome: TerminationOutcome) -> ProcessExit {
    ProcessExit { pid, code: Some(0), signal: None, outcome, forced: false }
}

const ALL_PROCESS: [ProcessLifecycle; 7] = [
    ProcessLifecycle::Spawning,
    ProcessLifecycle::Running,
    ProcessLifecycle::GracefulRequested,
    ProcessLifecycle::Forcing,
    ProcessLifecycle::ExitedUnreaped,
    ProcessLifecycle::Reaped,
    ProcessLifecycle::SpawnFailed,
];

#[test]
fn only_kernel_containers_contain_detached_children() {
    assert!(Containment::CgroupV2.contains_detached());
    assert!(Containment::JobObject.contains_detached());
    assert!(!Containment::ProcessGroup.contains_detached());
    assert!(!Containment::Uncontained.contains_detached());
}

#[test]
fn support_is_supported() {
    assert!(Support::Supported.is_supported());
    assert!(!Support::Unsupported.is_supported());
}

#[test]
fn capabilities_are_plain_values() {
    let caps = Capabilities {
        descendant_containment: Containment::CgroupV2,
        cpu: Support::Supported,
        rss: Support::Supported,
        peak_rss: Support::Unsupported,
        io: Support::Supported,
        force_termination: true,
    };
    assert_eq!(caps, caps);
    assert!(caps.descendant_containment.contains_detached());
}

#[test]
fn process_state_names_are_stable_and_unique() {
    let names: Vec<_> = ALL_PROCESS.iter().map(|s| s.name()).collect();
    assert_eq!(
        names,
        vec![
            "Spawning",
            "Running",
            "GracefulRequested",
            "Forcing",
            "ExitedUnreaped",
            "Reaped",
            "SpawnFailed",
        ]
    );
}

#[test]
fn liveness_classification() {
    for state in ALL_PROCESS {
        let live = matches!(
            state,
            ProcessLifecycle::Spawning
                | ProcessLifecycle::Running
                | ProcessLifecycle::GracefulRequested
                | ProcessLifecycle::Forcing
        );
        assert_eq!(state.is_live(), live);
    }
}

#[test]
fn terminal_classification() {
    for state in ALL_PROCESS {
        let terminal = matches!(state, ProcessLifecycle::Reaped | ProcessLifecycle::SpawnFailed);
        assert_eq!(state.is_terminal(), terminal);
    }
}

#[test]
fn terminating_classification() {
    for state in ALL_PROCESS {
        let terminating =
            matches!(state, ProcessLifecycle::GracefulRequested | ProcessLifecycle::Forcing);
        assert_eq!(state.is_terminating(), terminating);
    }
}

#[test]
fn scope_states() {
    assert_eq!(ScopeState::Open.name(), "Open");
    assert_eq!(ScopeState::Draining.name(), "Draining");
    assert_eq!(ScopeState::Closed.name(), "Closed");
    assert!(ScopeState::Open.accepts_processes());
    assert!(!ScopeState::Draining.accepts_processes());
    assert!(!ScopeState::Closed.accepts_processes());
}

#[test]
fn new_spec_has_sensible_defaults() {
    let spec = ProcessSpec::new(native("prog"));
    assert_eq!(spec.program, native("prog"));
    assert!(spec.args.is_empty());
    assert_eq!(spec.env, EnvPolicy::Inherit);
    assert_eq!(spec.cwd, None);
    assert_eq!(spec.graceful_signal, Signal::Term);
    assert_eq!(spec.output, OutputMode::Discard);
}

#[test]
fn builder_sets_every_field() {
    let spec = ProcessSpec::new(native("prog"))
        .arg(native("one"))
        .args(vec![native("two"), native("three")])
        .env(EnvPolicy::Clear(vec![(native("K"), native("V"))]))
        .cwd(native("/tmp"))
        .graceful_signal(Signal::Interrupt)
        .output(OutputMode::Capture { buffer_bytes: 10, tail_bytes: 5 });
    assert_eq!(spec.args, vec![native("one"), native("two"), native("three")]);
    assert!(matches!(spec.env, EnvPolicy::Clear(_)));
    assert_eq!(spec.cwd, Some(native("/tmp")));
    assert_eq!(spec.graceful_signal, Signal::Interrupt);
    assert!(matches!(spec.output, OutputMode::Capture { .. }));
}

#[test]
fn env_policy_variants() {
    let overrides = EnvPolicy::Overrides(vec![
        (native("A"), Some(native("1"))),
        (native("B"), None),
    ]);
    assert!(matches!(overrides, EnvPolicy::Overrides(ref v) if v.len() == 2));
}

#[test]
fn signal_variants_are_distinct() {
    assert_ne!(Signal::Term, Signal::Kill);
    assert_ne!(Signal::Interrupt, Signal::Custom(9));
    assert_eq!(Signal::Custom(3), Signal::Custom(3));
}

#[test]
fn grace_period_roundtrips_and_defaults() {
    let g = GracePeriod::new(Duration::from_millis(250));
    assert_eq!(g.as_duration(), Duration::from_millis(250));
    assert_eq!(GracePeriod::default().as_duration(), Duration::from_secs(5));
}

#[test]
fn output_mode_default_is_discard() {
    assert_eq!(OutputMode::default(), OutputMode::Discard);
}

#[test]
fn attach_emits_spawned_and_tracks_process() {
    let mut scope = ProcessScope::new(ProcessScopeId::new(1));
    let pid = ProcessId::new(10);
    let event = scope.attach_spawned(pid, os(100), spec()).unwrap();
    assert_eq!(event, DomainEvent::ProcessSpawned { scope: scope.id(), pid });
    assert!(scope.contains(pid));
    assert_eq!(scope.live_process_ids(), vec![pid]);
}

#[test]
fn draining_scope_rejects_new_processes() {
    let mut scope = ProcessScope::new(ProcessScopeId::new(1));
    let pid = ProcessId::new(10);
    scope.attach_spawned(pid, os(100), spec()).unwrap();
    scope.begin_scope_termination();
    let err = scope.attach_spawned(ProcessId::new(11), os(101), spec()).unwrap_err();
    assert_eq!(err, DomainError::ScopeClosed(scope.id()));
}

#[test]
fn repeated_termination_is_idempotent() {
    let mut scope = ProcessScope::new(ProcessScopeId::new(1));
    let pid = ProcessId::new(10);
    scope.attach_spawned(pid, os(100), spec()).unwrap();
    let first = scope.request_termination(pid).unwrap();
    assert_eq!(first.len(), 1);
    let second = scope.request_termination(pid).unwrap();
    assert!(second.is_empty());
}

#[test]
fn reaping_last_draining_process_closes_scope() {
    let mut scope = ProcessScope::new(ProcessScopeId::new(1));
    let pid = ProcessId::new(10);
    scope.attach_spawned(pid, os(100), spec()).unwrap();
    scope.begin_scope_termination();
    scope.record_exit(pid).unwrap();
    let events =
        scope.record_reaped(pid, exit(pid, TerminationOutcome::GracefulSuccess)).unwrap();
    assert!(events.contains(&DomainEvent::ProcessReaped {
        scope: scope.id(),
        pid,
        exit: exit(pid, TerminationOutcome::GracefulSuccess)
    }));
    assert!(events.contains(&DomainEvent::ScopeClosed { scope: scope.id() }));
    assert!(scope.is_closed());
}

#[test]
fn reaped_process_can_be_pruned_but_live_cannot() {
    let mut scope = ProcessScope::new(ProcessScopeId::new(1));
    let pid = ProcessId::new(10);
    scope.attach_spawned(pid, os(100), spec()).unwrap();
    scope.prune(pid);
    assert!(scope.contains(pid), "must not prune a live process");
    scope.record_exit(pid).unwrap();
    scope.record_reaped(pid, exit(pid, TerminationOutcome::ExitedNaturally)).unwrap();
    scope.prune(pid);
    assert!(!scope.contains(pid), "reaped process should be pruned");
}

#[test]
fn unknown_process_is_rejected() {
    let mut scope = ProcessScope::new(ProcessScopeId::new(1));
    let missing = ProcessId::new(999);
    assert_eq!(
        scope.request_termination(missing).unwrap_err(),
        DomainError::UnknownProcess(missing)
    );
    assert_eq!(
        scope.escalate_termination(missing).unwrap_err(),
        DomainError::UnknownProcess(missing)
    );
    assert_eq!(scope.record_exit(missing).unwrap_err(), DomainError::UnknownProcess(missing));
    assert_eq!(
        scope.record_reaped(missing, exit(missing, TerminationOutcome::Failed)).unwrap_err(),
        DomainError::UnknownProcess(missing)
    );
}

#[test]
fn new_scope_is_open_and_empty() {
    let scope = ProcessScope::new(ProcessScopeId::new(1));
    assert!(scope.is_open());
    assert!(!scope.is_closed());
    assert!(scope.process_ids().is_empty());
    assert!(scope.live_process_ids().is_empty());
    assert!(!scope.has_live_processes());
    assert_eq!(scope.get(ProcessId::new(1)), None);
}

#[test]
fn begin_scope_termination_is_idempotent() {
    let mut scope = ProcessScope::new(ProcessScopeId::new(1));
    let pid = ProcessId::new(10);
    scope.attach_spawned(pid, os(100), spec()).unwrap();
    let first = scope.begin_scope_termination();
    assert_eq!(first.len(), 1);
    let second = scope.begin_scope_termination();
    assert!(second.is_empty());
    assert_eq!(scope.state(), ScopeState::Draining);
}

#[test]
fn terminating_empty_scope_leaves_it_draining() {
    let mut scope = ProcessScope::new(ProcessScopeId::new(1));
    let events = scope.begin_scope_termination();
    assert!(events.is_empty());
    assert_eq!(scope.state(), ScopeState::Draining);
    assert!(!scope.is_open());
}

#[test]
fn record_exit_is_idempotent() {
    let mut scope = ProcessScope::new(ProcessScopeId::new(1));
    let pid = ProcessId::new(10);
    scope.attach_spawned(pid, os(100), spec()).unwrap();
    assert_eq!(scope.record_exit(pid).unwrap().len(), 1);
    assert!(scope.record_exit(pid).unwrap().is_empty());
}

#[test]
fn reap_event_is_emitted_at_most_once() {
    let mut scope = ProcessScope::new(ProcessScopeId::new(1));
    let pid = ProcessId::new(10);
    scope.attach_spawned(pid, os(100), spec()).unwrap();
    let first = scope.record_reaped(pid, exit(pid, TerminationOutcome::ForcedRequired)).unwrap();
    assert_eq!(first.len(), 1);
    let second = scope.record_reaped(pid, exit(pid, TerminationOutcome::ForcedRequired)).unwrap();
    assert!(second.is_empty(), "reaping twice emits no duplicate event");
}

#[test]
fn escalate_termination_succeeds_for_owned_process() {
    let mut scope = ProcessScope::new(ProcessScopeId::new(1));
    let pid = ProcessId::new(10);
    scope.attach_spawned(pid, os(100), spec()).unwrap();
    scope.escalate_termination(pid).unwrap();
    assert!(scope.get(pid).unwrap().was_forced());
}

#[test]
fn terminating_a_scope_never_touches_another_scope() {
    let mut a = ProcessScope::new(ProcessScopeId::new(1));
    let mut b = ProcessScope::new(ProcessScopeId::new(2));
    let pa = ProcessId::new(10);
    let pb = ProcessId::new(20);
    a.attach_spawned(pa, os(100), spec()).unwrap();
    b.attach_spawned(pb, os(200), spec()).unwrap();

    a.begin_scope_termination();
    assert!(b.is_open());
    assert_eq!(b.live_process_ids(), vec![pb]);
    assert!(!a.contains(pb));
    assert!(!b.contains(pa));
}

#[test]
fn draining_scope_with_two_processes_closes_only_after_both_reaped() {
    let mut scope = ProcessScope::new(ProcessScopeId::new(1));
    let p1 = ProcessId::new(10);
    let p2 = ProcessId::new(11);
    scope.attach_spawned(p1, os(100), spec()).unwrap();
    scope.attach_spawned(p2, os(101), spec()).unwrap();
    scope.begin_scope_termination();

    let e1 = scope.record_reaped(p1, exit(p1, TerminationOutcome::GracefulSuccess)).unwrap();
    assert!(!e1.iter().any(|e| matches!(e, DomainEvent::ScopeClosed { .. })));
    assert!(!scope.is_closed());

    let e2 = scope.record_reaped(p2, exit(p2, TerminationOutcome::GracefulSuccess)).unwrap();
    assert!(e2.iter().any(|e| matches!(e, DomainEvent::ScopeClosed { .. })));
    assert!(scope.is_closed());
}

#[test]
fn closed_scope_rejects_new_spawns() {
    let mut scope = ProcessScope::new(ProcessScopeId::new(1));
    let pid = ProcessId::new(10);
    scope.attach_spawned(pid, os(100), spec()).unwrap();
    scope.begin_scope_termination();
    scope.record_reaped(pid, exit(pid, TerminationOutcome::GracefulSuccess)).unwrap();
    assert!(scope.is_closed());
    assert_eq!(
        scope.attach_spawned(ProcessId::new(11), os(101), spec()).unwrap_err(),
        DomainError::ScopeClosed(scope.id())
    );
}

#[test]
fn duplicate_attachment_cannot_replace_a_live_process() {
    let mut scope = ProcessScope::new(ProcessScopeId::new(1));
    let pid = ProcessId::new(1);
    let os = OsIdentity::new(1, ReuseToken::StartTime(1));
    scope.attach_spawned(pid, os, ProcessSpec::new(native("original"))).unwrap();
    assert!(scope.attach_spawned(pid, os, ProcessSpec::new(native("replacement"))).is_err());
    assert_eq!(scope.get(pid).unwrap().spec().program, native("original"));
}

#[test]
fn unverified_exit_is_quarantined_not_pruned_or_closed() {
    let mut scope = ProcessScope::new(ProcessScopeId::new(1));
    let pid = ProcessId::new(1);
    scope
        .attach_spawned(
            pid,
            OsIdentity::new(1, ReuseToken::Unavailable),
            ProcessSpec::new(native("owned")),
        )
        .unwrap();
    scope.begin_scope_termination();
    scope
        .record_reaped(
            pid,
            ProcessExit {
                pid,
                code: None,
                signal: None,
                forced: false,
                outcome: TerminationOutcome::CleanupUnverified(UnverifiedReason::ReapFailed),
            },
        )
        .unwrap();
    scope.prune(pid);
    assert!(scope.contains(pid));
    assert!(!scope.is_closed());
}

#[test]
fn verified_exit_corrects_an_unverified_one_and_then_stands() {
    let mut scope = ProcessScope::new(ProcessScopeId::new(1));
    let pid = ProcessId::new(1);
    scope.attach_spawned(pid, os(1), spec()).unwrap();
    scope.begin_scope_termination();
    let failed =
        exit(pid, TerminationOutcome::CleanupUnverified(UnverifiedReason::ReapFailed));
    assert_eq!(scope.record_reaped(pid, failed).unwrap().len(), 1);
    assert!(scope.record_reaped(pid, failed).unwrap().is_empty());
    let verified = exit(pid, TerminationOutcome::ForcedRequired);
    assert_eq!(scope.record_reaped(pid, verified).unwrap().len(), 2);
    assert!(scope.is_closed());
    assert!(scope.record_reaped(pid, failed).unwrap().is_empty());
    assert_eq!(scope.get(pid).unwrap().exit(), Some(verified));
}

#[test]
fn escalation_after_request_is_idempotent() {
    let mut scope = ProcessScope::new(ProcessScopeId::new(1));
    let pid = ProcessId::new(1);
    scope.attach_spawned(pid, os(1), spec()).unwrap();
    scope.request_termination(pid).unwrap();
    assert_eq!(scope.get(pid).unwrap().state(), ProcessLifecycle::GracefulRequested);
    scope.escalate_termination(pid).unwrap();
    scope.escalate_termination(pid).unwrap();
    assert_eq!(scope.get(pid).unwrap().state(), ProcessLifecycle::Forcing);
    assert!(scope.request_termination(pid).unwrap().is_empty());
}

#[test]
fn settled_scope_tells_whether_every_exit_is_verified() {
    let mut scope = ProcessScope::new(ProcessScopeId::new(1));
    assert!(scope.is_settled());
    let pid = ProcessId::new(1);
    scope.attach_spawned(pid, os(1), spec()).unwrap();
    assert!(!scope.is_settled());
    scope.record_reaped(pid, exit(pid, TerminationOutcome::ExitedNaturally)).unwrap();
    assert!(scope.is_settled());
    assert!(scope.is_open(), "an open scope does not close by itself");
}

#[test]
fn identities_have_labels_and_numbers() {
    assert_eq!(ProcessScopeId::new(7).get(), 7);
    assert_eq!(ProcessId::new(0).get(), 0);
    assert_eq!(ProcessScopeId::new(7).label(), "scope#7");
    assert_eq!(ProcessId::new(1204).label(), "proc#1204");
    assert_eq!(ProcessId::new(u64::MAX).label(), "proc#18446744073709551615");
}

#[test]
fn domain_errors_have_messages() {
    assert_eq!(
        DomainError::ScopeClosed(ProcessScopeId::new(3)).message(),
        "scope scope#3 is not accepting new processes"
    );
    assert_eq!(
        DomainError::UnknownProcess(ProcessId::new(4)).message(),
        "unknown process proc#4"
    );
    assert_eq!(
        DomainError::InvalidTransition(InvalidTransition { from: "owned", event: "attach" })
            .message(),
        "invalid transition from owned on event 'attach'"
    );
}

#[test]
fn outcomes_are_verified_only_when_confirmed() {
    assert!(TerminationOutcome::ExitedNaturally.is_verified());
    assert!(TerminationOutcome::GracefulSuccess.is_verified());
    assert!(TerminationOutcome::ForcedRequired.is_verified());
    assert!(!TerminationOutcome::Failed.is_verified());
    assert!(!TerminationOutcome::CleanupUnverified(UnverifiedReason::RuntimeShutdown)
        .is_verified());
}

#[test]
fn times_and_spans() {
    assert_eq!(Duration::from_secs(2), Duration::from_millis(2_000));
    assert_eq!(Duration::from_millis(3), Duration::from_micros(3_000));
    assert_eq!(Duration::from_micros(4), Duration::from_nanos(4_000));
    assert!(Duration::from_nanos(0).is_zero());
    assert_eq!(Duration::from_secs(1).checked_sub(Duration::from_secs(2)), None);
    assert_eq!(
        Duration::from_secs(3).checked_sub(Duration::from_secs(1)),
        Some(Duration::from_secs(2))
    );
    assert_eq!(
        Duration::from_secs(3).longest(Duration::from_secs(1)),
        Duration::from_secs(3)
    );
    let early = Instant { nanos: 5 };
    let late = Instant { nanos: 9 };
    assert_eq!(late.checked_duration_since(early), Some(Duration::from_nanos(4)));
    assert_eq!(early.checked_duration_since(late), None);
    assert_eq!(early.saturating_duration_since(late), Duration::from_nanos(0));
}

#[test]
fn termination_options_default_to_five_and_ten_seconds() {
    let options = TerminateOptions::default();
    assert_eq!(options.grace.as_duration(), Duration::from_secs(5));
    assert_eq!(options.force_timeout, Some(Duration::from_secs(10)));
}

#[test]
fn stats_keep_the_sample_and_add_identity_and_uptime() {
    let raw = RawStats {
        cpu_usage: None,
        memory_rss_bytes: 7,
        virtual_memory_bytes: Some(8),
        peak_rss_bytes: None,
        io_read_bytes: Some(1),
        io_write_bytes: None,
        descendant_count: Some(2),
        state: ProcessState::Zombie,
    };
    let stats = ProcessStats::from_raw(ProcessId::new(9), raw, Duration::from_secs(3));
    assert_eq!(stats.pid, ProcessId::new(9));
    assert_eq!(stats.uptime, Duration::from_secs(3));
    assert_eq!(stats.memory_rss_bytes, 7);
    assert_eq!(stats.virtual_memory_bytes, Some(8));
    assert_eq!(stats.io_read_bytes, Some(1));
    assert_eq!(stats.descendant_count, Some(2));
    assert_eq!(stats.state, ProcessState::Zombie);
}

#[test]
fn native_strings_compare_by_bytes() {
    assert!(native("sleep").is("sleep"));
    assert!(!native("sleep").is("sleeps"));
    assert!(!native("sleep").is("sleEp"));
    assert_eq!(native("\u{7f8a}").bytes, "\u{7f8a}".as_bytes());
}
