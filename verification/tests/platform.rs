//! What platform backends read, remember and decide.
use shepherd::domain::time::{Duration, Instant};
use shepherd::observation::usage::AccountingSource;
use shepherd::platform::cgroup::{
    accounting, find_relative_group, group_state, io_sum, scope_directory, GroupFiles,
};
use shepherd::platform::children::{child_key, identity_still_matches, ChildKey, Children};
use shepherd::platform::environment::{apply_env, EnvStep};
use shepherd::platform::macos::{
    check_start, confirm_group, group_members, mac_usage, nanos, observed_pid, BsdStart,
    GroupListing, MacReading, RusageCounters, RusageFlavor,
};
use shepherd::platform::polling::{CleanupStep, ContainerCleanup, ContainerState};
use shepherd::platform::procfs::{
    check_linux_start, linux_usage, parse_kb, parse_state, parse_status, read_boot_time, read_cpu_ticks,
    read_io_field, read_resident_memory, read_start_time, read_stat_times, sample_process,
    LinuxReading, ProcStatus,
};
use shepherd::platform::signals::{signal_from_raw, to_nix};
use shepherd::platform::text::{chars_of, read_number, NumberFailure};
use shepherd::platform::unix::sampling::{LinuxSample, MacSample, TaskCounters};
use shepherd::platform::unix::{
    root_kill, settle_anchor_reap, settle_group_probe, settle_signal, unix_capabilities,
    AnchorNeed, AnchorReap, GroupPlan, Root, RootKill, SignalPlan, SignalSent, SpawnPlan,
    UnixFlavor,
};
use shepherd::platform::windows::{
    check_creation, cpu_units, job_exit, next_setup, wait_plan, waiter_done, windows_usage,
    FileTime, JobSample, RetrySent, SetupStep, WaitPlan, WaitSeen, WindowsReading, KILLED,
};
use shepherd::{
    Containment, CpuUsage, EnvPolicy, NativeString, NullBackend, ObservationError,
    ObservedProcessIdentity, OsIdentity, ProcessId, ProcessScopeId, ProcessSpec, ProcessState,
    ProcessUsage, RawExit, RawStats, ReuseToken, Signal, SpawnError, Spawned, StatsError, Support,
    TerminateError, UnixProcessBackend, UsageEntry, UsageFailure, WaitError, WindowsJobBackend,
};

fn scope(id: u64) -> ProcessScopeId {
    ProcessScopeId::new(id)
}

fn child(pid: u32, start: u64) -> Spawned {
    Spawned { os: OsIdentity::new(pid, ReuseToken::StartTime(start)) }
}

fn spec(program: &str) -> ProcessSpec {
    ProcessSpec::new(NativeString::new(program))
}

fn exited(code: i32) -> Result<RawExit, String> {
    Ok(RawExit { code: Some(code), signal: None, core_dumped: false })
}

fn stat(user: &str, system: &str, start: &str) -> String {
    format!("12 (a) b) S 1 1 1 0 -1 0 0 0 0 0 {user} {system} 0 0 20 0 1 0 {start} 99")
}

#[test]
fn io_totals_are_per_device_and_fail_on_bad_or_overflowed_data() {
    assert_eq!(io_sum("8:0 rbytes=7 wbytes=3\n8:1 rbytes=9 wbytes=5", "rbytes="), Some(16));
    assert_eq!(io_sum("", "rbytes="), Some(0));
    assert_eq!(io_sum("8:0 wbytes=7", "rbytes="), None);
    assert_eq!(io_sum("8:0 rbytes=no", "rbytes="), None);
    assert_eq!(
        io_sum("8:0 rbytes=18446744073709551615\n8:1 rbytes=1", "rbytes="),
        None
    );
}

#[test]
fn cpu_conversion_includes_both_counters_without_overflow() {
    assert_eq!(nanos(6, 6, 125, 3).unwrap(), 500);
    assert_eq!(nanos(4, 7, 1, 1).unwrap(), 11);
    assert!(nanos(1, 1, 1, 0).is_err());
    assert!(nanos(u64::MAX, u64::MAX, 125, 3).is_err());
}

#[test]
fn flavor_fallback_is_only_for_invalid_version_and_clears_storage() {
    let mut calls = Vec::new();
    let mut flavor = RusageFlavor::newest();
    let answered = loop {
        calls.push(flavor.number());
        if flavor.number() == 0 {
            break flavor;
        }
        flavor = flavor.after_refusal(true).unwrap();
    };
    assert_eq!(calls, vec![4, 2, 0]);
    assert_eq!(answered.number(), 0);
    assert_eq!(RusageFlavor::newest().after_refusal(false), None);
    assert_eq!(RusageFlavor::V2.after_refusal(false), None);
    assert_eq!(RusageFlavor::V0.after_refusal(true), None);
}

#[test]
fn signals_map_to_their_numbers_and_back() {
    assert_eq!(to_nix(Signal::Term).unwrap(), 15);
    assert_eq!(to_nix(Signal::Kill).unwrap(), 9);
    assert_eq!(to_nix(Signal::Interrupt).unwrap(), 2);
    assert_eq!(to_nix(Signal::Custom(1)).unwrap(), 1);
    assert_eq!(to_nix(Signal::Custom(31)).unwrap(), 31);
    for raw in [0, -1, 32, 64, i32::MAX, i32::MIN] {
        assert_eq!(
            to_nix(Signal::Custom(raw)).unwrap_err(),
            TerminateError::Signal("EINVAL: Invalid argument".to_string())
        );
    }
    assert_eq!(signal_from_raw(15), Signal::Term);
    assert_eq!(signal_from_raw(9), Signal::Kill);
    assert_eq!(signal_from_raw(2), Signal::Interrupt);
    assert_eq!(signal_from_raw(6), Signal::Custom(6));
    for raw in 1..=31 {
        assert_eq!(to_nix(signal_from_raw(raw)).unwrap(), raw);
    }
}

#[test]
fn environment_policies_become_ordered_steps() {
    let (k, v, gone) =
        (NativeString::new("K"), NativeString::new("V"), NativeString::new("GONE"));
    assert!(apply_env(&EnvPolicy::Inherit).is_empty());
    let overrides =
        EnvPolicy::Overrides(vec![(k.clone(), Some(v.clone())), (gone.clone(), None)]);
    assert_eq!(apply_env(&overrides), vec![EnvStep::Assign(&k, &v), EnvStep::Remove(&gone)]);
    let clear = EnvPolicy::Clear(vec![(k.clone(), v.clone())]);
    assert_eq!(apply_env(&clear), vec![EnvStep::Clear, EnvStep::Assign(&k, &v)]);
}

#[test]
fn numbers_tell_why_they_are_none() {
    let read = |text: &str| read_number(&chars_of(text));
    assert_eq!(read("+12"), Ok(12));
    assert_eq!(read("18446744073709551615"), Ok(u64::MAX));
    assert_eq!(read(""), Err(NumberFailure::Empty));
    assert_eq!(read("+"), Err(NumberFailure::Invalid));
    assert_eq!(read("1x"), Err(NumberFailure::Invalid));
    assert_eq!(read("18446744073709551616"), Err(NumberFailure::TooLarge));
    for text in ["", "+", "-1", "1x", "18446744073709551616", "99999999999999999999x"] {
        assert_eq!(
            read(text).unwrap_err().message(),
            text.parse::<u64>().unwrap_err().to_string(),
            "{text}"
        );
    }
}

#[test]
fn process_directories_are_read_behind_the_command_name() {
    let text = stat("3", "4", "77");
    assert_eq!(read_start_time(&text), Some(77));
    assert_eq!(read_cpu_ticks(&text), Ok(7));
    assert_eq!(read_stat_times(&text), Ok((77, 7)));
    assert_eq!(read_start_time("no bracket"), None);
    assert_eq!(
        read_cpu_ticks("no bracket"),
        Err(StatsError::Backend("invalid proc stat".to_string()))
    );
    assert_eq!(
        read_cpu_ticks("1 (x) S"),
        Err(StatsError::Backend("invalid CPU counters".to_string()))
    );
    let huge = stat("18446744073709551615", "1", "5");
    assert_eq!(read_cpu_ticks(&huge), Ok(u64::MAX));
    for (text, cause) in [
        (huge, "CPU overflow"),
        ("1 x".to_string(), "invalid stat"),
        ("1 (x) S 1".to_string(), "short stat"),
        (stat("x", "1", "5"), "invalid digit found in string"),
    ] {
        assert_eq!(
            read_stat_times(&text),
            Err(UsageFailure::Unavailable(cause.to_string()))
        );
    }
}

#[test]
fn status_files_give_memory_and_state() {
    assert_eq!(parse_kb("  12 kB"), Some(12 * 1024));
    assert_eq!(parse_kb("kB"), Some(0));
    assert_eq!(parse_kb(""), Some(0));
    assert_eq!(parse_kb("18446744073709551615"), None);
    for (letter, state) in [
        ("R (running)", ProcessState::Running),
        ("S", ProcessState::Sleeping),
        ("D", ProcessState::Sleeping),
        ("T", ProcessState::Stopped),
        ("Z", ProcessState::Zombie),
        ("X", ProcessState::Unknown),
        ("", ProcessState::Unknown),
    ] {
        assert_eq!(parse_state(letter), state);
    }
    let status = "Name:\tx\nState:\tS (sleeping)\nVmHWM:\t 9 kB\nVmSize:\t 8 kB\nVmRSS:\t 7 kB\n";
    assert_eq!(
        parse_status(status),
        Some(ProcStatus {
            rss: 7 * 1024,
            vsize: Some(8 * 1024),
            peak: Some(9 * 1024),
            state: ProcessState::Sleeping
        })
    );
    assert_eq!(read_io_field("rchar: 1\nread_bytes: 42\n", "read_bytes:"), Some(42));
    assert_eq!(read_io_field("rchar: 1\n", "read_bytes:"), None);
    let raw = sample_process(status, "read_bytes: 5\nwrite_bytes: 6\n").unwrap();
    assert_eq!(
        raw,
        RawStats {
            cpu_usage: None,
            memory_rss_bytes: 7 * 1024,
            virtual_memory_bytes: Some(8 * 1024),
            peak_rss_bytes: Some(9 * 1024),
            io_read_bytes: Some(5),
            io_write_bytes: Some(6),
            descendant_count: None,
            state: ProcessState::Sleeping,
        }
    );
    assert_eq!(
        sample_process("VmRSS: 18446744073709551615 kB", ""),
        Err(StatsError::Backend("memory size out of range".to_string()))
    );
    assert_eq!(read_resident_memory(status), Ok(7 * 1024));
    for (text, cause) in [
        ("", "resident memory unavailable"),
        ("VmRSS:", "resident memory unavailable"),
        ("VmRSS: x", "invalid digit found in string"),
        ("VmRSS: 18446744073709551615", "RSS overflow"),
    ] {
        assert_eq!(
            read_resident_memory(text),
            Err(UsageFailure::Unavailable(cause.to_string()))
        );
    }
    assert_eq!(read_boot_time("cpu 1\nbtime 1700000000\n"), Ok(1_700_000_000));
    assert_eq!(
        read_boot_time("cpu 1\n"),
        Err(UsageFailure::Unavailable("boot time unavailable".to_string()))
    );
    assert_eq!(
        read_boot_time("btime \n"),
        Err(UsageFailure::Unavailable("cannot parse integer from empty string".to_string()))
    );
}

#[test]
fn linux_usage_belongs_to_one_process() {
    let identity = ObservedProcessIdentity { os_pid: 5, start_time_unix_seconds: Some(1_003) };
    let reading = LinuxReading {
        start: 350,
        ticks: 250,
        resident_bytes: 4096,
        boot: 1_000,
        start_after: 350,
        sampled_at: Instant { nanos: 9 },
    };
    let usage = linux_usage(identity, reading, 100).unwrap();
    assert_eq!(usage.cpu_time, Duration::from_millis(2_500));
    assert_eq!(usage.native_start, 350);
    assert_eq!(usage.resident_bytes, 4096);
    assert_eq!(
        linux_usage(identity, reading, 0),
        Err(UsageFailure::Unavailable("invalid clock frequency".to_string()))
    );
    let moved = LinuxReading { start_after: 351, ..reading };
    assert_eq!(linux_usage(identity, moved, 100), Err(UsageFailure::IdentityChanged));
    let late = LinuxReading { boot: 1_001, ..reading };
    assert_eq!(linux_usage(identity, late, 100), Err(UsageFailure::IdentityChanged));
    let anyone = ObservedProcessIdentity { os_pid: 5, start_time_unix_seconds: None };
    assert!(linux_usage(anyone, late, 100).is_ok());
    // To the nearest nanosecond; of two that are as near the even one.
    let cpu = |ticks: u64, hz: i64| {
        let start_time = Some(1_000 + 350 / hz as u64);
        let identity =
            ObservedProcessIdentity { os_pid: 5, start_time_unix_seconds: start_time };
        linux_usage(identity, LinuxReading { ticks, ..reading }, hz).unwrap().cpu_time
    };
    assert_eq!(cpu(2, 3), Duration::from_nanos(666_666_667));
    assert_eq!(cpu(1, 3), Duration::from_nanos(333_333_333));
    assert_eq!(cpu(1, 1_024), Duration::from_nanos(976_562));
    assert_eq!(cpu(1, 2_000_000_000), Duration::from_nanos(0));
    assert_eq!(cpu(3, 2_000_000_000), Duration::from_nanos(2));
    assert_eq!(check_linux_start(identity, 350, 1_000, 100), Ok(()));
    assert_eq!(
        check_linux_start(identity, 350, 1_001, 100),
        Err(UsageFailure::IdentityChanged)
    );
    assert_eq!(check_linux_start(anyone, 350, 1_001, 100), Ok(()));
    assert_eq!(
        check_linux_start(anyone, 350, 1_000, -1),
        Err(UsageFailure::Unavailable("invalid clock frequency".to_string()))
    );
}

#[test]
fn control_groups_are_found_named_and_accounted() {
    assert_eq!(
        find_relative_group("1:name=x:/a\n0::/user.slice/one\n").unwrap().iter().collect::<String>(),
        "user.slice/one"
    );
    assert_eq!(find_relative_group("0::///").unwrap(), Vec::<char>::new());
    assert_eq!(find_relative_group("1:cpu:/"), None);
    assert_eq!(scope_directory(scope(3)), "scope-scope#3");
    assert_eq!(group_state(None), ContainerState::Gone);
    assert_eq!(group_state(Some("populated 0\nfrozen 0\n")), ContainerState::Empty);
    assert_eq!(group_state(Some("populated 1\nfrozen 0\n")), ContainerState::Busy);
    assert_eq!(group_state(Some("populated 00\n")), ContainerState::Busy);
    let usage = accounting(
        GroupFiles {
            cpu: Some("usage_usec 12\nuser_usec 5\n"),
            memory: Some("4096\n"),
            io: Some("8:0 rbytes=7 wbytes=3\n"),
            pids: None,
        },
        Instant { nanos: 4 },
    );
    assert_eq!(usage.source, AccountingSource::LinuxCgroup);
    assert_eq!(usage.cpu_time, Some(Duration::from_micros(12)));
    assert_eq!(usage.memory_bytes, Some(4096));
    assert_eq!(usage.io_read_bytes, Some(7));
    assert_eq!(usage.io_write_bytes, Some(3));
    assert_eq!(usage.member_count, None);
    assert_eq!(usage.sampled_at, Instant { nanos: 4 });
}

#[test]
fn container_cleanup_is_bounded_and_removes_only_what_is_empty() {
    let mut cleanup = ContainerCleanup::new();
    assert_eq!(cleanup.observe(ContainerState::Empty), CleanupStep::Remove);
    assert_eq!(cleanup.observe(ContainerState::Gone), CleanupStep::Done);
    let mut pauses = 0;
    while !cleanup.is_exhausted() {
        assert_eq!(
            cleanup.observe(ContainerState::Busy),
            CleanupStep::Pause(Duration::from_millis(10))
        );
        pauses += 1;
    }
    assert_eq!(pauses, 500);
}

#[test]
fn recycled_pids_have_their_own_slot() {
    let mut children: Children<u8> = Children::new();
    let first = child_key(&child(7, 1).os);
    let second = child_key(&child(7, 2).os);
    assert_eq!(child_key(&OsIdentity::new(7, ReuseToken::Unavailable)), ChildKey { pid: 7, token: 0 });
    assert_eq!(children.insert(first, 1), None);
    assert_eq!(children.insert(second, 2), None);
    assert_eq!(children.insert(first, 3), Some(1));
    assert_eq!(children.get(second), Some(&2));
    assert_eq!(children.keys(), vec![first, second]);
    assert_eq!(children.remove(first), Some(3));
    assert!(!children.contains(first));
    assert!(children.contains(second));
    assert!(identity_still_matches(&child(7, 1).os, Some(1)));
    assert!(!identity_still_matches(&child(7, 1).os, Some(2)));
    assert!(!identity_still_matches(&child(7, 1).os, None));
    assert!(identity_still_matches(&OsIdentity::new(7, ReuseToken::Unavailable), None));
}

#[test]
fn failed_wait_retains_identity_until_verified_reap() {
    let mut backend = UnixProcessBackend::new(false);
    let root = child(100, 5);
    backend.register_child(scope(1), root.os, true, true);
    let failed = Err("injected wait failure".to_string());
    backend.publish_wait_result(scope(1), &failed);
    assert_eq!(
        backend.finish_wait(&root, failed),
        Err(WaitError::Backend("injected wait failure".to_string()))
    );
    assert!(backend.wait_target(&root).is_ok());
    assert_eq!(backend.join_plan(scope(1)), SpawnPlan::Join(100), "still counted as live");
    assert_eq!(
        backend.registered_roots(Some(scope(1))),
        vec![Root { key: child_key(&root.os), pidfd: true }]
    );
    backend.publish_wait_result(scope(1), &exited(0));
    assert_eq!(backend.finish_wait(&root, exited(0)).unwrap().code, Some(0));
    assert_eq!(
        backend.wait_target(&root),
        Err(WaitError::Backend("no child registered for pid 100".to_string()))
    );
    assert_eq!(backend.join_plan(scope(1)), SpawnPlan::Fresh);
    assert!(backend.registered_roots(None).is_empty());
}

#[test]
fn late_wait_after_natural_exit_still_sees_status() {
    let mut backend = UnixProcessBackend::new(false);
    let root = child(100, 5);
    backend.register_child(scope(1), root.os, false, true);
    backend.publish_wait_result(scope(1), &exited(0));
    assert!(backend.wait_target(&root).is_ok(), "late wait must not lose a reaped child");
    assert_eq!(backend.finish_wait(&root, exited(0)).unwrap().code, Some(0));
}

#[test]
fn mismatched_reuse_token_cannot_signal_a_live_child() {
    let mut backend = UnixProcessBackend::new(false);
    let root = child(100, 5);
    backend.register_child(scope(1), root.os, false, true);
    assert_eq!(
        backend.signal_plan(&child(100, u64::MAX), Signal::Kill, Some(5)),
        Ok(SignalPlan::Skip)
    );
    assert_eq!(backend.signal_plan(&root, Signal::Kill, Some(6)), Ok(SignalPlan::Skip));
    assert_eq!(
        backend.signal_plan(&root, Signal::Kill, Some(5)),
        Ok(SignalPlan::Pid { pid: 100, number: 9 })
    );
    assert_eq!(
        backend.signal_plan(&root, Signal::Custom(99), Some(5)),
        Err(TerminateError::Signal("EINVAL: Invalid argument".to_string()))
    );
    let unsafe_child = Spawned { os: OsIdentity::new(8, ReuseToken::Unavailable) };
    backend.register_child(scope(1), unsafe_child.os, false, false);
    assert_eq!(
        backend.signal_plan(&unsafe_child, Signal::Kill, Some(5)),
        Err(TerminateError::Signal("no safe process identity available".to_string()))
    );
    let held = child(9, 2);
    backend.register_child(scope(1), held.os, true, false);
    assert_eq!(backend.signal_plan(&held, Signal::Term, None), Ok(SignalPlan::PidFd(15)));
}

#[test]
fn group_broadcast_does_not_poison_an_open_scope() {
    let mut backend = UnixProcessBackend::new(false);
    assert_eq!(backend.check_anchor(scope(1)), Ok(AnchorNeed::Create));
    backend.anchor_created(scope(1), 50);
    assert_eq!(backend.check_anchor(scope(1)), Ok(AnchorNeed::Ready));
    assert_eq!(backend.join_plan(scope(1)), SpawnPlan::Join(50));
    let root = child(100, 5);
    backend.register_child(scope(1), root.os, false, false);
    // A group-wide kill from inside also takes the anchor.
    backend.anchor_exited(scope(1), 50, Ok(()));
    assert_eq!(backend.join_plan(scope(1)), SpawnPlan::Recheck);
    assert_eq!(
        backend.check_anchor(scope(1)),
        Err(SpawnError::Os(
            "scope anchor exited while its group may still exist; cleanup required".to_string()
        ))
    );
    backend.publish_wait_result(scope(1), &exited(0));
    assert_eq!(backend.check_anchor(scope(1)), Ok(AnchorNeed::Probe(50)));
    assert!(backend.anchor_probed(scope(1), false).is_err());
    assert_eq!(backend.check_anchor(scope(1)), Ok(AnchorNeed::Probe(50)));
    assert!(backend.anchor_probed(scope(1), true).is_ok());
    assert_eq!(
        backend.check_anchor(scope(1)),
        Ok(AnchorNeed::Create),
        "an empty open scope remains reusable after a group broadcast"
    );
}

#[test]
fn reaped_anchor_cannot_signal_a_recycled_group_number() {
    let mut backend = UnixProcessBackend::new(false);
    backend.anchor_created(scope(1), 50);
    assert_eq!(
        backend.group_plan(scope(1), 15),
        GroupPlan::Send { pgid: 50, number: 15 }
    );
    backend.anchor_exited(scope(1), 50, Ok(()));
    assert_eq!(
        backend.scope_signal_plan(scope(1), Signal::Kill),
        Ok(GroupPlan::Probe(50))
    );
    assert_eq!(
        settle_group_probe(false),
        Err(TerminateError::Signal(
            "scope anchor was reaped; refusing to signal an unpinned group".to_string()
        ))
    );
    assert_eq!(settle_group_probe(true), Ok(()));
    // The exit of an anchor that was replaced meanwhile concerns nobody.
    backend.anchor_probed(scope(1), true).unwrap();
    backend.anchor_created(scope(1), 51);
    backend.anchor_exited(scope(1), 50, Ok(()));
    assert_eq!(backend.check_anchor(scope(1)), Ok(AnchorNeed::Ready));
}

#[test]
fn scope_kill_rejects_new_admission_before_and_after_anchor_reap() {
    let mut backend = UnixProcessBackend::new(false);
    backend.anchor_created(scope(1), 50);
    assert_eq!(backend.group_scopes(), vec![1]);
    assert_eq!(backend.group_signalled(scope(1), 9, SignalSent::Delivered), Ok(()));
    assert_eq!(backend.check_anchor(scope(1)), Err(SpawnError::ScopeClosed(scope(1))));
    assert_eq!(backend.group_plan(scope(1), 9), GroupPlan::Skip);
    backend.anchor_exited(scope(1), 50, Ok(()));
    assert_eq!(backend.check_anchor(scope(1)), Err(SpawnError::ScopeClosed(scope(1))));
    assert_eq!(backend.anchor_of(scope(1)).unwrap().exit, Some(Ok(())));
    backend.retire_scope(scope(1));
    assert!(backend.anchor_of(scope(1)).is_none());
    assert_eq!(backend.check_anchor(scope(1)), Ok(AnchorNeed::Create));
}

#[test]
fn runtime_drop_marks_anchor_pin_unverified_even_before_first_poll() {
    let mut backend = UnixProcessBackend::new(false);
    backend.anchor_created(scope(1), 50);
    backend.anchor_interrupted(scope(1), 50);
    let anchor = backend.anchor_of(scope(1)).unwrap();
    assert!(anchor.kill_issued);
    let failure = anchor.exit.clone().unwrap();
    assert_eq!(
        failure,
        Err("anchor waiter interrupted; synchronous group kill issued, reap unverified"
            .to_string())
    );
    assert!(settle_anchor_reap(AnchorReap::Waited(failure)).is_err());
    assert!(matches!(backend.check_anchor(scope(1)), Err(SpawnError::ScopeClosed(_))));
}

#[test]
fn refused_group_signals_leave_the_scope_open() {
    let mut backend = UnixProcessBackend::new(false);
    backend.anchor_created(scope(1), 50);
    assert_eq!(
        backend.group_signalled(scope(1), 9, SignalSent::Failed("EPERM".to_string())),
        Err(TerminateError::Signal("EPERM".to_string()))
    );
    assert_eq!(backend.check_anchor(scope(1)), Ok(AnchorNeed::Ready));
    assert_eq!(backend.group_signalled(scope(1), 15, SignalSent::Delivered), Ok(()));
    assert_eq!(backend.check_anchor(scope(1)), Ok(AnchorNeed::Ready));
    assert_eq!(backend.group_signalled(scope(1), 9, SignalSent::NoSuchProcess), Ok(()));
    assert!(backend.check_anchor(scope(1)).is_err());
    assert_eq!(settle_signal(SignalSent::NoSuchProcess), Ok(()));
    assert_eq!(
        settle_anchor_reap(AnchorReap::Closed),
        Err(TerminateError::Signal("anchor waiter closed".to_string()))
    );
    assert_eq!(
        settle_anchor_reap(AnchorReap::TimedOut),
        Err(TerminateError::Signal("anchor reap timed out".to_string()))
    );
    assert_eq!(settle_anchor_reap(AnchorReap::Waited(Ok(()))), Ok(()));
}

#[test]
fn failed_anchor_wait_is_told_to_spawners() {
    let mut backend = UnixProcessBackend::new(false);
    backend.anchor_created(scope(1), 50);
    backend.anchor_exited(scope(1), 50, Err("ECHILD".to_string()));
    assert_eq!(
        backend.check_anchor(scope(1)),
        Err(SpawnError::Os("anchor reap failed: ECHILD".to_string()))
    );
}

#[test]
fn control_groups_need_no_anchor_and_retry_in_a_fresh_group() {
    let mut backend = UnixProcessBackend::new(true);
    assert_eq!(backend.containment(), Containment::CgroupV2);
    assert_eq!(UnixProcessBackend::new(false).containment(), Containment::ProcessGroup);
    assert_eq!(backend.check_anchor(scope(1)), Ok(AnchorNeed::Ready));
    assert_eq!(backend.join_plan(scope(1)), SpawnPlan::Fresh);
    backend.register_child(scope(1), child(100, 5).os, false, true);
    let plan = backend.join_plan(scope(1));
    assert_eq!(plan, SpawnPlan::Join(100));
    assert!(backend.spawn_failed(scope(1), plan));
    assert_eq!(backend.join_plan(scope(1)), SpawnPlan::Fresh);
    assert!(!backend.spawn_failed(scope(1), SpawnPlan::Fresh));
    assert_eq!(
        backend.scope_signal_plan(scope(1), Signal::Kill),
        Ok(GroupPlan::ControlGroup)
    );
    backend.register_child(scope(1), child(101, 5).os, false, false);
    assert_eq!(
        backend.scope_signal_plan(scope(1), Signal::Term),
        Ok(GroupPlan::Send { pgid: 101, number: 15 })
    );
    let mut pinned = UnixProcessBackend::new(false);
    pinned.anchor_created(scope(1), 50);
    assert!(!pinned.spawn_failed(scope(1), SpawnPlan::Join(50)));
    assert_eq!(pinned.join_plan(scope(1)), SpawnPlan::Join(50));
}

#[test]
fn scope_backstop_reaches_root_after_group_removal() {
    let mut backend = UnixProcessBackend::new(false);
    let root = child(100, 5);
    let sibling = child(200, 6);
    backend.register_child(scope(1), root.os, false, true);
    backend.register_child(scope(2), sibling.os, true, true);
    backend.retire_scope(scope(1));
    let roots = backend.registered_roots(Some(scope(1)));
    assert_eq!(roots, vec![Root { key: child_key(&root.os), pidfd: false }]);
    assert_eq!(root_kill(roots[0], Some(5)), RootKill::Pid(100));
    assert_eq!(root_kill(roots[0], Some(6)), RootKill::Skip);
    assert_eq!(root_kill(roots[0], None), RootKill::Skip);
}

#[test]
fn global_backstop_reaches_root_after_group_removal() {
    let mut backend = UnixProcessBackend::new(false);
    backend.register_child(scope(1), child(100, 5).os, false, true);
    backend.register_child(scope(2), child(200, 6).os, true, true);
    backend.retire_scope(scope(1));
    let roots = backend.registered_roots(None);
    assert_eq!(roots.len(), 2);
    assert_eq!(root_kill(roots[1], None), RootKill::PidFd);
    let unknown = Root { key: ChildKey { pid: 3, token: 0 }, pidfd: false };
    assert_eq!(root_kill(unknown, Some(0)), RootKill::Skip);
}

fn linux_sample(ticks: &str, nanos: u128) -> LinuxSample {
    LinuxSample {
        start: Some(5),
        status: Ok("State:\tR (running)\nVmRSS:\t 7 kB\n".to_string()),
        io: Ok("read_bytes: 1\nwrite_bytes: 2\n".to_string()),
        stat: Ok(stat(ticks, "0", "5")),
        taken_at: Instant { nanos },
        ticks_per_second: 100,
        start_after: Some(5),
    }
}

#[test]
fn samples_tell_cpu_use_since_the_previous_one() {
    let mut backend = UnixProcessBackend::new(false);
    let root = child(100, 5);
    backend.register_child(scope(1), root.os, false, true);
    let first = backend.sample_sync(&root, &linux_sample("10", 1_000)).unwrap();
    assert_eq!(first.cpu_usage, None);
    assert_eq!(first.state, ProcessState::Running);
    let second = backend.sample_sync(&root, &linux_sample("60", 500_001_000)).unwrap();
    assert_eq!(
        second.cpu_usage,
        Some(CpuUsage {
            work: 50,
            units_per_second: 100,
            elapsed: Duration::from_millis(500)
        })
    );
    let stalled = backend.sample_sync(&root, &linux_sample("40", 1)).unwrap();
    assert_eq!(
        stalled.cpu_usage,
        Some(CpuUsage { work: 0, units_per_second: 100, elapsed: Duration::from_nanos(1) })
    );
}

#[test]
fn samples_of_another_or_a_reaped_process_are_refused() {
    let mut backend = UnixProcessBackend::new(false);
    let root = child(100, 5);
    let cause = |result: Result<RawStats, StatsError>| match result {
        Err(StatsError::Backend(cause)) => cause,
        other => panic!("expected a refusal, got {other:?}"),
    };
    assert_eq!(
        cause(backend.sample_sync(&root, &linux_sample("1", 1))),
        "child reaped during sample"
    );
    backend.register_child(scope(1), root.os, false, true);
    let nobody = Spawned { os: OsIdentity::new(100, ReuseToken::Unavailable) };
    assert_eq!(
        cause(backend.sample_sync(&nobody, &linux_sample("1", 1))),
        "no safe sample identity available"
    );
    let mut sample = linux_sample("1", 1);
    sample.start = Some(6);
    assert_eq!(cause(backend.sample_sync(&root, &sample)), "process identity no longer matches");
    let mut sample = linux_sample("1", 1);
    sample.start_after = None;
    assert_eq!(cause(backend.sample_sync(&root, &sample)), "child changed during sample");
    let mut sample = linux_sample("1", 1);
    sample.ticks_per_second = 0;
    assert_eq!(cause(backend.sample_sync(&root, &sample)), "invalid clock tick rate");
    let mut sample = linux_sample("1", 1);
    sample.io = Err("denied".to_string());
    assert_eq!(cause(backend.sample_sync(&root, &sample)), "denied");
    let mut sample = linux_sample("1", 1);
    sample.stat = Ok("broken".to_string());
    assert_eq!(cause(backend.sample_sync(&root, &sample)), "invalid proc stat");
}

#[test]
fn one_native_sample_runs_per_child() {
    let mut backend = UnixProcessBackend::new(false);
    let root = child(100, 5);
    assert_eq!(
        backend.begin_sample(&root),
        Err(StatsError::Backend("process reaped".to_string()))
    );
    backend.register_child(scope(1), root.os, false, true);
    assert_eq!(backend.begin_sample(&root), Ok(()));
    assert_eq!(
        backend.begin_sample(&root),
        Err(StatsError::Backend("previous native sample still running".to_string()))
    );
    backend.end_sample(&root);
    assert_eq!(backend.begin_sample(&root), Ok(()));
}

#[test]
fn mac_samples_count_nanoseconds() {
    let mut backend = UnixProcessBackend::new(false);
    let root = child(100, 5);
    backend.register_child(scope(1), root.os, false, true);
    let sample = |user: u64, nanos: u128| MacSample {
        start: Some(5),
        task: Ok(TaskCounters { user, system: 0, resident: 11, mapped: 12 }),
        timebase: Some((125, 3)),
        taken_at: Instant { nanos },
        start_after: Some(5),
    };
    let first = backend.sample_mac(&root, &sample(3, 0)).unwrap();
    assert_eq!(first.memory_rss_bytes, 11);
    assert_eq!(first.virtual_memory_bytes, Some(12));
    let second = backend.sample_mac(&root, &sample(6, 1_000)).unwrap();
    assert_eq!(
        second.cpu_usage,
        Some(CpuUsage {
            work: 125,
            units_per_second: 1_000_000_000,
            elapsed: Duration::from_nanos(1_000)
        })
    );
    let mut broken = sample(6, 2_000);
    broken.timebase = Some((1, 0));
    assert_eq!(
        backend.sample_mac(&root, &broken),
        Err(StatsError::Backend("invalid Mach timebase".to_string()))
    );
}

#[test]
fn unix_capabilities_depend_on_the_flavor() {
    let linux = unix_capabilities(Containment::CgroupV2, UnixFlavor::Linux);
    assert_eq!(linux.descendant_containment, Containment::CgroupV2);
    assert_eq!(linux.io, Support::Supported);
    assert_eq!(linux.peak_rss, Support::Supported);
    let mac = unix_capabilities(Containment::ProcessGroup, UnixFlavor::MacOs);
    assert_eq!(mac.cpu, Support::Supported);
    assert_eq!(mac.io, Support::Unsupported);
    let other = unix_capabilities(Containment::ProcessGroup, UnixFlavor::Other);
    assert_eq!(other.rss, Support::Unsupported);
    assert!(other.force_termination);
}

fn mac_reading(flavor: RusageFlavor) -> MacReading {
    let start = BsdStart { seconds: 10, micros: 20 };
    MacReading {
        before: start,
        counters: RusageCounters {
            user: 6,
            system: 6,
            native_start: 77,
            resident: 1,
            footprint: 2,
            peak_footprint: 3,
            disk_read: 4,
            disk_write: 5,
        },
        flavor,
        sampled_at: Instant { nanos: 1 },
        after: start,
        timebase: Some((125, 3)),
    }
}

#[test]
fn mac_usage_reports_what_the_record_holds() {
    let identity = ObservedProcessIdentity { os_pid: 4, start_time_unix_seconds: Some(10) };
    let full = mac_usage(identity, mac_reading(RusageFlavor::V4)).unwrap();
    assert_eq!(full.cpu_time, Duration::from_nanos(500));
    assert_eq!(full.native_start, 77);
    assert_eq!(full.peak_physical_footprint_bytes, Some(3));
    assert_eq!(full.disk_read_bytes, Some(4));
    let middle = mac_usage(identity, mac_reading(RusageFlavor::V2)).unwrap();
    assert_eq!(middle.peak_physical_footprint_bytes, None);
    assert_eq!(middle.disk_write_bytes, Some(5));
    let least = mac_usage(identity, mac_reading(RusageFlavor::V0)).unwrap();
    assert_eq!(least.disk_read_bytes, None);
    assert_eq!(least.physical_footprint_bytes, Some(2));
    let mut moved = mac_reading(RusageFlavor::V4);
    moved.after = BsdStart { seconds: 10, micros: 21 };
    assert_eq!(mac_usage(identity, moved), Err(UsageFailure::IdentityChanged));
    let other = ObservedProcessIdentity { os_pid: 4, start_time_unix_seconds: Some(11) };
    assert_eq!(
        mac_usage(other, mac_reading(RusageFlavor::V4)),
        Err(UsageFailure::IdentityChanged)
    );
    assert_eq!(
        check_start(other, BsdStart { seconds: 10, micros: 0 }),
        Err(UsageFailure::IdentityChanged)
    );
    let mut timeless = mac_reading(RusageFlavor::V4);
    timeless.timebase = None;
    assert_eq!(
        mac_usage(identity, timeless),
        Err(UsageFailure::Unavailable("Mach timebase query failed".to_string()))
    );
    assert_eq!(observed_pid(identity), Ok(4));
    for (pid, cause) in [
        (0, "invalid PID".to_string()),
        (u32::MAX, i32::try_from(u32::MAX).unwrap_err().to_string()),
    ] {
        let identity = ObservedProcessIdentity { os_pid: pid, start_time_unix_seconds: None };
        assert_eq!(observed_pid(identity), Err(UsageFailure::Unavailable(cause)));
    }
    assert_eq!(BsdStart { seconds: 2, micros: 3 }.token(), 2_000_003);
    assert_eq!(BsdStart { seconds: u64::MAX, micros: 3 }.token(), u64::MAX);
}

#[test]
fn group_listings_grow_to_a_bound_and_leave_the_leader_out() {
    let mut listing = GroupListing::new();
    assert_eq!(listing.capacity(), 64);
    assert_eq!(listing.filled(63), Ok(true));
    let mut tries = 0;
    let refusal = loop {
        let room = listing.capacity();
        match listing.filled(room) {
            Ok(complete) => assert!(!complete),
            Err(error) => break error,
        }
        tries += 1;
    };
    assert_eq!(tries, 14);
    assert_eq!(
        refusal,
        ObservationError::Backend("PID list exceeds sampling bound".to_string())
    );
    let members = group_members(&vec![0, 7, 9, -1, 8], 7);
    assert_eq!(members.iter().map(|m| m.os_pid).collect::<Vec<_>>(), vec![9, 8]);
    let usage = mac_usage(members[0], mac_reading(RusageFlavor::V4)).unwrap();
    let mut entries: Vec<UsageEntry> = members
        .iter()
        .map(|identity| UsageEntry {
            identity: *identity,
            measurement: Ok(ProcessUsage { identity: *identity, ..usage }),
        })
        .collect();
    confirm_group(&mut entries, &vec![7, 6], 7);
    assert!(entries[0].measurement.is_ok());
    assert_eq!(entries[1].measurement, Err(UsageFailure::IdentityChanged));
}

#[test]
fn windows_times_and_usage() {
    let time = |ticks: u64| FileTime { high: (ticks >> 32) as u32, low: ticks as u32 };
    assert_eq!(time(0x1_0000_0002).ticks(), 0x1_0000_0002);
    assert_eq!(cpu_units(time(5), time(6)), 11);
    assert_eq!(cpu_units(time(u64::MAX), time(1)), u64::MAX);
    let created = (11_644_473_600 + 42) * 10_000_000;
    let identity = ObservedProcessIdentity { os_pid: 4, start_time_unix_seconds: Some(42) };
    assert_eq!(check_creation(identity, time(created)), Ok(()));
    let reading = WindowsReading {
        creation: time(created),
        kernel: time(3),
        user: time(4),
        working_set: 9,
        sampled_at: Instant { nanos: 1 },
    };
    let usage = windows_usage(identity, reading).unwrap();
    assert_eq!(usage.cpu_time, Duration::from_nanos(700));
    assert_eq!(usage.resident_bytes, 9);
    assert_eq!(usage.native_start, created);
    assert_eq!(
        windows_usage(identity, WindowsReading { creation: time(1), ..reading }),
        Err(UsageFailure::Unavailable("invalid process creation time".to_string()))
    );
    let other = ObservedProcessIdentity { os_pid: 4, start_time_unix_seconds: Some(43) };
    assert_eq!(windows_usage(other, reading), Err(UsageFailure::IdentityChanged));
    assert_eq!(
        windows_usage(identity, WindowsReading { user: time(u64::MAX), ..reading }),
        Err(UsageFailure::Unavailable("CPU overflow".to_string()))
    );
}

#[test]
fn windows_children_run_only_inside_their_job() {
    let mut steps = vec![SetupStep::Identify];
    while let Some(next) = next_setup(*steps.last().unwrap(), Ok(())).unwrap() {
        steps.push(next);
    }
    assert_eq!(
        steps,
        vec![
            SetupStep::Identify,
            SetupStep::Open,
            SetupStep::ReadTimes,
            SetupStep::EnsureJob,
            SetupStep::Assign,
            SetupStep::Resume,
            SetupStep::Register
        ]
    );
    assert_eq!(
        next_setup(SetupStep::Assign, Err("denied".to_string())),
        Err(SpawnError::Os("denied".to_string()))
    );
}

#[test]
fn windows_exits_count_as_killed_only_with_the_kill_code() {
    let code = KILLED as i32;
    assert_eq!(job_exit(Some(code), true).signal, Some(Signal::Kill));
    assert_eq!(job_exit(Some(code), false).signal, None);
    assert_eq!(job_exit(Some(1), true).signal, None);
    assert_eq!(job_exit(None, true).signal, None);
    assert_eq!(job_exit(Some(3), false).code, Some(3));
}

#[test]
fn native_wait_error_retains_child_for_fresh_reap() {
    let mut backend = WindowsJobBackend::new();
    let root = child(100, 5);
    backend.register(scope(1), root.os);
    let failed: Result<RawExit, String> = Err("injected native wait error".to_string());
    assert!(!waiter_done(&failed, true), "a failed wait keeps its child for a retry");
    assert!(waiter_done(&failed, false));
    assert!(waiter_done(&exited(0), true));
    assert!(backend.finish_wait(&root, failed).is_err());
    assert!(backend.wait_target(&root).is_ok());
    assert_eq!(
        wait_plan(WaitSeen::Failed, RetrySent::Queued, WaitSeen::Failed),
        Ok(WaitPlan::AwaitRetry)
    );
    assert_eq!(
        wait_plan(WaitSeen::Failed, RetrySent::Closed, WaitSeen::Exited),
        Ok(WaitPlan::Collect)
    );
    assert_eq!(
        wait_plan(WaitSeen::Failed, RetrySent::Closed, WaitSeen::Failed),
        Err(WaitError::Backend("waiter closed".to_string()))
    );
    assert_eq!(
        wait_plan(WaitSeen::Pending, RetrySent::Closed, WaitSeen::Pending),
        Ok(WaitPlan::Collect)
    );
    assert!(backend.finish_wait(&root, exited(0)).is_ok());
    assert_eq!(
        backend.wait_target(&root),
        Err(WaitError::Backend("unknown process handle".to_string()))
    );
}

#[test]
fn hard_kill_wakes_failed_waiter_with_backend_retained() {
    let mut backend = WindowsJobBackend::new();
    assert!(backend.needs_job(scope(1)));
    backend.job_created(scope(1));
    assert!(!backend.needs_job(scope(1)));
    let (a, b) = (child(100, 5), child(200, 6));
    backend.register(scope(1), a.os);
    backend.register(scope(2), b.os);
    let asked = backend.signal_scope(scope(1), Signal::Kill).unwrap();
    assert!(asked.terminate);
    assert_eq!(asked.wake, vec![child_key(&a.os)]);
    assert!(backend.is_killed(&a));
    assert!(!backend.is_killed(&b));
    let (jobs, wake) = backend.hard_kill_all();
    assert_eq!(jobs, vec![1]);
    assert_eq!(wake.len(), 2);
    assert!(backend.is_killed(&b));
    assert_eq!(
        backend.signal_scope(scope(1), Signal::Term).unwrap_err(),
        TerminateError::Signal("Job Objects support force termination only".to_string())
    );
}

#[test]
fn windows_signals_and_jobs() {
    let mut backend = WindowsJobBackend::new();
    let root = child(100, 5);
    assert_eq!(backend.signal_plan(&root, Signal::Kill), Ok(false));
    assert_eq!(
        backend.signal_plan(&root, Signal::Term),
        Err(TerminateError::Signal(
            "Windows has no general graceful process signal".to_string()
        ))
    );
    backend.register(scope(1), root.os);
    assert_eq!(backend.signal_plan(&root, Signal::Kill), Ok(true));
    assert!(!backend.kill_running(&root, false));
    assert!(!backend.is_killed(&root));
    assert!(backend.kill_running(&root, true));
    assert!(backend.is_killed(&root));
    assert_eq!(backend.job_state(scope(1), 0), ContainerState::Gone);
    backend.job_created(scope(1));
    assert_eq!(backend.job_state(scope(1), 2), ContainerState::Busy);
    assert_eq!(backend.job_state(scope(1), 0), ContainerState::Empty);
    backend.job_removed(scope(1));
    assert!(backend.needs_job(scope(1)));
    assert_eq!(backend.capabilities().descendant_containment, Containment::JobObject);
    let sample = |ticks: u64, nanos: u128| JobSample {
        ticks,
        taken_at: Instant { nanos },
        working_set: 1,
        peak_working_set: 2,
        read: 3,
        written: 4,
    };
    assert_eq!(backend.begin_sample(&root), Ok(()));
    assert!(backend.begin_sample(&root).is_err());
    backend.end_sample(&root);
    assert_eq!(backend.sample_sync(&root, sample(10, 0)).unwrap().cpu_usage, None);
    let second = backend.sample_sync(&root, sample(30, 100)).unwrap();
    assert_eq!(
        second.cpu_usage,
        Some(CpuUsage {
            work: 20,
            units_per_second: 10_000_000,
            elapsed: Duration::from_nanos(100)
        })
    );
    assert_eq!(second.peak_rss_bytes, Some(2));
    assert_eq!(
        backend.sample_sync(&child(1, 1), sample(1, 1)),
        Err(StatsError::Backend("process reaped during sample".to_string()))
    );
}

#[test]
fn null_processes_follow_their_program_name() {
    let mut backend = NullBackend::new();
    assert!(backend.has_pids());
    let quick = backend.spawn(scope(1), &spec("exit-immediately")).unwrap();
    let polite = backend.spawn(scope(1), &spec("anything")).unwrap();
    let stubborn = backend.spawn(scope(2), &spec("ignore-graceful")).unwrap();
    assert_eq!(quick.os, OsIdentity::new(1, ReuseToken::StartTime(1)));
    assert_eq!(backend.wait(&quick).unwrap().unwrap().code, Some(0));
    assert_eq!(backend.wait(&polite).unwrap(), None);
    backend.signal(&polite, Signal::Custom(9)).unwrap();
    assert_eq!(backend.wait(&polite).unwrap(), None);
    backend.signal(&polite, Signal::Term).unwrap();
    backend.signal(&polite, Signal::Kill).unwrap();
    let exit = backend.wait(&polite).unwrap().unwrap();
    assert_eq!((exit.code, exit.signal), (Some(0), None), "the first exit stands");
    backend.signal_scope(scope(1), Signal::Kill).unwrap();
    backend.signal(&stubborn, Signal::Interrupt).unwrap();
    assert_eq!(backend.wait(&stubborn).unwrap(), None);
    backend.hard_kill_all();
    assert_eq!(backend.wait(&stubborn).unwrap().unwrap().signal, Some(Signal::Kill));
    assert_eq!(
        backend.wait(&child(9, 9)),
        Err(WaitError::UnknownProcess(ProcessId::new(0)))
    );
    assert_eq!(
        backend.sample(&child(9, 9)),
        Err(StatsError::UnknownProcess(ProcessId::new(0)))
    );
    let sample = backend.sample(&quick).unwrap();
    assert_eq!(sample.memory_rss_bytes, 1_048_576);
    assert_eq!(sample.virtual_memory_bytes, Some(4_194_304));
    assert_eq!(sample.descendant_count, Some(0));
    assert_eq!(backend.capabilities().descendant_containment, Containment::Uncontained);
}
