//! Process trees and resource usage.
use shepherd::domain::time::{Duration, Instant};
use shepherd::observation::snapshot::RawObservation;
use shepherd::observation::tree::{select_tree, tree_depths};
use shepherd::observation::usage::{collect, CpuInterval};
use shepherd::{
    ObservationError, ObservedProcess, ObservedProcessIdentity, ProcessSnapshot, ProcessUsage,
    UsageEntry, UsageFailure, UsageSelection, UsageSnapshot, UsageTotal,
};

fn p(pid: u32, parent: Option<u32>, start: u64) -> ObservedProcess {
    ObservedProcess {
        identity: ObservedProcessIdentity { os_pid: pid, start_time_unix_seconds: Some(start) },
        parent_os_pid: parent,
        name: format!("p{pid}"),
    }
}

fn pids(processes: &[ObservedProcess]) -> Vec<u32> {
    processes.iter().map(|p| p.identity.os_pid).collect()
}

fn cores(intervals: &[CpuInterval]) -> f64 {
    intervals.iter().map(|i| i.work.nanos as f64 / i.elapsed.nanos as f64).sum()
}

#[test]
fn tree_orders_children_excludes_siblings_and_handles_cycles() {
    let s = ProcessSnapshot {
        processes: vec![p(4, Some(2), 1), p(3, Some(1), 1), p(2, Some(4), 1), p(1, None, 1)],
    };
    let t = select_tree(s, 2, None).unwrap();
    assert_eq!(pids(&t.processes), vec![2, 4]);
}

#[test]
fn rejects_missing_reused_root_and_stale_parent_link() {
    let s = ProcessSnapshot {
        processes: vec![p(1, None, 5), p(2, Some(1), 4), p(3, Some(1), 6)],
    };
    assert!(matches!(
        select_tree(s.clone(), 9, None),
        Err(ObservationError::NotVisible(9))
    ));
    assert!(matches!(
        select_tree(s.clone(), 1, Some(p(1, None, 4).identity)),
        Err(ObservationError::IdentityChanged(1))
    ));
    assert_eq!(select_tree(s, 1, None).unwrap().processes.len(), 2);
}

#[test]
fn tree_lists_generations_in_order_and_tells_their_depth() {
    let s = ProcessSnapshot {
        processes: vec![
            p(9, Some(3), 4),
            p(5, Some(1), 2),
            p(3, Some(1), 2),
            p(7, Some(5), 3),
            p(1, Some(0), 1),
        ],
    };
    let t = select_tree(s, 1, None).unwrap();
    assert_eq!(pids(&t.processes), vec![1, 3, 5, 9, 7]);
    assert_eq!(tree_depths(&t), vec![0, 1, 1, 2, 2]);
    assert_eq!(t.root, p(1, None, 1).identity);
}

#[test]
fn depth_of_an_unlisted_parent_is_just_below_the_root() {
    let tree = shepherd::ProcessTree {
        root: p(1, None, 1).identity,
        processes: vec![p(1, None, 1), p(2, Some(99), 1), p(3, None, 1), p(4, Some(2), 1)],
    };
    assert_eq!(tree_depths(&tree), vec![0, 1, 1, 2]);
}

#[test]
fn unreported_start_times_leave_links_standing() {
    let mut child = p(2, Some(1), 1);
    child.identity.start_time_unix_seconds = None;
    let s = ProcessSnapshot { processes: vec![p(1, None, 5), child] };
    assert_eq!(select_tree(s, 1, None).unwrap().processes.len(), 2);
}

#[test]
fn snapshots_are_sorted_and_leave_threads_out() {
    let snapshot = ProcessSnapshot::from_table(vec![
        RawObservation {
            os_pid: 9,
            start_time: 3,
            parent_os_pid: Some(1),
            name: "nine".to_string(),
            userland_thread: false,
        },
        RawObservation {
            os_pid: 8,
            start_time: 3,
            parent_os_pid: Some(1),
            name: "thread".to_string(),
            userland_thread: true,
        },
        RawObservation {
            os_pid: 2,
            start_time: 0,
            parent_os_pid: None,
            name: "two".to_string(),
            userland_thread: false,
        },
    ]);
    assert_eq!(pids(&snapshot.processes), vec![2, 9]);
    assert_eq!(snapshot.processes[0].identity.start_time_unix_seconds, None);
    assert_eq!(snapshot.processes[1].identity.start_time_unix_seconds, Some(3));
    assert_eq!(snapshot.processes[1].name, "nine");
}

#[test]
fn observation_errors_have_messages() {
    assert_eq!(
        ObservationError::Unsupported.message(),
        "process observation is unsupported on this platform"
    );
    assert_eq!(
        ObservationError::NotVisible(12).message(),
        "process 12 is not visible in the snapshot"
    );
    assert_eq!(
        ObservationError::IdentityChanged(3).message(),
        "process 3 has a different observed identity"
    );
    assert_eq!(
        ObservationError::Backend("gone".to_string()).message(),
        "process observation failed: gone"
    );
}

fn snapshot() -> UsageSnapshot {
    let at = Instant { nanos: 50_000_000_000 };
    let identity = ObservedProcessIdentity { os_pid: 1, start_time_unix_seconds: Some(1) };
    UsageSnapshot {
        selection: UsageSelection::Tree,
        started_at: at,
        finished_at: at,
        entries: vec![UsageEntry {
            identity,
            measurement: Ok(ProcessUsage {
                identity,
                native_start: 7,
                sampled_at: at,
                cpu_time: Duration::from_secs(2),
                resident_bytes: 10,
                physical_footprint_bytes: Some(15),
                peak_physical_footprint_bytes: Some(30),
                disk_read_bytes: None,
                disk_write_bytes: None,
            }),
        }],
    }
}

#[test]
fn totals_use_matching_intervals_deduplicate_and_keep_missing_distinct_from_zero() {
    let old = snapshot();
    let mut next = old.clone();
    let now = next.entries[0].measurement.as_mut().unwrap();
    now.sampled_at.nanos += 2_000_000_000;
    now.cpu_time.nanos += 3_000_000_000;
    next.entries.push(next.entries[0].clone());
    next.entries.push(UsageEntry {
        identity: ObservedProcessIdentity { os_pid: 2, start_time_unix_seconds: None },
        measurement: Err(UsageFailure::Unsupported),
    });
    let totals = next.totals(Some(&old));
    assert_eq!(totals.cpu_cores.contributors, 1);
    assert_eq!(cores(&totals.cpu_cores.value.unwrap()), 1.5);
    assert_eq!(totals.resident_bytes, UsageTotal { value: Some(10), contributors: 1 });
    assert_eq!(totals.physical_footprint_bytes.value, Some(15));
    assert_eq!(next.totals(None).cpu_cores.value, None);
    next.entries.clear();
    assert_eq!(next.totals(None).resident_bytes.value, None);
}

#[test]
fn reuse_counter_reset_and_nonincreasing_time_never_produce_a_cpu_rate() {
    let old = snapshot();
    for case in 0..4 {
        let mut next = old.clone();
        let n = next.entries[0].measurement.as_mut().unwrap();
        match case {
            0 => n.native_start += 1,
            1 => n.cpu_time = Duration::from_secs(0),
            2 => n.sampled_at.nanos -= 1_000_000_000,
            _ => {}
        }
        assert_eq!(next.totals(Some(&old)).cpu_cores.value, None);
    }
    let mut next = old.clone();
    next.entries[0].measurement.as_mut().unwrap().sampled_at.nanos += 1_000_000_000;
    let rate = next.totals(Some(&old)).cpu_cores.value.unwrap();
    assert_eq!(cores(&rate), 0.0);
}

#[test]
fn totals_of_another_selection_have_no_baseline() {
    let old = snapshot();
    let mut next = old.clone();
    next.selection = UsageSelection::ProcessGroup;
    next.entries[0].measurement.as_mut().unwrap().sampled_at.nanos += 1_000_000_000;
    assert_eq!(next.totals(Some(&old)).cpu_cores.value, None);
}

#[test]
fn overflowed_totals_have_no_value() {
    let mut both = snapshot();
    let mut other = both.entries[0].clone();
    other.identity.os_pid = 2;
    both.entries.push(other);
    for entry in &mut both.entries {
        entry.measurement.as_mut().unwrap().resident_bytes = u64::MAX;
    }
    let totals = both.totals(None);
    assert_eq!(totals.resident_bytes, UsageTotal { value: None, contributors: 2 });
    assert_eq!(totals.physical_footprint_bytes, UsageTotal { value: Some(30), contributors: 2 });
}

#[test]
fn failed_members_are_preserved_and_duplicates_do_not_inflate_totals() {
    let missing =
        ObservedProcessIdentity { os_pid: u32::MAX, start_time_unix_seconds: Some(1) };
    let selected = collect(vec![missing, missing]);
    let snapshot = UsageSnapshot {
        selection: UsageSelection::Tree,
        started_at: Instant { nanos: 0 },
        finished_at: Instant { nanos: 0 },
        entries: selected
            .into_iter()
            .map(|identity| UsageEntry {
                identity,
                measurement: Err(UsageFailure::Unavailable("no such process".to_string())),
            })
            .collect(),
    };
    assert_eq!(snapshot.entries.len(), 1);
    assert!(snapshot.entries[0].measurement.is_err());
    assert_eq!(snapshot.totals(None).resident_bytes.value, None);
}

#[test]
fn entries_that_share_a_pid_keep_the_order_of_the_table() {
    let entry = |os_pid: u32, name: &str| RawObservation {
        os_pid,
        start_time: 1,
        parent_os_pid: None,
        name: name.to_string(),
        userland_thread: false,
    };
    let snapshot = ProcessSnapshot::from_table(vec![
        entry(5, "first"),
        entry(3, "other"),
        entry(5, "second"),
        entry(5, "third"),
    ]);
    let names: Vec<&str> = snapshot.processes.iter().map(|p| p.name.as_str()).collect();
    assert_eq!(names, vec!["other", "first", "second", "third"]);
}

#[test]
fn processes_that_share_a_pid_over_time_are_summed_separately() {
    let mut both = snapshot();
    let mut later = both.entries[0].clone();
    later.identity.start_time_unix_seconds = Some(2);
    let measured = later.measurement.as_mut().unwrap();
    measured.identity = later.identity;
    measured.native_start = 2;
    measured.resident_bytes = 20;
    both.entries.push(later);
    assert_eq!(both.totals(None).resident_bytes, UsageTotal { value: Some(30), contributors: 2 });
    // A repetition of either changes nothing, measured or not.
    both.entries.push(UsageEntry {
        identity: both.entries[1].identity,
        measurement: Err(UsageFailure::IdentityChanged),
    });
    both.entries.push(both.entries[0].clone());
    assert_eq!(both.totals(None).resident_bytes, UsageTotal { value: Some(30), contributors: 2 });
    // The first entry of an identity counts, even a failed one.
    both.entries.swap(1, 2);
    assert_eq!(both.totals(None).resident_bytes, UsageTotal { value: Some(10), contributors: 1 });
}

#[test]
fn the_order_of_a_snapshot_changes_no_tree() {
    let members = vec![p(1, None, 1), p(2, Some(1), 2), p(3, Some(1), 2), p(4, Some(3), 3)];
    let mut backwards = members.clone();
    backwards.reverse();
    let tree = select_tree(ProcessSnapshot { processes: members }, 1, None).unwrap();
    let same = select_tree(ProcessSnapshot { processes: backwards.clone() }, 1, None).unwrap();
    assert_eq!(tree, same);
    assert_eq!(pids(&same.processes), vec![1, 2, 3, 4]);
    assert_eq!(
        select_tree(ProcessSnapshot { processes: backwards }, 9, None),
        Err(ObservationError::NotVisible(9))
    );
}
