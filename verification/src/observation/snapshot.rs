//! Read-only process observations, independent of supervised ownership.
use vstd::prelude::*;

verus! {

/// An observed PID and its reported start time. Never a signaling/reaping authority.
/// Start times have second resolution; this is not a collision-free native identity.
#[derive(Debug, Clone, Copy, PartialEq, Eq, Hash, Structural)]
pub struct ObservedProcessIdentity {
    /// OS process ID, distinct from a supervised process identifier.
    pub os_pid: u32,
    /// Seconds since Unix epoch; None when the OS does not report a start time.
    pub start_time_unix_seconds: Option<u64>,
}

/// One visible process in a best-effort snapshot.
#[derive(Debug, PartialEq, Eq)]
pub struct ObservedProcess {
    /// Observed identity; may change between snapshots when a PID is reused.
    pub identity: ObservedProcessIdentity,
    /// Reported OS parent PID. The parent need not be visible in this snapshot.
    pub parent_os_pid: Option<u32>,
    /// Display name (lossy Unicode), possibly empty when unavailable.
    /// Not an executable path or command line.
    pub name: String,
}

impl Clone for ObservedProcess {
    fn clone(&self) -> (copy: Self)
        ensures
            copy == *self,
    {
        ObservedProcess {
            identity: self.identity,
            parent_os_pid: self.parent_os_pid,
            name: self.name.clone(),
        }
    }
}

/// Visible processes sampled over an interval, not an atomic or exhaustive OS census.
/// Permissions, process churn and OS visibility can omit processes without diagnostics.
#[derive(Debug, Clone, PartialEq, Eq)]
pub struct ProcessSnapshot {
    /// Processes sorted by OS PID. No ownership is acquired by observing them.
    pub processes: Vec<ObservedProcess>,
}

/// A root and its currently observed descendants, in parent-before-child order.
/// Reparented/detached descendants and processes that exit between samples may be absent.
#[derive(Debug, Clone, PartialEq, Eq)]
pub struct ProcessTree {
    /// Identity of the selected root in this snapshot.
    pub root: ObservedProcessIdentity,
    /// Root followed by descendants. Use parent_os_pid to render the hierarchy.
    pub processes: Vec<ObservedProcess>,
}

/// One entry of a native process table.
#[derive(Debug, PartialEq, Eq)]
pub struct RawObservation {
    /// OS process ID.
    pub os_pid: u32,
    /// Reported start time in seconds since the Unix epoch; zero when not reported.
    pub start_time: u64,
    /// Reported OS parent PID.
    pub parent_os_pid: Option<u32>,
    /// Display name.
    pub name: String,
    /// The entry is a thread of a process, not a process.
    pub userland_thread: bool,
}

/// The visible process that a native entry stands for.
pub open spec fn visible(raw: RawObservation) -> ObservedProcess {
    ObservedProcess {
        identity: ObservedProcessIdentity {
            os_pid: raw.os_pid,
            start_time_unix_seconds: if raw.start_time == 0 {
                None
            } else {
                Some(raw.start_time)
            },
        },
        parent_os_pid: raw.parent_os_pid,
        name: raw.name,
    }
}

/// The visible processes of a native table, in table order: threads are left out.
pub open spec fn visible_processes(table: Seq<RawObservation>) -> Seq<ObservedProcess>
    decreases table.len(),
{
    if table.len() == 0 {
        Seq::empty()
    } else if table.last().userland_thread {
        visible_processes(table.drop_last())
    } else {
        visible_processes(table.drop_last()).push(visible(table.last()))
    }
}

/// The processes are in ascending PID order.
pub open spec fn by_pid(processes: Seq<ObservedProcess>) -> bool {
    forall|i: int, j: int|
        0 <= i <= j < processes.len() ==> (#[trigger] processes[i]).identity.os_pid <= (
        #[trigger] processes[j]).identity.os_pid
}

/// The processes under `pid`, in the order in which they stand.
pub open spec fn under_pid(processes: Seq<ObservedProcess>, pid: u32) -> Seq<ObservedProcess> {
    processes.filter(|process: ObservedProcess| process.identity.os_pid == pid)
}

/// Nothing is left of processes that all have another PID.
proof fn lemma_none_under_pid(processes: Seq<ObservedProcess>, pid: u32)
    requires
        forall|i: int|
            0 <= i < processes.len() ==> (#[trigger] processes[i]).identity.os_pid != pid,
    ensures
        under_pid(processes, pid) == Seq::<ObservedProcess>::empty(),
    decreases processes.len(),
{
    reveal(Seq::filter);
    if processes.len() > 0 {
        let rest = processes.drop_last();
        assert forall|i: int| 0 <= i < rest.len() implies (#[trigger] rest[i]).identity.os_pid
            != pid by {
            assert(rest[i] == processes[i]);
        }
        lemma_none_under_pid(rest, pid);
        assert(processes.last() == processes[processes.len() - 1]);
    }
}

/// What a push adds under a PID.
proof fn lemma_pushed_under_pid(
    processes: Seq<ObservedProcess>,
    process: ObservedProcess,
    pid: u32,
)
    ensures
        under_pid(processes.push(process), pid) == (if process.identity.os_pid == pid {
            under_pid(processes, pid).push(process)
        } else {
            under_pid(processes, pid)
        }),
{
    reveal(Seq::filter);
    assert(processes.push(process).drop_last() =~= processes);
}

/// A process behind all others of its PID comes last among them, wherever it is inserted.
proof fn lemma_inserted_under_pid(
    processes: Seq<ObservedProcess>,
    at: int,
    process: ObservedProcess,
    pid: u32,
)
    requires
        0 <= at <= processes.len(),
        forall|j: int|
            at <= j < processes.len() ==> (#[trigger] processes[j]).identity.os_pid
                > process.identity.os_pid,
    ensures
        under_pid(processes.insert(at, process), pid) == under_pid(processes.push(process), pid),
{
    let same = |other: ObservedProcess| other.identity.os_pid == pid;
    let front = processes.take(at);
    let back = processes.skip(at);
    let one = seq![process];
    assert(processes =~= front + back);
    assert(processes.insert(at, process) =~= front + (one + back));
    assert(processes.push(process) =~= front + (back + one));
    Seq::filter_distributes_over_add(front, one + back, same);
    Seq::filter_distributes_over_add(front, back + one, same);
    Seq::filter_distributes_over_add(one, back, same);
    Seq::filter_distributes_over_add(back, one, same);
    assert forall|j: int| 0 <= j < back.len() implies (#[trigger] back[j]).identity.os_pid
        > process.identity.os_pid by {
        assert(back[j] == processes[at + j]);
    }
    if pid == process.identity.os_pid {
        lemma_none_under_pid(back, pid);
    } else {
        lemma_none_under_pid(one, pid);
    }
}

/// Inserts `process` behind every process with the same or a smaller PID.
fn insert_by_pid(processes: &mut Vec<ObservedProcess>, process: ObservedProcess)
    requires
        by_pid(old(processes)@),
    ensures
        by_pid(final(processes)@),
        final(processes)@.to_multiset() == old(processes)@.to_multiset().insert(process),
        forall|pid: u32| #[trigger]
            under_pid(final(processes)@, pid) == under_pid(old(processes)@.push(process), pid),
{
    let mut at: usize = processes.len();
    while at > 0 && processes[at - 1].identity.os_pid > process.identity.os_pid
        invariant
            at <= processes@.len(),
            processes@ == old(processes)@,
            forall|j: int|
                at <= j < processes@.len() ==> (#[trigger] processes@[j]).identity.os_pid
                    > process.identity.os_pid,
        decreases at,
    {
        at = at - 1;
    }
    let ghost before = processes@;
    processes.insert(at, process);
    proof {
        broadcast use vstd::seq_lib::group_to_multiset_ensures;

        assert(processes@ =~= before.insert(at as int, process));
        assert forall|pid: u32| #[trigger]
            under_pid(processes@, pid) == under_pid(before.push(process), pid) by {
            lemma_inserted_under_pid(before, at as int, process, pid);
        }
    }
}

impl ProcessSnapshot {
    /// The snapshot of a native process table: processes only, in ascending PID order, with an
    /// unreported start time left open. Entries that share a PID keep the order of the table.
    #[must_use]
    pub fn from_table(table: Vec<RawObservation>) -> (snapshot: Self)
        ensures
            by_pid(snapshot.processes@),
            snapshot.processes@.to_multiset() == visible_processes(table@).to_multiset(),
            forall|pid: u32| #[trigger]
                under_pid(snapshot.processes@, pid) == under_pid(visible_processes(table@), pid),
    {
        broadcast use vstd::seq_lib::group_to_multiset_ensures;

        let mut processes: Vec<ObservedProcess> = Vec::new();
        let mut i: usize = 0;
        assert(table@.take(0) =~= Seq::empty());
        while i < table.len()
            invariant
                i <= table@.len(),
                by_pid(processes@),
                processes@.to_multiset() == visible_processes(table@.take(i as int)).to_multiset(),
                forall|pid: u32| #[trigger]
                    under_pid(processes@, pid) == under_pid(
                        visible_processes(table@.take(i as int)),
                        pid,
                    ),
            decreases table@.len() - i,
        {
            let raw = &table[i];
            proof {
                assert(table@.take(i + 1).drop_last() =~= table@.take(i as int));
                assert(table@.take(i + 1).last() == table@[i as int]);
            }
            if !raw.userland_thread {
                let process = ObservedProcess {
                    identity: ObservedProcessIdentity {
                        os_pid: raw.os_pid,
                        start_time_unix_seconds: if raw.start_time == 0 {
                            None
                        } else {
                            Some(raw.start_time)
                        },
                    },
                    parent_os_pid: raw.parent_os_pid,
                    name: raw.name.clone(),
                };
                proof {
                    broadcast use vstd::seq_lib::group_to_multiset_ensures;

                    assert(process == visible(*raw));
                    assert(visible_processes(table@.take(i + 1)) == visible_processes(
                        table@.take(i as int),
                    ).push(process));
                    visible_processes(table@.take(i as int)).to_multiset_ensures();
                }
                let ghost sorted = processes@;
                insert_by_pid(&mut processes, process);
                proof {
                    let listed = visible_processes(table@.take(i as int));
                    assert forall|pid: u32| #[trigger]
                        under_pid(processes@, pid) == under_pid(listed.push(process), pid) by {
                        lemma_pushed_under_pid(sorted, process, pid);
                        lemma_pushed_under_pid(listed, process, pid);
                    }
                }
            }
            i = i + 1;
        }
        assert(table@.take(i as int) =~= table@);
        ProcessSnapshot { processes }
    }
}

} // verus!
