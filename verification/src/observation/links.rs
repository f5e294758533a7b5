//! Who is in a tree, told by parents and start times alone.
use vstd::prelude::*;
use crate::observation::error::ObservationError;
use crate::observation::snapshot::{
    ObservedProcess, ObservedProcessIdentity, ProcessTree, RawObservation,
};

verus! {

/// `parent` can be the parent that `child` names: it has that PID, and it did not start after
/// `child`, as far as both start times are reported.
pub open spec fn credible(parent: ObservedProcess, child: ObservedProcess) -> bool {
    &&& child.parent_os_pid == Some(parent.identity.os_pid)
    &&& match parent.identity.start_time_unix_seconds {
        Some(born) => match child.identity.start_time_unix_seconds {
            Some(later) => born <= later,
            None => true,
        },
        None => true,
    }
}

/// The tree is a walk through the snapshot.
proof fn lemma_walk(
    processes: Seq<ObservedProcess>,
    pid: u32,
    expected: Option<ObservedProcessIdentity>,
    tree: ProcessTree,
) -> (order: Seq<u64>)
    requires
        crate::observation::laws::distinct_pids(processes),
        crate::observation::tree::selects(processes, pid, expected, Ok(tree)),
    ensures
        crate::observation::tree::descent(
            crate::observation::tree::table_of(processes),
            pid as u64,
            order,
        ),
        order.len() == tree.processes@.len(),
        forall|k: int|
            0 <= k < order.len() ==> {
                &&& (#[trigger] tree.processes@[k]).identity.os_pid as u64 == order[k]
                &&& processes.contains(tree.processes@[k])
                &&& crate::observation::tree::table_of(processes).contains_key(order[k])
                &&& crate::observation::tree::table_of(processes)[order[k]] == tree.processes@[k]
            },
{
    let table = crate::observation::tree::table_of(processes);
    crate::observation::laws::lemma_table_of_distinct(processes);
    let order = choose|order: Seq<u64>| #[trigger]
        crate::observation::tree::descent(table, pid as u64, order) && tree.processes@ == Seq::new(
            order.len(),
            |i: int| table[order[i]],
        );
    assert forall|k: int| 0 <= k < order.len() implies {
        &&& (#[trigger] tree.processes@[k]).identity.os_pid as u64 == order[k]
        &&& processes.contains(tree.processes@[k])
        &&& table.contains_key(order[k])
        &&& table[order[k]] == tree.processes@[k]
    } by {
        if k > 0 {
            assert(crate::observation::tree::parented(table, order, k, k));
        }
        assert(table.contains_key(order[k]));
    }
    order
}

/// A process joins the tree of the parent it names. The link is rejected only where both start
/// times are reported and the parent's is the later one.
pub proof fn children_join_their_parents(
    processes: Seq<ObservedProcess>,
    pid: u32,
    expected: Option<ObservedProcessIdentity>,
    tree: ProcessTree,
    parent: ObservedProcess,
    child: ObservedProcess,
)
    requires
        crate::observation::laws::distinct_pids(processes),
        crate::observation::tree::selects(processes, pid, expected, Ok(tree)),
        tree.processes@.contains(parent),
        processes.contains(child),
        child.parent_os_pid == Some(parent.identity.os_pid),
        parent.identity.start_time_unix_seconds is None
            || child.identity.start_time_unix_seconds is None
            || parent.identity.start_time_unix_seconds->0
            <= child.identity.start_time_unix_seconds->0,
    ensures
        tree.processes@.contains(child),
{
    let table = crate::observation::tree::table_of(processes);
    let order = lemma_walk(processes, pid, expected, tree);
    crate::observation::laws::lemma_table_of_distinct(processes);
    let at = tree.processes@.index_of(parent);
    assert(tree.processes@[at] == parent);
    let there = processes.index_of(child);
    assert(processes[there] == child);
    let key = child.identity.os_pid as u64;
    assert(crate::observation::tree::linked(table, order[at], key));
    assert(order.contains(key));
    let k = order.index_of(key);
    assert(tree.processes@[k] == child);
}

/// Nothing else joins a tree: the root stands first, and every other process stands behind a
/// parent that it names and that did not start after it.
pub proof fn only_children_join_a_tree(
    processes: Seq<ObservedProcess>,
    pid: u32,
    expected: Option<ObservedProcessIdentity>,
    tree: ProcessTree,
    k: int,
)
    requires
        crate::observation::laws::distinct_pids(processes),
        crate::observation::tree::selects(processes, pid, expected, Ok(tree)),
        0 <= k < tree.processes@.len(),
    ensures
        tree.processes@[0].identity.os_pid == pid,
        tree.root == tree.processes@[0].identity,
        processes.contains(tree.processes@[k]),
        k > 0 ==> exists|i: int|
            0 <= i < k && #[trigger] credible(tree.processes@[i], tree.processes@[k]),
{
    let table = crate::observation::tree::table_of(processes);
    let order = lemma_walk(processes, pid, expected, tree);
    assert(tree.processes@[0].identity.os_pid as u64 == order[0]);
    if k > 0 {
        assert(crate::observation::tree::parented(table, order, k, k));
        let i = choose|i: int|
            0 <= i < k && i < k && #[trigger] crate::observation::tree::linked(
                table,
                order[i],
                order[k],
            );
        assert(tree.processes@[i].identity.os_pid as u64 == order[i]);
        assert(credible(tree.processes@[i], tree.processes@[k]));
    }
}

/// Siblings stand by ascending PID, and the children of an earlier process before those of a later
/// one.
pub proof fn a_tree_goes_level_by_level(
    processes: Seq<ObservedProcess>,
    pid: u32,
    expected: Option<ObservedProcessIdentity>,
    tree: ProcessTree,
    i: int,
    j: int,
    k: int,
    l: int,
)
    requires
        crate::observation::laws::distinct_pids(processes),
        crate::observation::tree::selects(processes, pid, expected, Ok(tree)),
        0 <= i < tree.processes@.len(),
        0 <= j < tree.processes@.len(),
        1 <= k < l < tree.processes@.len(),
        credible(tree.processes@[i], tree.processes@[k]),
        credible(tree.processes@[j], tree.processes@[l]),
    ensures
        i <= j,
        i == j ==> tree.processes@[k].identity.os_pid < tree.processes@[l].identity.os_pid,
        tree.processes@[k].identity.os_pid != tree.processes@[l].identity.os_pid,
{
    let table = crate::observation::tree::table_of(processes);
    let order = lemma_walk(processes, pid, expected, tree);
    assert(tree.processes@[i].identity.os_pid as u64 == order[i]);
    assert(tree.processes@[j].identity.os_pid as u64 == order[j]);
    assert(tree.processes@[k].identity.os_pid as u64 == order[k]);
    assert(tree.processes@[l].identity.os_pid as u64 == order[l]);
    assert(crate::observation::tree::linked(table, order[i], order[k]));
    assert(crate::observation::tree::linked(table, order[j], order[l]));
    assert(order[k] != order[l]);
}

/// A selection fails exactly where no listed process has the PID, or where the one that has it is
/// not the one that was expected; and each failure names the PID.
pub proof fn selection_fails_only_without_the_root(
    processes: Seq<ObservedProcess>,
    pid: u32,
    expected: Option<ObservedProcessIdentity>,
    result: Result<ProcessTree, ObservationError>,
)
    requires
        crate::observation::laws::distinct_pids(processes),
        crate::observation::tree::selects(processes, pid, expected, result),
    ensures
        (forall|i: int|
            0 <= i < processes.len() ==> (#[trigger] processes[i]).identity.os_pid != pid) <==> (
        result == Err::<ProcessTree, _>(ObservationError::NotVisible(pid))),
        forall|i: int|
            0 <= i < processes.len() && (#[trigger] processes[i]).identity.os_pid == pid ==> {
                &&& expected is None || expected == Some(processes[i].identity) ==> result is Ok
                &&& expected is Some && expected != Some(processes[i].identity) ==> result == Err::<
                    ProcessTree,
                    _,
                >(ObservationError::IdentityChanged(pid))
            },
{
    let table = crate::observation::tree::table_of(processes);
    crate::observation::laws::lemma_table_of_distinct(processes);
    if table.contains_key(pid as u64) {
        let at = processes.index_of(table[pid as u64]);
        assert(processes[at].identity.os_pid == pid);
    }
}

/// Of several entries with one PID the last one counts.
pub proof fn the_last_entry_of_a_pid_counts(
    earlier: Seq<ObservedProcess>,
    process: ObservedProcess,
    other: u64,
)
    ensures
        ({
            let before = crate::observation::tree::table_of(earlier);
            let after = crate::observation::tree::table_of(earlier.push(process));
            let key = process.identity.os_pid as u64;
            &&& after.contains_key(key) && after[key] == process
            &&& other != key ==> (after.contains_key(other) <==> before.contains_key(other))
            &&& other != key && before.contains_key(other) ==> after[other] == before[other]
        }),
        !crate::observation::tree::table_of(Seq::empty()).contains_key(other),
{
    assert(earlier.push(process).drop_last() =~= earlier);
}

/// How deep the process at `i` stands.
pub open spec fn depth(tree: ProcessTree, i: int) -> nat {
    crate::observation::tree::depth_below(
        tree.processes@[i],
        tree.root,
        crate::observation::tree::depths_by_pid(tree.processes@, tree.root, i as nat),
    )
}

/// The depths of the processes before `n`, by PID.
proof fn lemma_depths(tree: ProcessTree, n: int, i: int)
    requires
        crate::observation::laws::distinct_pids(tree.processes@),
        0 <= i < n <= tree.processes@.len(),
    ensures
        ({
            let above = crate::observation::tree::depths_by_pid(
                tree.processes@,
                tree.root,
                n as nat,
            );
            let key = tree.processes@[i].identity.os_pid as u64;
            above.contains_key(key) && above[key] == depth(tree, i)
        }),
    decreases n,
{
    if i < n - 1 {
        lemma_depths(tree, n - 1, i);
        assert(tree.processes@[i].identity.os_pid != tree.processes@[n - 1].identity.os_pid);
    }
}

/// Only PIDs of the processes before `n` have a depth.
proof fn lemma_depths_known(tree: ProcessTree, n: int, key: u64) -> (at: int)
    requires
        0 <= n <= tree.processes@.len(),
        crate::observation::tree::depths_by_pid(
            tree.processes@,
            tree.root,
            n as nat,
        ).contains_key(key),
    ensures
        0 <= at < n,
        tree.processes@[at].identity.os_pid as u64 == key,
    decreases n,
{
    if tree.processes@[n - 1].identity.os_pid as u64 == key {
        n - 1
    } else {
        lemma_depths_known(tree, n - 1, key)
    }
}

/// The root stands at the top, a child one level below its parent, and a process whose parent is
/// not listed before it just below the root.
pub proof fn children_stand_one_level_below(tree: ProcessTree, i: int, k: int)
    requires
        crate::observation::laws::distinct_pids(tree.processes@),
        0 <= i < k < tree.processes@.len(),
    ensures
        tree.processes@[k].identity == tree.root ==> depth(tree, k) == 0,
        tree.processes@[k].identity != tree.root && tree.processes@[k].parent_os_pid == Some(
            tree.processes@[i].identity.os_pid,
        ) ==> depth(tree, k) == depth(tree, i) + 1,
        tree.processes@[k].identity != tree.root && (forall|j: int|
            0 <= j < k ==> tree.processes@[k].parent_os_pid != Some(
                (#[trigger] tree.processes@[j]).identity.os_pid,
            )) ==> depth(tree, k) == 1,
        tree.processes@[0].identity == tree.root ==> depth(tree, 0) == 0,
{
    lemma_depths(tree, k, i);
    let above = crate::observation::tree::depths_by_pid(tree.processes@, tree.root, k as nat);
    if tree.processes@[k].parent_os_pid is Some && above.contains_key(
        tree.processes@[k].parent_os_pid->0 as u64,
    ) {
        let at = lemma_depths_known(tree, k, tree.processes@[k].parent_os_pid->0 as u64);
        assert(tree.processes@[k].parent_os_pid == Some(tree.processes@[at].identity.os_pid));
    }
}

/// A native entry is seen under its own PID, parent and name; only a start time of zero counts as
/// not reported.
pub proof fn entries_are_seen_as_reported(raw: RawObservation)
    ensures
        ({
            let seen = crate::observation::snapshot::visible(raw);
            &&& seen.identity.os_pid == raw.os_pid
            &&& seen.parent_os_pid == raw.parent_os_pid
            &&& seen.name == raw.name
            &&& raw.start_time == 0 <==> seen.identity.start_time_unix_seconds is None
            &&& raw.start_time != 0 ==> seen.identity.start_time_unix_seconds == Some(
                raw.start_time,
            )
        }),
{
}

/// Every entry that is not a thread is seen, once and in the order of the table, and no other.
pub proof fn every_process_of_a_table_is_seen(
    first: Seq<RawObservation>,
    second: Seq<RawObservation>,
    raw: RawObservation,
)
    ensures
        crate::observation::snapshot::visible_processes(first + second)
            == crate::observation::snapshot::visible_processes(first)
            + crate::observation::snapshot::visible_processes(second),
        crate::observation::snapshot::visible_processes(seq![raw]) == (if raw.userland_thread {
            Seq::empty()
        } else {
            seq![crate::observation::snapshot::visible(raw)]
        }),
        crate::observation::snapshot::visible_processes(Seq::empty()).len() == 0,
    decreases second.len(),
{
    reveal_with_fuel(crate::observation::snapshot::visible_processes, 2);
    assert(seq![raw].drop_last() =~= Seq::empty());
    assert(crate::observation::snapshot::visible_processes(seq![raw]) =~= (
    if raw.userland_thread {
        Seq::empty()
    } else {
        seq![crate::observation::snapshot::visible(raw)]
    }));
    if second.len() == 0 {
        assert(first + second =~= first);
        assert(crate::observation::snapshot::visible_processes(first)
            + crate::observation::snapshot::visible_processes(second)
            =~= crate::observation::snapshot::visible_processes(first));
    } else {
        every_process_of_a_table_is_seen(first, second.drop_last(), raw);
        assert((first + second).drop_last() =~= first + second.drop_last());
        assert((first + second).last() == second.last());
        assert(crate::observation::snapshot::visible_processes(first + second)
            =~= crate::observation::snapshot::visible_processes(first)
            + crate::observation::snapshot::visible_processes(second));
    }
}

} // verus!
