//! What holds of every observation.
use vstd::prelude::*;
use crate::observation::error::ObservationError;
use crate::observation::snapshot::{ObservedProcess, ObservedProcessIdentity, ProcessTree};
use crate::observation::usage::{ProcessUsage, UsageEntry};

verus! {

/// `path` leads from a process down to one that descends from it.
pub open spec fn lineage(table: Map<u64, ObservedProcess>, path: Seq<u64>) -> bool {
    &&& path.len() > 0
    &&& forall|i: int|
        0 <= i < path.len() - 1 ==> crate::observation::tree::linked(
            table,
            path[i],
            #[trigger] path[i + 1],
        )
}

/// Everything that descends from the root is in its tree.
pub proof fn tree_holds_every_descendant(
    table: Map<u64, ObservedProcess>,
    root: u64,
    order: Seq<u64>,
    path: Seq<u64>,
)
    requires
        crate::observation::tree::descent(table, root, order),
        lineage(table, path),
        path[0] == root,
    ensures
        order.contains(path.last()),
    decreases path.len(),
{
    if path.len() == 1 {
        assert(order[0] == path.last());
    } else {
        let above = path.drop_last();
        assert forall|i: int| 0 <= i < above.len() - 1 implies crate::observation::tree::linked(
            table,
            above[i],
            #[trigger] above[i + 1],
        ) by {
            assert(path[i + 1] == above[i + 1]);
        }
        tree_holds_every_descendant(table, root, order, above);
        let at = order.index_of(above.last());
        let i = path.len() - 2;
        assert(crate::observation::tree::linked(table, path[i], path[i + 1]));
        assert(crate::observation::tree::linked(table, order[at], path.last()));
    }
}

/// Everything in a tree descends from its root: siblings of the root and what belongs to them
/// stay out.
pub proof fn tree_holds_only_descendants(
    table: Map<u64, ObservedProcess>,
    root: u64,
    order: Seq<u64>,
    k: int,
) -> (path: Seq<u64>)
    requires
        crate::observation::tree::descent(table, root, order),
        0 <= k < order.len(),
    ensures
        lineage(table, path),
        path[0] == root,
        path.last() == order[k],
    decreases k,
{
    if k == 0 {
        seq![root]
    } else {
        assert(crate::observation::tree::parented(table, order, k, k));
        let i = choose|i: int|
            0 <= i < k && i < k && #[trigger] crate::observation::tree::linked(
                table,
                order[i],
                order[k],
            );
        let above = tree_holds_only_descendants(table, root, order, i);
        let path = above.push(order[k]);
        assert forall|j: int| 0 <= j < path.len() - 1 implies crate::observation::tree::linked(
            table,
            path[j],
            #[trigger] path[j + 1],
        ) by {
            if j + 1 < above.len() {
                assert(path[j + 1] == above[j + 1]);
            } else {
                assert(path[j] == above.last());
            }
        }
        path
    }
}

/// A tree names no process twice, even where links run in a circle.
pub proof fn tree_names_each_process_once(
    table: Map<u64, ObservedProcess>,
    root: u64,
    order: Seq<u64>,
    i: int,
    j: int,
)
    requires
        crate::observation::tree::descent(table, root, order),
        0 <= i < j < order.len(),
    ensures
        order[i] != order[j],
{
}

/// A parent stands before its children in a tree.
pub proof fn parents_stand_before_their_children(
    table: Map<u64, ObservedProcess>,
    root: u64,
    order: Seq<u64>,
    k: int,
)
    requires
        crate::observation::tree::descent(table, root, order),
        1 <= k < order.len(),
    ensures
        exists|i: int|
            0 <= i < k && #[trigger] crate::observation::tree::linked(table, order[i], order[k]),
{
    assert(crate::observation::tree::parented(table, order, k, k));
}

/// The descent from a root has one order only.
proof fn lemma_descent_is_unique(
    table: Map<u64, ObservedProcess>,
    root: u64,
    first: Seq<u64>,
    second: Seq<u64>,
    n: int,
)
    requires
        crate::observation::tree::descent(table, root, first),
        crate::observation::tree::descent(table, root, second),
        0 <= n <= first.len(),
    ensures
        n <= second.len(),
        first.take(n) == second.take(n),
    decreases n,
{
    if n == 1 {
        assert(first.take(1) =~= second.take(1));
    } else if n > 1 {
        let at = n - 1;
        lemma_descent_is_unique(table, root, first, second, at);
        assert(forall|i: int| 0 <= i < at ==> first.take(at)[i] == second.take(at)[i]);
        assert forall|i: int| 0 <= i < at implies first[i] == second[i] by {
            assert(first.take(at)[i] == second.take(at)[i]);
        }
        assert(crate::observation::tree::parented(table, first, at, at));
        let i = choose|i: int|
            0 <= i < at && i < at && #[trigger] crate::observation::tree::linked(
                table,
                first[i],
                first[at],
            );
        assert(crate::observation::tree::linked(table, second[i], first[at]));
        let there = second.index_of(first[at]);
        assert(second[there] == first[at]);
        assert(there >= at) by {
            if there < at {
                assert(first[there] == first[at]);
            }
        }
        if there > at {
            assert(crate::observation::tree::parented(table, second, at, at));
            let j = choose|j: int|
                0 <= j < at && j < at && #[trigger] crate::observation::tree::linked(
                    table,
                    second[j],
                    second[at],
                );
            assert(crate::observation::tree::linked(table, first[j], second[at]));
            let back = first.index_of(second[at]);
            assert(first[back] == second[at]);
            assert(back > at) by {
                if back < at {
                    assert(second[back] == second[at]);
                } else if back == at {
                    assert(second[there] == second[at]);
                }
            }
            assert(crate::observation::tree::linked(table, first[i], first[at])
                && crate::observation::tree::linked(table, first[j], first[back]));
            assert(crate::observation::tree::linked(table, second[j], second[at])
                && crate::observation::tree::linked(table, second[i], second[there]));
            assert(false);
        }
        assert(first.take(n) =~= second.take(n));
    }
}

/// What a table of distinct PIDs holds.
pub proof fn lemma_table_of_distinct(processes: Seq<ObservedProcess>)
    requires
        distinct_pids(processes),
    ensures
        forall|i: int|
            0 <= i < processes.len() ==> {
                let key = (#[trigger] processes[i]).identity.os_pid as u64;
                &&& crate::observation::tree::table_of(processes).contains_key(key)
                &&& crate::observation::tree::table_of(processes)[key] == processes[i]
            },
        forall|key: u64| #[trigger]
            crate::observation::tree::table_of(processes).contains_key(key)
                ==> processes.contains(crate::observation::tree::table_of(processes)[key])
                && crate::observation::tree::table_of(processes)[key].identity.os_pid as u64 == key,
    decreases processes.len(),
{
    if processes.len() > 0 {
        let rest = processes.drop_last();
        let last = processes.last();
        assert forall|i: int, j: int| 0 <= i < j < rest.len() implies (
        #[trigger] rest[i]).identity.os_pid != (#[trigger] rest[j]).identity.os_pid by {
            assert(processes[i].identity.os_pid != processes[j].identity.os_pid);
        }
        lemma_table_of_distinct(rest);
        assert forall|i: int| 0 <= i < processes.len() implies {
            let key = (#[trigger] processes[i]).identity.os_pid as u64;
            &&& crate::observation::tree::table_of(processes).contains_key(key)
            &&& crate::observation::tree::table_of(processes)[key] == processes[i]
        } by {
            if i < rest.len() {
                assert(rest[i] == processes[i]);
                assert(processes[i].identity.os_pid != processes[processes.len() - 1].identity.os_pid);
            }
        }
        assert forall|key: u64| #[trigger]
            crate::observation::tree::table_of(processes).contains_key(key) implies processes.contains(
            crate::observation::tree::table_of(processes)[key],
        ) && crate::observation::tree::table_of(processes)[key].identity.os_pid as u64 == key by {
            if key == last.identity.os_pid as u64 {
                assert(processes[processes.len() - 1] == last);
            } else {
                let found = crate::observation::tree::table_of(rest)[key];
                assert(rest.contains(found));
                assert(processes[rest.index_of(found)] == found);
            }
        }
    }
}

/// No two processes have the same PID.
pub open spec fn distinct_pids(processes: Seq<ObservedProcess>) -> bool {
    forall|i: int, j: int|
        0 <= i < j < processes.len() ==> (#[trigger] processes[i]).identity.os_pid != (
        #[trigger] processes[j]).identity.os_pid
}

/// The order in which a snapshot lists processes changes nothing: a snapshot with the same
/// processes in another order gives the same tree, or the same error.
pub proof fn tree_does_not_depend_on_the_order_of_the_snapshot(
    first: Seq<ObservedProcess>,
    second: Seq<ObservedProcess>,
    pid: u32,
    expected: Option<ObservedProcessIdentity>,
    one: Result<ProcessTree, ObservationError>,
    other: Result<ProcessTree, ObservationError>,
)
    requires
        first.to_multiset() == second.to_multiset(),
        distinct_pids(first),
        distinct_pids(second),
        crate::observation::tree::selects(first, pid, expected, one),
        crate::observation::tree::selects(second, pid, expected, other),
    ensures
        match (one, other) {
            (Ok(tree), Ok(same)) => tree.root == same.root && tree.processes@ == same.processes@,
            (Err(error), Err(same)) => error == same,
            _ => false,
        },
{
    broadcast use vstd::seq_lib::group_to_multiset_ensures;

    let table = crate::observation::tree::table_of(first);
    let again = crate::observation::tree::table_of(second);
    lemma_table_of_distinct(first);
    lemma_table_of_distinct(second);
    first.to_multiset_ensures();
    second.to_multiset_ensures();
    assert forall|process: ObservedProcess| first.contains(process) <==> second.contains(
        process,
    ) by {
        assert(first.to_multiset().count(process) > 0 <==> first.contains(process));
        assert(second.to_multiset().count(process) > 0 <==> second.contains(process));
    }
    assert forall|key: u64| table.contains_key(key) implies again.contains_key(key) && again[key]
        == table[key] by {
        let at = second.index_of(table[key]);
        assert(second[at] == table[key]);
    }
    assert forall|key: u64| again.contains_key(key) implies table.contains_key(key) by {
        let at = first.index_of(again[key]);
        assert(first[at] == again[key]);
    }
    assert(table =~= again);
    if let (Ok(tree), Ok(same)) = (one, other) {
        let root = pid as u64;
        let order = choose|order: Seq<u64>| #[trigger]
            crate::observation::tree::descent(table, root, order) && tree.processes@ == Seq::new(
                order.len(),
                |i: int| table[order[i]],
            );
        let copy = choose|order: Seq<u64>| #[trigger]
            crate::observation::tree::descent(table, root, order) && same.processes@ == Seq::new(
                order.len(),
                |i: int| table[order[i]],
            );
        lemma_descent_is_unique(table, root, order, copy, order.len() as int);
        lemma_descent_is_unique(table, root, copy, order, copy.len() as int);
        assert(order.take(order.len() as int) =~= order);
        assert(copy.take(copy.len() as int) =~= copy);
        assert(order =~= copy);
    }
}

/// The identities that are counted are identities of the entries.
proof fn lemma_measured_identities(entries: Seq<UsageEntry>, i: int) -> (at: int)
    requires
        0 <= i < crate::observation::usage::measured(entries).len(),
    ensures
        0 <= at < entries.len(),
        entries[at].identity == crate::observation::usage::measured(entries)[i].0,
    decreases entries.len(),
{
    let earlier = crate::observation::usage::measured(entries.drop_last());
    if i < earlier.len() {
        lemma_measured_identities(entries.drop_last(), i)
    } else {
        entries.len() - 1
    }
}

/// An identity counts once in a total, however often it was measured.
pub proof fn totals_count_each_identity_once(entries: Seq<UsageEntry>, i: int, j: int)
    requires
        0 <= i < j < crate::observation::usage::measured(entries).len(),
    ensures
        crate::observation::usage::measured(entries)[i].0
            != crate::observation::usage::measured(entries)[j].0,
    decreases entries.len(),
{
    let earlier = crate::observation::usage::measured(entries.drop_last());
    if j < earlier.len() {
        totals_count_each_identity_once(entries.drop_last(), i, j);
    } else {
        let at = lemma_measured_identities(entries.drop_last(), i);
        assert(entries[at] == entries.drop_last()[at]);
        assert(crate::observation::usage::first_of_identity(entries, entries.len() - 1));
        assert(entries[at].identity != entries.last().identity);
    }
}

/// Measuring a process again changes no total.
pub proof fn repeated_measurement_changes_no_total(
    entries: Seq<UsageEntry>,
    repeated: UsageEntry,
    at: int,
)
    requires
        0 <= at < entries.len(),
        entries[at].identity == repeated.identity,
    ensures
        crate::observation::usage::measured(entries.push(repeated))
            == crate::observation::usage::measured(entries),
{
    let grown = entries.push(repeated);
    assert(grown.drop_last() =~= entries);
    assert(grown[at] == entries[at]);
    assert(!crate::observation::usage::first_of_identity(grown, grown.len() - 1));
}

/// Missing data is no zero: a total of nothing has no value.
pub proof fn missing_data_is_not_zero(values: Seq<u64>)
    ensures
        values.len() == 0 ==> crate::observation::usage::total(values) is None,
        crate::observation::usage::total(values) == Some(0u64) ==> values.len() > 0,
{
}

/// A CPU rate is only told of one native process, over time that passed, with a counter that did
/// not go back.
pub proof fn cpu_rate_needs_one_process(old: ProcessUsage, now: ProcessUsage)
    ensures
        crate::observation::usage::cpu_interval(old, now) is Some <==> {
            &&& old.native_start == now.native_start
            &&& old.sampled_at.nanos < now.sampled_at.nanos
            &&& old.cpu_time.nanos <= now.cpu_time.nanos
        },
        crate::observation::usage::cpu_interval(old, now) matches Some(interval)
            ==> interval.elapsed.nanos > 0,
{
}

/// A collection measures every PID it was asked for, once.
pub proof fn collection_measures_each_pid_once(members: Seq<ObservedProcessIdentity>)
    ensures
        forall|i: int, j: int|
            0 <= i < j < crate::observation::usage::members_once(members).len() ==> (
            #[trigger] crate::observation::usage::members_once(members)[i]).os_pid != (
            #[trigger] crate::observation::usage::members_once(members)[j]).os_pid,
        forall|i: int|
            0 <= i < crate::observation::usage::members_once(members).len() ==> members.contains(
                #[trigger] crate::observation::usage::members_once(members)[i],
            ),
        forall|i: int|
            0 <= i < members.len() ==> exists|k: int|
                0 <= k < crate::observation::usage::members_once(members).len() && (
                #[trigger] crate::observation::usage::members_once(members)[k]).os_pid == (
                #[trigger] members[i]).os_pid,
    decreases members.len(),
{
    let kept = crate::observation::usage::members_once(members);
    if members.len() > 0 {
        let rest = members.drop_last();
        let earlier = crate::observation::usage::members_once(rest);
        collection_measures_each_pid_once(rest);
        assert forall|i: int| 0 <= i < earlier.len() implies members.contains(
            #[trigger] earlier[i],
        ) by {
            assert(rest.contains(earlier[i]));
            let at = rest.index_of(earlier[i]);
            assert(members[at] == earlier[i]);
        }
        let repeated = exists|j: int|
            0 <= j < members.len() - 1 && (#[trigger] members[j]).os_pid == members.last().os_pid;
        if repeated {
            assert(kept == earlier);
            assert forall|i: int| 0 <= i < members.len() implies exists|k: int|
                0 <= k < kept.len() && (#[trigger] kept[k]).os_pid == (
                #[trigger] members[i]).os_pid by {
                let j = choose|j: int|
                    0 <= j < members.len() - 1 && (#[trigger] members[j]).os_pid
                        == members.last().os_pid;
                let known = if i < rest.len() {
                    i
                } else {
                    j
                };
                assert(rest[known].os_pid == members[i].os_pid);
                let k = choose|k: int|
                    0 <= k < earlier.len() && (#[trigger] earlier[k]).os_pid
                        == rest[known].os_pid;
                assert(kept[k].os_pid == members[i].os_pid);
            }
        } else {
            assert(kept == earlier.push(members.last()));
            assert forall|i: int| 0 <= i < earlier.len() implies (
            #[trigger] earlier[i]).os_pid != members.last().os_pid by {
                assert(rest.contains(earlier[i]));
                let at = rest.index_of(earlier[i]);
                assert(members[at].os_pid == earlier[i].os_pid);
            }
            assert forall|i: int| 0 <= i < kept.len() implies members.contains(
                #[trigger] kept[i],
            ) by {
                if i < earlier.len() {
                    assert(kept[i] == earlier[i]);
                } else {
                    assert(members[members.len() - 1] == kept[i]);
                }
            }
            assert forall|i: int| 0 <= i < members.len() implies exists|k: int|
                0 <= k < kept.len() && (#[trigger] kept[k]).os_pid == (
                #[trigger] members[i]).os_pid by {
                if i < rest.len() {
                    assert(rest[i] == members[i]);
                    let k = choose|k: int|
                        0 <= k < earlier.len() && (#[trigger] earlier[k]).os_pid
                            == rest[i].os_pid;
                    assert(kept[k] == earlier[k]);
                } else {
                    assert(kept[earlier.len() as int].os_pid == members[i].os_pid);
                }
            }
        }
    }
}

} // verus!
