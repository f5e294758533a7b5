//! Selection of a process and its descendants.
use vstd::prelude::*;
use crate::domain::table::Table;
use crate::observation::error::ObservationError;
use crate::observation::snapshot::{
    ObservedProcess, ObservedProcessIdentity, ProcessSnapshot, ProcessTree,
};

verus! {

/// The visible processes by PID; of several entries with one PID the last one counts.
pub open spec fn table_of(processes: Seq<ObservedProcess>) -> Map<u64, ObservedProcess>
    decreases processes.len(),
{
    if processes.len() == 0 {
        Map::empty()
    } else {
        table_of(processes.drop_last()).insert(
            processes.last().identity.os_pid as u64,
            processes.last(),
        )
    }
}

/// A newer process cannot be the parent of an older one: such a link names a reused PID.
/// Unreported start times leave the link standing.
pub open spec fn stale(parent: ObservedProcess, child: ObservedProcess) -> bool {
    match (parent.identity.start_time_unix_seconds, child.identity.start_time_unix_seconds) {
        (Some(parent_start), Some(child_start)) => parent_start > child_start,
        _ => false,
    }
}

/// `child` is linked to `parent`.
pub open spec fn linked(table: Map<u64, ObservedProcess>, parent: u64, child: u64) -> bool {
    &&& table.contains_key(child)
    &&& table[child].parent_os_pid is Some
    &&& table[child].parent_os_pid->0 as u64 == parent
    &&& !(table.contains_key(parent) && stale(table[parent], table[child]))
}

/// The process at `k` is linked to one that stands before it and before `limit`.
pub open spec fn parented(
    table: Map<u64, ObservedProcess>,
    order: Seq<u64>,
    k: int,
    limit: int,
) -> bool {
    exists|i: int| 0 <= i < k && i < limit && #[trigger] linked(table, order[i], order[k])
}

/// `order` is the descent from `root`: the root, then the children of each listed process in
/// turn, in ascending order, and nothing else.
pub open spec fn descent(table: Map<u64, ObservedProcess>, root: u64, order: Seq<u64>) -> bool {
    &&& order.len() > 0
    &&& order[0] == root
    &&& order.no_duplicates()
    &&& forall|k: int| 1 <= k < order.len() ==> #[trigger] parented(table, order, k, k)
    &&& forall|i: int, child: u64|
        0 <= i < order.len() && #[trigger] linked(table, order[i], child) ==> order.contains(child)
    &&& forall|i: int, j: int, k: int, l: int|
        0 <= i < order.len() && 0 <= j < order.len() && 1 <= k < order.len() && 1 <= l
            < order.len() && #[trigger] linked(table, order[i], order[k]) && #[trigger] linked(
            table,
            order[j],
            order[l],
        ) && k < l ==> i < j || (i == j && order[k] < order[l])
}

/// The identity found at the root is not the one that was expected.
pub open spec fn changed(
    expected: Option<ObservedProcessIdentity>,
    root: ObservedProcessIdentity,
) -> bool {
    expected is Some && expected->0 != root
}

fn build_table(processes: &Vec<ObservedProcess>) -> (table: Table<ObservedProcess>)
    ensures
        table@ == table_of(processes@),
{
    let mut table: Table<ObservedProcess> = Table::new();
    let mut i: usize = 0;
    assert(processes@.take(0) =~= Seq::empty());
    while i < processes.len()
        invariant
            i <= processes@.len(),
            table@ == table_of(processes@.take(i as int)),
        decreases processes@.len() - i,
    {
        proof {
            assert(processes@.take(i + 1).drop_last() =~= processes@.take(i as int));
            assert(processes@.take(i + 1).last() == processes@[i as int]);
        }
        table.insert(processes[i].identity.os_pid as u64, processes[i].clone());
        i = i + 1;
    }
    assert(processes@.take(i as int) =~= processes@);
    table
}

/// The parent that `process` is linked to, if the link stands.
fn live_parent(
    table: &Table<ObservedProcess>,
    child: u64,
    process: &ObservedProcess,
) -> (parent: Option<u64>)
    requires
        table@.contains_key(child),
        table@[child] == *process,
    ensures
        match parent {
            Some(found) => linked(table@, found, child),
            None => forall|other: u64| !#[trigger] linked(table@, other, child),
        },
{
    match process.parent_os_pid {
        None => None,
        Some(parent) => {
            let key = parent as u64;
            if let Some(found) = table.get(key) {
                if let (Some(parent_start), Some(child_start)) = (
                    found.identity.start_time_unix_seconds,
                    process.identity.start_time_unix_seconds,
                ) {
                    if parent_start > child_start {
                        return None;
                    }
                }
            }
            Some(key)
        },
    }
}

/// Every visible process is filed under its own PID.
proof fn lemma_table_keys(processes: Seq<ObservedProcess>)
    ensures
        forall|key: u64| #[trigger]
            table_of(processes).contains_key(key) ==> table_of(processes)[key].identity.os_pid as u64
                == key,
    decreases processes.len(),
{
    if processes.len() > 0 {
        lemma_table_keys(processes.drop_last());
    }
}

/// `children` files the linked children among `seen` under their parents.
spec fn filed(
    table: Map<u64, ObservedProcess>,
    children: Map<u64, Vec<u64>>,
    seen: Seq<u64>,
) -> bool {
    forall|parent: u64, child: u64|
        #![trigger linked(table, parent, child)]
        #![trigger children[parent]@.contains(child)]
        (linked(table, parent, child) && seen.contains(child)) == (children.contains_key(parent)
            && children[parent]@.contains(child))
}

/// The children of every parent, ascending.
fn build_children(table: &Table<ObservedProcess>) -> (children: Table<Vec<u64>>)
    requires
        forall|key: u64| #[trigger]
            table@.contains_key(key) ==> table@[key].identity.os_pid as u64 == key,
    ensures
        forall|parent: u64, child: u64| #[trigger]
            linked(table@, parent, child) <==> children@.contains_key(parent)
                && children@[parent]@.contains(child),
        forall|parent: u64, i: int, j: int|
            children@.contains_key(parent) && 0 <= i < j < children@[parent]@.len() ==> (
            #[trigger] children@[parent]@[i]) < (#[trigger] children@[parent]@[j]),
{
    let keys: Vec<u64> = table.keys();
    let mut children: Table<Vec<u64>> = Table::new();
    let mut i: usize = 0;
    while i < keys.len()
        invariant
            i <= keys@.len(),
            crate::domain::table::lists(keys@, table@.dom()),
            forall|key: u64| #[trigger]
                table@.contains_key(key) ==> table@[key].identity.os_pid as u64 == key,
            filed(table@, children@, keys@.take(i as int)),
            forall|parent: u64, a: int, b: int|
                children@.contains_key(parent) && 0 <= a < b < children@[parent]@.len() ==> (
                #[trigger] children@[parent]@[a]) < (#[trigger] children@[parent]@[b]),
            forall|parent: u64, a: int|
                children@.contains_key(parent) && 0 <= a < children@[parent]@.len()
                    && i < keys@.len() ==> (#[trigger] children@[parent]@[a]) < keys@[i as int],
        decreases keys@.len() - i,
    {
        let key = keys[i];
        let ghost seen = keys@.take(i as int);
        let ghost before = children@;
        proof {
            assert(keys@.contains(keys@[i as int]));
            assert(keys@.take(i + 1) =~= seen.push(key));
            crate::supervision::history::lemma_pushed_members(seen, key);
            assert forall|other: u64| #[trigger]
                keys@.take(i + 1).contains(other) <==> seen.contains(other) || other == key by {
                assert(keys@.take(i + 1).to_set().contains(other) <==> seen.to_set().insert(
                    key,
                ).contains(other));
            }
        }
        if let Some(process) = table.get(key) {
            if let Some(parent) = live_parent(table, key, process) {
                let mut list: Vec<u64> = match children.remove(parent) {
                    Some(list) => list,
                    None => Vec::new(),
                };
                let ghost had = list@;
                list.push(key);
                proof {
                    crate::supervision::history::lemma_pushed_members(had, key);
                    assert forall|other: u64| #[trigger]
                        list@.contains(other) <==> had.contains(other) || other == key by {
                        assert(list@.to_set().contains(other) <==> had.to_set().insert(
                            key,
                        ).contains(other));
                    }
                }
                children.insert(parent, list);
            }
        }
        proof {
            assert forall|parent: u64, child: u64|
                #![trigger linked(table@, parent, child)]
                #![trigger children@[parent]@.contains(child)]
                (linked(table@, parent, child) && keys@.take(i + 1).contains(child)) == (
                children@.contains_key(parent) && children@[parent]@.contains(child)) by {
                assert((linked(table@, parent, child) && seen.contains(child)) == (
                before.contains_key(parent) && before[parent]@.contains(child)));
                assert(keys@.take(i + 1).contains(child) <==> seen.contains(child) || child == key);
                if !linked(table@, parent, key) {
                    assert(children@.contains_key(parent) == before.contains_key(parent));
                    assert(before.contains_key(parent) ==> children@[parent] == before[parent]);
                }
            }
            assert(filed(table@, children@, keys@.take(i + 1)));
            assert forall|parent: u64, a: int|
                children@.contains_key(parent) && 0 <= a < children@[parent]@.len() && i + 1
                    < keys@.len() implies (#[trigger] children@[parent]@[a]) < keys@[i + 1] by {
                assert(keys@[i as int] < keys@[i + 1]);
                let child = children@[parent]@[a];
                if a < before[parent]@.len() && before.contains_key(parent) {
                    assert(before[parent]@[a] == child);
                }
            }
        }
        i = i + 1;
    }
    proof {
        assert(keys@.take(i as int) =~= keys@);
        assert forall|parent: u64, child: u64| #[trigger]
            linked(table@, parent, child) <==> children@.contains_key(parent)
                && children@[parent]@.contains(child) by {
            assert((linked(table@, parent, child) && keys@.contains(child)) == (
            children@.contains_key(parent) && children@[parent]@.contains(child)));
            if linked(table@, parent, child) {
                assert(keys@.contains(child));
            }
        }
    }
    children
}

/// `result` is what selecting `pid` among `processes` answers.
pub open spec fn selects(
    processes: Seq<ObservedProcess>,
    pid: u32,
    expected: Option<ObservedProcessIdentity>,
    result: Result<ProcessTree, ObservationError>,
) -> bool {
    let table = table_of(processes);
    if !table.contains_key(pid as u64) {
        result == Err::<ProcessTree, _>(ObservationError::NotVisible(pid))
    } else if changed(expected, table[pid as u64].identity) {
        result == Err::<ProcessTree, _>(ObservationError::IdentityChanged(pid))
    } else {
        &&& result matches Ok(tree)
        &&& tree.root == table[pid as u64].identity
        &&& exists|order: Seq<u64>| #[trigger]
            descent(table, pid as u64, order) && tree.processes@ == Seq::new(
                order.len(),
                |i: int| table[order[i]],
            )
    }
}

/// Selects a root and everything that descends from it.
///
/// # Errors
/// Returns [`ObservationError::NotVisible`] if the root is not in the snapshot, and
/// [`ObservationError::IdentityChanged`] if it is not the process that was expected.
pub fn select_tree(
    snapshot: ProcessSnapshot,
    pid: u32,
    expected: Option<ObservedProcessIdentity>,
) -> (result: Result<ProcessTree, ObservationError>)
    ensures
        selects(snapshot.processes@, pid, expected, result),
{
    let table: Table<ObservedProcess> = build_table(&snapshot.processes);
    let root_key = pid as u64;
    let root = match table.get(root_key) {
        None => {
            return Err(ObservationError::NotVisible(pid));
        },
        Some(process) => process.identity,
    };
    if let Some(identity) = expected {
        if identity.os_pid != root.os_pid || identity.start_time_unix_seconds
            != root.start_time_unix_seconds {
            return Err(ObservationError::IdentityChanged(pid));
        }
    }
    proof {
        lemma_table_keys(snapshot.processes@);
    }
    let children: Table<Vec<u64>> = build_children(&table);
    let order: Vec<u64> = walk(&table, &children, root_key);
    let mut processes: Vec<ObservedProcess> = Vec::new();
    let mut i: usize = 0;
    while i < order.len()
        invariant
            i <= order@.len(),
            forall|k: int| 0 <= k < order@.len() ==> table@.contains_key(#[trigger] order@[k]),
            processes@.len() == i,
            forall|k: int| 0 <= k < i ==> (#[trigger] processes@[k]) == table@[order@[k]],
        decreases order@.len() - i,
    {
        if let Some(process) = table.get(order[i]) {
            processes.push(process.clone());
        }
        i = i + 1;
    }
    assert(processes@ =~= Seq::new(order@.len(), |k: int| table@[order@[k]]));
    Ok(ProcessTree { root, processes })
}

/// Walks down from `root`, breadth first.
fn walk(
    table: &Table<ObservedProcess>,
    children: &Table<Vec<u64>>,
    root: u64,
) -> (order: Vec<u64>)
    requires
        table@.contains_key(root),
        forall|parent: u64, child: u64| #[trigger]
            linked(table@, parent, child) <==> children@.contains_key(parent)
                && children@[parent]@.contains(child),
        forall|parent: u64, i: int, j: int|
            children@.contains_key(parent) && 0 <= i < j < children@[parent]@.len() ==> (
            #[trigger] children@[parent]@[i]) < (#[trigger] children@[parent]@[j]),
    ensures
        descent(table@, root, order@),
        forall|k: int| 0 <= k < order@.len() ==> table@.contains_key(#[trigger] order@[k]),
{
    let visible: usize = table.len();
    let mut order: Vec<u64> = Vec::new();
    order.push(root);
    let mut head: usize = 0;
    while head < order.len()
        invariant
            head <= order@.len(),
            visible == table@.dom().len(),
            table@.dom().finite(),
            forall|parent: u64, child: u64| #[trigger]
                linked(table@, parent, child) <==> children@.contains_key(parent)
                    && children@[parent]@.contains(child),
            forall|parent: u64, i: int, j: int|
                children@.contains_key(parent) && 0 <= i < j < children@[parent]@.len() ==> (
                #[trigger] children@[parent]@[i]) < (#[trigger] children@[parent]@[j]),
            order@.len() > 0,
            order@[0] == root,
            order@.no_duplicates(),
            forall|k: int| 0 <= k < order@.len() ==> table@.contains_key(#[trigger] order@[k]),
            forall|k: int|
                1 <= k < order@.len() ==> #[trigger] parented(table@, order@, k, head as int),
            forall|i: int, child: u64|
                0 <= i < head && #[trigger] linked(table@, order@[i], child) ==> order@.contains(
                    child,
                ),
            forall|i: int, j: int, k: int, l: int|
                0 <= i < order@.len() && 0 <= j < order@.len() && 1 <= k < order@.len() && 1 <= l
                    < order@.len() && #[trigger] linked(table@, order@[i], order@[k])
                    && #[trigger] linked(table@, order@[j], order@[l]) && k < l ==> i < j || (i
                    == j && order@[k] < order@[l]),
        decreases visible - head,
    {
        let parent = order[head];
        proof {
            lemma_listed_bound(order@, table@.dom());
        }
        if let Some(list) = children.get(parent) {
            let ghost base = order@;
            let mut c: usize = 0;
            while c < list.len()
                invariant
                    c <= list@.len(),
                    head < base.len(),
                    base.len() <= order@.len(),
                    order@.take(base.len() as int) == base,
                    parent == order@[head as int],
                    base[0] == root,
                    base.len() > 0,
                    children@.contains_key(parent),
                    list@ == children@[parent]@,
                    forall|p: u64, child: u64| #[trigger]
                        linked(table@, p, child) <==> children@.contains_key(p)
                            && children@[p]@.contains(child),
                    forall|a: int, b: int| 0 <= a < b < list@.len() ==> list@[a] < list@[b],
                    order@.no_duplicates(),
                    forall|k: int|
                        0 <= k < order@.len() ==> table@.contains_key(#[trigger] order@[k]),
                    base.no_duplicates(),
                    forall|k: int|
                        1 <= k < base.len() ==> #[trigger] parented(table@, base, k, head as int),
                    forall|k: int|
                        base.len() <= k < order@.len() ==> linked(
                            table@,
                            parent,
                            #[trigger] order@[k],
                        ) && list@.take(c as int).contains(order@[k]),
                    forall|k: int, l: int|
                        base.len() <= k < l < order@.len() ==> (#[trigger] order@[k]) < (
                        #[trigger] order@[l]),
                    forall|a: int| 0 <= a < c ==> order@.contains(#[trigger] list@[a]),
                    forall|i: int, j: int, k: int, l: int|
                        0 <= i < base.len() && 0 <= j < base.len() && 1 <= k < base.len() && 1
                            <= l < base.len() && #[trigger] linked(table@, base[i], base[k])
                            && #[trigger] linked(table@, base[j], base[l]) && k < l ==> i < j || (i
                            == j && base[k] < base[l]),
                decreases list@.len() - c,
            {
                let child = list[c];
                let ghost before = order@;
                proof {
                    assert(list@.contains(child));
                    assert(linked(table@, parent, child));
                    assert(list@.take(c + 1) =~= list@.take(c as int).push(child));
                    assert forall|other: u64|
                        list@.take(c as int).contains(other) implies list@.take(c + 1).contains(
                        other,
                    ) by {
                        let at = list@.take(c as int).index_of(other);
                        assert(list@.take(c + 1)[at] == other);
                    }
                    assert(list@.take(c + 1)[c as int] == child);
                }
                if child != root {
                    proof {
                        assert(!before.contains(child)) by {
                            if before.contains(child) {
                                let k = before.index_of(child);
                                if k < base.len() {
                                    assert(before[k] == base[k]);
                                    assert(k >= 1);
                                    assert(parented(table@, base, k, head as int));
                                    let i = choose|i: int|
                                        0 <= i < k && i < head && #[trigger] linked(
                                            table@,
                                            base[i],
                                            base[k],
                                        );
                                    assert(base[i] == parent);
                                    assert(order@.take(base.len() as int)[head as int] == parent);
                                    assert(base[head as int] == parent);
                                } else {
                                    let at = list@.take(c as int).index_of(child);
                                    assert(list@[at] < list@[c as int]);
                                }
                            }
                        }
                        assert forall|k: int| base.len() <= k < before.len() implies (
                        #[trigger] before[k]) < child by {
                            let at = list@.take(c as int).index_of(before[k]);
                            assert(list@[at] < list@[c as int]);
                        }
                    }
                    order.push(child);
                    proof {
                        assert(order@.take(base.len() as int) =~= base);
                        assert forall|a: int| 0 <= a < c + 1 implies order@.contains(
                            #[trigger] list@[a],
                        ) by {
                            if a < c {
                                let at = before.index_of(list@[a]);
                                assert(order@[at] == list@[a]);
                            } else {
                                assert(order@[before.len() as int] == child);
                            }
                        }
                    }
                } else {
                    assert(before.contains(root)) by {
                        assert(before[0] == base[0]);
                    }
                }
                c = c + 1;
            }
            proof {
                assert forall|i: int, child: u64|
                    0 <= i < head + 1 && #[trigger] linked(
                        table@,
                        order@[i],
                        child,
                    ) implies order@.contains(child) by {
                    if i < head {
                        assert(order@[i] == base[i]);
                        assert(base.contains(child));
                        let at = base.index_of(child);
                        assert(order@[at] == child);
                    } else {
                        assert(list@.contains(child));
                        let at = list@.index_of(child);
                        assert(order@.contains(list@[at]));
                    }
                }
                lemma_appended(table@, base, order@, head as int);
            }
        } else {
            proof {
                assert forall|i: int, child: u64|
                    0 <= i < head + 1 && #[trigger] linked(
                        table@,
                        order@[i],
                        child,
                    ) implies order@.contains(child) by {
                    if i == head {
                        assert(!linked(table@, parent, child));
                    }
                }
                assert forall|k: int| 1 <= k < order@.len() implies #[trigger] parented(
                    table@,
                    order@,
                    k,
                    head + 1,
                ) by {
                    assert(parented(table@, order@, k, head as int));
                }
            }
        }
        head = head + 1;
    }
    proof {
        assert forall|k: int| 1 <= k < order@.len() implies #[trigger] parented(
            table@,
            order@,
            k,
            k,
        ) by {
            assert(parented(table@, order@, k, head as int));
        }
    }
    order
}

/// Appending the children of the process at `head`, ascending, keeps the descent order.
proof fn lemma_appended(
    table: Map<u64, ObservedProcess>,
    base: Seq<u64>,
    order: Seq<u64>,
    head: int,
)
    requires
        0 <= head < base.len(),
        base.len() <= order.len(),
        order.take(base.len() as int) == base,
        order.no_duplicates(),
        forall|k: int| 1 <= k < base.len() ==> #[trigger] parented(table, base, k, head),
        forall|k: int|
            base.len() <= k < order.len() ==> linked(table, order[head], #[trigger] order[k]),
        forall|k: int, l: int|
            base.len() <= k < l < order.len() ==> (#[trigger] order[k]) < (#[trigger] order[l]),
        forall|i: int, j: int, k: int, l: int|
            0 <= i < base.len() && 0 <= j < base.len() && 1 <= k < base.len() && 1 <= l
                < base.len() && #[trigger] linked(table, base[i], base[k]) && #[trigger] linked(
                table,
                base[j],
                base[l],
            ) && k < l ==> i < j || (i == j && base[k] < base[l]),
    ensures
        forall|k: int| 1 <= k < order.len() ==> #[trigger] parented(table, order, k, head + 1),
        forall|i: int, j: int, k: int, l: int|
            0 <= i < order.len() && 0 <= j < order.len() && 1 <= k < order.len() && 1 <= l
                < order.len() && #[trigger] linked(table, order[i], order[k]) && #[trigger] linked(
                table,
                order[j],
                order[l],
            ) && k < l ==> i < j || (i == j && order[k] < order[l]),
{
    assert forall|k: int| 0 <= k < base.len() implies base[k] == order[k] by {
        assert(order.take(base.len() as int)[k] == order[k]);
    }
    assert forall|k: int| 1 <= k < order.len() implies #[trigger] parented(
        table,
        order,
        k,
        head + 1,
    ) by {
        if k < base.len() {
            assert(parented(table, base, k, head));
            let i = choose|i: int|
                0 <= i < k && i < head && #[trigger] linked(table, base[i], base[k]);
            assert(linked(table, order[i], order[k]));
        } else {
            assert(linked(table, order[head], order[k]));
        }
    }
    assert forall|i: int, j: int, k: int, l: int|
        0 <= i < order.len() && 0 <= j < order.len() && 1 <= k < order.len() && 1 <= l
            < order.len() && #[trigger] linked(table, order[i], order[k]) && #[trigger] linked(
            table,
            order[j],
            order[l],
        ) && k < l implies i < j || (i == j && order[k] < order[l]) by {
        lemma_parent_place(table, base, order, head, i, k);
        lemma_parent_place(table, base, order, head, j, l);
        if l < base.len() {
            assert(linked(table, base[i], base[k]) && linked(table, base[j], base[l]));
        }
    }
}

/// A process has one parent, so the place of its parent is fixed.
proof fn lemma_parent_place(
    table: Map<u64, ObservedProcess>,
    base: Seq<u64>,
    order: Seq<u64>,
    head: int,
    i: int,
    k: int,
)
    requires
        0 <= head < base.len(),
        base.len() <= order.len(),
        order.take(base.len() as int) == base,
        order.no_duplicates(),
        forall|n: int| 1 <= n < base.len() ==> #[trigger] parented(table, base, n, head),
        forall|n: int|
            base.len() <= n < order.len() ==> linked(table, order[head], #[trigger] order[n]),
        0 <= i < order.len(),
        1 <= k < order.len(),
        linked(table, order[i], order[k]),
    ensures
        k < base.len() ==> i < head,
        k >= base.len() ==> i == head,
{
    if k < base.len() {
        assert(parented(table, base, k, head));
        let p = choose|p: int| 0 <= p < k && p < head && #[trigger] linked(table, base[p], base[k]);
        assert(base[p] == order.take(base.len() as int)[p]);
        assert(base[k] == order.take(base.len() as int)[k]);
        assert(order[p] == order[i]);
        assert(p == i);
    } else {
        assert(linked(table, order[head], order[k]));
        assert(order[head] == order[i]);
        assert(head == i);
    }
}

/// Distinct keys of a finite table are no more than its entries.
proof fn lemma_listed_bound(keys: Seq<u64>, members: Set<u64>)
    requires
        keys.no_duplicates(),
        members.finite(),
        forall|k: int| 0 <= k < keys.len() ==> members.contains(#[trigger] keys[k]),
    ensures
        keys.len() <= members.len(),
{
    keys.unique_seq_to_set();
    assert(keys.to_set().subset_of(members)) by {
        assert forall|key: u64| keys.to_set().contains(key) implies members.contains(key) by {
            let at = keys.index_of(key);
            assert(keys[at] == key);
        }
    }
    vstd::set_lib::lemma_len_subset(keys.to_set(), members);
}

/// How deep `process` stands, given how deep the processes listed before it stand: the root at
/// zero, any other one below its parent, or just below the root if its parent is not listed.
pub open spec fn depth_below(
    process: ObservedProcess,
    root: ObservedProcessIdentity,
    above: Map<u64, nat>,
) -> nat {
    if process.identity == root {
        0
    } else if process.parent_os_pid is Some && above.contains_key(
        process.parent_os_pid->0 as u64,
    ) {
        above[process.parent_os_pid->0 as u64] + 1
    } else {
        1
    }
}

/// How deep the first `n` processes of a tree stand, by PID.
pub open spec fn depths_by_pid(
    processes: Seq<ObservedProcess>,
    root: ObservedProcessIdentity,
    n: nat,
) -> Map<u64, nat>
    decreases n,
{
    if n == 0 {
        Map::empty()
    } else {
        let above = depths_by_pid(processes, root, (n - 1) as nat);
        above.insert(
            processes[n - 1].identity.os_pid as u64,
            depth_below(processes[n - 1], root, above),
        )
    }
}

/// How deep each process of `tree` stands.
#[must_use]
pub fn tree_depths(tree: &ProcessTree) -> (depths: Vec<usize>)
    ensures
        depths@.len() == tree.processes@.len(),
        forall|i: int|
            0 <= i < depths@.len() ==> #[trigger] depths@[i] == depth_below(
                tree.processes@[i],
                tree.root,
                depths_by_pid(tree.processes@, tree.root, i as nat),
            ),
{
    let mut above: Table<usize> = Table::new();
    let mut depths: Vec<usize> = Vec::new();
    let mut i: usize = 0;
    while i < tree.processes.len()
        invariant
            i <= tree.processes@.len(),
            depths@.len() == i,
            above@.dom() == depths_by_pid(tree.processes@, tree.root, i as nat).dom(),
            forall|pid: u64| #[trigger]
                above@.contains_key(pid) ==> above@[pid] == depths_by_pid(
                    tree.processes@,
                    tree.root,
                    i as nat,
                )[pid] && above@[pid] <= i,
            forall|k: int|
                0 <= k < i ==> #[trigger] depths@[k] == depth_below(
                    tree.processes@[k],
                    tree.root,
                    depths_by_pid(tree.processes@, tree.root, k as nat),
                ),
        decreases tree.processes@.len() - i,
    {
        let ghost before = depths_by_pid(tree.processes@, tree.root, i as nat);
        let process = &tree.processes[i];
        let depth: usize = if process.identity == tree.root {
            0
        } else {
            match process.parent_os_pid {
                Some(parent) => match above.get(parent as u64) {
                    Some(found) => *found + 1,
                    None => 1,
                },
                None => 1,
            }
        };
        assert(depth == depth_below(tree.processes@[i as int], tree.root, before));
        let pid = process.identity.os_pid as u64;
        let _ = above.insert(pid, depth);
        depths.push(depth);
        i = i + 1;
        assert(above@.dom() =~= depths_by_pid(tree.processes@, tree.root, i as nat).dom());
    }
    depths
}

} // verus!
