//! How measurements are chosen and added up.
use vstd::prelude::*;
use crate::observation::snapshot::{ObservedProcess, ObservedProcessIdentity};
use crate::observation::usage::{ProcessUsage, UsageEntry, UsageSnapshot};

verus! {

/// Nothing is lost in a sum, and nothing counts twice.
pub proof fn sums_add_up(first: Seq<u64>, second: Seq<u64>, value: u64)
    ensures
        crate::observation::usage::sum(first + second) == crate::observation::usage::sum(first)
            + crate::observation::usage::sum(second),
        crate::observation::usage::sum(seq![value]) == value,
        crate::observation::usage::sum(Seq::empty()) == 0,
    decreases second.len(),
{
    reveal_with_fuel(crate::observation::usage::sum, 2);
    assert(seq![value].drop_last() =~= Seq::empty());
    if second.len() == 0 {
        assert(first + second =~= first);
    } else {
        sums_add_up(first, second.drop_last(), value);
        assert((first + second).drop_last() =~= first + second.drop_last());
        assert((first + second).last() == second.last());
    }
}

/// A total is the sum of its values where there are any and it fits; otherwise there is none.
pub proof fn totals_are_sums(values: Seq<u64>)
    ensures
        crate::observation::usage::total(values) is Some <==> values.len() > 0
            && crate::observation::usage::sum(values) <= u64::MAX,
        crate::observation::usage::total(values) is Some ==> crate::observation::usage::total(
            values,
        )->0 == crate::observation::usage::sum(values),
{
}

/// Of several entries of one identity the first one counts, measured or not, and every other entry
/// with a measurement counts: in the order of the entries.
pub proof fn the_first_entry_of_an_identity_counts(earlier: Seq<UsageEntry>, entry: UsageEntry)
    ensures
        ({
            let before = crate::observation::usage::measured(earlier);
            let after = crate::observation::usage::measured(earlier.push(entry));
            let known = exists|j: int|
                0 <= j < earlier.len() && (#[trigger] earlier[j]).identity == entry.identity;
            &&& !known && entry.measurement is Ok ==> after == before.push(
                (entry.identity, entry.measurement->Ok_0),
            )
            &&& known || entry.measurement is Err ==> after == before
        }),
        crate::observation::usage::measured(Seq::empty()).len() == 0,
{
    let all = earlier.push(entry);
    assert(all.drop_last() =~= earlier);
    if exists|j: int| 0 <= j < earlier.len() && (#[trigger] earlier[j]).identity
        == entry.identity {
        let j = choose|j: int|
            0 <= j < earlier.len() && (#[trigger] earlier[j]).identity == entry.identity;
        assert(all[j] == earlier[j]);
        assert(!crate::observation::usage::first_of_identity(all, earlier.len() as int));
    } else {
        assert forall|j: int| 0 <= j < earlier.len() implies (#[trigger] all[j]).identity
            != all[earlier.len() as int].identity by {
            assert(all[j] == earlier[j]);
        }
        assert(crate::observation::usage::first_of_identity(all, earlier.len() as int));
    }
}

/// The latest measurement of an identity is compared with; entries of other identities, and
/// entries without a measurement, do not matter.
pub proof fn the_latest_measurement_is_compared_with(
    earlier: Seq<UsageEntry>,
    entry: UsageEntry,
    identity: ObservedProcessIdentity,
)
    ensures
        ({
            let before = crate::observation::usage::baseline(earlier, identity);
            let after = crate::observation::usage::baseline(earlier.push(entry), identity);
            &&& entry.identity == identity && entry.measurement is Ok ==> after == Some(
                entry.measurement->Ok_0,
            )
            &&& entry.identity != identity || entry.measurement is Err ==> after == before
        }),
        crate::observation::usage::baseline(Seq::empty(), identity) is None,
{
    assert(earlier.push(entry).drop_last() =~= earlier);
}

/// An interval leads from the older measurement to the newer one. There is one exactly if both are
/// of one native process, time passed, and the CPU time did not go back.
pub proof fn intervals_lead_from_one_measurement_to_the_next(old_one: ProcessUsage, now: ProcessUsage)
    ensures
        ({
            let interval = crate::observation::usage::cpu_interval(old_one, now);
            &&& interval is Some <==> {
                &&& old_one.native_start == now.native_start
                &&& old_one.sampled_at.nanos < now.sampled_at.nanos
                &&& old_one.cpu_time.nanos <= now.cpu_time.nanos
            }
            &&& interval is Some ==> {
                &&& old_one.cpu_time.nanos + interval->0.work.nanos == now.cpu_time.nanos
                &&& old_one.sampled_at.nanos + interval->0.elapsed.nanos == now.sampled_at.nanos
            }
        }),
{
}

/// Each member brings its resident memory, its footprint if it has one, and its interval if there
/// is something to compare with; in the order of the members.
pub proof fn each_member_brings_its_share(
    earlier: Seq<(ObservedProcessIdentity, ProcessUsage)>,
    identity: ObservedProcessIdentity,
    usage: ProcessUsage,
    previous: Seq<UsageEntry>,
)
    ensures
        ({
            let all = earlier.push((identity, usage));
            let base = crate::observation::usage::baseline(previous, identity);
            &&& crate::observation::usage::resident(all) == crate::observation::usage::resident(
                earlier,
            ).push(usage.resident_bytes)
            &&& usage.physical_footprint_bytes is Some ==> crate::observation::usage::footprints(
                all,
            ) == crate::observation::usage::footprints(earlier).push(
                usage.physical_footprint_bytes->0,
            )
            &&& usage.physical_footprint_bytes is None ==> crate::observation::usage::footprints(
                all,
            ) == crate::observation::usage::footprints(earlier)
            &&& base is Some && base->0.native_start == usage.native_start
                && base->0.sampled_at.nanos < usage.sampled_at.nanos && base->0.cpu_time.nanos
                <= usage.cpu_time.nanos ==> {
                let told = crate::observation::usage::intervals(all, previous);
                &&& told.len() == crate::observation::usage::intervals(earlier, previous).len() + 1
                &&& told.drop_last() == crate::observation::usage::intervals(earlier, previous)
                &&& base->0.cpu_time.nanos + told.last().work.nanos == usage.cpu_time.nanos
                &&& base->0.sampled_at.nanos + told.last().elapsed.nanos == usage.sampled_at.nanos
            }
            &&& base is None || base->0.native_start != usage.native_start
                || base->0.sampled_at.nanos >= usage.sampled_at.nanos || base->0.cpu_time.nanos
                > usage.cpu_time.nanos ==> crate::observation::usage::intervals(all, previous)
                == crate::observation::usage::intervals(earlier, previous)
        }),
        crate::observation::usage::resident(Seq::empty()).len() == 0,
        crate::observation::usage::footprints(Seq::empty()).len() == 0,
        crate::observation::usage::intervals(Seq::empty(), previous).len() == 0,
{
    let all = earlier.push((identity, usage));
    assert(all.drop_last() =~= earlier);
    assert(crate::observation::usage::resident(all) =~= crate::observation::usage::resident(
        earlier,
    ).push(usage.resident_bytes));
    let told = crate::observation::usage::intervals(all, previous);
    let before = crate::observation::usage::intervals(earlier, previous);
    if told.len() > before.len() {
        assert(told.drop_last() =~= before);
    }
}

/// Only a snapshot that was selected in the same way is compared with, and it is as a whole.
pub proof fn snapshots_of_one_selection_are_compared(now: UsageSnapshot, previous: UsageSnapshot)
    ensures
        now.selection == previous.selection ==> now.comparable(Some(previous))
            == previous.entries@,
        now.selection != previous.selection ==> now.comparable(Some(previous)).len() == 0,
        now.comparable(None).len() == 0,
{
}

/// Of several members of one PID the first one is measured, and every other member is: in the order
/// of the members.
pub proof fn the_first_member_of_a_pid_is_measured(
    earlier: Seq<ObservedProcessIdentity>,
    member: ObservedProcessIdentity,
)
    ensures
        ({
            let before = crate::observation::usage::members_once(earlier);
            let after = crate::observation::usage::members_once(earlier.push(member));
            let known = exists|j: int|
                0 <= j < earlier.len() && (#[trigger] earlier[j]).os_pid == member.os_pid;
            &&& !known ==> after == before.push(member)
            &&& known ==> after == before
        }),
        crate::observation::usage::members_once(Seq::empty()).len() == 0,
{
    let all = earlier.push(member);
    assert(all.drop_last() =~= earlier);
    if exists|j: int| 0 <= j < earlier.len() && (#[trigger] earlier[j]).os_pid == member.os_pid {
        let j = choose|j: int|
            0 <= j < earlier.len() && (#[trigger] earlier[j]).os_pid == member.os_pid;
        assert(all[j] == earlier[j]);
    } else {
        assert forall|j: int| 0 <= j < all.len() - 1 implies (#[trigger] all[j]).os_pid
            != all.last().os_pid by {
            assert(all[j] == earlier[j]);
        }
    }
}

/// The processes under a PID are those that have it, in their order.
pub proof fn processes_are_found_under_their_pid(
    first: Seq<ObservedProcess>,
    process: ObservedProcess,
    pid: u32,
)
    ensures
        process.identity.os_pid == pid ==> crate::observation::snapshot::under_pid(
            first.push(process),
            pid,
        ) == crate::observation::snapshot::under_pid(first, pid).push(process),
        process.identity.os_pid != pid ==> crate::observation::snapshot::under_pid(
            first.push(process),
            pid,
        ) == crate::observation::snapshot::under_pid(first, pid),
        crate::observation::snapshot::under_pid(Seq::empty(), pid).len() == 0,
{
    reveal(Seq::filter);
    assert(first.push(process).drop_last() =~= first);
}

/// A snapshot in order of PIDs never steps back.
pub proof fn a_snapshot_goes_up_by_pid(processes: Seq<ObservedProcess>, i: int, j: int)
    requires
        crate::observation::snapshot::by_pid(processes),
        0 <= i <= j < processes.len(),
    ensures
        processes[i].identity.os_pid <= processes[j].identity.os_pid,
{
}

} // verus!
