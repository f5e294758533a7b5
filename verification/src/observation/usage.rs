//! Resource usage, separate from lifecycle ownership and cleanup verdicts.
use vstd::prelude::*;
use crate::domain::table::Table;
use crate::domain::time::{Duration, Instant};
use crate::observation::snapshot::{ObservedProcessIdentity, ProcessTree};

verus! {

/// Why one process could not be measured. Missing never means zero.
#[derive(Debug, PartialEq, Eq)]
pub enum UsageFailure {
    /// The measurement failed, for this reason.
    Unavailable(String),
    /// The PID belongs to another process by now.
    IdentityChanged,
    /// The platform does not measure processes.
    Unsupported,
}

impl Clone for UsageFailure {
    fn clone(&self) -> (copy: Self)
        ensures
            copy == *self,
    {
        match self {
            UsageFailure::Unavailable(cause) => UsageFailure::Unavailable(cause.clone()),
            UsageFailure::IdentityChanged => UsageFailure::IdentityChanged,
            UsageFailure::Unsupported => UsageFailure::Unsupported,
        }
    }
}

/// One native measurement. CPU is cumulative per-process time, not a rate.
#[derive(Debug, Clone, Copy, PartialEq, Eq, Structural)]
pub struct ProcessUsage {
    /// The process that was measured.
    pub identity: ObservedProcessIdentity,
    /// Native start token where supported; only compare tokens from the same adapter.
    pub native_start: u64,
    /// When the measurement was taken.
    pub sampled_at: Instant,
    /// CPU time used so far.
    pub cpu_time: Duration,
    /// Resident memory.
    pub resident_bytes: u64,
    /// Physical footprint, where the OS reports it.
    pub physical_footprint_bytes: Option<u64>,
    /// Largest physical footprint so far, where the OS reports it.
    pub peak_physical_footprint_bytes: Option<u64>,
    /// OS disk counters, not all application transfers. Zero may mean no accounting.
    pub disk_read_bytes: Option<u64>,
    /// OS disk counters, not all application transfers. Zero may mean no accounting.
    pub disk_write_bytes: Option<u64>,
}

/// A member and its measurement or explicit failure.
#[derive(Debug, PartialEq, Eq)]
pub struct UsageEntry {
    /// The member.
    pub identity: ObservedProcessIdentity,
    /// Its measurement, or why there is none.
    pub measurement: Result<ProcessUsage, UsageFailure>,
}

impl Clone for UsageEntry {
    fn clone(&self) -> (copy: Self)
        ensures
            copy == *self,
    {
        UsageEntry {
            identity: self.identity,
            measurement: match &self.measurement {
                Ok(usage) => Ok(*usage),
                Err(failure) => Err(failure.clone()),
            },
        }
    }
}

/// How members were selected. Neither form is an atomic census.
#[derive(Debug, Clone, Copy, PartialEq, Eq, Structural)]
pub enum UsageSelection {
    /// A process and its descendants.
    Tree,
    /// A process group.
    ProcessGroup,
}

/// A sum and the number of processes contributing to it. None means no data.
#[derive(Debug, Clone, PartialEq, Eq)]
pub struct UsageTotal<T> {
    /// The sum.
    pub value: Option<T>,
    /// How many processes contribute.
    pub contributors: usize,
}

/// CPU time that one process used between two measurements. The cores it kept busy are the
/// work over the elapsed time.
#[derive(Debug, Clone, Copy, PartialEq, Eq, Structural)]
pub struct CpuInterval {
    /// CPU time used.
    pub work: Duration,
    /// Time between the measurements; never zero.
    pub elapsed: Duration,
}

/// Current sampled totals. No sum of per-process peaks is exposed as a scope peak.
#[derive(Debug, Clone, PartialEq, Eq)]
pub struct UsageTotals {
    /// Resident memory of all members.
    pub resident_bytes: UsageTotal<u64>,
    /// Physical footprint of the members that report one.
    pub physical_footprint_bytes: UsageTotal<u64>,
    /// The CPU intervals whose rates add up to the cores in use.
    pub cpu_cores: UsageTotal<Vec<CpuInterval>>,
}

/// Owned results; retaining or dropping these never changes process ownership.
#[derive(Debug, Clone, PartialEq, Eq)]
pub struct UsageSnapshot {
    /// How the members were selected.
    pub selection: UsageSelection,
    /// When collection started.
    pub started_at: Instant,
    /// When collection finished.
    pub finished_at: Instant,
    /// Visible selected members only; invisible members cannot be counted here.
    pub entries: Vec<UsageEntry>,
}

/// A tree and the usage of its members.
#[derive(Debug, Clone, PartialEq, Eq)]
pub struct TreeUsage {
    /// The selected tree.
    pub tree: ProcessTree,
    /// The usage of its members.
    pub usage: UsageSnapshot,
}

/// Where kernel counters come from.
#[derive(Debug, Clone, Copy, PartialEq, Eq, Structural)]
pub enum AccountingSource {
    /// A Linux control group.
    LinuxCgroup,
    /// A Windows job.
    WindowsJob,
}

/// Kernel counters retain exited members where the OS accounts for them.
#[derive(Debug, Clone, Copy, PartialEq, Eq, Structural)]
pub struct ScopeAccounting {
    /// Where the counters come from.
    pub source: AccountingSource,
    /// When they were read.
    pub sampled_at: Instant,
    /// CPU time used by all members so far.
    pub cpu_time: Option<Duration>,
    /// Linux cgroup memory.current; different from RSS and Windows commit.
    pub memory_bytes: Option<u64>,
    /// Windows peak job commit charge; never called resident memory.
    pub peak_commit_bytes: Option<u64>,
    /// Bytes read by all members so far.
    pub io_read_bytes: Option<u64>,
    /// Bytes written by all members so far.
    pub io_write_bytes: Option<u64>,
    /// Linux pids.current includes threads; Windows active processes does not.
    pub member_count: Option<u64>,
}

/// The usage of a scope.
#[derive(Debug, Clone, PartialEq, Eq)]
pub enum ScopeUsage {
    /// Measured member by member.
    Sampled(UsageSnapshot),
    /// Accounted for by the kernel.
    Accounting(ScopeAccounting),
}

/// No earlier entry has the identity of entry `i`.
pub open spec fn first_of_identity(entries: Seq<UsageEntry>, i: int) -> bool {
    forall|j: int| 0 <= j < i ==> (#[trigger] entries[j]).identity != entries[i].identity
}

/// The measured members, each identity counted once: of several entries the first one counts,
/// even one without a measurement.
pub open spec fn measured(entries: Seq<UsageEntry>) -> Seq<(ObservedProcessIdentity, ProcessUsage)>
    decreases entries.len(),
{
    if entries.len() == 0 {
        Seq::empty()
    } else {
        let earlier = measured(entries.drop_last());
        match entries.last().measurement {
            Ok(usage) => if first_of_identity(entries, entries.len() - 1) {
                earlier.push((entries.last().identity, usage))
            } else {
                earlier
            },
            Err(_) => earlier,
        }
    }
}

/// The latest measurement of `identity`.
pub open spec fn baseline(
    entries: Seq<UsageEntry>,
    identity: ObservedProcessIdentity,
) -> Option<ProcessUsage>
    decreases entries.len(),
{
    if entries.len() == 0 {
        None
    } else {
        match entries.last().measurement {
            Ok(usage) => if entries.last().identity == identity {
                Some(usage)
            } else {
                baseline(entries.drop_last(), identity)
            },
            Err(_) => baseline(entries.drop_last(), identity),
        }
    }
}

/// The CPU interval from `old` to `now`: only of one native process, with time that passed and
/// a counter that did not go back.
pub open spec fn cpu_interval(old: ProcessUsage, now: ProcessUsage) -> Option<CpuInterval> {
    if old.native_start == now.native_start && old.sampled_at.nanos < now.sampled_at.nanos
        && old.cpu_time.nanos <= now.cpu_time.nanos {
        Some(
            CpuInterval {
                work: Duration { nanos: (now.cpu_time.nanos - old.cpu_time.nanos) as u128 },
                elapsed: Duration { nanos: (now.sampled_at.nanos - old.sampled_at.nanos) as u128 },
            },
        )
    } else {
        None
    }
}

/// The resident memory of each member.
pub open spec fn resident(members: Seq<(ObservedProcessIdentity, ProcessUsage)>) -> Seq<u64> {
    Seq::new(members.len(), |i: int| members[i].1.resident_bytes)
}

/// The physical footprint of each member that reports one.
pub open spec fn footprints(members: Seq<(ObservedProcessIdentity, ProcessUsage)>) -> Seq<u64>
    decreases members.len(),
{
    if members.len() == 0 {
        Seq::empty()
    } else {
        let earlier = footprints(members.drop_last());
        match members.last().1.physical_footprint_bytes {
            Some(bytes) => earlier.push(bytes),
            None => earlier,
        }
    }
}

/// The CPU interval of each member that has one since `previous`.
pub open spec fn intervals(
    members: Seq<(ObservedProcessIdentity, ProcessUsage)>,
    previous: Seq<UsageEntry>,
) -> Seq<CpuInterval>
    decreases members.len(),
{
    if members.len() == 0 {
        Seq::empty()
    } else {
        let earlier = intervals(members.drop_last(), previous);
        match baseline(previous, members.last().0) {
            Some(old) => match cpu_interval(old, members.last().1) {
                Some(interval) => earlier.push(interval),
                None => earlier,
            },
            None => earlier,
        }
    }
}

/// The sum of `values`.
pub open spec fn sum(values: Seq<u64>) -> nat
    decreases values.len(),
{
    if values.len() == 0 {
        0
    } else {
        sum(values.drop_last()) + values.last() as nat
    }
}

/// The total of `values`: none for no data, and none for a sum that is out of range.
pub open spec fn total(values: Seq<u64>) -> Option<u64> {
    if values.len() == 0 || sum(values) > u64::MAX {
        None
    } else {
        Some(sum(values) as u64)
    }
}

/// A part of the values sums up to no more than all of them.
proof fn lemma_partial_sum(values: Seq<u64>, n: int)
    requires
        0 <= n <= values.len(),
    ensures
        sum(values.take(n)) <= sum(values),
    decreases values.len() - n,
{
    if n < values.len() {
        lemma_partial_sum(values, n + 1);
        assert(values.take(n + 1).drop_last() =~= values.take(n));
    } else {
        assert(values.take(n) =~= values);
    }
}

fn total_of(values: &Vec<u64>) -> (total_value: UsageTotal<u64>)
    ensures
        total_value.value == total(values@),
        total_value.contributors == values@.len(),
{
    let contributors: usize = values.len();
    if contributors == 0 {
        return UsageTotal { value: None, contributors };
    }
    let mut value: u64 = 0;
    let mut i: usize = 0;
    assert(values@.take(0) =~= Seq::empty());
    while i < values.len()
        invariant
            i <= values@.len(),
            contributors == values@.len(),
            value == sum(values@.take(i as int)),
        decreases values@.len() - i,
    {
        proof {
            assert(values@.take(i + 1).drop_last() =~= values@.take(i as int));
            lemma_partial_sum(values@, i + 1);
        }
        match value.checked_add(values[i]) {
            Some(grown) => {
                value = grown;
            },
            None => {
                return UsageTotal { value: None, contributors };
            },
        }
        i = i + 1;
    }
    assert(values@.take(i as int) =~= values@);
    UsageTotal { value: Some(value), contributors }
}

fn find_baseline(entries: &Vec<UsageEntry>, identity: ObservedProcessIdentity) -> (found: Option<
    ProcessUsage,
>)
    ensures
        found == baseline(entries@, identity),
{
    let mut i: usize = entries.len();
    assert(entries@.take(i as int) =~= entries@);
    while i > 0
        invariant
            i <= entries@.len(),
            baseline(entries@, identity) == baseline(entries@.take(i as int), identity),
        decreases i,
    {
        let entry = &entries[i - 1];
        proof {
            assert(entries@.take(i as int).drop_last() =~= entries@.take(i - 1));
            assert(entries@.take(i as int).last() == entries@[i - 1]);
        }
        if let Ok(usage) = &entry.measurement {
            if entry.identity.os_pid == identity.os_pid && entry.identity.start_time_unix_seconds
                == identity.start_time_unix_seconds {
                return Some(*usage);
            }
        }
        i = i - 1;
    }
    None
}

fn interval_between(old: &ProcessUsage, now: &ProcessUsage) -> (interval: Option<CpuInterval>)
    ensures
        interval == cpu_interval(*old, *now),
{
    if old.native_start != now.native_start {
        return None;
    }
    match (
        now.sampled_at.checked_duration_since(old.sampled_at),
        now.cpu_time.checked_sub(old.cpu_time),
    ) {
        (Some(elapsed), Some(work)) => {
            if elapsed.is_zero() {
                None
            } else {
                Some(CpuInterval { work, elapsed })
            }
        },
        _ => None,
    }
}

/// A set of identities, filed by PID.
struct Identities {
    starts: Table<Vec<Option<u64>>>,
}

impl View for Identities {
    type V = Set<ObservedProcessIdentity>;

    closed spec fn view(&self) -> Set<ObservedProcessIdentity> {
        Set::new(
            |identity: ObservedProcessIdentity|
                self.starts@.contains_key(identity.os_pid as u64)
                    && self.starts@[identity.os_pid as u64]@.contains(
                    identity.start_time_unix_seconds,
                ),
        )
    }
}

impl Identities {
    fn new() -> (identities: Self)
        ensures
            identities@ == Set::<ObservedProcessIdentity>::empty(),
    {
        let identities = Identities { starts: Table::new() };
        assert(identities@ =~= Set::<ObservedProcessIdentity>::empty());
        identities
    }

    /// Adds `identity`; answers whether it was new.
    fn insert(&mut self, identity: ObservedProcessIdentity) -> (new: bool)
        ensures
            final(self)@ == old(self)@.insert(identity),
            new == !old(self)@.contains(identity),
    {
        let key = identity.os_pid as u64;
        let start = identity.start_time_unix_seconds;
        let mut starts: Vec<Option<u64>> = match self.starts.remove(key) {
            Some(starts) => starts,
            None => Vec::new(),
        };
        let ghost had = starts@;
        let mut new = true;
        let mut i: usize = 0;
        while i < starts.len()
            invariant
                i <= starts@.len(),
                starts@ == had,
                new == (forall|j: int| 0 <= j < i ==> had[j] != start),
            decreases starts@.len() - i,
        {
            if starts[i] == start {
                new = false;
            }
            i = i + 1;
        }
        if new {
            starts.push(start);
        }
        proof {
            crate::domain::table::lemma_pushed(had, start);
        }
        self.starts.insert(key, starts);
        assert(self@ =~= old(self)@.insert(identity));
        new
    }
}

impl UsageSnapshot {
    /// The entries to compare with: those of a snapshot that was selected in the same way.
    pub open spec fn comparable(self, previous: Option<UsageSnapshot>) -> Seq<UsageEntry> {
        match previous {
            Some(snapshot) => if snapshot.selection == self.selection {
                snapshot.entries@
            } else {
                Seq::empty()
            },
            None => Seq::empty(),
        }
    }

    /// Sums each identity once. CPU rates require matching native identities and increasing
    /// timestamps/counters. Newly visible members have no rate yet.
    #[must_use]
    pub fn totals(&self, previous: Option<&UsageSnapshot>) -> (totals: UsageTotals)
        ensures
            ({
                let members = measured(self.entries@);
                let earlier = self.comparable(
                    match previous {
                        Some(snapshot) => Some(*snapshot),
                        None => None,
                    },
                );
                &&& totals.resident_bytes.value == total(resident(members))
                &&& totals.resident_bytes.contributors == members.len()
                &&& totals.physical_footprint_bytes.value == total(footprints(members))
                &&& totals.physical_footprint_bytes.contributors == footprints(members).len()
                &&& totals.cpu_cores.contributors == intervals(members, earlier).len()
                &&& match totals.cpu_cores.value {
                    Some(cpu) => cpu@ == intervals(members, earlier) && cpu@.len() > 0,
                    None => intervals(members, earlier).len() == 0,
                }
            }),
    {
        let ghost earlier = self.comparable(
            match previous {
                Some(snapshot) => Some(*snapshot),
                None => None,
            },
        );
        let mut seen = Identities::new();
        let mut rss: Vec<u64> = Vec::new();
        let mut footprint: Vec<u64> = Vec::new();
        let mut cpu: Vec<CpuInterval> = Vec::new();
        let mut i: usize = 0;
        proof {
            assert(self.entries@.take(0) =~= Seq::empty());
            assert(resident(measured(self.entries@.take(0))) =~= Seq::empty());
        }
        while i < self.entries.len()
            invariant
                i <= self.entries@.len(),
                earlier == self.comparable(
                    match previous {
                        Some(snapshot) => Some(*snapshot),
                        None => None,
                    },
                ),
                forall|identity: ObservedProcessIdentity| #[trigger]
                    seen@.contains(identity) <==> exists|j: int|
                        0 <= j < i && (#[trigger] self.entries@[j]).identity == identity,
                rss@ == resident(measured(self.entries@.take(i as int))),
                footprint@ == footprints(measured(self.entries@.take(i as int))),
                cpu@ == intervals(measured(self.entries@.take(i as int)), earlier),
            decreases self.entries@.len() - i,
        {
            let entry = &self.entries[i];
            let ghost before = measured(self.entries@.take(i as int));
            let ghost known = seen@;
            proof {
                let prefix = self.entries@.take(i + 1);
                assert(prefix.drop_last() =~= self.entries@.take(i as int));
                assert(prefix.last() == self.entries@[i as int]);
                assert(first_of_identity(prefix, i as int) <==> !known.contains(
                    entry.identity,
                )) by {
                    if known.contains(entry.identity) {
                        let j = choose|j: int|
                            0 <= j < i && (#[trigger] self.entries@[j]).identity
                                == entry.identity;
                        assert(prefix[j] == self.entries@[j]);
                    } else {
                        assert forall|j: int| 0 <= j < i implies (#[trigger] prefix[j]).identity
                            != prefix[i as int].identity by {
                            assert(prefix[j] == self.entries@[j]);
                        }
                    }
                }
            }
            let new = seen.insert(entry.identity);
            proof {
                assert forall|other: ObservedProcessIdentity| #[trigger]
                    seen@.contains(other) <==> exists|j: int|
                        0 <= j < i + 1 && (#[trigger] self.entries@[j]).identity == other by {
                    if other == entry.identity {
                        assert(self.entries@[i as int].identity == other);
                    }
                    if seen@.contains(other) && other != entry.identity {
                        assert(known.contains(other));
                        let j = choose|j: int|
                            0 <= j < i && (#[trigger] self.entries@[j]).identity == other;
                        assert(self.entries@[j].identity == other);
                    }
                }
            }
            if new {
                if let Ok(now) = &entry.measurement {
                    let ghost after = before.push((entry.identity, *now));
                    proof {
                        assert(measured(self.entries@.take(i + 1)) == after);
                        assert(after.drop_last() =~= before);
                        assert(after.last() == (entry.identity, *now));
                        assert(resident(after) =~= resident(before).push(now.resident_bytes));
                    }
                    rss.push(now.resident_bytes);
                    if let Some(bytes) = now.physical_footprint_bytes {
                        footprint.push(bytes);
                    }
                    let old = match previous {
                        Some(snapshot) => if snapshot.selection == self.selection {
                            find_baseline(&snapshot.entries, entry.identity)
                        } else {
                            None
                        },
                        None => None,
                    };
                    assert(old == baseline(earlier, entry.identity));
                    if let Some(old) = old {
                        if let Some(interval) = interval_between(&old, now) {
                            cpu.push(interval);
                        }
                    }
                }
            }
            i = i + 1;
        }
        assert(self.entries@.take(i as int) =~= self.entries@);
        let contributors: usize = cpu.len();
        UsageTotals {
            resident_bytes: total_of(&rss),
            physical_footprint_bytes: total_of(&footprint),
            cpu_cores: UsageTotal {
                value: if contributors == 0 {
                    None
                } else {
                    Some(cpu)
                },
                contributors,
            },
        }
    }
}

/// The members to measure, each PID once.
pub open spec fn members_once(members: Seq<ObservedProcessIdentity>) -> Seq<ObservedProcessIdentity>
    decreases members.len(),
{
    if members.len() == 0 {
        Seq::empty()
    } else {
        let earlier = members_once(members.drop_last());
        if exists|j: int|
            0 <= j < members.len() - 1 && (#[trigger] members[j]).os_pid == members.last().os_pid {
            earlier
        } else {
            earlier.push(members.last())
        }
    }
}

/// The members that one collection measures: of several with one PID the first one.
#[must_use]
pub fn collect(members: Vec<ObservedProcessIdentity>) -> (selected: Vec<ObservedProcessIdentity>)
    ensures
        selected@ == members_once(members@),
{
    let mut seen: Table<()> = Table::new();
    let mut selected: Vec<ObservedProcessIdentity> = Vec::new();
    let mut i: usize = 0;
    assert(members@.take(0) =~= Seq::empty());
    while i < members.len()
        invariant
            i <= members@.len(),
            forall|key: u64| #[trigger]
                seen@.contains_key(key) <==> exists|j: int|
                    0 <= j < i && (#[trigger] members@[j]).os_pid as u64 == key,
            selected@ == members_once(members@.take(i as int)),
        decreases members@.len() - i,
    {
        let member = members[i];
        let key = member.os_pid as u64;
        let ghost known = seen@;
        let ghost prefix = members@.take(i + 1);
        proof {
            assert(prefix.drop_last() =~= members@.take(i as int));
            assert(prefix.last() == member);
            if known.contains_key(key) {
                let j = choose|j: int| 0 <= j < i && (#[trigger] members@[j]).os_pid as u64 == key;
                assert(prefix[j] == members@[j]);
            } else {
                assert forall|j: int| 0 <= j < i implies (#[trigger] prefix[j]).os_pid
                    != member.os_pid by {
                    assert(prefix[j] == members@[j]);
                }
            }
        }
        if seen.insert(key, ()).is_none() {
            selected.push(member);
        }
        proof {
            assert forall|other: u64| #[trigger]
                seen@.contains_key(other) <==> exists|j: int|
                    0 <= j < i + 1 && (#[trigger] members@[j]).os_pid as u64 == other by {
                if other == key {
                    assert(members@[i as int].os_pid as u64 == other);
                }
                if seen@.contains_key(other) && other != key {
                    assert(known.contains_key(other));
                    let j = choose|j: int|
                        0 <= j < i && (#[trigger] members@[j]).os_pid as u64 == other;
                    assert(members@[j].os_pid as u64 == other);
                }
            }
        }
        i = i + 1;
    }
    assert(members@.take(i as int) =~= members@);
    selected
}

} // verus!
