//! Resource usage of macOS processes.
use vstd::prelude::*;
use vstd::string::StringExecFns;
use crate::domain::time::{Duration, Instant};
use crate::observation::error::ObservationError;
use crate::observation::snapshot::ObservedProcessIdentity;
use crate::observation::usage::{ProcessUsage, UsageEntry, UsageFailure};

verus! {

/// How many PIDs the first listing of a process group has room for.
pub const FIRST_LISTING: usize = 64;

/// The most PIDs a listing of a process group may have room for.
pub const LARGEST_LISTING: usize = 1_048_576;

/// A version of the resource usage record.
#[derive(Debug, Clone, Copy, PartialEq, Eq, Structural)]
pub enum RusageFlavor {
    /// Version 0: CPU time and memory.
    V0,
    /// Version 2: disk traffic too.
    V2,
    /// Version 4: the peak footprint too.
    V4,
}

impl RusageFlavor {
    /// The version asked for first.
    #[must_use]
    pub fn newest() -> (flavor: Self)
        ensures
            flavor == RusageFlavor::V4,
    {
        RusageFlavor::V4
    }

    /// The version that is asked for after this one was refused.
    pub open spec fn fallback(self, unknown_version: bool) -> Option<Self> {
        if !unknown_version {
            None
        } else {
            match self {
                RusageFlavor::V4 => Some(RusageFlavor::V2),
                RusageFlavor::V2 => Some(RusageFlavor::V0),
                RusageFlavor::V0 => None,
            }
        }
    }

    /// The version to ask for after this one was refused. Only a kernel that does not know the
    /// version is asked for an older one.
    #[must_use]
    pub fn after_refusal(self, unknown_version: bool) -> (next: Option<Self>)
        ensures
            next == (if !unknown_version {
                None
            } else {
                match self {
                    RusageFlavor::V4 => Some(RusageFlavor::V2),
                    RusageFlavor::V2 => Some(RusageFlavor::V0),
                    RusageFlavor::V0 => None,
                }
            }),
            next == self.fallback(unknown_version),
    {
        if !unknown_version {
            return None;
        }
        match self {
            RusageFlavor::V4 => Some(RusageFlavor::V2),
            RusageFlavor::V2 => Some(RusageFlavor::V0),
            RusageFlavor::V0 => None,
        }
    }

    /// The number under which the kernel knows the version.
    #[must_use]
    pub fn number(self) -> (number: i32)
        ensures
            number == (match self {
                RusageFlavor::V0 => 0,
                RusageFlavor::V2 => 2,
                RusageFlavor::V4 => 4int,
            }),
    {
        match self {
            RusageFlavor::V0 => 0,
            RusageFlavor::V2 => 2,
            RusageFlavor::V4 => 4,
        }
    }
}

/// When a process was started.
#[derive(Debug, Clone, Copy, PartialEq, Eq, Structural)]
pub struct BsdStart {
    /// Seconds since the Unix epoch.
    pub seconds: u64,
    /// Microseconds.
    pub micros: u64,
}

/// A start time as one number, in microseconds, at most the largest one.
pub open spec fn token_of(start: BsdStart) -> u64 {
    if start.seconds * 1_000_000 + start.micros > u64::MAX {
        u64::MAX
    } else {
        (start.seconds * 1_000_000 + start.micros) as u64
    }
}

impl BsdStart {
    /// The start time as one number, in microseconds, at most the largest one.
    #[must_use]
    pub fn token(self) -> (token: u64)
        ensures
            token == (if self.seconds * 1_000_000 + self.micros > u64::MAX {
                u64::MAX
            } else {
                (self.seconds * 1_000_000 + self.micros) as u64
            }),
            token == token_of(self),
    {
        match self.seconds.checked_mul(1_000_000) {
            None => u64::MAX,
            Some(whole) => match whole.checked_add(self.micros) {
                Some(token) => token,
                None => u64::MAX,
            },
        }
    }
}

fn unavailable(cause: &str) -> (failure: UsageFailure)
    ensures
        failure matches UsageFailure::Unavailable(text) && text@ == cause@,
{
    UsageFailure::Unavailable(String::from_str(cause))
}

/// CPU time in nanoseconds, or why it cannot be told.
pub open spec fn cpu_nanos(user: u64, system: u64, numer: u32, denom: u32) -> Result<
    u64,
    Seq<char>,
> {
    if denom == 0 {
        Err("invalid Mach timebase"@)
    } else if (user + system) * numer / (denom as int) > u64::MAX {
        Err("out of range integral type conversion attempted"@)
    } else {
        Ok(((user + system) * numer / (denom as int)) as u64)
    }
}

/// Turns user and system time, in Mach time units, into nanoseconds.
///
/// # Errors
/// Returns [`UsageFailure::Unavailable`] for a timebase that makes no sense and for a time that
/// is out of range.
pub fn nanos(user: u64, system: u64, numer: u32, denom: u32) -> (nanos: Result<u64, UsageFailure>)
    ensures
        crate::platform::procfs::measured_as(nanos, cpu_nanos(user, system, numer, denom)),
{
    if denom == 0 {
        return Err(unavailable("invalid Mach timebase"));
    }
    let units: u128 = user as u128 + system as u128;
    proof {
        assert(units * numer <= 0x1_ffff_ffff_ffff_fffe * 0xffff_ffff) by (nonlinear_arith)
            requires
                units <= 0x1_ffff_ffff_ffff_fffe,
                numer <= 0xffff_ffff,
        ;
    }
    let total: u128 = units * numer as u128 / denom as u128;
    if total > u64::MAX as u128 {
        return Err(unavailable("out of range integral type conversion attempted"));
    }
    Ok(total as u64)
}

/// The PID under which the kernel is asked for a process.
///
/// # Errors
/// Returns [`UsageFailure::Unavailable`] for zero and for a PID that is out of range.
pub fn observed_pid(identity: ObservedProcessIdentity) -> (pid: Result<i32, UsageFailure>)
    ensures
        match pid {
            Ok(native) => 0 < identity.os_pid <= 0x7fff_ffff && native == identity.os_pid,
            Err(UsageFailure::Unavailable(cause)) => {
                ||| identity.os_pid == 0 && cause@ == "invalid PID"@
                ||| identity.os_pid > 0x7fff_ffff && cause@
                    == "out of range integral type conversion attempted"@
            },
            Err(_) => false,
        },
{
    if identity.os_pid > 0x7fff_ffff {
        return Err(unavailable("out of range integral type conversion attempted"));
    }
    if identity.os_pid == 0 {
        return Err(unavailable("invalid PID"));
    }
    Ok(identity.os_pid as i32)
}

/// The counters of a resource usage record.
#[derive(Debug, Clone, Copy, PartialEq, Eq, Structural)]
pub struct RusageCounters {
    /// User time, in Mach time units.
    pub user: u64,
    /// System time, in Mach time units.
    pub system: u64,
    /// When the process was started, in Mach time units.
    pub native_start: u64,
    /// Resident memory, in bytes.
    pub resident: u64,
    /// Physical footprint, in bytes.
    pub footprint: u64,
    /// Peak physical footprint, in bytes.
    pub peak_footprint: u64,
    /// Bytes read from disk.
    pub disk_read: u64,
    /// Bytes written to disk.
    pub disk_write: u64,
}

/// What was read of a process for one usage measurement.
#[derive(Debug, Clone, Copy)]
pub struct MacReading {
    /// The start time, before anything else was read.
    pub before: BsdStart,
    /// The counters.
    pub counters: RusageCounters,
    /// The version of the record that the counters come from.
    pub flavor: RusageFlavor,
    /// When the counters were read.
    pub sampled_at: Instant,
    /// The start time, after everything else was read.
    pub after: BsdStart,
    /// Numerator and denominator of the Mach time unit in nanoseconds, if they could be read.
    pub timebase: Option<(u32, u32)>,
}

/// Whether a process started at `start` can be the one of `identity`.
pub open spec fn started_at(identity: ObservedProcessIdentity, start: BsdStart) -> bool {
    identity.start_time_unix_seconds matches Some(seconds) ==> seconds == start.seconds
}

/// Checks that a process started at `start` can be the one of `identity`.
///
/// # Errors
/// Returns [`UsageFailure::IdentityChanged`] if it cannot.
pub fn check_start(identity: ObservedProcessIdentity, start: BsdStart) -> (checked: Result<
    (),
    UsageFailure,
>)
    ensures
        checked == (if started_at(identity, start) {
            Ok(())
        } else {
            Err(UsageFailure::IdentityChanged)
        }),
{
    match identity.start_time_unix_seconds {
        Some(seconds) => if seconds == start.seconds {
            Ok(())
        } else {
            Err(UsageFailure::IdentityChanged)
        },
        None => Ok(()),
    }
}

/// The measurement that a reading makes, if the PID did not change hands and all could be read.
pub open spec fn mac_measured(identity: ObservedProcessIdentity, reading: MacReading) -> Option<
    ProcessUsage,
> {
    if !started_at(identity, reading.before) || reading.before != reading.after
        || reading.timebase is None {
        None
    } else {
        let (numer, denom) = reading.timebase->0;
        match cpu_nanos(reading.counters.user, reading.counters.system, numer, denom) {
            Err(_) => None,
            Ok(cpu) => Some(
                ProcessUsage {
                    identity,
                    native_start: reading.counters.native_start,
                    sampled_at: reading.sampled_at,
                    cpu_time: Duration { nanos: cpu as u128 },
                    resident_bytes: reading.counters.resident,
                    physical_footprint_bytes: Some(reading.counters.footprint),
                    peak_physical_footprint_bytes: if reading.flavor is V4 {
                        Some(reading.counters.peak_footprint)
                    } else {
                        None
                    },
                    disk_read_bytes: if reading.flavor is V0 {
                        None
                    } else {
                        Some(reading.counters.disk_read)
                    },
                    disk_write_bytes: if reading.flavor is V0 {
                        None
                    } else {
                        Some(reading.counters.disk_write)
                    },
                },
            ),
        }
    }
}

/// Puts a usage measurement together. What the version of the record does not hold stays
/// unknown.
///
/// # Errors
/// Returns [`UsageFailure::IdentityChanged`] if the PID changed hands, and
/// [`UsageFailure::Unavailable`] if the CPU time cannot be told.
pub fn mac_usage(identity: ObservedProcessIdentity, reading: MacReading) -> (usage: Result<
    ProcessUsage,
    UsageFailure,
>)
    ensures
        if !started_at(identity, reading.before) || reading.before != reading.after {
            usage == Err::<ProcessUsage, _>(UsageFailure::IdentityChanged)
        } else if reading.timebase is None {
            usage matches Err(UsageFailure::Unavailable(cause)) && cause@
                == "Mach timebase query failed"@
        } else {
            let (numer, denom) = reading.timebase->0;
            match cpu_nanos(reading.counters.user, reading.counters.system, numer, denom) {
                Err(wanted) => usage matches Err(UsageFailure::Unavailable(cause)) && cause@
                    == wanted,
                Ok(cpu) => usage == Ok::<_, UsageFailure>(
                    ProcessUsage {
                        identity,
                        native_start: reading.counters.native_start,
                        sampled_at: reading.sampled_at,
                        cpu_time: Duration { nanos: cpu as u128 },
                        resident_bytes: reading.counters.resident,
                        physical_footprint_bytes: Some(reading.counters.footprint),
                        peak_physical_footprint_bytes: if reading.flavor is V4 {
                            Some(reading.counters.peak_footprint)
                        } else {
                            None
                        },
                        disk_read_bytes: if reading.flavor is V0 {
                            None
                        } else {
                            Some(reading.counters.disk_read)
                        },
                        disk_write_bytes: if reading.flavor is V0 {
                            None
                        } else {
                            Some(reading.counters.disk_write)
                        },
                    },
                ),
            }
        },
        usage is Ok <==> mac_measured(identity, reading) is Some,
        usage matches Ok(told) ==> mac_measured(identity, reading) == Some(told),
{
    match check_start(identity, reading.before) {
        Ok(()) => {},
        Err(failure) => {
            return Err(failure);
        },
    }
    if reading.before != reading.after {
        return Err(UsageFailure::IdentityChanged);
    }
    let (numer, denom) = match reading.timebase {
        Some(pair) => pair,
        None => {
            return Err(unavailable("Mach timebase query failed"));
        },
    };
    let cpu = match nanos(reading.counters.user, reading.counters.system, numer, denom) {
        Ok(cpu) => cpu,
        Err(failure) => {
            return Err(failure);
        },
    };
    let (peak, disk) = match reading.flavor {
        RusageFlavor::V0 => (false, false),
        RusageFlavor::V2 => (false, true),
        RusageFlavor::V4 => (true, true),
    };
    Ok(
        ProcessUsage {
            identity,
            native_start: reading.counters.native_start,
            sampled_at: reading.sampled_at,
            cpu_time: Duration::from_nanos(cpu),
            resident_bytes: reading.counters.resident,
            physical_footprint_bytes: Some(reading.counters.footprint),
            peak_physical_footprint_bytes: if peak {
                Some(reading.counters.peak_footprint)
            } else {
                None
            },
            disk_read_bytes: if disk {
                Some(reading.counters.disk_read)
            } else {
                None
            },
            disk_write_bytes: if disk {
                Some(reading.counters.disk_write)
            } else {
                None
            },
        },
    )
}

/// A listing of the members of a process group. Members are never silently cut off.
#[derive(Debug, Clone, Copy, PartialEq, Eq, Structural)]
pub struct GroupListing {
    capacity: usize,
}

impl GroupListing {
    /// How many PIDs the listing has room for.
    pub closed spec fn room(self) -> usize {
        self.capacity
    }

    /// A listing that was not tried yet.
    #[must_use]
    pub fn new() -> (listing: Self)
        ensures
            listing.room() == FIRST_LISTING,
    {
        GroupListing { capacity: FIRST_LISTING }
    }

    /// How many PIDs the listing has room for.
    #[must_use]
    pub fn capacity(&self) -> (capacity: usize)
        ensures
            capacity == self.room(),
    {
        self.capacity
    }

    /// Takes note that the kernel filled in `count` PIDs. Whether the listing is complete: a full
    /// buffer may have cut members off, so the listing is tried again with twice the room.
    ///
    /// # Errors
    /// Returns [`ObservationError::Backend`] if that would be too large.
    pub fn filled(&mut self, count: usize) -> (complete: Result<bool, ObservationError>)
        requires
            old(self).room() <= LARGEST_LISTING,
        ensures
            if count < old(self).room() {
                complete == Ok::<_, ObservationError>(true) && *final(self) == *old(self)
            } else if old(self).room() * 2 > LARGEST_LISTING {
                &&& complete matches Err(ObservationError::Backend(told))
                &&& told@ == "PID list exceeds sampling bound"@
                &&& *final(self) == *old(self)
            } else {
                complete == Ok::<_, ObservationError>(false) && final(self).room()
                    == old(self).room() * 2
            },
            final(self).room() <= LARGEST_LISTING,
    {
        if count < self.capacity {
            return Ok(true);
        }
        if self.capacity * 2 > LARGEST_LISTING {
            return Err(
                ObservationError::Backend(String::from_str("PID list exceeds sampling bound")),
            );
        }
        self.capacity = self.capacity * 2;
        Ok(false)
    }
}

/// An entry of a member that is in group `of` by now, listed for group `pgid`.
pub open spec fn confirmed_entry(entry: UsageEntry, of: i32, pgid: i32) -> UsageEntry {
    if of == pgid {
        entry
    } else {
        UsageEntry {
            identity: entry.identity,
            measurement: Err(UsageFailure::IdentityChanged),
        }
    }
}

/// The members of group `pgid` among `pids`, without its leader.
pub open spec fn members_of(pids: Seq<i32>, pgid: i32) -> Seq<ObservedProcessIdentity>
    decreases pids.len(),
{
    if pids.len() == 0 {
        Seq::empty()
    } else {
        let earlier = members_of(pids.drop_last(), pgid);
        if pids.last() > 0 && pids.last() != pgid {
            earlier.push(
                ObservedProcessIdentity {
                    os_pid: pids.last() as u32,
                    start_time_unix_seconds: None,
                },
            )
        } else {
            earlier
        }
    }
}

/// The processes to measure for a group: every listed one except the leader, which pins the
/// group.
#[must_use]
pub fn group_members(pids: &Vec<i32>, pgid: i32) -> (members: Vec<ObservedProcessIdentity>)
    ensures
        members@ == members_of(pids@, pgid),
{
    let mut members: Vec<ObservedProcessIdentity> = Vec::new();
    let mut i: usize = 0;
    assert(pids@.take(0) =~= Seq::empty());
    while i < pids.len()
        invariant
            i <= pids@.len(),
            members@ == members_of(pids@.take(i as int), pgid),
        decreases pids@.len() - i,
    {
        let pid: i32 = pids[i];
        assert(pids@.take(i + 1).drop_last() =~= pids@.take(i as int));
        if pid > 0 && pid != pgid {
            members.push(
                ObservedProcessIdentity { os_pid: pid as u32, start_time_unix_seconds: None },
            );
        }
        i = i + 1;
    }
    assert(pids@.take(i as int) =~= pids@);
    members
}

/// Drops the measurements of processes that are not in group `pgid` after all: `groups` holds the
/// group of each entry, read after it was measured.
pub fn confirm_group(entries: &mut Vec<UsageEntry>, groups: &Vec<i32>, pgid: i32)
    requires
        old(entries)@.len() == groups@.len(),
    ensures
        final(entries)@.len() == old(entries)@.len(),
        forall|i: int|
            0 <= i < groups@.len() ==> #[trigger] final(entries)@[i] == (if groups@[i] == pgid {
                old(entries)@[i]
            } else {
                UsageEntry {
                    identity: old(entries)@[i].identity,
                    measurement: Err(UsageFailure::IdentityChanged),
                }
            }),
        forall|i: int|
            0 <= i < groups@.len() ==> #[trigger] final(entries)@[i] == confirmed_entry(
                old(entries)@[i],
                groups@[i],
                pgid,
            ),
{
    let mut i: usize = 0;
    while i < entries.len()
        invariant
            i <= entries@.len(),
            entries@.len() == groups@.len(),
            entries@.len() == old(entries)@.len(),
            forall|j: int| i <= j < entries@.len() ==> entries@[j] == old(entries)@[j],
            forall|j: int|
                0 <= j < i ==> #[trigger] entries@[j] == (if groups@[j] == pgid {
                    old(entries)@[j]
                } else {
                    UsageEntry {
                        identity: old(entries)@[j].identity,
                        measurement: Err(UsageFailure::IdentityChanged),
                    }
                }),
        decreases entries@.len() - i,
    {
        if groups[i] != pgid {
            let identity = entries[i].identity;
            entries.set(
                i,
                UsageEntry { identity, measurement: Err(UsageFailure::IdentityChanged) },
            );
        }
        i = i + 1;
    }
}

} // verus!
