//! What the files of a Linux process directory say.
use vstd::prelude::*;
use vstd::string::StringExecFns;
use crate::domain::stats::{ProcessState, RawStats};
use crate::domain::time::{Duration, Instant};
use crate::observation::snapshot::ObservedProcessIdentity;
use crate::observation::usage::{ProcessUsage, UsageFailure};
use crate::platform::text::{
    chars_of, find_field, parse_number, read_number, split_after_last, split_lines, split_words,
    strip_prefix, trim, NumberFailure,
};
use crate::supervision::error::StatsError;

verus! {

/// Place of the user time behind the command name of a `stat` file.
pub const USER_TIME_FIELD: usize = 11;

/// Place of the system time behind the command name of a `stat` file.
pub const SYSTEM_TIME_FIELD: usize = 12;

/// Place of the start time behind the command name of a `stat` file.
pub const START_TIME_FIELD: usize = 19;

/// The fields behind the command name of a `stat` file. The name stands in brackets and may
/// itself hold brackets and white space.
pub open spec fn stat_fields(stat: Seq<char>) -> Option<Seq<Seq<char>>> {
    match crate::platform::text::after_last(stat, ')') {
        Some(rest) => Some(crate::platform::text::words(rest)),
        None => None,
    }
}

fn split_stat(stat: &str) -> (fields: Option<Vec<Vec<char>>>)
    ensures
        match fields {
            Some(found) => stat_fields(stat@) == Some(crate::platform::text::views(found@)),
            None => stat_fields(stat@) is None,
        },
{
    let chars: Vec<char> = chars_of(stat);
    match split_after_last(&chars, ')') {
        Some(rest) => Some(split_words(&rest)),
        None => None,
    }
}

/// The number in field `at`.
pub open spec fn stat_number(fields: Seq<Seq<char>>, at: nat) -> Option<u64> {
    if at < fields.len() {
        crate::platform::text::number(fields[at as int])
    } else {
        None
    }
}

fn field_number(fields: &Vec<Vec<char>>, at: usize) -> (value: Option<u64>)
    ensures
        value == stat_number(crate::platform::text::views(fields@), at as nat),
{
    if at < fields.len() {
        assert(crate::platform::text::views(fields@)[at as int] == fields@[at as int]@);
        parse_number(&fields[at])
    } else {
        None
    }
}

/// The start time that a `stat` file reports, in clock ticks since boot.
pub open spec fn start_time(stat: Seq<char>) -> Option<u64> {
    match stat_fields(stat) {
        Some(fields) => stat_number(fields, START_TIME_FIELD as nat),
        None => None,
    }
}

/// Reads the start time of a `stat` file.
#[must_use]
pub fn read_start_time(stat: &str) -> (start: Option<u64>)
    ensures
        start == start_time(stat@),
{
    match split_stat(stat) {
        Some(fields) => field_number(&fields, START_TIME_FIELD),
        None => None,
    }
}

/// The CPU time that a `stat` file reports, in clock ticks: user and system time together, at
/// most the largest count.
pub open spec fn cpu_ticks(stat: Seq<char>) -> Option<u64> {
    match stat_fields(stat) {
        Some(fields) => match (
            stat_number(fields, USER_TIME_FIELD as nat),
            stat_number(fields, SYSTEM_TIME_FIELD as nat),
        ) {
            (Some(user), Some(system)) => Some(
                if user + system > u64::MAX {
                    u64::MAX
                } else {
                    (user + system) as u64
                },
            ),
            _ => None,
        },
        None => None,
    }
}

/// Reads the CPU time of a `stat` file.
///
/// # Errors
/// Returns [`StatsError::Backend`] for a file without a command name or without the counters.
pub fn read_cpu_ticks(stat: &str) -> (ticks: Result<u64, StatsError>)
    ensures
        match ticks {
            Ok(count) => cpu_ticks(stat@) == Some(count),
            Err(StatsError::Backend(cause)) => {
                &&& cpu_ticks(stat@) is None
                &&& cause@ == (if stat_fields(stat@) is None {
                    "invalid proc stat"@
                } else {
                    "invalid CPU counters"@
                })
            },
            Err(_) => false,
        },
{
    match split_stat(stat) {
        None => Err(StatsError::Backend(String::from_str("invalid proc stat"))),
        Some(fields) => match (
            field_number(&fields, USER_TIME_FIELD),
            field_number(&fields, SYSTEM_TIME_FIELD),
        ) {
            (Some(user), Some(system)) => Ok(
                match user.checked_add(system) {
                    Some(sum) => sum,
                    None => u64::MAX,
                },
            ),
            _ => Err(StatsError::Backend(String::from_str("invalid CPU counters"))),
        },
    }
}

/// The number in field `at`, or why there is none.
pub open spec fn strict_number(fields: Seq<Seq<char>>, at: nat) -> Result<u64, Seq<char>> {
    if at >= fields.len() {
        Err("short stat"@)
    } else {
        match crate::platform::text::numeral(fields[at as int]) {
            Ok(value) => Ok(value),
            Err(failure) => Err(failure.text()),
        }
    }
}

/// Start time and CPU time of a `stat` file, in clock ticks, or why they cannot be told.
pub open spec fn stat_times(stat: Seq<char>) -> Result<(u64, u64), Seq<char>> {
    match stat_fields(stat) {
        None => Err("invalid stat"@),
        Some(fields) => match strict_number(fields, START_TIME_FIELD as nat) {
            Err(cause) => Err(cause),
            Ok(start) => match strict_number(fields, USER_TIME_FIELD as nat) {
                Err(cause) => Err(cause),
                Ok(user) => match strict_number(fields, SYSTEM_TIME_FIELD as nat) {
                    Err(cause) => Err(cause),
                    Ok(system) => if user + system > u64::MAX {
                        Err("CPU overflow"@)
                    } else {
                        Ok((start, (user + system) as u64))
                    },
                },
            },
        },
    }
}

/// `result` is `expected`, with a failure told as an unavailable measurement.
pub open spec fn measured_as<T>(
    result: Result<T, UsageFailure>,
    expected: Result<T, Seq<char>>,
) -> bool {
    match (result, expected) {
        (Ok(value), Ok(wanted)) => value == wanted,
        (Err(UsageFailure::Unavailable(cause)), Err(wanted)) => cause@ == wanted,
        _ => false,
    }
}

fn unavailable(cause: &str) -> (failure: UsageFailure)
    ensures
        failure matches UsageFailure::Unavailable(text) && text@ == cause@,
{
    UsageFailure::Unavailable(String::from_str(cause))
}

fn number_unavailable(failure: NumberFailure) -> (told: UsageFailure)
    ensures
        told matches UsageFailure::Unavailable(text) && text@ == failure.text(),
{
    UsageFailure::Unavailable(failure.message())
}

fn strict_field(fields: &Vec<Vec<char>>, at: usize) -> (value: Result<u64, UsageFailure>)
    ensures
        measured_as(value, strict_number(crate::platform::text::views(fields@), at as nat)),
{
    if at >= fields.len() {
        return Err(unavailable("short stat"));
    }
    assert(crate::platform::text::views(fields@)[at as int] == fields@[at as int]@);
    match read_number(&fields[at]) {
        Ok(value) => Ok(value),
        Err(failure) => Err(number_unavailable(failure)),
    }
}

/// Reads start time and CPU time of a `stat` file, in clock ticks.
///
/// # Errors
/// Returns [`UsageFailure::Unavailable`] for a file that does not tell them.
pub fn read_stat_times(stat: &str) -> (times: Result<(u64, u64), UsageFailure>)
    ensures
        measured_as(times, stat_times(stat@)),
{
    match split_stat(stat) {
        None => Err(unavailable("invalid stat")),
        Some(fields) => {
            let start = match strict_field(&fields, START_TIME_FIELD) {
                Ok(start) => start,
                Err(failure) => {
                    return Err(failure);
                },
            };
            let user = match strict_field(&fields, USER_TIME_FIELD) {
                Ok(user) => user,
                Err(failure) => {
                    return Err(failure);
                },
            };
            let system = match strict_field(&fields, SYSTEM_TIME_FIELD) {
                Ok(system) => system,
                Err(failure) => {
                    return Err(failure);
                },
            };
            match user.checked_add(system) {
                Some(ticks) => Ok((start, ticks)),
                None => Err(unavailable("CPU overflow")),
            }
        },
    }
}

/// The first word of a field, read as a number of kibibytes, in bytes. A field without a
/// number counts as zero.
pub open spec fn kibibytes(field: Seq<char>) -> nat {
    let parts = crate::platform::text::words(field);
    if parts.len() > 0 {
        match crate::platform::text::number(parts[0]) {
            Some(count) => (count * 1024) as nat,
            None => 0,
        }
    } else {
        0
    }
}

fn field_bytes(field: &Vec<char>) -> (bytes: Option<u64>)
    ensures
        bytes == (if kibibytes(field@) > u64::MAX {
            None
        } else {
            Some(kibibytes(field@) as u64)
        }),
{
    let parts: Vec<Vec<char>> = split_words(field);
    if parts.len() == 0 {
        return Some(0);
    }
    assert(crate::platform::text::views(parts@)[0] == parts@[0]@);
    match parse_number(&parts[0]) {
        Some(count) => count.checked_mul(1024),
        None => Some(0),
    }
}

/// Reads the value of a field in kibibytes, in bytes, or `None` if that is out of range.
#[must_use]
pub fn parse_kb(field: &str) -> (bytes: Option<u64>)
    ensures
        bytes == (if kibibytes(field@) > u64::MAX {
            None
        } else {
            Some(kibibytes(field@) as u64)
        }),
{
    field_bytes(&chars_of(field))
}

/// The run-state that a state letter stands for.
pub open spec fn state_of(field: Seq<char>) -> ProcessState {
    if field.len() == 0 {
        ProcessState::Unknown
    } else if field[0] == 'R' {
        ProcessState::Running
    } else if field[0] == 'S' || field[0] == 'D' {
        ProcessState::Sleeping
    } else if field[0] == 'T' {
        ProcessState::Stopped
    } else if field[0] == 'Z' {
        ProcessState::Zombie
    } else {
        ProcessState::Unknown
    }
}

fn state_letter(field: &Vec<char>) -> (state: ProcessState)
    ensures
        state == state_of(field@),
{
    if field.len() == 0 {
        return ProcessState::Unknown;
    }
    match field[0] {
        'R' => ProcessState::Running,
        'S' | 'D' => ProcessState::Sleeping,
        'T' => ProcessState::Stopped,
        'Z' => ProcessState::Zombie,
        _ => ProcessState::Unknown,
    }
}

/// Reads the run-state of a process from its state letter.
#[must_use]
pub fn parse_state(field: &str) -> (state: ProcessState)
    ensures
        state == state_of(field@),
{
    state_letter(&chars_of(field))
}

/// What a `status` file says of a process.
#[derive(Debug, Clone, Copy, PartialEq, Eq, Structural)]
pub struct ProcStatus {
    /// Resident set size, in bytes.
    pub rss: u64,
    /// Virtual memory size, in bytes.
    pub vsize: Option<u64>,
    /// Peak resident set size, in bytes.
    pub peak: Option<u64>,
    /// Run-state.
    pub state: ProcessState,
}

/// What the lines of a `status` file say so far; a later line overrides an earlier one. `None`
/// once a size is out of range.
pub open spec fn status_of(all: Seq<Seq<char>>) -> Option<ProcStatus>
    decreases all.len(),
{
    if all.len() == 0 {
        Some(ProcStatus { rss: 0, vsize: None, peak: None, state: ProcessState::Unknown })
    } else {
        match status_of(all.drop_last()) {
            None => None,
            Some(earlier) => {
                let line = all.last();
                if let Some(rest) = crate::platform::text::after_prefix(line, "VmRSS:"@) {
                    if kibibytes(rest) > u64::MAX {
                        None
                    } else {
                        Some(ProcStatus { rss: kibibytes(rest) as u64, ..earlier })
                    }
                } else if let Some(rest) = crate::platform::text::after_prefix(line, "VmSize:"@) {
                    if kibibytes(rest) > u64::MAX {
                        None
                    } else {
                        Some(ProcStatus { vsize: Some(kibibytes(rest) as u64), ..earlier })
                    }
                } else if let Some(rest) = crate::platform::text::after_prefix(line, "VmHWM:"@) {
                    if kibibytes(rest) > u64::MAX {
                        None
                    } else {
                        Some(ProcStatus { peak: Some(kibibytes(rest) as u64), ..earlier })
                    }
                } else if let Some(rest) = crate::platform::text::after_prefix(line, "State:"@) {
                    Some(
                        ProcStatus {
                            state: state_of(crate::platform::text::trimmed(rest)),
                            ..earlier
                        },
                    )
                } else {
                    Some(earlier)
                }
            },
        }
    }
}

/// A line that puts a size out of range decides for the whole file.
proof fn lemma_status_fails(all: Seq<Seq<char>>, n: int)
    requires
        0 <= n <= all.len(),
        status_of(all.take(n)) is None,
    ensures
        status_of(all) is None,
    decreases all.len() - n,
{
    if n < all.len() {
        assert(all.take(n + 1).drop_last() =~= all.take(n));
        lemma_status_fails(all, n + 1);
    } else {
        assert(all.take(n) =~= all);
    }
}

fn status_line(earlier: ProcStatus, line: &Vec<char>) -> (status: Option<ProcStatus>)
    ensures
        forall|all: Seq<Seq<char>>|
            all.len() > 0 && all.last() == line@ && status_of(all.drop_last()) == Some(earlier)
                ==> #[trigger] status_of(all) == status,
{
    if let Some(rest) = strip_prefix(line, "VmRSS:") {
        match field_bytes(&rest) {
            Some(rss) => Some(ProcStatus { rss, ..earlier }),
            None => None,
        }
    } else if let Some(rest) = strip_prefix(line, "VmSize:") {
        match field_bytes(&rest) {
            Some(bytes) => Some(ProcStatus { vsize: Some(bytes), ..earlier }),
            None => None,
        }
    } else if let Some(rest) = strip_prefix(line, "VmHWM:") {
        match field_bytes(&rest) {
            Some(bytes) => Some(ProcStatus { peak: Some(bytes), ..earlier }),
            None => None,
        }
    } else if let Some(rest) = strip_prefix(line, "State:") {
        let letter: Vec<char> = trim(&rest);
        Some(ProcStatus { state: state_letter(&letter), ..earlier })
    } else {
        Some(earlier)
    }
}

/// Reads a `status` file, or `None` if it holds a size that is out of range.
#[must_use]
pub fn parse_status(status: &str) -> (parsed: Option<ProcStatus>)
    ensures
        parsed == status_of(crate::platform::text::lines(status@)),
{
    let all: Vec<Vec<char>> = split_lines(&chars_of(status));
    let ghost texts = crate::platform::text::views(all@);
    let mut parsed = ProcStatus {
        rss: 0,
        vsize: None,
        peak: None,
        state: ProcessState::Unknown,
    };
    let mut i: usize = 0;
    assert(texts.take(0) =~= Seq::empty());
    while i < all.len()
        invariant
            i <= all@.len(),
            texts == crate::platform::text::views(all@),
            texts == crate::platform::text::lines(status@),
            status_of(texts.take(i as int)) == Some(parsed),
        decreases all@.len() - i,
    {
        let ghost prefix = texts.take(i + 1);
        proof {
            assert(prefix.drop_last() =~= texts.take(i as int));
            assert(prefix.last() == all@[i as int]@);
        }
        match status_line(parsed, &all[i]) {
            Some(next) => {
                assert(status_of(prefix) == Some(next));
                parsed = next;
            },
            None => {
                proof {
                    assert(status_of(prefix) is None);
                    lemma_status_fails(texts, i + 1);
                }
                return None;
            },
        }
        i = i + 1;
    }
    assert(texts.take(i as int) =~= texts);
    Some(parsed)
}

/// The number behind `key` on the first line of an `io` file that starts with it.
pub open spec fn io_field(io: Seq<char>, key: Seq<char>) -> Option<u64> {
    match crate::platform::text::first_field(crate::platform::text::lines(io), key) {
        Some(rest) => crate::platform::text::number(crate::platform::text::trimmed(rest)),
        None => None,
    }
}

/// Reads one counter of an `io` file.
#[must_use]
pub fn read_io_field(io: &str, key: &str) -> (value: Option<u64>)
    ensures
        value == io_field(io@, key@),
{
    let all: Vec<Vec<char>> = split_lines(&chars_of(io));
    match find_field(&all, key) {
        Some(rest) => parse_number(&trim(&rest)),
        None => None,
    }
}

/// The sample that a `status` and an `io` file make up, without CPU usage.
pub open spec fn sample_of(status: Seq<char>, io: Seq<char>) -> Option<RawStats> {
    match status_of(crate::platform::text::lines(status)) {
        Some(parsed) => Some(
            RawStats {
                cpu_usage: None,
                memory_rss_bytes: parsed.rss,
                virtual_memory_bytes: parsed.vsize,
                peak_rss_bytes: parsed.peak,
                io_read_bytes: io_field(io, "read_bytes:"@),
                io_write_bytes: io_field(io, "write_bytes:"@),
                descendant_count: None,
                state: parsed.state,
            },
        ),
        None => None,
    }
}

/// Puts a sample together from the `status` and the `io` file of a process.
///
/// # Errors
/// Returns [`StatsError::Backend`] if a memory size is out of range.
pub fn sample_process(status: &str, io: &str) -> (sample: Result<RawStats, StatsError>)
    ensures
        match sample {
            Ok(raw) => sample_of(status@, io@) == Some(raw),
            Err(StatsError::Backend(cause)) => sample_of(status@, io@) is None && cause@
                == "memory size out of range"@,
            Err(_) => false,
        },
{
    match parse_status(status) {
        None => Err(StatsError::Backend(String::from_str("memory size out of range"))),
        Some(parsed) => Ok(
            RawStats {
                cpu_usage: None,
                memory_rss_bytes: parsed.rss,
                virtual_memory_bytes: parsed.vsize,
                peak_rss_bytes: parsed.peak,
                io_read_bytes: read_io_field(io, "read_bytes:"),
                io_write_bytes: read_io_field(io, "write_bytes:"),
                descendant_count: None,
                state: parsed.state,
            },
        ),
    }
}

/// The resident memory that a `status` file reports, in bytes, or why it cannot be told.
pub open spec fn resident_memory(status: Seq<char>) -> Result<u64, Seq<char>> {
    match crate::platform::text::first_field(
        crate::platform::text::lines(status),
        "VmRSS:"@,
    ) {
        None => Err("resident memory unavailable"@),
        Some(rest) => {
            let parts = crate::platform::text::words(rest);
            if parts.len() == 0 {
                Err("resident memory unavailable"@)
            } else {
                match crate::platform::text::numeral(parts[0]) {
                    Err(failure) => Err(failure.text()),
                    Ok(count) => if count * 1024 > u64::MAX {
                        Err("RSS overflow"@)
                    } else {
                        Ok((count * 1024) as u64)
                    },
                }
            }
        },
    }
}

/// Reads the resident memory of a `status` file, in bytes.
///
/// # Errors
/// Returns [`UsageFailure::Unavailable`] for a file that does not tell it.
pub fn read_resident_memory(status: &str) -> (bytes: Result<u64, UsageFailure>)
    ensures
        measured_as(bytes, resident_memory(status@)),
{
    let all: Vec<Vec<char>> = split_lines(&chars_of(status));
    match find_field(&all, "VmRSS:") {
        None => Err(unavailable("resident memory unavailable")),
        Some(rest) => {
            let parts: Vec<Vec<char>> = split_words(&rest);
            if parts.len() == 0 {
                return Err(unavailable("resident memory unavailable"));
            }
            assert(crate::platform::text::views(parts@)[0] == parts@[0]@);
            match read_number(&parts[0]) {
                Err(failure) => Err(number_unavailable(failure)),
                Ok(count) => match count.checked_mul(1024) {
                    Some(bytes) => Ok(bytes),
                    None => Err(unavailable("RSS overflow")),
                },
            }
        },
    }
}

/// The boot time that the kernel's `stat` file reports, in seconds since the Unix epoch, or why
/// it cannot be told.
pub open spec fn boot_time(kernel: Seq<char>) -> Result<u64, Seq<char>> {
    match crate::platform::text::first_field(
        crate::platform::text::lines(kernel),
        "btime "@,
    ) {
        None => Err("boot time unavailable"@),
        Some(rest) => match crate::platform::text::numeral(rest) {
            Ok(seconds) => Ok(seconds),
            Err(failure) => Err(failure.text()),
        },
    }
}

/// Reads the boot time of the kernel's `stat` file.
///
/// # Errors
/// Returns [`UsageFailure::Unavailable`] for a file that does not tell it.
pub fn read_boot_time(kernel: &str) -> (seconds: Result<u64, UsageFailure>)
    ensures
        measured_as(seconds, boot_time(kernel@)),
{
    let all: Vec<Vec<char>> = split_lines(&chars_of(kernel));
    match find_field(&all, "btime ") {
        None => Err(unavailable("boot time unavailable")),
        Some(rest) => match read_number(&rest) {
            Ok(seconds) => Ok(seconds),
            Err(failure) => Err(number_unavailable(failure)),
        },
    }
}

/// What was read of a process for one usage measurement.
#[derive(Debug, Clone, Copy, PartialEq, Eq, Structural)]
pub struct LinuxReading {
    /// Start time, in clock ticks since boot.
    pub start: u64,
    /// CPU time, in clock ticks.
    pub ticks: u64,
    /// Resident memory, in bytes.
    pub resident_bytes: u64,
    /// Boot time, in seconds since the Unix epoch.
    pub boot: u64,
    /// Start time once more, after everything else was read.
    pub start_after: u64,
    /// When the measurement was taken.
    pub sampled_at: Instant,
}

/// A process that started `start` clock ticks after `boot` is the one that `identity` names.
pub open spec fn started_then(
    identity: ObservedProcessIdentity,
    start: u64,
    boot: u64,
    ticks_per_second: u64,
) -> bool {
    identity.start_time_unix_seconds matches Some(seconds) ==> seconds == boot + start
        / ticks_per_second
}

/// The readings belong to `identity`, from the first to the last.
pub open spec fn same_process(
    identity: ObservedProcessIdentity,
    reading: LinuxReading,
    ticks_per_second: u64,
) -> bool {
    &&& reading.start_after == reading.start
    &&& started_then(identity, reading.start, reading.boot, ticks_per_second)
}

/// Compares the first reading of a process with `identity`, before it is read once more.
///
/// # Errors
/// Returns [`UsageFailure::Unavailable`] for a clock frequency that is not positive, and
/// [`UsageFailure::IdentityChanged`] if the PID belongs to another process.
pub fn check_linux_start(
    identity: ObservedProcessIdentity,
    start: u64,
    boot: u64,
    ticks_per_second: i64,
) -> (checked: Result<(), UsageFailure>)
    ensures
        if ticks_per_second <= 0 {
            checked matches Err(UsageFailure::Unavailable(cause)) && cause@
                == "invalid clock frequency"@
        } else if !started_then(identity, start, boot, ticks_per_second as u64) {
            checked == Err::<(), _>(UsageFailure::IdentityChanged)
        } else {
            checked is Ok
        },
{
    if ticks_per_second <= 0 {
        return Err(unavailable("invalid clock frequency"));
    }
    let started = boot as u128 + (start / ticks_per_second as u64) as u128;
    match identity.start_time_unix_seconds {
        Some(seconds) => if seconds as u128 == started {
            Ok(())
        } else {
            Err(UsageFailure::IdentityChanged)
        },
        None => Ok(()),
    }
}

/// The whole number nearest to `dividend` over `divisor`; of two that are as near the even one.
pub open spec fn nearest(dividend: int, divisor: int) -> int {
    let below = dividend / divisor;
    let rest = dividend % divisor;
    if 2 * rest < divisor || (2 * rest == divisor && below % 2 == 0) {
        below
    } else {
        below + 1
    }
}

/// No whole number is nearer to a quotient than its nearest one, and of two that are as near the
/// even one is chosen.
pub proof fn nearest_is_the_closest(dividend: int, divisor: int, other: int)
    requires
        0 <= dividend,
        0 < divisor,
    ensures
        vstd::math::abs(nearest(dividend, divisor) * divisor - dividend) <= vstd::math::abs(
            other * divisor - dividend,
        ),
        other != nearest(dividend, divisor) && vstd::math::abs(
            nearest(dividend, divisor) * divisor - dividend,
        ) == vstd::math::abs(other * divisor - dividend) ==> nearest(dividend, divisor) % 2 == 0,
{
    let below = dividend / divisor;
    let rest = dividend % divisor;
    vstd::arithmetic::div_mod::lemma_fundamental_div_mod(dividend, divisor);
    vstd::arithmetic::div_mod::lemma_mod_bound(dividend, divisor);
    assert(below * divisor == dividend - rest) by (nonlinear_arith)
        requires
            dividend == divisor * below + rest,
    ;
    assert((below + 1) * divisor == dividend - rest + divisor) by (nonlinear_arith)
        requires
            below * divisor == dividend - rest,
    ;
    if other < below {
        assert(other * divisor <= below * divisor - divisor) by (nonlinear_arith)
            requires
                other < below,
                0 < divisor,
        ;
    } else if other > below + 1 {
        assert(other * divisor >= (below + 1) * divisor + divisor) by (nonlinear_arith)
            requires
                other > below + 1,
                0 < divisor,
        ;
    }
}

fn nearest_quotient(dividend: u128, divisor: u64) -> (quotient: u128)
    requires
        0 < divisor,
        dividend < 0x8000_0000_0000_0000_0000_0000_0000_0000,
    ensures
        quotient == nearest(dividend as int, divisor as int),
{
    let unit = divisor as u128;
    let below: u128 = dividend / unit;
    let rest: u128 = dividend % unit;
    assert(below <= dividend) by (nonlinear_arith)
        requires
            below == dividend / unit,
            unit > 0,
    ;
    if 2 * rest < unit || (2 * rest == unit && below % 2 == 0) {
        below
    } else {
        below + 1
    }
}

/// The measurement that a reading makes, if the clock frequency makes sense and the PID did not
/// change hands.
pub open spec fn linux_measured(
    identity: ObservedProcessIdentity,
    reading: LinuxReading,
    ticks_per_second: i64,
) -> Option<ProcessUsage> {
    if ticks_per_second > 0 && same_process(identity, reading, ticks_per_second as u64) {
        Some(
            ProcessUsage {
                identity,
                native_start: reading.start,
                sampled_at: reading.sampled_at,
                cpu_time: Duration {
                    nanos: nearest(
                        reading.ticks * 1_000_000_000,
                        ticks_per_second as int,
                    ) as u128,
                },
                resident_bytes: reading.resident_bytes,
                physical_footprint_bytes: None,
                peak_physical_footprint_bytes: None,
                disk_read_bytes: None,
                disk_write_bytes: None,
            },
        )
    } else {
        None
    }
}

/// Puts a usage measurement together. CPU time is told to the nearest nanosecond.
///
/// # Errors
/// Returns [`UsageFailure::Unavailable`] for a clock frequency that is not positive, and
/// [`UsageFailure::IdentityChanged`] if the PID changed hands.
pub fn linux_usage(
    identity: ObservedProcessIdentity,
    reading: LinuxReading,
    ticks_per_second: i64,
) -> (usage: Result<ProcessUsage, UsageFailure>)
    ensures
        if ticks_per_second <= 0 {
            usage matches Err(UsageFailure::Unavailable(cause)) && cause@
                == "invalid clock frequency"@
        } else if !same_process(identity, reading, ticks_per_second as u64) {
            usage == Err::<ProcessUsage, _>(UsageFailure::IdentityChanged)
        } else {
            usage == Ok::<_, UsageFailure>(
                ProcessUsage {
                    identity,
                    native_start: reading.start,
                    sampled_at: reading.sampled_at,
                    cpu_time: Duration {
                        nanos: nearest(
                            reading.ticks * 1_000_000_000,
                            ticks_per_second as int,
                        ) as u128,
                    },
                    resident_bytes: reading.resident_bytes,
                    physical_footprint_bytes: None,
                    peak_physical_footprint_bytes: None,
                    disk_read_bytes: None,
                    disk_write_bytes: None,
                },
            )
        },
        usage is Ok <==> linux_measured(identity, reading, ticks_per_second) is Some,
        usage matches Ok(told) ==> linux_measured(identity, reading, ticks_per_second) == Some(told),
{
    if let Err(failure) = check_linux_start(
        identity,
        reading.start,
        reading.boot,
        ticks_per_second,
    ) {
        return Err(failure);
    }
    if reading.start_after != reading.start {
        return Err(UsageFailure::IdentityChanged);
    }
    let nanos: u128 = nearest_quotient(
        reading.ticks as u128 * 1_000_000_000,
        ticks_per_second as u64,
    );
    Ok(
        ProcessUsage {
            identity,
            native_start: reading.start,
            sampled_at: reading.sampled_at,
            cpu_time: Duration { nanos },
            resident_bytes: reading.resident_bytes,
            physical_footprint_bytes: None,
            peak_physical_footprint_bytes: None,
            disk_read_bytes: None,
            disk_write_bytes: None,
        },
    )
}

} // verus!
