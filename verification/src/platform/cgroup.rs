//! What the control files of a cgroup v2 directory say.
use vstd::prelude::*;
use vstd::string::StringExecFns;
use crate::domain::ids::ProcessScopeId;
use crate::domain::time::{Duration, Instant};
use crate::observation::usage::{AccountingSource, ScopeAccounting};
use crate::platform::polling::ContainerState;
use crate::platform::text::{
    chars_of, find_field, is_text, parse_number, split_lines, split_words, trim,
};

verus! {

/// What follows the leading slashes.
pub open spec fn without_slashes(path: Seq<char>) -> Seq<char>
    decreases path.len(),
{
    if path.len() > 0 && path[0] == '/' {
        without_slashes(path.skip(1))
    } else {
        path
    }
}

/// The group a process belongs to, relative to the mount point, from its `cgroup` file. `None`
/// if it is in no version 2 hierarchy.
pub open spec fn relative_group(membership: Seq<char>) -> Option<Seq<char>> {
    match crate::platform::text::first_field(
        crate::platform::text::lines(membership),
        "0::"@,
    ) {
        Some(path) => Some(without_slashes(path)),
        None => None,
    }
}

fn strip_slashes(path: &Vec<char>) -> (rest: Vec<char>)
    ensures
        rest@ == without_slashes(path@),
{
    let mut start: usize = 0;
    assert(path@.skip(0) =~= path@);
    while start < path.len() && path[start] == '/'
        invariant
            start <= path@.len(),
            without_slashes(path@) == without_slashes(path@.skip(start as int)),
        decreases path@.len() - start,
    {
        assert(path@.skip(start as int).skip(1) =~= path@.skip(start + 1));
        assert(path@.skip(start as int)[0] == '/');
        start = start + 1;
    }
    let ghost tail = path@.skip(start as int);
    assert(without_slashes(tail) == tail) by {
        if tail.len() > 0 {
            assert(tail[0] == path@[start as int]);
        }
    }
    let mut rest: Vec<char> = Vec::new();
    let mut i: usize = start;
    while i < path.len()
        invariant
            start <= i <= path@.len(),
            rest@ == path@.subrange(start as int, i as int),
        decreases path@.len() - i,
    {
        rest.push(path[i]);
        i = i + 1;
        assert(rest@ =~= path@.subrange(start as int, i as int));
    }
    assert(rest@ =~= tail);
    rest
}

/// Finds the version 2 group in the `cgroup` file of a process.
#[must_use]
pub fn find_relative_group(membership: &str) -> (path: Option<Vec<char>>)
    ensures
        match path {
            Some(found) => relative_group(membership@) == Some(found@),
            None => relative_group(membership@) is None,
        },
{
    let all: Vec<Vec<char>> = split_lines(&chars_of(membership));
    match find_field(&all, "0::") {
        Some(path) => Some(strip_slashes(&path)),
        None => None,
    }
}

/// The name of the directory that holds the processes of a scope.
#[must_use]
pub fn scope_directory(scope: ProcessScopeId) -> (name: String)
    ensures
        name@ == "scope-"@ + crate::domain::ids::scope_label(scope),
{
    let mut name = String::from_str("scope-");
    name.append(scope.label().as_str());
    name
}

/// Whether a line of the `cgroup.events` file says that nothing runs in the group.
pub open spec fn unpopulated(events: Seq<char>) -> bool {
    crate::platform::text::lines(events).contains("populated 0"@)
}

/// What the `cgroup.events` file of a group says; `None` stands for a group that was already
/// removed.
#[must_use]
pub fn group_state(events: Option<&str>) -> (state: ContainerState)
    ensures
        state == (match events {
            None => ContainerState::Gone,
            Some(text) => if unpopulated(text@) {
                ContainerState::Empty
            } else {
                ContainerState::Busy
            },
        }),
{
    match events {
        None => ContainerState::Gone,
        Some(text) => {
            let all: Vec<Vec<char>> = split_lines(&chars_of(text));
            let ghost texts = crate::platform::text::views(all@);
            let mut i: usize = 0;
            while i < all.len()
                invariant
                    i <= all@.len(),
                    events == Some(text),
                    texts == crate::platform::text::views(all@),
                    texts == crate::platform::text::lines(text@),
                    forall|j: int| 0 <= j < i ==> #[trigger] texts[j] != "populated 0"@,
                decreases all@.len() - i,
            {
                if is_text(&all[i], "populated 0") {
                    assert(texts[i as int] == "populated 0"@);
                    return ContainerState::Empty;
                }
                i = i + 1;
            }
            ContainerState::Busy
        },
    }
}

/// The number on the device line that follows `prefix` on the first word that starts with it.
pub open spec fn device_counter(line: Seq<char>, prefix: Seq<char>) -> Option<u64> {
    match crate::platform::text::first_field(crate::platform::text::words(line), prefix) {
        Some(value) => crate::platform::text::number(value),
        None => None,
    }
}

/// The sum of one counter over all device lines; `None` if a line lacks it or the sum is out of
/// range.
pub open spec fn device_total(all: Seq<Seq<char>>, prefix: Seq<char>) -> Option<u64>
    decreases all.len(),
{
    if all.len() == 0 {
        Some(0)
    } else {
        match (device_total(all.drop_last(), prefix), device_counter(all.last(), prefix)) {
            (Some(total), Some(value)) => if total + value > u64::MAX {
                None
            } else {
                Some((total + value) as u64)
            },
            _ => None,
        }
    }
}

/// A line without a total leaves the whole file without one.
proof fn lemma_total_fails(all: Seq<Seq<char>>, prefix: Seq<char>, n: int)
    requires
        0 <= n <= all.len(),
        device_total(all.take(n), prefix) is None,
    ensures
        device_total(all, prefix) is None,
    decreases all.len() - n,
{
    if n < all.len() {
        assert(all.take(n + 1).drop_last() =~= all.take(n));
        lemma_total_fails(all, prefix, n + 1);
    } else {
        assert(all.take(n) =~= all);
    }
}

/// Sums one counter of an `io.stat` file over all devices.
#[must_use]
pub fn io_sum(text: &str, prefix: &str) -> (total: Option<u64>)
    ensures
        total == device_total(crate::platform::text::lines(text@), prefix@),
{
    let all: Vec<Vec<char>> = split_lines(&chars_of(text));
    let ghost texts = crate::platform::text::views(all@);
    let mut total: u64 = 0;
    let mut i: usize = 0;
    assert(texts.take(0) =~= Seq::empty());
    while i < all.len()
        invariant
            i <= all@.len(),
            texts == crate::platform::text::views(all@),
            texts == crate::platform::text::lines(text@),
            device_total(texts.take(i as int), prefix@) == Some(total),
        decreases all@.len() - i,
    {
        let ghost grown = texts.take(i + 1);
        proof {
            assert(grown.drop_last() =~= texts.take(i as int));
            assert(grown.last() == all@[i as int]@);
        }
        let words: Vec<Vec<char>> = split_words(&all[i]);
        let value: Option<u64> = match find_field(&words, prefix) {
            Some(field) => parse_number(&field),
            None => None,
        };
        assert(value == device_counter(grown.last(), prefix@));
        let sum: Option<u64> = match value {
            Some(counter) => total.checked_add(counter),
            None => None,
        };
        assert(device_total(grown, prefix@) == sum);
        match sum {
            Some(next) => {
                total = next;
            },
            None => {
                proof {
                    lemma_total_fails(texts, prefix@, i + 1);
                }
                return None;
            },
        }
        i = i + 1;
    }
    assert(texts.take(i as int) =~= texts);
    Some(total)
}

/// The single number that a control file holds.
pub open spec fn single_value(text: Option<Seq<char>>) -> Option<u64> {
    match text {
        Some(found) => crate::platform::text::number(crate::platform::text::trimmed(found)),
        None => None,
    }
}

fn read_single(text: Option<&str>) -> (value: Option<u64>)
    ensures
        value == single_value(
            match text {
                Some(found) => Some(found@),
                None => None,
            },
        ),
{
    match text {
        Some(found) => parse_number(&trim(&chars_of(found))),
        None => None,
    }
}

/// The CPU time of a `cpu.stat` file, in microseconds.
pub open spec fn cpu_micros(text: Option<Seq<char>>) -> Option<u64> {
    match text {
        Some(found) => match crate::platform::text::first_field(
            crate::platform::text::lines(found),
            "usage_usec "@,
        ) {
            Some(value) => crate::platform::text::number(value),
            None => None,
        },
        None => None,
    }
}

fn read_cpu_micros(text: Option<&str>) -> (value: Option<u64>)
    ensures
        value == cpu_micros(
            match text {
                Some(found) => Some(found@),
                None => None,
            },
        ),
{
    match text {
        Some(found) => {
            let all: Vec<Vec<char>> = split_lines(&chars_of(found));
            match find_field(&all, "usage_usec ") {
                Some(value) => parse_number(&value),
                None => None,
            }
        },
        None => None,
    }
}

/// The sum of one counter of an `io.stat` file, if there is such a file.
pub open spec fn device_sum(text: Option<Seq<char>>, prefix: Seq<char>) -> Option<u64> {
    match text {
        Some(found) => device_total(crate::platform::text::lines(found), prefix),
        None => None,
    }
}

/// What could be read of the control files of a group. A file whose controller is off is
/// missing.
#[derive(Debug, Clone, Copy)]
pub struct GroupFiles<'a> {
    /// `cpu.stat`.
    pub cpu: Option<&'a str>,
    /// `memory.current`.
    pub memory: Option<&'a str>,
    /// `io.stat`.
    pub io: Option<&'a str>,
    /// `pids.current`.
    pub pids: Option<&'a str>,
}

/// The text of a file, if it was there.
pub open spec fn contents(text: Option<&str>) -> Option<Seq<char>> {
    match text {
        Some(found) => Some(found@),
        None => None,
    }
}

/// What the control files of a group say together.
pub open spec fn accounted(files: GroupFiles<'_>, sampled_at: Instant) -> ScopeAccounting {
    ScopeAccounting {
        source: AccountingSource::LinuxCgroup,
        sampled_at,
        cpu_time: match cpu_micros(contents(files.cpu)) {
            Some(micros) => Some(Duration { nanos: (micros * 1000) as u128 }),
            None => None,
        },
        memory_bytes: single_value(contents(files.memory)),
        peak_commit_bytes: None,
        io_read_bytes: device_sum(contents(files.io), "rbytes="@),
        io_write_bytes: device_sum(contents(files.io), "wbytes="@),
        member_count: single_value(contents(files.pids)),
    }
}

/// The accounting of a group, as its control files have it.
#[must_use]
pub fn accounting(files: GroupFiles<'_>, sampled_at: Instant) -> (usage: ScopeAccounting)
    ensures
        usage.source == AccountingSource::LinuxCgroup,
        usage.sampled_at == sampled_at,
        usage.cpu_time == (match cpu_micros(contents(files.cpu)) {
            Some(micros) => Some(Duration { nanos: (micros * 1000) as u128 }),
            None => None,
        }),
        usage.memory_bytes == single_value(contents(files.memory)),
        usage.peak_commit_bytes is None,
        usage.io_read_bytes == device_sum(contents(files.io), "rbytes="@),
        usage.io_write_bytes == device_sum(contents(files.io), "wbytes="@),
        usage.member_count == single_value(contents(files.pids)),
        usage == accounted(files, sampled_at),
{
    let read: Option<u64> = match files.io {
        Some(text) => io_sum(text, "rbytes="),
        None => None,
    };
    let written: Option<u64> = match files.io {
        Some(text) => io_sum(text, "wbytes="),
        None => None,
    };
    ScopeAccounting {
        source: AccountingSource::LinuxCgroup,
        sampled_at,
        cpu_time: match read_cpu_micros(files.cpu) {
            Some(micros) => Some(Duration::from_micros(micros)),
            None => None,
        },
        memory_bytes: read_single(files.memory),
        peak_commit_bytes: None,
        io_read_bytes: read,
        io_write_bytes: written,
        member_count: read_single(files.pids),
    }
}

} // verus!
