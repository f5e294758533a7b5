//! What the files of the kernel say, told by what is written in them.
use vstd::prelude::*;
use crate::observation::snapshot::ObservedProcessIdentity;
use crate::platform::procfs::ProcStatus;

verus! {

/// White space holds no words.
proof fn lemma_blank_words(lead: Seq<char>)
    requires
        crate::platform::reading::blank(lead),
    ensures
        crate::platform::text::words(lead).len() == 0,
    decreases lead.len(),
{
    if lead.len() > 0 {
        let shorter = lead.drop_last();
        assert forall|i: int| 0 <= i < shorter.len() implies crate::platform::text::is_space(
            #[trigger] shorter[i],
        ) by {
            assert(shorter[i] == lead[i]);
        }
        lemma_blank_words(shorter);
        assert(crate::platform::text::is_space(lead[lead.len() - 1]));
        crate::platform::reading::white_space_separates_words(
            shorter,
            lead.last(),
            Seq::empty(),
        );
        assert(shorter.push(lead.last()) + Seq::<char>::empty() =~= lead);
    }
}

/// Digits are no white space.
proof fn lemma_digits_solid(value: nat)
    ensures
        crate::platform::reading::solid(crate::domain::text::decimal(value)),
        crate::domain::text::decimal(value).len() > 0,
        crate::domain::text::decimal(value)[0] != '+',
    decreases value,
{
    let word = crate::domain::text::decimal(value);
    if value >= 10 {
        lemma_digits_solid(value / 10);
        let shorter = crate::domain::text::decimal(value / 10);
        assert forall|i: int| 0 <= i < word.len() implies !crate::platform::text::is_space(
            #[trigger] word[i],
        ) by {
            if i < shorter.len() {
                assert(word[i] == shorter[i]);
            }
        }
        assert(word[0] == shorter[0]);
    }
}

/// A number with white space before it and a unit behind it is the first word.
proof fn lemma_first_word(lead: Seq<char>, value: nat, unit: Seq<char>)
    requires
        crate::platform::reading::blank(lead),
    ensures
        ({
            let field = lead + crate::domain::text::decimal(value).push(' ') + unit;
            &&& crate::platform::text::words(field).len() > 0
            &&& crate::platform::text::words(field)[0] == crate::domain::text::decimal(value)
        }),
{
    let word = crate::domain::text::decimal(value);
    let tail = word.push(' ') + unit;
    lemma_digits_solid(value);
    crate::platform::reading::a_run_is_one_word(word);
    crate::platform::reading::white_space_separates_words(word, ' ', unit);
    let field = lead + word.push(' ') + unit;
    if lead.len() == 0 {
        assert(field =~= tail);
    } else {
        let shorter = lead.drop_last();
        assert forall|i: int| 0 <= i < shorter.len() implies crate::platform::text::is_space(
            #[trigger] shorter[i],
        ) by {
            assert(shorter[i] == lead[i]);
        }
        lemma_blank_words(shorter);
        assert(crate::platform::text::is_space(lead[lead.len() - 1]));
        crate::platform::reading::white_space_separates_words(shorter, lead.last(), tail);
        assert(field =~= shorter.push(lead.last()) + tail);
    }
}

/// The four keys of a `status` file tell their lines apart.
proof fn lemma_status_keys(rest: Seq<char>)
    ensures
        crate::platform::text::after_prefix("VmSize:"@ + rest, "VmRSS:"@) is None,
        crate::platform::text::after_prefix("VmHWM:"@ + rest, "VmRSS:"@) is None,
        crate::platform::text::after_prefix("VmHWM:"@ + rest, "VmSize:"@) is None,
        crate::platform::text::after_prefix("State:"@ + rest, "VmRSS:"@) is None,
        crate::platform::text::after_prefix("State:"@ + rest, "VmSize:"@) is None,
        crate::platform::text::after_prefix("State:"@ + rest, "VmHWM:"@) is None,
{
    reveal_strlit("VmRSS:");
    reveal_strlit("VmSize:");
    reveal_strlit("VmHWM:");
    reveal_strlit("State:");
    let size = "VmSize:"@ + rest;
    let peak = "VmHWM:"@ + rest;
    let state = "State:"@ + rest;
    assert(size[2] == 'S' && "VmRSS:"@[2] == 'R' && "VmSize:"@[2] == 'S');
    assert(peak[2] == 'H' && "VmHWM:"@[0] == 'V' && state[0] == 'S');
    assert("VmRSS:"@[0] == 'V' && "VmSize:"@[0] == 'V');
    assert(size.take(6)[2] == size[2]);
    assert(peak.take(6)[2] == peak[2]);
    assert(peak.len() >= 7 ==> peak.take(7)[2] == peak[2]);
    assert(state.take(6)[0] == state[0]);
    assert(state.len() >= 7 ==> state.take(7)[0] == state[0]);
}

/// A size in kibibytes is told in bytes. It overrides what an earlier line said of it, and leaves
/// everything else as it was. A size that does not fit spoils the file.
pub proof fn sizes_are_told_in_bytes(
    earlier: Seq<Seq<char>>,
    status: ProcStatus,
    lead: Seq<char>,
    count: u64,
    unit: Seq<char>,
)
    requires
        crate::platform::procfs::status_of(earlier) == Some(status),
        crate::platform::reading::blank(lead),
    ensures
        ({
            let field = lead + crate::domain::text::decimal(count as nat).push(' ') + unit;
            let resident = crate::platform::procfs::status_of(earlier.push("VmRSS:"@ + field));
            let mapped = crate::platform::procfs::status_of(earlier.push("VmSize:"@ + field));
            let peak = crate::platform::procfs::status_of(earlier.push("VmHWM:"@ + field));
            if count * 1024 <= u64::MAX {
                &&& resident is Some && mapped is Some && peak is Some
                &&& resident->0.rss == count * 1024
                &&& resident->0.vsize == status.vsize && resident->0.peak == status.peak
                    && resident->0.state == status.state
                &&& mapped->0.vsize == Some((count * 1024) as u64)
                &&& mapped->0.rss == status.rss && mapped->0.peak == status.peak && mapped->0.state
                    == status.state
                &&& peak->0.peak == Some((count * 1024) as u64)
                &&& peak->0.rss == status.rss && peak->0.vsize == status.vsize && peak->0.state
                    == status.state
            } else {
                resident is None && mapped is None && peak is None
            }
        }),
{
    let field = lead + crate::domain::text::decimal(count as nat).push(' ') + unit;
    lemma_first_word(lead, count as nat, unit);
    crate::platform::reading::written_numbers_are_read_back(count as nat);
    lemma_status_keys(field);
    crate::platform::reading::a_prefix_comes_off("VmRSS:"@, field, field);
    crate::platform::reading::a_prefix_comes_off("VmSize:"@, field, field);
    crate::platform::reading::a_prefix_comes_off("VmHWM:"@, field, field);
    assert(earlier.push("VmRSS:"@ + field).drop_last() =~= earlier);
    assert(earlier.push("VmSize:"@ + field).drop_last() =~= earlier);
    assert(earlier.push("VmHWM:"@ + field).drop_last() =~= earlier);
}

/// The letter of a `status` file decides the run-state, and nothing else.
pub proof fn the_state_letter_decides(
    earlier: Seq<Seq<char>>,
    status: ProcStatus,
    lead: Seq<char>,
    letter: char,
    name: Seq<char>,
)
    requires
        crate::platform::procfs::status_of(earlier) == Some(status),
        crate::platform::reading::blank(lead),
        !crate::platform::text::is_space(letter),
    ensures
        ({
            let told = crate::platform::procfs::status_of(
                earlier.push("State:"@ + (lead.push(letter) + name)),
            );
            &&& told is Some
            &&& told->0.rss == status.rss
            &&& told->0.vsize == status.vsize
            &&& told->0.peak == status.peak
            &&& told->0.state is Running <==> letter == 'R'
            &&& told->0.state is Sleeping <==> letter == 'S' || letter == 'D'
            &&& told->0.state is Stopped <==> letter == 'T'
            &&& told->0.state is Zombie <==> letter == 'Z'
        }),
{
    let rest = lead.push(letter) + name;
    let line = "State:"@ + rest;
    lemma_status_keys(rest);
    crate::platform::reading::a_prefix_comes_off("State:"@, rest, rest);
    assert(earlier.push(line).drop_last() =~= earlier);
    let tail = seq![letter] + name;
    assert(rest =~= lead + tail);
    lemma_trimmed_start(lead, tail);
    assert(tail[0] == letter);
    lemma_trimmed_end(tail);
}

/// White space at the start goes.
proof fn lemma_trimmed_start(lead: Seq<char>, tail: Seq<char>)
    requires
        crate::platform::reading::blank(lead),
        tail.len() > 0,
        !crate::platform::text::is_space(tail[0]),
    ensures
        crate::platform::text::trimmed_start(lead + tail) == tail,
    decreases lead.len(),
{
    if lead.len() == 0 {
        assert(lead + tail =~= tail);
    } else {
        let shorter = lead.skip(1);
        assert forall|i: int| 0 <= i < shorter.len() implies crate::platform::text::is_space(
            #[trigger] shorter[i],
        ) by {
            assert(shorter[i] == lead[i + 1]);
        }
        lemma_trimmed_start(shorter, tail);
        assert(crate::platform::text::is_space(lead[0]));
        assert((lead + tail)[0] == lead[0]);
        assert((lead + tail).skip(1) =~= shorter + tail);
    }
}

/// What starts with something else keeps its start.
proof fn lemma_trimmed_end(tail: Seq<char>)
    requires
        tail.len() > 0,
        !crate::platform::text::is_space(tail[0]),
    ensures
        crate::platform::text::trimmed_end(tail).len() > 0,
        crate::platform::text::trimmed_end(tail)[0] == tail[0],
    decreases tail.len(),
{
    if crate::platform::text::is_space(tail.last()) {
        lemma_trimmed_end(tail.drop_last());
    }
}

/// Lines of other keys say nothing, and a file without lines says that nothing is known.
pub proof fn other_lines_say_nothing(earlier: Seq<Seq<char>>, line: Seq<char>)
    requires
        crate::platform::reading::none_starts_with(seq![line], "VmRSS:"@),
        crate::platform::reading::none_starts_with(seq![line], "VmSize:"@),
        crate::platform::reading::none_starts_with(seq![line], "VmHWM:"@),
        crate::platform::reading::none_starts_with(seq![line], "State:"@),
    ensures
        crate::platform::procfs::status_of(earlier.push(line))
            == crate::platform::procfs::status_of(earlier),
        crate::platform::procfs::status_of(Seq::empty()) is Some,
        crate::platform::procfs::status_of(Seq::empty())->0.rss == 0,
        crate::platform::procfs::status_of(Seq::empty())->0.vsize is None,
        crate::platform::procfs::status_of(Seq::empty())->0.peak is None,
        crate::platform::procfs::status_of(Seq::empty())->0.state is Unknown,
{
    assert(earlier.push(line).drop_last() =~= earlier);
    assert(seq![line][0] == line);
}

/// A sample is what the `status` file says, with the traffic that the `io` file says.
pub proof fn a_sample_is_made_of_two_files(status: Seq<char>, io: Seq<char>)
    ensures
        ({
            let told = crate::platform::procfs::status_of(crate::platform::text::lines(status));
            let sample = crate::platform::procfs::sample_of(status, io);
            &&& sample is Some <==> told is Some
            &&& sample is Some ==> {
                &&& sample->0.memory_rss_bytes == told->0.rss
                &&& sample->0.virtual_memory_bytes == told->0.vsize
                &&& sample->0.peak_rss_bytes == told->0.peak
                &&& sample->0.state == told->0.state
                &&& sample->0.io_read_bytes == crate::platform::procfs::io_field(
                    io,
                    "read_bytes:"@,
                )
                &&& sample->0.io_write_bytes == crate::platform::procfs::io_field(
                    io,
                    "write_bytes:"@,
                )
                &&& sample->0.cpu_usage is None
                &&& sample->0.descendant_count is None
            }
        }),
{
}

/// The number behind a key is read from the first line that has the key.
pub proof fn traffic_is_read_from_its_line(
    io: Seq<char>,
    before: Seq<Seq<char>>,
    key: Seq<char>,
    lead: Seq<char>,
    count: u64,
    trail: Seq<char>,
    after: Seq<Seq<char>>,
)
    requires
        crate::platform::reading::none_starts_with(before, key),
        crate::platform::reading::blank(lead),
        crate::platform::reading::blank(trail),
        crate::platform::text::lines(io) == before.push(
            key + (lead + crate::domain::text::decimal(count as nat) + trail),
        ) + after,
    ensures
        crate::platform::procfs::io_field(io, key) == Some(count),
{
    let word = crate::domain::text::decimal(count as nat);
    crate::platform::reading::the_first_line_with_a_prefix_counts(
        before,
        key,
        lead + word + trail,
        after,
    );
    lemma_digits_solid(count as nat);
    assert(!crate::platform::text::is_space(word[0]));
    assert(!crate::platform::text::is_space(word[word.len() - 1]));
    crate::platform::reading::trimming_leaves_the_text(lead, word, trail);
    crate::platform::reading::written_numbers_are_read_back(count as nat);
}

/// The numbers of a `stat` file are counted from behind the last closing bracket, whatever the
/// command in the brackets is called: the twelfth and the thirteenth field are the user and the
/// system time, the twentieth one is the start time.
pub proof fn stat_numbers_stand_behind_the_command(
    command: Seq<char>,
    rest: Seq<char>,
    user: u64,
    system: u64,
    start: u64,
)
    requires
        !rest.contains(')'),
        crate::platform::text::words(rest).len() > 19,
        crate::platform::text::number(crate::platform::text::words(rest)[11]) == Some(user),
        crate::platform::text::number(crate::platform::text::words(rest)[12]) == Some(system),
        crate::platform::text::number(crate::platform::text::words(rest)[19]) == Some(start),
    ensures
        ({
            let stat = command.push(')') + rest;
            let ticks = crate::platform::procfs::cpu_ticks(stat);
            let times = crate::platform::procfs::stat_times(stat);
            &&& crate::platform::procfs::start_time(stat) == Some(start)
            &&& user + system <= u64::MAX ==> ticks == Some((user + system) as u64)
            &&& user + system > u64::MAX ==> ticks == Some(u64::MAX)
            &&& user + system <= u64::MAX ==> times == Ok::<_, Seq<char>>(
                (start, (user + system) as u64),
            )
            &&& user + system > u64::MAX ==> times is Err
        }),
{
    crate::platform::reading::the_last_mark_counts(command, ')', rest);
    let fields = crate::platform::text::words(rest);
    crate::platform::reading::only_digits_make_a_number(fields[11]);
    crate::platform::reading::only_digits_make_a_number(fields[12]);
    crate::platform::reading::only_digits_make_a_number(fields[19]);
}

/// A `stat` file without its numbers says nothing.
pub proof fn a_short_stat_file_says_nothing(command: Seq<char>, rest: Seq<char>)
    requires
        !rest.contains(')'),
    ensures
        ({
            let stat = command.push(')') + rest;
            let fields = crate::platform::text::words(rest);
            &&& fields.len() <= 19 || crate::platform::text::number(fields[19]) is None ==> {
                &&& crate::platform::procfs::start_time(stat) is None
                &&& crate::platform::procfs::stat_times(stat) is Err
            }
            &&& fields.len() <= 12 || crate::platform::text::number(fields[11]) is None
                || crate::platform::text::number(fields[12]) is None
                ==> crate::platform::procfs::cpu_ticks(stat) is None
        }),
        crate::platform::procfs::start_time(rest) is None,
        crate::platform::procfs::cpu_ticks(rest) is None,
        crate::platform::procfs::stat_times(rest) is Err,
{
    crate::platform::reading::the_last_mark_counts(command, ')', rest);
    let fields = crate::platform::text::words(rest);
    if fields.len() > 19 {
        crate::platform::reading::only_digits_make_a_number(fields[19]);
    }
}

/// Resident memory is read from its line, in kibibytes, and told in bytes.
pub proof fn resident_memory_is_told_in_bytes(
    status: Seq<char>,
    before: Seq<Seq<char>>,
    lead: Seq<char>,
    count: u64,
    unit: Seq<char>,
    after: Seq<Seq<char>>,
)
    requires
        crate::platform::reading::none_starts_with(before, "VmRSS:"@),
        crate::platform::reading::blank(lead),
        crate::platform::text::lines(status) == before.push(
            "VmRSS:"@ + (lead + crate::domain::text::decimal(count as nat).push(' ') + unit),
        ) + after,
    ensures
        count * 1024 <= u64::MAX ==> crate::platform::procfs::resident_memory(status) == Ok::<
            _,
            Seq<char>,
        >((count * 1024) as u64),
        count * 1024 > u64::MAX ==> crate::platform::procfs::resident_memory(status) is Err,
{
    let field = lead + crate::domain::text::decimal(count as nat).push(' ') + unit;
    crate::platform::reading::the_first_line_with_a_prefix_counts(
        before,
        "VmRSS:"@,
        field,
        after,
    );
    lemma_first_word(lead, count as nat, unit);
    crate::platform::reading::written_numbers_are_read_back(count as nat);
}

/// A file without the line says neither resident memory nor boot time.
pub proof fn without_its_line_nothing_is_told(text: Seq<char>)
    ensures
        crate::platform::reading::none_starts_with(crate::platform::text::lines(text), "VmRSS:"@)
            ==> crate::platform::procfs::resident_memory(text) is Err,
        crate::platform::reading::none_starts_with(crate::platform::text::lines(text), "btime "@)
            ==> crate::platform::procfs::boot_time(text) is Err,
{
    let all = crate::platform::text::lines(text);
    if crate::platform::reading::none_starts_with(all, "VmRSS:"@) {
        crate::platform::reading::the_first_line_with_a_prefix_counts(
            all,
            "VmRSS:"@,
            Seq::empty(),
            Seq::empty(),
        );
    }
    if crate::platform::reading::none_starts_with(all, "btime "@) {
        crate::platform::reading::the_first_line_with_a_prefix_counts(
            all,
            "btime "@,
            Seq::empty(),
            Seq::empty(),
        );
    }
}

/// The boot time is read from its line.
pub proof fn the_boot_time_is_read_from_its_line(
    kernel: Seq<char>,
    before: Seq<Seq<char>>,
    seconds: u64,
    after: Seq<Seq<char>>,
)
    requires
        crate::platform::reading::none_starts_with(before, "btime "@),
        crate::platform::text::lines(kernel) == before.push(
            "btime "@ + crate::domain::text::decimal(seconds as nat),
        ) + after,
    ensures
        crate::platform::procfs::boot_time(kernel) == Ok::<_, Seq<char>>(seconds),
{
    crate::platform::reading::the_first_line_with_a_prefix_counts(
        before,
        "btime "@,
        crate::domain::text::decimal(seconds as nat),
        after,
    );
    crate::platform::reading::written_numbers_are_read_back(seconds as nat);
}

/// A process is the one that is named if it started in the second that is named, counted from
/// boot in clock ticks, and if it is still the same after everything was read.
pub proof fn a_process_is_known_by_the_second_it_started(
    identity: ObservedProcessIdentity,
    seconds: u64,
    start: u64,
    boot: u64,
    rate: u64,
)
    requires
        identity.start_time_unix_seconds == Some(seconds),
        rate > 0,
    ensures
        crate::platform::procfs::started_then(identity, start, boot, rate) <==> {
            &&& boot <= seconds
            &&& (seconds - boot) * rate <= start < (seconds - boot + 1) * rate
        },
        crate::platform::procfs::started_then(
            ObservedProcessIdentity { start_time_unix_seconds: None, ..identity },
            start,
            boot,
            rate,
        ),
{
    let passed = start as int / rate as int;
    assert(0 <= passed && passed * rate <= start < (passed + 1) * rate) by (nonlinear_arith)
        requires
            passed == start as int / rate as int,
            rate > 0,
    ;
    if boot <= seconds && (seconds - boot) * rate <= start < (seconds - boot + 1) * rate {
        let named = seconds - boot;
        assert(named == passed) by (nonlinear_arith)
            requires
                named * rate <= start < (named + 1) * rate,
                passed * rate <= start < (passed + 1) * rate,
                rate > 0,
        ;
    }
}

/// Leading slashes go, and nothing else.
pub proof fn leading_slashes_go(slashes: Seq<char>, path: Seq<char>)
    requires
        forall|i: int| 0 <= i < slashes.len() ==> #[trigger] slashes[i] == '/',
        path.len() > 0 ==> path[0] != '/',
    ensures
        crate::platform::cgroup::without_slashes(slashes + path) == path,
    decreases slashes.len(),
{
    if slashes.len() == 0 {
        assert(slashes + path =~= path);
    } else {
        let fewer = slashes.skip(1);
        assert forall|i: int| 0 <= i < fewer.len() implies #[trigger] fewer[i] == '/' by {
            assert(fewer[i] == slashes[i + 1]);
        }
        leading_slashes_go(fewer, path);
        assert((slashes + path)[0] == slashes[0]);
        assert((slashes + path).skip(1) =~= fewer + path);
    }
}

/// The group of a process stands on its version 2 line, behind the slashes.
pub proof fn the_group_stands_on_its_line(
    membership: Seq<char>,
    before: Seq<Seq<char>>,
    slashes: Seq<char>,
    path: Seq<char>,
    after: Seq<Seq<char>>,
)
    requires
        crate::platform::reading::none_starts_with(before, "0::"@),
        forall|i: int| 0 <= i < slashes.len() ==> #[trigger] slashes[i] == '/',
        path.len() > 0 ==> path[0] != '/',
        crate::platform::text::lines(membership) == before.push("0::"@ + (slashes + path)) + after,
    ensures
        crate::platform::cgroup::relative_group(membership) == Some(path),
{
    crate::platform::reading::the_first_line_with_a_prefix_counts(
        before,
        "0::"@,
        slashes + path,
        after,
    );
    leading_slashes_go(slashes, path);
}

/// Without a version 2 line there is no group.
pub proof fn without_its_line_there_is_no_group(membership: Seq<char>)
    requires
        crate::platform::reading::none_starts_with(
            crate::platform::text::lines(membership),
            "0::"@,
        ),
    ensures
        crate::platform::cgroup::relative_group(membership) is None,
{
    crate::platform::reading::the_first_line_with_a_prefix_counts(
        crate::platform::text::lines(membership),
        "0::"@,
        Seq::empty(),
        Seq::empty(),
    );
}

/// A group is empty if one of the lines says so, whatever the other ones say.
pub proof fn a_group_is_empty_if_a_line_says_so(events: Seq<char>)
    ensures
        crate::platform::cgroup::unpopulated(events) <==> exists|i: int|
            0 <= i < crate::platform::text::lines(events).len()
                && #[trigger] crate::platform::text::lines(events)[i] == "populated 0"@,
{
}

/// A counter of a device line is the number behind its prefix.
pub proof fn a_device_counter_is_read_from_its_word(
    line: Seq<char>,
    before: Seq<Seq<char>>,
    prefix: Seq<char>,
    count: u64,
    after: Seq<Seq<char>>,
)
    requires
        crate::platform::reading::none_starts_with(before, prefix),
        crate::platform::text::words(line) == before.push(
            prefix + crate::domain::text::decimal(count as nat),
        ) + after,
    ensures
        crate::platform::cgroup::device_counter(line, prefix) == Some(count),
{
    crate::platform::reading::the_first_line_with_a_prefix_counts(
        before,
        prefix,
        crate::domain::text::decimal(count as nat),
        after,
    );
    crate::platform::reading::written_numbers_are_read_back(count as nat);
}

/// The counters of all devices are added up. A device without the counter, or a sum that does not
/// fit, leaves no sum.
pub proof fn devices_add_up(
    first: Seq<Seq<char>>,
    second: Seq<Seq<char>>,
    line: Seq<char>,
    prefix: Seq<char>,
)
    ensures
        ({
            let one = crate::platform::cgroup::device_total(first, prefix);
            let other = crate::platform::cgroup::device_total(second, prefix);
            let both = crate::platform::cgroup::device_total(first + second, prefix);
            &&& one is Some && other is Some && one->0 + other->0 <= u64::MAX ==> both == Some(
                (one->0 + other->0) as u64,
            )
            &&& one is Some && other is Some && one->0 + other->0 > u64::MAX ==> both is None
            &&& one is None || other is None ==> both is None
        }),
        crate::platform::cgroup::device_total(seq![line], prefix)
            == crate::platform::cgroup::device_counter(line, prefix),
        crate::platform::cgroup::device_total(Seq::empty(), prefix) == Some(0u64),
    decreases second.len(),
{
    reveal_with_fuel(crate::platform::cgroup::device_total, 2);
    assert(seq![line].drop_last() =~= Seq::empty());
    if second.len() == 0 {
        assert(first + second =~= first);
    } else {
        devices_add_up(first, second.drop_last(), line, prefix);
        assert((first + second).drop_last() =~= first + second.drop_last());
        assert((first + second).last() == second.last());
    }
}

/// The CPU time of a group is the number on its line, and a file of one number is that number.
pub proof fn group_counters_are_read_back(
    text: Seq<char>,
    before: Seq<Seq<char>>,
    count: u64,
    after: Seq<Seq<char>>,
    lead: Seq<char>,
    trail: Seq<char>,
)
    requires
        crate::platform::reading::none_starts_with(before, "usage_usec "@),
        crate::platform::text::lines(text) == before.push(
            "usage_usec "@ + crate::domain::text::decimal(count as nat),
        ) + after,
        crate::platform::reading::blank(lead),
        crate::platform::reading::blank(trail),
    ensures
        crate::platform::cgroup::cpu_micros(Some(text)) == Some(count),
        crate::platform::cgroup::single_value(
            Some(lead + crate::domain::text::decimal(count as nat) + trail),
        ) == Some(count),
        crate::platform::cgroup::cpu_micros(None) is None,
        crate::platform::cgroup::single_value(None) is None,
{
    let word = crate::domain::text::decimal(count as nat);
    crate::platform::reading::the_first_line_with_a_prefix_counts(
        before,
        "usage_usec "@,
        word,
        after,
    );
    crate::platform::reading::written_numbers_are_read_back(count as nat);
    lemma_digits_solid(count as nat);
    assert(!crate::platform::text::is_space(word[0]));
    assert(!crate::platform::text::is_space(word[word.len() - 1]));
    crate::platform::reading::trimming_leaves_the_text(lead, word, trail);
}

} // verus!
