//! What the kernel writes is what is read: files in the form it gives them, number by number.
use vstd::prelude::*;

use crate::linux::cpu;
use crate::linux::cpu::{CpuSample, CpuTimes, Utilization};
use crate::linux::memory;
use crate::linux::memory::FilesystemStatistics;
use crate::linux::process::ProcessIdentity;
use crate::linux::sampler;
use crate::linux::sampler::{CommandFacts, CpuShare, ProcessSample, Reading, SamplerState};
use crate::linux::stat;
use crate::linux::stat::ProcessFacts;
use crate::numerals;
use crate::table;
use crate::text;
use crate::text_laws;

verus! {

broadcast use vstd::string::group_string_axioms;

/// A line of the form `name:  number unit`.
pub open spec fn tells(line: Seq<char>, name: Seq<char>, count: nat) -> bool {
    exists|gaps: Seq<Seq<char>>, fields: Seq<Seq<char>>| #[trigger]
        text_laws::well_spaced(gaps, fields) && fields.len() > 0 && fields[0] == numerals::decimal(
            count,
        ) && line == name + seq![':'] + text_laws::spaced_out(gaps, fields)
}

/// A line that begins with a name and a colon.
pub open spec fn is_about(line: Seq<char>, name: Seq<char>) -> bool {
    exists|rest: Seq<char>| line == #[trigger] (name + seq![':'] + rest)
}

/// The first line about a name tells a number.
pub open spec fn first_tells(lines: Seq<Seq<char>>, at: int, name: Seq<char>, count: nat) -> bool {
    &&& 0 <= at < lines.len()
    &&& tells(lines[at], name, count)
    &&& forall|i: int| 0 <= i < at ==> !is_about(#[trigger] lines[i], name)
}

proof fn lemma_told_value(line: Seq<char>, name: Seq<char>, count: nat)
    requires
        tells(line, name, count),
        !name.contains(':'),
        count <= u64::MAX,
    ensures
        memory::named_value(line, name) == Some(count as int),
{
    let (gaps, fields) = choose|gaps: Seq<Seq<char>>, fields: Seq<Seq<char>>| #[trigger]
        text_laws::well_spaced(gaps, fields) && fields.len() > 0 && fields[0] == numerals::decimal(
            count,
        ) && line == name + seq![':'] + text_laws::spaced_out(gaps, fields);
    text_laws::lemma_halves_are_written(name, ':', text_laws::spaced_out(gaps, fields));
    text_laws::lemma_words_are_all_fields(gaps, fields);
    text_laws::lemma_numbers_are_read_back(count, u64::MAX as int);
}

proof fn lemma_untold_value(line: Seq<char>, name: Seq<char>)
    requires
        !is_about(line, name),
    ensures
        memory::named_value(line, name) is None,
{
    text_laws::lemma_halves_make_the_text(line, ':');
    match text::halves(line, ':') {
        Some((key, rest)) => {
            if key == name {
                assert(line == name + seq![':'] + rest);
            }
        },
        None => {},
    }
}

proof fn lemma_first_told(lines: Seq<Seq<char>>, at: int, from: int, name: Seq<char>, count: nat)
    requires
        first_tells(lines, at, name, count),
        0 <= from <= at,
        !name.contains(':'),
        count <= u64::MAX,
    ensures
        memory::first_value(lines, from, name) == Some(count as int),
    decreases at - from,
{
    if from < at {
        lemma_untold_value(lines[from], name);
        lemma_first_told(lines, at, from + 1, name, count);
    } else {
        lemma_told_value(lines[at], name, count);
    }
}

proof fn lemma_never_told(lines: Seq<Seq<char>>, from: int, name: Seq<char>)
    requires
        0 <= from,
        forall|i: int| 0 <= i < lines.len() ==> !is_about(#[trigger] lines[i], name),
    ensures
        memory::first_value(lines, from, name) is None,
    decreases lines.len() - from,
{
    if from < lines.len() {
        lemma_untold_value(lines[from], name);
        lemma_never_told(lines, from + 1, name);
    }
}

proof fn lemma_memory_names()
    ensures
        !"MemTotal"@.contains(':'),
        !"MemAvailable"@.contains(':'),
        !"MemFree"@.contains(':'),
        !"Buffers"@.contains(':'),
        !"Cached"@.contains(':'),
{
    reveal_strlit("MemTotal");
    reveal_strlit("MemAvailable");
    reveal_strlit("MemFree");
    reveal_strlit("Buffers");
    reveal_strlit("Cached");
}

/// The memory in use is what the file gives as `MemTotal` less what it gives as `MemAvailable`,
/// in units of 1024 bytes, whatever else the file tells; it is never less than nothing.
pub proof fn lemma_memory_in_use(
    lines: Seq<Seq<char>>,
    total_at: int,
    total: nat,
    available_at: int,
    available: nat,
)
    requires
        forall|i: int| 0 <= i < lines.len() ==> text_laws::one_line(#[trigger] lines[i]),
        first_tells(lines, total_at, "MemTotal"@, total),
        first_tells(lines, available_at, "MemAvailable"@, available),
        total * 1024 <= u64::MAX,
        available * 1024 <= u64::MAX,
    ensures
        ({
            let usage = memory::memory_usage(text_laws::written(lines));
            &&& usage is Some
            &&& usage->0.total == total * 1024
            &&& usage->0.used == (if total >= available {
                (total - available) * 1024
            } else {
                0
            })
        }),
        memory::total_memory(text_laws::written(lines)) == Some((total * 1024) as int),
{
    text_laws::lemma_lines_are_written(lines);
    lemma_memory_names();
    lemma_first_told(lines, total_at, 0, "MemTotal"@, total);
    lemma_first_told(lines, available_at, 0, "MemAvailable"@, available);
}

/// Only where the file gives no `MemAvailable` do `MemFree`, `Buffers` and `Cached` together
/// count as what can be had.
pub proof fn lemma_memory_in_use_by_parts(
    lines: Seq<Seq<char>>,
    at: (int, int, int, int),
    total: nat,
    free: nat,
    buffers: nat,
    cached: nat,
)
    requires
        forall|i: int| 0 <= i < lines.len() ==> text_laws::one_line(#[trigger] lines[i]),
        forall|i: int| 0 <= i < lines.len() ==> !is_about(#[trigger] lines[i], "MemAvailable"@),
        first_tells(lines, at.0, "MemTotal"@, total),
        first_tells(lines, at.1, "MemFree"@, free),
        first_tells(lines, at.2, "Buffers"@, buffers),
        first_tells(lines, at.3, "Cached"@, cached),
        total * 1024 <= u64::MAX,
        (free + buffers + cached) * 1024 <= u64::MAX,
    ensures
        ({
            let usage = memory::memory_usage(text_laws::written(lines));
            &&& usage is Some
            &&& usage->0.total == total * 1024
            &&& usage->0.used == (if total >= free + buffers + cached {
                (total - free - buffers - cached) * 1024
            } else {
                0
            })
        }),
{
    text_laws::lemma_lines_are_written(lines);
    lemma_memory_names();
    lemma_first_told(lines, at.0, 0, "MemTotal"@, total);
    lemma_never_told(lines, 0, "MemAvailable"@);
    lemma_first_told(lines, at.1, 0, "MemFree"@, free);
    lemma_first_told(lines, at.2, 0, "Buffers"@, buffers);
    lemma_first_told(lines, at.3, 0, "Cached"@, cached);
}

/// Of a file system with so many blocks, of which so many can be had, the others are in use, each
/// as large as a fragment, or as a block where fragments have no size.
pub proof fn lemma_filesystem_in_use(statistics: FilesystemStatistics, unit: int)
    requires
        unit == statistics.fragment_size && unit > 0 || statistics.fragment_size == 0 && unit
            == statistics.block_size,
        statistics.available_blocks <= statistics.blocks,
        statistics.blocks * unit <= u64::MAX,
    ensures
        memory::space(statistics).total == statistics.blocks * unit,
        memory::space(statistics).used == (statistics.blocks - statistics.available_blocks) * unit,
{
    let blocks = statistics.blocks as int;
    let available = statistics.available_blocks as int;
    assert(available * unit <= blocks * unit) by (nonlinear_arith)
        requires
            0 <= available <= blocks,
            0 <= unit,
    ;
    assert((blocks - available) * unit == blocks * unit - available * unit) by (nonlinear_arith);
    assert(0 <= available * unit) by (nonlinear_arith)
        requires
            0 <= available,
            0 <= unit,
    ;
}

/// A line of processor times: a label and ten numbers, in any spacing. User and nice time, system
/// time, idle time, time waiting for a device, interrupts, soft interrupts, stolen time; then the
/// time of guests.
pub open spec fn counts_times(line: Seq<char>, label: Seq<char>, times: Seq<u64>) -> bool {
    exists|gaps: Seq<Seq<char>>| #[trigger]
        text_laws::well_spaced(gaps, seq![label] + text_laws::decimals(times)) && times.len() == 10
            && line == text_laws::spaced_out(gaps, seq![label] + text_laws::decimals(times))
}

/// The sum of all but the time of guests, which user time holds already.
pub open spec fn all_time(times: Seq<u64>) -> int {
    times[0] + times[1] + times[2] + times[3] + times[4] + times[5] + times[6] + times[7]
}

/// Time in which nothing was done, also because a device was waited for.
pub open spec fn idle_time(times: Seq<u64>) -> int {
    times[3] + times[4]
}

proof fn lemma_total_of_eight(times: Seq<u64>)
    requires
        times.len() == 8,
    ensures
        numerals::total(times) == all_time(times),
{
    reveal_with_fuel(numerals::total, 9);
    assert(times.drop_last() =~= times.take(7));
    assert(times.take(7).drop_last() =~= times.take(6));
    assert(times.take(6).drop_last() =~= times.take(5));
    assert(times.take(5).drop_last() =~= times.take(4));
    assert(times.take(4).drop_last() =~= times.take(3));
    assert(times.take(3).drop_last() =~= times.take(2));
    assert(times.take(2).drop_last() =~= times.take(1));
    assert(times.take(1).drop_last() =~= times.take(0));
}

proof fn lemma_times_are_read(line: Seq<char>, label: Seq<char>, times: Seq<u64>)
    requires
        counts_times(line, label, times),
    ensures
        text::words(line).len() == 11,
        text::words(line)[0] == label,
        numerals::all_unsigned(stat::time_fields(text::words(line))) == Some(times.take(8)),
        numerals::total(times.take(8)) == all_time(times),
        all_time(times) <= u64::MAX ==> cpu::times_in(text::words(line)) == Some(
            CpuTimes { idle: idle_time(times) as u64, total: all_time(times) as u64 },
        ),
{
    let gaps = choose|gaps: Seq<Seq<char>>| #[trigger]
        text_laws::well_spaced(gaps, seq![label] + text_laws::decimals(times)) && line
            == text_laws::spaced_out(gaps, seq![label] + text_laws::decimals(times));
    let fields = seq![label] + text_laws::decimals(times);
    text_laws::lemma_words_are_all_fields(gaps, fields);
    text_laws::lemma_all_numbers_are_read_back(times.take(8));
    assert(stat::time_fields(fields) =~= text_laws::decimals(times.take(8)));
    lemma_total_of_eight(times.take(8));
}

/// The use of the processors between two readings of the file is the time in which something was
/// done, out of all the time that passed on all of them.
pub proof fn lemma_processor_use(
    earlier: Seq<Seq<char>>,
    later: Seq<Seq<char>>,
    before: Seq<u64>,
    after: Seq<u64>,
)
    requires
        forall|i: int| 0 <= i < earlier.len() ==> text_laws::one_line(#[trigger] earlier[i]),
        forall|i: int| 0 <= i < later.len() ==> text_laws::one_line(#[trigger] later[i]),
        earlier.len() > 0,
        later.len() > 0,
        counts_times(earlier[0], "cpu"@, before),
        counts_times(later[0], "cpu"@, after),
        forall|i: int| 0 < i < earlier.len() ==> !starts_with_cpu(#[trigger] earlier[i]),
        forall|i: int| 0 < i < later.len() ==> !starts_with_cpu(#[trigger] later[i]),
        all_time(before) < all_time(after) <= u64::MAX,
        idle_time(before) <= idle_time(after),
        idle_time(after) - idle_time(before) <= all_time(after) - all_time(before),
    ensures
        ({
            let first = text::lines(text_laws::written(earlier));
            let second = text::lines(text_laws::written(later));
            let old_times = cpu::aggregate_times(first, first.len());
            let new_times = cpu::aggregate_times(second, second.len());
            &&& old_times is Some
            &&& new_times is Some
            &&& cpu::utilization(old_times->0, new_times->0) == Some(
                Utilization {
                    busy: ((all_time(after) - idle_time(after)) - (all_time(before) - idle_time(
                        before,
                    ))) as u64,
                    total: (all_time(after) - all_time(before)) as u64,
                },
            )
        }),
{
    text_laws::lemma_lines_are_written(earlier);
    text_laws::lemma_lines_are_written(later);
    lemma_times_are_read(earlier[0], "cpu"@, before);
    lemma_times_are_read(later[0], "cpu"@, after);
    lemma_aggregate_is_first(earlier, earlier.len());
    lemma_aggregate_is_first(later, later.len());
}

/// The first word of a line is `cpu`.
pub open spec fn starts_with_cpu(line: Seq<char>) -> bool {
    text::words(line).len() > 0 && text::words(line)[0] == "cpu"@
}

proof fn lemma_aggregate_is_first(lines: Seq<Seq<char>>, count: nat)
    requires
        0 < count <= lines.len(),
        starts_with_cpu(lines[0]),
        forall|i: int| 0 < i < lines.len() ==> !starts_with_cpu(#[trigger] lines[i]),
    ensures
        cpu::aggregate_times(lines, count) == cpu::times_in(text::words(lines[0])),
    decreases count,
{
    if count > 1 {
        lemma_aggregate_is_first(lines, (count - 1) as nat);
    }
}

/// A line that counts the times of another processor, or of none.
pub open spec fn about_another(line: Seq<char>, index: u32) -> bool {
    ||| text::words(line).len() == 0
    ||| !text::occurs_at(text::words(line)[0], "cpu"@, 0)
    ||| exists|other: u32, times: Seq<u64>|
        other != index && #[trigger] counts_times(
            line,
            "cpu"@ + numerals::decimal(other as nat),
            times,
        )
}

proof fn lemma_another_is_told_apart(line: Seq<char>, index: u32)
    requires
        about_another(line, index),
    ensures
        text::words(line).len() == 0 || cpu::processor_label(text::words(line)[0]) != Some(index),
{
    if text::words(line).len() > 0 && text::occurs_at(text::words(line)[0], "cpu"@, 0) {
        let (other, times) = choose|other: u32, times: Seq<u64>|
            other != index && #[trigger] counts_times(
                line,
                "cpu"@ + numerals::decimal(other as nat),
                times,
            );
        let number = numerals::decimal(other as nat);
        lemma_times_are_read(line, "cpu"@ + number, times);
        text_laws::lemma_prefix_is_taken_off("cpu"@ + number, "cpu"@, number);
        text_laws::lemma_numbers_are_read_back(other as nat, u32::MAX as int);
    }
}

/// The times of one processor are those of its own line: the utilization of each is counted as
/// that of all.
pub proof fn lemma_one_processor_is_read(lines: Seq<Seq<char>>, at: int, index: u32, times: Seq<u64>)
    requires
        forall|i: int| 0 <= i < lines.len() ==> text_laws::one_line(#[trigger] lines[i]),
        0 <= at < lines.len(),
        counts_times(lines[at], "cpu"@ + numerals::decimal(index as nat), times),
        forall|i: int| at < i < lines.len() ==> about_another(#[trigger] lines[i], index),
        all_time(times) <= u64::MAX,
    ensures
        cpu::processor_times(
            text::lines(text_laws::written(lines)),
            text::lines(text_laws::written(lines)).len(),
            index,
        ) == Some(CpuTimes { idle: idle_time(times) as u64, total: all_time(times) as u64 }),
{
    text_laws::lemma_lines_are_written(lines);
    let label = "cpu"@ + numerals::decimal(index as nat);
    lemma_times_are_read(lines[at], label, times);
    text_laws::lemma_prefix_is_taken_off(label, "cpu"@, numerals::decimal(index as nat));
    text_laws::lemma_numbers_are_read_back(index as nat, u32::MAX as int);
    assert(label.len() > "cpu"@.len());
    assert forall|i: int| at < i < lines.len() implies text::words(#[trigger] lines[i]).len() == 0
        || cpu::processor_label(text::words(lines[i])[0]) != Some(index) by {
        lemma_another_is_told_apart(lines[i], index);
    }
    lemma_processor_is_last(lines, lines.len(), at, index);
}

proof fn lemma_processor_is_last(lines: Seq<Seq<char>>, count: nat, at: int, index: u32)
    requires
        0 <= at < count <= lines.len(),
        text::words(lines[at]).len() > 0,
        text::words(lines[at])[0] != "cpu"@,
        cpu::processor_label(text::words(lines[at])[0]) == Some(index),
        cpu::times_in(text::words(lines[at])) is Some,
        forall|i: int|
            at < i < lines.len() ==> text::words(#[trigger] lines[i]).len() == 0
                || cpu::processor_label(text::words(lines[i])[0]) != Some(index),
    ensures
        cpu::processor_times(lines, count, index) == cpu::times_in(text::words(lines[at])),
    decreases count,
{
    if count - 1 > at {
        lemma_processor_is_last(lines, (count - 1) as nat, at, index);
    }
}

/// A line about one processor, by its number.
pub open spec fn processor_line(line: Seq<char>, index: nat) -> bool {
    exists|gap: char, rest: Seq<char>|
        text::whitespace(gap) && line == #[trigger] ("cpu"@ + numerals::decimal(index) + seq![gap]
            + rest)
}

/// The ticks of the whole system are the sum of the first line, and there are as many processors
/// as lines about one, but at least one.
pub proof fn lemma_system_ticks_are_read(lines: Seq<Seq<char>>, times: Seq<u64>, processors: nat)
    requires
        forall|i: int| 0 <= i < lines.len() ==> text_laws::one_line(#[trigger] lines[i]),
        0 < lines.len(),
        processors < lines.len(),
        counts_times(lines[0], "cpu"@, times),
        all_time(times) <= u64::MAX,
        forall|i: int|
            1 <= i <= processors ==> processor_line(#[trigger] lines[i], (i - 1) as nat),
        forall|i: int|
            processors < i < lines.len() ==> !text::occurs_at(#[trigger] lines[i], "cpu"@, 0),
    ensures
        stat::system_ticks(text_laws::written(lines)) == Some(
            (all_time(times), if processors == 0 {
                1
            } else {
                processors as int
            }),
        ),
{
    text_laws::lemma_lines_are_written(lines);
    lemma_times_are_read(lines[0], "cpu"@, times);
    lemma_processors_are_counted(lines, processors, 1);
}

proof fn lemma_processors_are_counted(lines: Seq<Seq<char>>, processors: nat, from: int)
    requires
        1 <= from <= lines.len(),
        processors < lines.len(),
        forall|i: int|
            1 <= i <= processors ==> processor_line(#[trigger] lines[i], (i - 1) as nat),
        forall|i: int|
            processors < i < lines.len() ==> !text::occurs_at(#[trigger] lines[i], "cpu"@, 0),
    ensures
        stat::processor_count(lines, from) == (if from <= processors {
            processors + 1 - from
        } else {
            0
        }),
    decreases lines.len() - from,
{
    if from < lines.len() {
        lemma_processors_are_counted(lines, processors, from + 1);
        if from <= processors {
            let line = lines[from];
            let number = numerals::decimal((from - 1) as nat);
            let (gap, rest) = choose|gap: char, rest: Seq<char>|
                text::whitespace(gap) && line == #[trigger] ("cpu"@ + number + seq![gap] + rest);
            let tail = number + seq![gap] + rest;
            assert(line =~= "cpu"@ + tail);
            text_laws::lemma_prefix_is_taken_off(line, "cpu"@, tail);
            text_laws::lemma_numbers_are_read_back((from - 1) as nat, u64::MAX as int);
            numerals::lemma_decimal_reads_back((from - 1) as nat);
            text_laws::lemma_first_word(number, gap, rest);
        }
    }
}

/// Between two listings a process took the ticks by which its count grew, out of those by which
/// the count of the whole system grew, on so many processors.
pub proof fn lemma_share_is_what_was_used<S, C, T, D>(
    earlier: Seq<ProcessSample>,
    later: Seq<ProcessSample>,
    before: SamplerState,
    between: SamplerState,
    after: SamplerState,
    earlier_system: Option<String>,
    later_system: Option<String>,
    earlier_names: Seq<String>,
    later_names: Seq<String>,
    page_size: u64,
    earlier_stat: S,
    earlier_command: C,
    later_stat: T,
    later_command: D,
    i: int,
    j: int,
    old_ticks: u64,
    new_ticks: u64,
    processors: usize,
) where
    S: Fn(&str) -> Option<String>,
    C: Fn(&str) -> Option<String>,
    T: Fn(&str) -> Option<String>,
    D: Fn(&str) -> Option<String>,

    requires
        sampler::listing_sampled(
            earlier,
            before,
            between,
            earlier_system,
            earlier_names,
            page_size,
            earlier_stat,
            earlier_command,
        ),
        sampler::listing_sampled(
            later,
            between,
            after,
            later_system,
            later_names,
            page_size,
            later_stat,
            later_command,
        ),
        0 <= i < earlier.len(),
        0 <= j < later.len(),
        earlier[i].process.pid == later[j].process.pid,
        earlier[i].process.start_time == later[j].process.start_time,
        forall|k: int|
            i < k < earlier.len() ==> (#[trigger] earlier[k]).process.pid
                != earlier[i].process.pid,
        earlier_system is Some,
        later_system is Some,
        stat::system_ticks(earlier_system->0@) matches Some((ticks, _)) && ticks == old_ticks,
        stat::system_ticks(later_system->0@) == Some((new_ticks as int, processors as int)),
        old_ticks < new_ticks,
        earlier[i].process.cpu_ticks <= later[j].process.cpu_ticks,
    ensures
        later[j].cpu == Some(
            CpuShare {
                process: (later[j].process.cpu_ticks - earlier[i].process.cpu_ticks) as u64,
                system: (new_ticks - old_ticks) as u64,
                cpu_count: processors,
            },
        ),
{
    let first = choose|readings: Seq<Reading>|
        {
            let listing = #[trigger] sampler::collected(
                before.commands,
                text::views(earlier_names),
                readings,
                page_size,
                earlier_names.len(),
            );
            &&& sampler::sampled(earlier, before, sampler::ticks_read(earlier_system), listing)
            &&& between == before.after(sampler::ticks_read(earlier_system), listing)
        };
    let shown = sampler::collected(
        before.commands,
        text::views(earlier_names),
        first,
        page_size,
        earlier_names.len(),
    ).processes;
    assert(forall|k: int| 0 <= k < shown.len() ==> #[trigger] shown[k] == earlier[k].process@);
    assert forall|k: int| i < k < shown.len() implies (#[trigger] shown[k]).key()
        != shown[i].key() by {
        assert(earlier[k].process.pid != earlier[i].process.pid);
        if shown[k].key() == shown[i].key() {
            sampler::lemma_keys_tell_processes_apart(
                ProcessIdentity { pid: shown[k].pid, start_time: shown[k].start_time },
                ProcessIdentity { pid: shown[i].pid, start_time: shown[i].start_time },
            );
        }
    }
    lemma_ticks_are_remembered(shown, i);
}

proof fn lemma_ticks_are_remembered(shown: Seq<ProcessFacts>, i: int)
    requires
        0 <= i < shown.len(),
        forall|k: int| i < k < shown.len() ==> (#[trigger] shown[k]).key() != shown[i].key(),
    ensures
        sampler::ticks_of(shown).dom().contains(shown[i].key()),
        sampler::ticks_of(shown)[shown[i].key()] == shown[i].cpu_ticks,
    decreases shown.len(),
{
    if i < shown.len() - 1 {
        assert(shown.last().key() != shown[i].key());
        lemma_ticks_are_remembered(shown.drop_last(), i);
    }
}

/// Two descriptions are of one process, whatever its command.
pub open spec fn one_description(left: ProcessFacts, right: ProcessFacts) -> bool {
    &&& left.pid == right.pid
    &&& left.name == right.name
    &&& left.state == right.state
    &&& left.parent_pid == right.parent_pid
    &&& left.cpu_ticks == right.cpu_ticks
    &&& left.start_time == right.start_time
    &&& left.memory_bytes == right.memory_bytes
}

/// Every directory that is called by a PID, and whose status describes the process with that PID,
/// is listed as the status describes it.
pub proof fn lemma_every_process_is_listed(
    known: Map<u128, CommandFacts>,
    names: Seq<Seq<char>>,
    readings: Seq<Reading>,
    page_size: u64,
    count: nat,
    i: int,
    pid: u32,
)
    requires
        0 <= i < count <= names.len(),
        count <= readings.len(),
        names[i] == numerals::decimal(pid as nat),
        readings[i].stat is Some,
        stat::described(readings[i].stat->0@, page_size) is Some,
        stat::described(readings[i].stat->0@, page_size)->0.pid == pid,
    ensures
        exists|k: int|
            0 <= k < sampler::collected(known, names, readings, page_size, count).processes.len()
                && one_description(
                #[trigger] sampler::collected(
                    known,
                    names,
                    readings,
                    page_size,
                    count,
                ).processes[k],
                stat::described(readings[i].stat->0@, page_size)->0,
            ),
    decreases count,
{
    let all = sampler::collected(known, names, readings, page_size, count).processes;
    let before = sampler::collected(
        known,
        names,
        readings,
        page_size,
        (count - 1) as nat,
    ).processes;
    let wanted = stat::described(readings[i].stat->0@, page_size)->0;
    if i < count - 1 {
        lemma_every_process_is_listed(
            known,
            names,
            readings,
            page_size,
            (count - 1) as nat,
            i,
            pid,
        );
        let k = choose|k: int|
            0 <= k < before.len() && one_description(#[trigger] before[k], wanted);
        assert(all[k] == before[k]);
    } else {
        text_laws::lemma_numbers_are_read_back(pid as nat, u32::MAX as int);
        assert(one_description(all[before.len() as int], wanted));
    }
}

/// Whatever is listed has a directory whose status describes it.
pub proof fn lemma_nothing_else_is_listed(
    known: Map<u128, CommandFacts>,
    names: Seq<Seq<char>>,
    readings: Seq<Reading>,
    page_size: u64,
    count: nat,
    k: int,
)
    requires
        count <= names.len(),
        count <= readings.len(),
        0 <= k < sampler::collected(known, names, readings, page_size, count).processes.len(),
    ensures
        exists|i: int|
            0 <= i < count && (#[trigger] readings[i]).stat is Some && stat::described(
                readings[i].stat->0@,
                page_size,
            ) is Some && one_description(
                sampler::collected(known, names, readings, page_size, count).processes[k],
                stat::described(readings[i].stat->0@, page_size)->0,
            ),
    decreases count,
{
    if count > 0 {
        let all = sampler::collected(known, names, readings, page_size, count).processes;
        let before = sampler::collected(
            known,
            names,
            readings,
            page_size,
            (count - 1) as nat,
        ).processes;
        if k < before.len() {
            lemma_nothing_else_is_listed(
                known,
                names,
                readings,
                page_size,
                (count - 1) as nat,
                k,
            );
            assert(all[k] == before[k]);
            let i = choose|i: int|
                0 <= i < count - 1 && (#[trigger] readings[i]).stat is Some && stat::described(
                    readings[i].stat->0@,
                    page_size,
                ) is Some && one_description(
                    before[k],
                    stat::described(readings[i].stat->0@, page_size)->0,
                );
            assert(readings[i].stat is Some);
        } else {
            assert(readings[count - 1].stat is Some);
        }
    }
}

/// Each processor is compared with itself: its use since the last sample is the time in which it
/// did something, out of all its time.
pub proof fn lemma_each_processor_is_compared_with_itself(
    previous: CpuSample,
    at: int,
    times: CpuTimes,
)
    requires
        table::ascending(previous.logical@),
        0 <= at < previous.logical@.len(),
        previous.logical@[at].1.total < times.total,
        previous.logical@[at].1.idle <= times.idle,
        times.idle - previous.logical@[at].1.idle <= times.total - previous.logical@[at].1.total,
    ensures
        ({
            let before = previous.logical@[at].1;
            let share = cpu::share_since(Some(previous), previous.logical@[at].0, times);
            &&& share is Some
            &&& share->0.total == times.total - before.total
            &&& share->0.busy == (times.total - before.total) - (times.idle - before.idle)
        }),
        cpu::share_since(None, previous.logical@[at].0, times) is None,
{
    table::lemma_lookup(previous.logical@, previous.logical@[at].0);
}

} // verus!
