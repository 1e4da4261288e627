//! Records as the system writes them, and what is made of each of their fields.
use vstd::prelude::*;

use crate::linux::disk_io;
use crate::linux::disk_io::{DiskCounters, DiskRates};
use crate::linux::journal::JournalEntry;
use crate::linux::journal_reader::JournalStatus;
use crate::linux::network_sampler;
use crate::linux::network_sampler::{InterfaceFiles, ListingFacts, NetworkListing, RawNetDevRow};
use crate::linux::rate;
use crate::linux::rate::{CounterSample, NamedCounters};
use crate::linux::service::ServiceInfo;
use crate::linux::service_listing;
use crate::linux::service_listing::{CommandOutcome, ServiceFacts, ShowState};
use crate::linux::stat;
use crate::linux::stat::ProcessFacts;
use crate::linux::storage;
use crate::numerals;
use crate::order;
use crate::text;
use crate::text_laws;
use crate::time::Nanos;

verus! {

broadcast use vstd::string::group_string_axioms;

proof fn lemma_last_found(text: Seq<char>, before: int, at: int, wanted: char)
    requires
        0 <= at < before <= text.len(),
        text[at] == wanted,
        forall|i: int| at < i < before ==> #[trigger] text[i] != wanted,
    ensures
        text::last_position(text, before, wanted) == at,
    decreases before,
{
    if before - 1 > at {
        lemma_last_found(text, before - 1, at, wanted);
    }
}

/// The status line of a process, as the kernel writes it: the PID, the name in parentheses, which
/// may hold anything, and then the fields.
pub open spec fn status_line(
    pid: u32,
    name: Seq<char>,
    gaps: Seq<Seq<char>>,
    fields: Seq<Seq<char>>,
    tail: Seq<char>,
) -> Seq<char> {
    numerals::decimal(pid as nat) + seq![' ', '('] + name + seq![')'] + text_laws::spaced_out(
        gaps,
        fields,
    ) + tail
}

/// Each field of a status line is read for what it is: behind the name the state comes first, then
/// the parent; the twelfth and the thirteenth field together are the ticks used, the twentieth is
/// when the process started, and the twenty-second how many pages it has in memory.
pub proof fn lemma_status_line_is_read(
    pid: u32,
    name: Seq<char>,
    gaps: Seq<Seq<char>>,
    fields: Seq<Seq<char>>,
    tail: Seq<char>,
    parent: u32,
    user_ticks: u64,
    system_ticks: u64,
    start_time: u64,
    pages: nat,
    page_size: u64,
)
    requires
        text_laws::well_spaced(gaps, fields),
        text_laws::blank(tail),
        fields.len() > 21,
        gaps[0].len() > 0,
        !(text_laws::spaced_out(gaps, fields) + tail).contains(')'),
        fields[1] == numerals::decimal(parent as nat),
        fields[11] == numerals::decimal(user_ticks as nat),
        fields[12] == numerals::decimal(system_ticks as nat),
        fields[19] == numerals::decimal(start_time as nat),
        fields[21] == numerals::decimal(pages),
        user_ticks + system_ticks <= u64::MAX,
        pages <= i64::MAX,
        pages * page_size <= u64::MAX,
    ensures
        stat::described(status_line(pid, name, gaps, fields, tail), page_size) == Some(
            ProcessFacts {
                pid,
                name,
                state: fields[0][0],
                parent_pid: parent,
                cpu_ticks: (user_ticks + system_ticks) as u64,
                start_time,
                memory_bytes: (pages * page_size) as u64,
                command: None,
            },
        ),
        stat::parsed_start_time(status_line(pid, name, gaps, fields, tail)) == Some(
            start_time as int,
        ),
{
    let line = status_line(pid, name, gaps, fields, tail);
    let number = numerals::decimal(pid as nat);
    let rest = text_laws::spaced_out(gaps, fields) + tail;
    let before = number + seq![' ', '('] + name + seq![')'];
    assert(line =~= before + text_laws::spaced_out(gaps, fields) + tail);
    let open = number.len() as int + 1;
    let close = before.len() - 1;
    text_laws::lemma_numbers_are_read_back(pid as nat, u32::MAX as int);
    numerals::lemma_decimal_reads_back(pid as nat);
    assert(line[open] == '(');
    assert forall|i: int| 0 <= i < open implies #[trigger] line[i] != '(' by {
        if i < number.len() {
            assert(line[i] == number[i]);
            assert(numerals::digit(number[i]));
        }
    }
    text_laws::lemma_break_found(line, 0, open, '(');
    assert(line[close] == ')');
    assert forall|i: int| close < i < line.len() implies #[trigger] line[i] != ')' by {
        assert(line[i] == rest[i - close - 1]);
        assert(rest.contains(rest[i - close - 1]));
    }
    lemma_last_found(line, line.len() as int, close, ')');
    text_laws::lemma_words_behind(before, gaps, fields, tail);
    assert(line.take(open) =~= Seq::<char>::empty() + number + seq![' ']);
    assert(!text::whitespace(number[0]) && !text::whitespace(number.last())) by {
        assert(numerals::digit(number[0]));
        assert(numerals::digit(number[number.len() - 1]));
    }
    text_laws::lemma_trimming_keeps_the_text(Seq::empty(), number, seq![' ']);
    assert(line.subrange(open + 1, close) =~= name);
    text_laws::lemma_numbers_are_read_back(parent as nat, u32::MAX as int);
    text_laws::lemma_numbers_are_read_back(user_ticks as nat, u64::MAX as int);
    text_laws::lemma_numbers_are_read_back(system_ticks as nat, u64::MAX as int);
    text_laws::lemma_numbers_are_read_back(start_time as nat, u64::MAX as int);
    text_laws::lemma_numbers_are_read_back(pages, i64::MAX as int);
    assert(pages as int * page_size as int == 0 || pages > 0) by (nonlinear_arith)
        requires
            pages >= 0,
    ;
}

/// A line of the counters of an interface: its name, a colon, and sixteen numbers in any spacing.
pub open spec fn counter_line(
    line: Seq<char>,
    before: Seq<char>,
    name: Seq<char>,
    numbers: Seq<u64>,
) -> bool {
    exists|gaps: Seq<Seq<char>>| #[trigger]
        text_laws::well_spaced(gaps, text_laws::decimals(numbers)) && text_laws::blank(before)
            && text_laws::word(name) && !name.contains(':') && numbers.len() == 16 && line == before
            + name + seq![':'] + text_laws::spaced_out(gaps, text_laws::decimals(numbers))
}

proof fn lemma_numbers_among(numbers: Seq<u64>, count: nat)
    requires
        count <= numbers.len(),
    ensures
        network_sampler::numbers_among(text_laws::decimals(numbers), count) == numbers.take(
            count as int,
        ),
    decreases count,
{
    if count > 0 {
        lemma_numbers_among(numbers, (count - 1) as nat);
        text_laws::lemma_numbers_are_read_back(numbers[count - 1] as nat, u64::MAX as int);
        assert(numbers.take(count as int) =~= numbers.take(count - 1).push(numbers[count - 1]));
    } else {
        assert(numbers.take(0) =~= Seq::empty());
    }
}

proof fn lemma_counter_line(line: Seq<char>, before: Seq<char>, name: Seq<char>, numbers: Seq<u64>)
    requires
        counter_line(line, before, name, numbers),
    ensures
        network_sampler::counts_interface(line),
        text::halves(line, ':') matches Some((left, right)) && text::trimmed(left) == name
            && network_sampler::counters_in(right) == numbers,
{
    let gaps = choose|gaps: Seq<Seq<char>>| #[trigger]
        text_laws::well_spaced(gaps, text_laws::decimals(numbers)) && line == before + name + seq![
            ':',
        ] + text_laws::spaced_out(gaps, text_laws::decimals(numbers));
    let left = before + name;
    assert(!left.contains(':')) by {
        if left.contains(':') {
            let i = choose|i: int| 0 <= i < left.len() && left[i] == ':';
            if i < before.len() {
                assert(text::whitespace(before[i]));
            } else {
                assert(name[i - before.len()] == ':');
            }
        }
    }
    text_laws::lemma_halves_are_written(
        left,
        ':',
        text_laws::spaced_out(gaps, text_laws::decimals(numbers)),
    );
    assert(!text::whitespace(name[0]) && !text::whitespace(name[name.len() - 1]));
    assert(left =~= before + name + Seq::<char>::empty());
    text_laws::lemma_trimming_keeps_the_text(before, name, Seq::empty());
    text_laws::lemma_words_are_all_fields(gaps, text_laws::decimals(numbers));
    lemma_numbers_among(numbers, 16);
    assert(numbers.take(16) =~= numbers);
}

/// Of the sixteen numbers behind the name of an interface the first four are the bytes, packets,
/// errors and drops received, the ninth to the twelfth those sent.
pub proof fn lemma_interface_counters_are_read(
    row: RawNetDevRow,
    line: Seq<char>,
    before: Seq<char>,
    name: Seq<char>,
    numbers: Seq<u64>,
)
    requires
        row.counted_in(line),
        counter_line(line, before, name, numbers),
    ensures
        row.name@ == name,
        row.rx_bytes == numbers[0],
        row.rx_packets == numbers[1],
        row.rx_errors == numbers[2],
        row.rx_dropped == numbers[3],
        row.tx_bytes == numbers[8],
        row.tx_packets == numbers[9],
        row.tx_errors == numbers[10],
        row.tx_dropped == numbers[11],
{
    lemma_counter_line(line, before, name, numbers);
}

/// Every line of counters in the file has its row, in order, below two lines of headings.
pub proof fn lemma_all_interfaces_are_read(
    rows: Seq<RawNetDevRow>,
    lines: Seq<Seq<char>>,
    befores: Seq<Seq<char>>,
    names: Seq<Seq<char>>,
    numbers: Seq<Seq<u64>>,
    i: int,
)
    requires
        forall|k: int| 0 <= k < lines.len() ==> text_laws::one_line(#[trigger] lines[k]),
        lines.len() >= 2,
        !lines[0].contains(':'),
        !lines[1].contains(':'),
        forall|k: int|
            2 <= k < lines.len() ==> counter_line(
                #[trigger] lines[k],
                befores[k - 2],
                names[k - 2],
                numbers[k - 2],
            ),
        network_sampler::rows_of(rows, text_laws::written(lines)),
        0 <= i < lines.len() - 2,
    ensures
        rows.len() == lines.len() - 2,
        rows[i].name@ == names[i],
        rows[i].rx_bytes == numbers[i][0],
        rows[i].tx_bytes == numbers[i][8],
{
    text_laws::lemma_lines_are_written(lines);
    lemma_interface_lines(lines, befores, names, numbers, lines.len());
    assert(lines.skip(2)[i] == lines[i + 2]);
    lemma_counter_line(lines[i + 2], befores[i], names[i], numbers[i]);
    assert(rows[i].counted_in(lines[i + 2]));
}

proof fn lemma_interface_lines(
    lines: Seq<Seq<char>>,
    befores: Seq<Seq<char>>,
    names: Seq<Seq<char>>,
    numbers: Seq<Seq<u64>>,
    count: nat,
)
    requires
        count <= lines.len(),
        lines.len() >= 2,
        !lines[0].contains(':'),
        !lines[1].contains(':'),
        forall|k: int|
            2 <= k < lines.len() ==> counter_line(
                #[trigger] lines[k],
                befores[k - 2],
                names[k - 2],
                numbers[k - 2],
            ),
    ensures
        network_sampler::interface_lines(lines, count) == (if count <= 2 {
            Seq::empty()
        } else {
            lines.take(count as int).skip(2)
        }),
    decreases count,
{
    if count > 0 {
        lemma_interface_lines(lines, befores, names, numbers, (count - 1) as nat);
        let line = lines[count - 1];
        if count <= 2 {
            text_laws::lemma_halves_make_the_text(line, ':');
            if text::halves(line, ':') is Some {
                let (left, right) = text::halves(line, ':')->0;
                assert(line[left.len() as int] == ':');
            }
        } else {
            lemma_counter_line(line, befores[count - 3], names[count - 3], numbers[count - 3]);
            assert(lines.take(count as int).skip(2) =~= (if count - 1 <= 2 {
                Seq::empty()
            } else {
                lines.take(count - 1).skip(2)
            }).push(line));
        }
    }
}

proof fn lemma_known_by_name(
    devices: Seq<NamedCounters>,
    from: int,
    at: int,
    name: Seq<char>,
    sample: CounterSample,
)
    requires
        0 <= from <= at < devices.len(),
        devices[at].name == name,
        forall|k: int|
            from <= k < devices.len() && (#[trigger] devices[k]).name == name ==> devices[k].sample
                == sample,
    ensures
        rate::known_sample(devices, from, name) == Some(sample),
    decreases at - from,
{
    if devices[from].name != name {
        lemma_known_by_name(devices, from + 1, at, name, sample);
    }
}

proof fn lemma_samples_of_listing(facts: ListingFacts, count: nat, i: int, row: RawNetDevRow)
    requires
        0 <= i < count <= facts.names.len(),
        network_sampler::row_named(facts.rows, 0, facts.names[i]@) == Some(row),
    ensures
        ({
            let samples = facts.samples(count);
            &&& exists|k: int|
                0 <= k < samples.len() && (#[trigger] samples[k]).name == facts.names[i]@
            &&& forall|k: int|
                0 <= k < samples.len() && (#[trigger] samples[k]).name == facts.names[i]@
                    ==> samples[k].sample == (CounterSample {
                    first: row.rx_bytes,
                    second: row.tx_bytes,
                    at: facts.now,
                })
        }),
    decreases count,
{
    let before = facts.samples((count - 1) as nat);
    let samples = facts.samples(count);
    let name = facts.names[i]@;
    if i < count - 1 {
        lemma_samples_of_listing(facts, (count - 1) as nat, i, row);
        let k = choose|k: int| 0 <= k < before.len() && (#[trigger] before[k]).name == name;
        assert(samples[k].name == name);
        assert forall|k: int| 0 <= k < samples.len() && (#[trigger] samples[k]).name
            == name implies samples[k].sample == (CounterSample {
            first: row.rx_bytes,
            second: row.tx_bytes,
            at: facts.now,
        }) by {
            if k < before.len() {
                assert(before[k].name == name);
            }
        }
    } else {
        assert(samples.last().name == name);
        lemma_earlier_samples(facts, (count - 1) as nat, name, row);
        assert forall|k: int| 0 <= k < samples.len() && (#[trigger] samples[k]).name
            == name implies samples[k].sample == (CounterSample {
            first: row.rx_bytes,
            second: row.tx_bytes,
            at: facts.now,
        }) by {
            if k < before.len() {
                assert(before[k].name == name);
            }
        }
    }
}

proof fn lemma_earlier_samples(facts: ListingFacts, count: nat, name: Seq<char>, row: RawNetDevRow)
    requires
        count <= facts.names.len(),
        network_sampler::row_named(facts.rows, 0, name) == Some(row),
    ensures
        forall|k: int|
            0 <= k < facts.samples(count).len() && (#[trigger] facts.samples(count)[k]).name == name
                ==> facts.samples(count)[k].sample == (CounterSample {
                first: row.rx_bytes,
                second: row.tx_bytes,
                at: facts.now,
            }),
    decreases count,
{
    if count > 0 {
        lemma_earlier_samples(facts, (count - 1) as nat, name, row);
        let before = facts.samples((count - 1) as nat);
        assert forall|k: int|
            0 <= k < facts.samples(count).len() && (#[trigger] facts.samples(count)[k]).name
                == name implies facts.samples(count)[k].sample == (CounterSample {
            first: row.rx_bytes,
            second: row.tx_bytes,
            at: facts.now,
        }) by {
            if k < before.len() {
                assert(before[k].name == name);
            }
        }
    }
}

/// Between two listings an interface received and sent as many bytes as its counters grew by, in
/// the time that passed; received bytes are received bytes and sent ones are sent ones.
pub proof fn lemma_interface_rates(
    earlier: NetworkListing,
    earlier_facts: ListingFacts,
    earlier_files: Seq<InterfaceFiles>,
    later: NetworkListing,
    later_facts: ListingFacts,
    later_files: Seq<InterfaceFiles>,
    after: Seq<NamedCounters>,
    i: int,
    j: int,
)
    requires
        network_sampler::listed(earlier, earlier_facts, earlier_files, later_facts.previous),
        network_sampler::listed(later, later_facts, later_files, after),
        0 <= i < earlier.interfaces@.len(),
        0 <= j < later.interfaces@.len(),
        earlier.interfaces@[i].info.name@ == later.interfaces@[j].info.name@,
        network_sampler::row_named(
            earlier_facts.rows,
            0,
            earlier.interfaces@[i].info.name@,
        ) is Some,
        network_sampler::row_named(later_facts.rows, 0, later.interfaces@[j].info.name@) is Some,
        later_facts.now - earlier_facts.now >= 1_000_000,
        earlier.interfaces@[i].info.rx_bytes <= later.interfaces@[j].info.rx_bytes,
        earlier.interfaces@[i].info.tx_bytes <= later.interfaces@[j].info.tx_bytes,
    ensures
        ({
            let old_info = earlier.interfaces@[i].info;
            let new_info = later.interfaces@[j].info;
            &&& later.interfaces@[j].rates matches Some((received, sent)) && received.delta
                == new_info.rx_bytes - old_info.rx_bytes && sent.delta == new_info.tx_bytes
                - old_info.tx_bytes && received.elapsed == later_facts.now - earlier_facts.now
                && sent.elapsed == later_facts.now - earlier_facts.now
        }),
{
    let name = later.interfaces@[j].info.name@;
    assert(earlier_facts.shows(earlier.interfaces@[i], earlier_files[i], i));
    assert(later_facts.shows(later.interfaces@[j], later_files[j], j));
    let row = network_sampler::row_named(earlier_facts.rows, 0, name)->0;
    lemma_samples_of_listing(earlier_facts, earlier_facts.names.len(), i, row);
    let samples = later_facts.previous;
    let k = choose|k: int|
        0 <= k < samples.len() && (#[trigger] samples[k]).name == earlier_facts.names[i]@;
    lemma_known_by_name(
        samples,
        0,
        k,
        name,
        CounterSample { first: row.rx_bytes, second: row.tx_bytes, at: earlier_facts.now },
    );
}

/// What the files in the directory of an interface say is what is shown of it, and the counters
/// are those of its row.
pub proof fn lemma_interface_is_described(
    listing: NetworkListing,
    facts: ListingFacts,
    files: Seq<InterfaceFiles>,
    after: Seq<NamedCounters>,
    i: int,
    k: int,
    mtu: u32,
    address: Seq<char>,
)
    requires
        network_sampler::listed(listing, facts, files, after),
        0 <= i < listing.interfaces@.len(),
        0 <= k < facts.rows.len(),
        facts.rows[k].name@ == listing.interfaces@[i].info.name@,
        forall|m: int|
            0 <= m < k ==> (#[trigger] facts.rows[m]).name@ != listing.interfaces@[i].info.name@,
        files[i].mtu is Some,
        files[i].mtu->0@ == numerals::decimal(mtu as nat) + seq!['\n'],
        files[i].address is Some,
        files[i].address->0@ == address + seq!['\n'],
        text_laws::word(address),
    ensures
        ({
            let info = listing.interfaces@[i].info;
            let row = facts.rows[k];
            &&& info.rx_bytes == row.rx_bytes
            &&& info.tx_bytes == row.tx_bytes
            &&& info.rx_packets == row.rx_packets
            &&& info.tx_packets == row.tx_packets
            &&& info.rx_errors == row.rx_errors
            &&& info.tx_errors == row.tx_errors
            &&& info.rx_dropped == row.rx_dropped
            &&& info.tx_dropped == row.tx_dropped
            &&& info.mtu == Some(mtu)
            &&& address != "00:00:00:00:00:00"@ ==> info.mac_address is Some
                && info.mac_address->0@ == address
            &&& address == "00:00:00:00:00:00"@ ==> info.mac_address is None
        }),
{
    assert(facts.shows(listing.interfaces@[i], files[i], i));
    lemma_row_is_named(facts.rows, 0, k, listing.interfaces@[i].info.name@);
    let number = numerals::decimal(mtu as nat);
    text_laws::lemma_numbers_are_read_back(mtu as nat, u32::MAX as int);
    assert(!text::whitespace(number[0]) && !text::whitespace(number[number.len() - 1]));
    assert(files[i].mtu->0@ =~= Seq::<char>::empty() + number + seq!['\n']);
    text_laws::lemma_trimming_keeps_the_text(Seq::empty(), number, seq!['\n']);
    assert(!text::whitespace(address[0]) && !text::whitespace(address[address.len() - 1]));
    assert(files[i].address->0@ =~= Seq::<char>::empty() + address + seq!['\n']);
    text_laws::lemma_trimming_keeps_the_text(Seq::empty(), address, seq!['\n']);
}

proof fn lemma_row_is_named(rows: Seq<RawNetDevRow>, from: int, k: int, name: Seq<char>)
    requires
        0 <= from <= k < rows.len(),
        rows[k].name@ == name,
        forall|m: int| from <= m < k ==> (#[trigger] rows[m]).name@ != name,
    ensures
        network_sampler::row_named(rows, from, name) == Some(rows[k]),
    decreases k - from,
{
    if from < k {
        lemma_row_is_named(rows, from + 1, k, name);
    }
}

/// A line of the counters of a disk: two numbers of the device, its name, and at least eleven
/// counters. The third of these counts sectors read, the seventh sectors written.
pub proof fn lemma_disk_counters_are_read(
    gaps: Seq<Seq<char>>,
    major: u64,
    minor: u64,
    name: Seq<char>,
    counters: Seq<u64>,
)
    requires
        counters.len() >= 11,
        text_laws::word(name),
        storage::whole_disk(name),
        text_laws::well_spaced(
            gaps,
            text_laws::decimals(seq![major, minor]) + seq![name] + text_laws::decimals(counters),
        ),
    ensures
        disk_io::disk_row(
            text_laws::spaced_out(
                gaps,
                text_laws::decimals(seq![major, minor]) + seq![name] + text_laws::decimals(
                    counters,
                ),
            ),
        ) == Some(
            DiskCounters { name, sectors_read: counters[2], sectors_written: counters[6] },
        ),
{
    let fields = text_laws::decimals(seq![major, minor]) + seq![name] + text_laws::decimals(
        counters,
    );
    text_laws::lemma_words_are_all_fields(gaps, fields);
    assert(fields[2] == name);
    text_laws::lemma_all_numbers_are_read_back(counters.take(11));
    assert(fields.subrange(3, 14) =~= text_laws::decimals(counters.take(11)));
}

/// Between two samples a disk was read and written by as many sectors as its counters grew by, in
/// the time that passed.
pub proof fn lemma_disk_rates(
    earlier: Option<String>,
    then: Nanos,
    later: Option<String>,
    now: Nanos,
    shown: Seq<DiskRates>,
    i: int,
    j: int,
)
    requires
        disk_io::rated(
            shown,
            disk_io::disks_read(earlier, then),
            disk_io::disks_read(later, now),
        ),
        0 <= i < shown.len(),
        0 <= j < disk_io::disks_read(earlier, then).len(),
        disk_io::disks_read(earlier, then)[j].name == shown[i].name@,
        now - then >= 1_000_000,
        disk_io::disks_read(earlier, then)[j].sample.first <= disk_io::disks_read(
            later,
            now,
        )[i].sample.first,
        disk_io::disks_read(earlier, then)[j].sample.second <= disk_io::disks_read(
            later,
            now,
        )[i].sample.second,
        disk_io::disks_read(earlier, then)[j].sample.at == then,
        disk_io::disks_read(later, now)[i].sample.at == now,
    ensures
        ({
            let old_disk = disk_io::disks_read(earlier, then)[j].sample;
            let new_disk = disk_io::disks_read(later, now)[i].sample;
            &&& shown[i].rates matches Some((read, written)) && read.delta == new_disk.first
                - old_disk.first && written.delta == new_disk.second - old_disk.second
                && read.elapsed == now - then && written.elapsed == now - then
        }),
{
    let disks = disk_io::disks_read(earlier, then);
    if earlier is Some {
        let rows = disk_io::disk_rows(
            text::lines(earlier->0@),
            text::lines(earlier->0@).len(),
        );
        disk_io::lemma_disks_are_distinct(rows, rows.len(), then);
    }
    assert forall|k: int|
        0 <= k < disks.len() && (#[trigger] disks[k]).name == shown[i].name@ implies disks[k].sample
        == disks[j].sample by {
        if k < j {
            assert(disks[k].name != disks[j].name);
        } else if j < k {
            assert(disks[j].name != disks[k].name);
        }
    }
    lemma_known_by_name(disks, 0, j, shown[i].name@, disks[j].sample);
}

/// A disk is sampled by the counters of its first row, read sectors first, at the time of the
/// reading.
pub proof fn lemma_disk_is_sampled(rows: Seq<DiskCounters>, count: nat, now: Nanos, i: int)
    requires
        0 <= i < count <= rows.len(),
        forall|k: int| 0 <= k < i ==> (#[trigger] rows[k]).name != rows[i].name,
    ensures
        rate::known_sample(disk_io::sampled_disks(rows, count, now), 0, rows[i].name) == Some(
            CounterSample {
                first: rows[i].sectors_read,
                second: rows[i].sectors_written,
                at: now,
            },
        ),
    decreases count,
{
    let before = disk_io::sampled_disks(rows, (count - 1) as nat, now);
    let disks = disk_io::sampled_disks(rows, count, now);
    let name = rows[i].name;
    if i < count - 1 {
        lemma_disk_is_sampled(rows, (count - 1) as nat, now, i);
        lemma_known_prefix(before, disks, 0, name);
    } else {
        lemma_not_sampled(rows, (count - 1) as nat, now, name);
        assert(disks == before.push(
            NamedCounters {
                name,
                sample: CounterSample {
                    first: rows[i].sectors_read,
                    second: rows[i].sectors_written,
                    at: now,
                },
            },
        ));
        lemma_known_last(before, 0, disks.last());
    }
}

proof fn lemma_not_sampled(rows: Seq<DiskCounters>, count: nat, now: Nanos, name: Seq<char>)
    requires
        count <= rows.len(),
        forall|k: int| 0 <= k < count ==> (#[trigger] rows[k]).name != name,
    ensures
        rate::known_sample(disk_io::sampled_disks(rows, count, now), 0, name) is None,
        forall|k: int|
            0 <= k < disk_io::sampled_disks(rows, count, now).len() ==> (
            #[trigger] disk_io::sampled_disks(rows, count, now)[k]).name != name,
    decreases count,
{
    if count > 0 {
        lemma_not_sampled(rows, (count - 1) as nat, now, name);
    }
    rate::lemma_unknown(disk_io::sampled_disks(rows, count, now), 0, name);
}

proof fn lemma_known_prefix(
    shorter: Seq<NamedCounters>,
    longer: Seq<NamedCounters>,
    from: int,
    name: Seq<char>,
)
    requires
        0 <= from,
        shorter.len() <= longer.len(),
        forall|k: int| 0 <= k < shorter.len() ==> #[trigger] longer[k] == shorter[k],
        rate::known_sample(shorter, from, name) is Some,
    ensures
        rate::known_sample(longer, from, name) == rate::known_sample(shorter, from, name),
    decreases shorter.len() - from,
{
    if from < shorter.len() {
        assert(longer[from] == shorter[from]);
        if shorter[from].name != name {
            lemma_known_prefix(shorter, longer, from + 1, name);
        }
    }
}

proof fn lemma_known_last(before: Seq<NamedCounters>, from: int, last: NamedCounters)
    requires
        0 <= from <= before.len(),
        forall|k: int| 0 <= k < before.len() ==> (#[trigger] before[k]).name != last.name,
    ensures
        rate::known_sample(before.push(last), from, last.name) == Some(last.sample),
    decreases before.len() - from,
{
    if from < before.len() {
        assert(before.push(last)[from] == before[from]);
        lemma_known_last(before, from + 1, last);
    }
}

/// An entry of the journal shows the message that was logged, at its time and with its severity,
/// and as its source the unit, else the unit of the user, else the name it was logged under, else
/// the command.
pub proof fn lemma_entry_shows_its_fields(
    entry: JournalEntry,
    id: u64,
    fields: Map<Seq<char>, Seq<char>>,
    micros: u64,
    level: u8,
)
    requires
        entry.described_by(id, fields),
    ensures
        entry.id == id,
        fields.dom().contains("MESSAGE"@) ==> entry.message@ == fields["MESSAGE"@],
        !fields.dom().contains("MESSAGE"@) ==> entry.message@ == "<binary or empty message>"@,
        fields.dom().contains("__REALTIME_TIMESTAMP"@) && fields["__REALTIME_TIMESTAMP"@]
            == numerals::decimal(micros as nat) ==> entry.timestamp_micros == Some(micros),
        !fields.dom().contains("__REALTIME_TIMESTAMP"@) ==> entry.timestamp_micros is None,
        fields.dom().contains("PRIORITY"@) && fields["PRIORITY"@] == numerals::decimal(
            level as nat,
        ) ==> entry.priority == Some(level),
        !fields.dom().contains("PRIORITY"@) ==> entry.priority is None,
        fields.dom().contains("_SYSTEMD_UNIT"@) ==> entry.source@ == fields["_SYSTEMD_UNIT"@],
        !fields.dom().contains("_SYSTEMD_UNIT"@) && fields.dom().contains("_SYSTEMD_USER_UNIT"@)
            ==> entry.source@ == fields["_SYSTEMD_USER_UNIT"@],
        !fields.dom().contains("_SYSTEMD_UNIT"@) && !fields.dom().contains("_SYSTEMD_USER_UNIT"@)
            && fields.dom().contains("SYSLOG_IDENTIFIER"@) ==> entry.source@
            == fields["SYSLOG_IDENTIFIER"@],
        !fields.dom().contains("_SYSTEMD_UNIT"@) && !fields.dom().contains("_SYSTEMD_USER_UNIT"@)
            && !fields.dom().contains("SYSLOG_IDENTIFIER"@) && fields.dom().contains("_COMM"@)
            ==> entry.source@ == fields["_COMM"@],
        !fields.dom().contains("_SYSTEMD_UNIT"@) && !fields.dom().contains("_SYSTEMD_USER_UNIT"@)
            && !fields.dom().contains("SYSLOG_IDENTIFIER"@) && !fields.dom().contains("_COMM"@)
            ==> entry.source@ == "journal"@,
{
    text_laws::lemma_numbers_are_read_back(micros as nat, u64::MAX as int);
    text_laws::lemma_numbers_are_read_back(level as nat, u8::MAX as int);
}

/// The lines that describe a service, and the empty one that ends its record.
pub open spec fn record_lines(service: ServiceFacts) -> Seq<Seq<char>> {
    seq![
        "Id"@ + seq!['='] + service.unit,
        "LoadState"@ + seq!['='] + service.load_state,
        "ActiveState"@ + seq!['='] + service.active_state,
        "SubState"@ + seq!['='] + service.sub_state,
        "Description"@ + seq!['='] + service.description,
        Seq::empty(),
    ]
}

/// The lines that describe several services.
pub open spec fn listing_lines(services: Seq<ServiceFacts>) -> Seq<Seq<char>>
    decreases services.len(),
{
    if services.len() == 0 {
        Seq::empty()
    } else {
        listing_lines(services.drop_last()) + record_lines(services.last())
    }
}

proof fn lemma_shown_prefix(left: Seq<Seq<char>>, right: Seq<Seq<char>>, count: nat)
    requires
        count <= left.len(),
        count <= right.len(),
        forall|i: int| 0 <= i < count ==> left[i] == right[i],
    ensures
        service_listing::shown_after(left, count) == service_listing::shown_after(right, count),
    decreases count,
{
    if count > 0 {
        lemma_shown_prefix(left, right, (count - 1) as nat);
    }
}

proof fn lemma_property(name: Seq<char>, value: Seq<char>)
    requires
        !name.contains('='),
    ensures
        text::halves(name + seq!['='] + value, '=') == Some((name, value)),
{
    text_laws::lemma_halves_are_written(name, '=', value);
}

proof fn lemma_record_is_read(before: ShowState, service: ServiceFacts)
    requires
        before.current == service_listing::blank_record(),
        service.unit.len() > 0,
    ensures
        ({
            let lines = record_lines(service);
            let last = before.with_line(lines[0]).with_line(lines[1]).with_line(lines[2]).with_line(
                lines[3],
            ).with_line(lines[4]).with_line(lines[5]);
            &&& last.services == before.services.push(service)
            &&& last.current == service_listing::blank_record()
        }),
{
    reveal_strlit("Id");
    reveal_strlit("LoadState");
    reveal_strlit("ActiveState");
    reveal_strlit("SubState");
    reveal_strlit("Description");
    lemma_property("Id"@, service.unit);
    lemma_property("LoadState"@, service.load_state);
    lemma_property("ActiveState"@, service.active_state);
    lemma_property("SubState"@, service.sub_state);
    lemma_property("Description"@, service.description);
    assert("ActiveState"@.len() != "LoadState"@.len());
}

proof fn lemma_listing_is_read(services: Seq<ServiceFacts>)
    requires
        forall|i: int| 0 <= i < services.len() ==> (#[trigger] services[i]).unit.len() > 0,
    ensures
        service_listing::shown_after(listing_lines(services), listing_lines(services).len())
            == (ShowState { services, current: service_listing::blank_record() }),
    decreases services.len(),
{
    let lines = listing_lines(services);
    if services.len() > 0 {
        let shorter = services.drop_last();
        let service = services.last();
        assert forall|i: int| 0 <= i < shorter.len() implies (#[trigger] shorter[i]).unit.len()
            > 0 by {
            assert(shorter[i] == services[i]);
        }
        lemma_listing_is_read(shorter);
        let count = listing_lines(shorter).len();
        lemma_shown_prefix(lines, listing_lines(shorter), count);
        let before = service_listing::shown_after(lines, count);
        assert(services[services.len() - 1].unit.len() > 0);
        lemma_record_is_read(before, service);
        let record = record_lines(service);
        assert(lines.len() == count + 6);
        reveal_with_fuel(service_listing::shown_after, 8);
        assert(lines[count as int] == record[0]);
        assert(lines[(count + 1) as int] == record[1]);
        assert(lines[(count + 2) as int] == record[2]);
        assert(lines[(count + 3) as int] == record[3]);
        assert(lines[(count + 4) as int] == record[4]);
        assert(lines[(count + 5) as int] == record[5]);
        assert(shorter.push(service) =~= services);
    } else {
        assert(services =~= Seq::empty());
    }
}

/// A listing of services is read service by service, each with its own unit, states and
/// description.
pub proof fn lemma_services_are_read(services: Seq<ServiceFacts>)
    requires
        forall|i: int| 0 <= i < services.len() ==> (#[trigger] services[i]).unit.len() > 0,
        forall|i: int|
            0 <= i < listing_lines(services).len() ==> text_laws::one_line(
                #[trigger] listing_lines(services)[i],
            ),
    ensures
        service_listing::shown_services(text_laws::written(listing_lines(services))) == services,
{
    text_laws::lemma_lines_are_written(listing_lines(services));
    lemma_listing_is_read(services);
}

/// What is listed is what was read: every unit is listed once, in the order of their names, and
/// each service listed is one of those read, with all its fields.
pub proof fn lemma_listing_is_complete(
    listed: Seq<ServiceInfo>,
    contents: Seq<char>,
    read: Seq<ServiceFacts>,
)
    requires
        service_listing::listed_services(listed, contents),
        read == service_listing::shown_services(contents),
    ensures
        forall|i: int|
            0 <= i < listed.len() ==> exists|k: int|
                0 <= k < read.len() && (#[trigger] read[k]) == one_record(#[trigger] listed[i]),
        forall|k: int|
            0 <= k < read.len() ==> exists|i: int|
                0 <= i < listed.len() && (#[trigger] listed[i]).unit@ == (#[trigger] read[k]).unit,
        forall|i: int, j: int|
            0 <= i < j < listed.len() ==> (#[trigger] listed[i]).unit@ != (
            #[trigger] listed[j]).unit@,
{
    let found = choose|found: Seq<ServiceInfo>|
        {
            let sorted = #[trigger] order::arranged(service_listing::unit_order(), found);
            &&& service_listing::service_views(found) == service_listing::shown_services(contents)
            &&& listed == service_listing::without_repeats(sorted, sorted.len())
        };
    let leq = service_listing::unit_order();
    let sorted = order::arranged(leq, found);
    service_listing::lemma_by_unit_sorts(found);
    service_listing::lemma_units_are_distinct(sorted, sorted.len());
    assert forall|i: int| 0 <= i < listed.len() implies exists|k: int|
        0 <= k < read.len() && (#[trigger] read[k]) == one_record(#[trigger] listed[i]) by {
        lemma_kept_is_there(sorted, sorted.len(), i);
        let m = choose|m: int| 0 <= m < sorted.len() && sorted[m] == listed[i];
        order::lemma_arranged_from(leq, found, m);
        let k = choose|k: int| 0 <= k < found.len() && found[k] == sorted[m];
        assert(service_listing::service_views(found)[k] == found[k]@);
        assert(read[k] == one_record(listed[i]));
    }
    assert forall|k: int| 0 <= k < read.len() implies exists|i: int|
        0 <= i < listed.len() && (#[trigger] listed[i]).unit@ == (#[trigger] read[k]).unit by {
        assert(service_listing::service_views(found)[k] == found[k]@);
        assert(found.contains(found[k]));
        order::lemma_arranged_has(leq, found, found[k]);
        let m = choose|m: int| 0 <= m < sorted.len() && sorted[m] == found[k];
        lemma_unit_is_kept(sorted, sorted.len(), m);
    }
}

/// A service as a record.
pub open spec fn one_record(service: ServiceInfo) -> ServiceFacts {
    ServiceFacts {
        unit: service.unit@,
        load_state: service.load_state@,
        active_state: service.active_state@,
        sub_state: service.sub_state@,
        description: service.description@,
    }
}

proof fn lemma_kept_is_there(services: Seq<ServiceInfo>, count: nat, i: int)
    requires
        count <= services.len(),
        0 <= i < service_listing::without_repeats(services, count).len(),
    ensures
        exists|m: int|
            0 <= m < services.len() && services[m] == service_listing::without_repeats(
                services,
                count,
            )[i],
    decreases count,
{
    if count > 0 {
        let before = service_listing::without_repeats(services, (count - 1) as nat);
        if i < before.len() {
            lemma_kept_is_there(services, (count - 1) as nat, i);
        } else {
            assert(service_listing::without_repeats(services, count)[i] == services[count - 1]);
        }
    }
}

proof fn lemma_unit_is_kept(services: Seq<ServiceInfo>, count: nat, m: int)
    requires
        0 <= m < count <= services.len(),
    ensures
        exists|i: int|
            0 <= i < service_listing::without_repeats(services, count).len() && (
            #[trigger] service_listing::without_repeats(services, count)[i]).unit@
                == services[m].unit@,
    decreases count,
{
    let before = service_listing::without_repeats(services, (count - 1) as nat);
    let kept = service_listing::without_repeats(services, count);
    if m < count - 1 {
        lemma_unit_is_kept(services, (count - 1) as nat, m);
        let i = choose|i: int|
            0 <= i < before.len() && (#[trigger] before[i]).unit@ == services[m].unit@;
        assert(kept[i].unit@ == services[m].unit@);
    } else {
        assert(kept[kept.len() - 1].unit@ == services[m].unit@);
    }
}

/// A command that failed is told of in the first line of what it complained of; one that went
/// well is not, whatever it complained of.
pub proof fn lemma_failed_listing_is_told(
    success: bool,
    stdout: Vec<u8>,
    stderr: Vec<u8>,
    lines: Seq<Seq<char>>,
)
    requires
        lines.len() > 0,
        forall|i: int| 0 <= i < lines.len() ==> text_laws::one_line(#[trigger] lines[i]),
        text::lossy(stderr@) == text_laws::written(lines),
        lines[0].len() > 0,
        !text::whitespace(lines[0][0]),
        !text::whitespace(lines[0].last()),
    ensures
        service_listing::outcome_error(CommandOutcome::Finished { success, stdout, stderr })
            == if success {
            None
        } else {
            Some(lines[0])
        },
        service_listing::outcome_error(CommandOutcome::TimedOut) is Some,
        service_listing::outcome_error(CommandOutcome::Stopped) is Some,
{
    text_laws::lemma_lines_are_written(lines);
    text_laws::lemma_trimming_keeps_the_text(Seq::empty(), lines[0], Seq::empty());
    assert(Seq::<char>::empty() + lines[0] + Seq::<char>::empty() =~= lines[0]);
}

/// No entry, no loss and no failure of the journal goes untold; where there is none of them
/// nothing is told.
pub proof fn lemma_nothing_of_the_journal_goes_untold(
    status: JournalStatus,
    entries: nat,
    dropped: usize,
    gone: bool,
)
    ensures
        entries > 0 ==> status.has_news(entries, dropped, gone),
        dropped > 0 ==> status.has_news(entries, dropped, gone),
        status.terminal_error is Some && !status.terminal_error_delivered ==> status.has_news(
            entries,
            dropped,
            gone,
        ) && status.untold(gone) == Some(status.terminal_error->0@),
        gone && status.terminal_error is None && !status.terminal_error_delivered
            ==> status.has_news(entries, dropped, gone),
        entries == 0 && dropped == 0 && !gone && status.terminal_error is None
            ==> !status.has_news(entries, dropped, gone),
        entries == 0 && dropped == 0 && status.terminal_error_delivered ==> !status.has_news(
            entries,
            dropped,
            gone,
        ),
{
}

} // verus!
