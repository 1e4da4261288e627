//! What the names and files of devices mean, in terms of what is written in them.
use vstd::prelude::*;

use crate::app::table_laws;
use crate::linux::cpu_packages;
use crate::linux::cpu_packages::ProcessorFacts;
use crate::linux::device_text;
use crate::linux::devices;
use crate::linux::devices::{GpuFiles, ModuleFiles, NicFiles, StorageFiles};
use crate::linux::hardware::{GpuDevice, GpuKind, MemoryModule, StorageDevice, StorageKind};
use crate::linux::stat;
use crate::linux::storage;
use crate::linux::system_sampler;
use crate::numerals;
use crate::order;
use crate::order::{ByText, Order};
use crate::text;
use crate::text_laws;

verus! {

broadcast use vstd::string::group_string_axioms;

proof fn lemma_other_prefix(text: Seq<char>, prefix: Seq<char>)
    requires
        prefix.len() > 0,
        text.len() > 0,
        text[0] != prefix[0],
    ensures
        text::without_prefix(text, prefix) is None,
{
    if text::occurs_at(text, prefix, 0) {
        assert(text.subrange(0, prefix.len() as int)[0] == text[0]);
    }
}

proof fn lemma_digits_are_decimals(number: nat)
    ensures
        storage::some_digits(numerals::decimal(number)),
{
    numerals::lemma_decimal_reads_back(number);
}

proof fn lemma_digits_hold_no_letter(digits: Seq<char>, wanted: char)
    requires
        numerals::all_digits(digits),
        !numerals::digit(wanted),
    ensures
        !digits.contains(wanted),
{
    if digits.contains(wanted) {
        let i = choose|i: int| 0 <= i < digits.len() && digits[i] == wanted;
        assert(numerals::digit(digits[i]));
    }
}

/// A disk is on an ATA port: the vendor is called so, or the path of the device leads over one.
pub open spec fn attached_to_ata(vendor: Option<Seq<char>>, path: Option<Seq<char>>) -> bool {
    ||| vendor == Some("ATA"@)
    ||| path is Some && exists|before: Seq<char>, after: Seq<char>|
        path->0 == #[trigger] (before + "/ata"@ + after)
}

/// `sd` and letters name a disk on an ATA port or a SCSI disk. With digits behind the letters the
/// name is that of a part of it.
pub proof fn lemma_sd_names(
    letters: Seq<char>,
    part: nat,
    vendor: Option<Seq<char>>,
    path: Option<Seq<char>>,
)
    requires
        storage::some_letters(letters),
        vendor is Some ==> vendor->0.len() > 0 && !text::whitespace(vendor->0[0])
            && !text::whitespace(vendor->0.last()),
    ensures
        storage::kind_of("sd"@ + letters, vendor, path) == Some(
            if attached_to_ata(vendor, path) {
                StorageKind::Sata
            } else {
                StorageKind::Scsi
            },
        ),
        storage::kind_of("sd"@ + letters + numerals::decimal(part), vendor, path) is None,
        !storage::whole_disk("sd"@ + letters + numerals::decimal(part)),
{
    reveal_strlit("sd");
    reveal_strlit("vd");
    reveal_strlit("xvd");
    reveal_strlit("nvme");
    reveal_strlit("mmcblk");
    let digits = numerals::decimal(part);
    let whole = "sd"@ + letters;
    let section = "sd"@ + letters + digits;
    lemma_digits_are_decimals(part);
    lemma_other_prefix(whole, "nvme"@);
    lemma_other_prefix(section, "nvme"@);
    lemma_other_prefix(section, "vd"@);
    lemma_other_prefix(section, "xvd"@);
    lemma_other_prefix(section, "mmcblk"@);
    text_laws::lemma_prefix_is_taken_off(whole, "sd"@, letters);
    assert(section =~= "sd"@ + (letters + digits));
    text_laws::lemma_prefix_is_taken_off(section, "sd"@, letters + digits);
    assert(!storage::some_letters(letters + digits)) by {
        assert((letters + digits)[letters.len() as int] == digits[0]);
        assert(numerals::digit(digits[0]));
        if storage::some_letters(letters + digits) {
            assert(storage::letter((letters + digits)[letters.len() as int]));
        }
    }
    if vendor is Some {
        text_laws::lemma_trimming_keeps_the_text(Seq::empty(), vendor->0, Seq::empty());
        assert(Seq::<char>::empty() + vendor->0 + Seq::<char>::empty() =~= vendor->0);
    }
    if path is Some {
        if text::contains(path->0, "/ata"@) {
            let split = text_laws::lemma_found_is_contained(path->0, "/ata"@);
            assert(path->0 == split.0 + "/ata"@ + split.1);
        }
        if exists|before: Seq<char>, after: Seq<char>|
            path->0 == #[trigger] (before + "/ata"@ + after) {
            let (before, after) = choose|before: Seq<char>, after: Seq<char>|
                path->0 == #[trigger] (before + "/ata"@ + after);
            text_laws::lemma_contained_is_found(before, "/ata"@, after);
        }
    }
}

/// `vd` or `xvd` and letters name a disk of a virtual machine.
pub proof fn lemma_vd_names(letters: Seq<char>, vendor: Option<Seq<char>>, path: Option<Seq<char>>)
    requires
        storage::some_letters(letters),
    ensures
        storage::kind_of("vd"@ + letters, vendor, path) == Some(StorageKind::Virtio),
        storage::kind_of("xvd"@ + letters, vendor, path) == Some(StorageKind::Virtio),
        storage::whole_disk("vd"@ + letters),
        storage::whole_disk("xvd"@ + letters),
{
    reveal_strlit("sd");
    reveal_strlit("vd");
    reveal_strlit("xvd");
    reveal_strlit("nvme");
    lemma_other_prefix("vd"@ + letters, "nvme"@);
    lemma_other_prefix("vd"@ + letters, "sd"@);
    lemma_other_prefix("xvd"@ + letters, "nvme"@);
    lemma_other_prefix("xvd"@ + letters, "sd"@);
    text_laws::lemma_prefix_is_taken_off("vd"@ + letters, "vd"@, letters);
    text_laws::lemma_prefix_is_taken_off("xvd"@ + letters, "xvd"@, letters);
}

/// `nvme`, the number of a controller, `n` and that of a namespace name a disk, and with `p` and a
/// number behind them a part of it. The controller itself is no disk.
pub proof fn lemma_nvme_names(
    controller: nat,
    namespace: nat,
    part: nat,
    vendor: Option<Seq<char>>,
    path: Option<Seq<char>>,
)
    ensures
        ({
            let device = "nvme"@ + numerals::decimal(controller);
            let disk = device + seq!['n'] + numerals::decimal(namespace);
            let section = disk + seq!['p'] + numerals::decimal(part);
            &&& storage::kind_of(disk, vendor, path) == Some(StorageKind::Nvme)
            &&& storage::whole_disk(disk)
            &&& !storage::whole_disk(section)
            &&& !storage::whole_disk(device)
        }),
{
    reveal_strlit("sd");
    reveal_strlit("vd");
    reveal_strlit("xvd");
    reveal_strlit("nvme");
    reveal_strlit("mmcblk");
    let first = numerals::decimal(controller);
    let second = numerals::decimal(namespace);
    let third = numerals::decimal(part);
    let device = "nvme"@ + first;
    let disk = device + seq!['n'] + second;
    let section = disk + seq!['p'] + third;
    lemma_digits_are_decimals(controller);
    lemma_digits_are_decimals(namespace);
    lemma_digits_hold_no_letter(first, 'n');
    text_laws::lemma_prefix_is_taken_off(device, "nvme"@, first);
    assert(disk =~= "nvme"@ + (first + seq!['n'] + second));
    text_laws::lemma_prefix_is_taken_off(disk, "nvme"@, first + seq!['n'] + second);
    text_laws::lemma_halves_are_written(first, 'n', second);
    let behind = second + seq!['p'] + third;
    assert(section =~= "nvme"@ + (first + seq!['n'] + behind));
    text_laws::lemma_prefix_is_taken_off(section, "nvme"@, first + seq!['n'] + behind);
    text_laws::lemma_halves_are_written(first, 'n', behind);
    assert(behind[second.len() as int] == 'p');
    assert(!numerals::all_digits(behind)) by {
        if numerals::all_digits(behind) {
            assert(numerals::digit(behind[second.len() as int]));
        }
    }
    text_laws::lemma_halves_make_the_text(first, 'n');
    assert(text::halves(first, 'n') is None) by {
        if text::halves(first, 'n') is Some {
            let (left, right) = text::halves(first, 'n')->0;
            assert(first[left.len() as int] == 'n');
            assert(first.contains('n'));
        }
    }
    lemma_other_prefix(section, "sd"@);
    lemma_other_prefix(section, "vd"@);
    lemma_other_prefix(section, "xvd"@);
    lemma_other_prefix(section, "mmcblk"@);
    lemma_other_prefix(device, "sd"@);
    lemma_other_prefix(device, "vd"@);
    lemma_other_prefix(device, "xvd"@);
    lemma_other_prefix(device, "mmcblk"@);
}

/// `mmcblk` and a number name a memory card, and with `p` and a number behind them a part of it.
pub proof fn lemma_mmc_names(
    card: nat,
    part: nat,
    vendor: Option<Seq<char>>,
    path: Option<Seq<char>>,
)
    ensures
        ({
            let disk = "mmcblk"@ + numerals::decimal(card);
            let section = disk + seq!['p'] + numerals::decimal(part);
            &&& storage::kind_of(disk, vendor, path) == Some(StorageKind::Mmc)
            &&& storage::whole_disk(disk)
            &&& !storage::whole_disk(section)
        }),
{
    reveal_strlit("sd");
    reveal_strlit("vd");
    reveal_strlit("xvd");
    reveal_strlit("nvme");
    reveal_strlit("mmcblk");
    let number = numerals::decimal(card);
    let disk = "mmcblk"@ + number;
    let rest = number + seq!['p'] + numerals::decimal(part);
    let section = disk + seq!['p'] + numerals::decimal(part);
    lemma_digits_are_decimals(card);
    text_laws::lemma_prefix_is_taken_off(disk, "mmcblk"@, number);
    assert(section =~= "mmcblk"@ + rest);
    text_laws::lemma_prefix_is_taken_off(section, "mmcblk"@, rest);
    assert(rest[number.len() as int] == 'p');
    assert(!numerals::all_digits(rest)) by {
        if numerals::all_digits(rest) {
            assert(numerals::digit(rest[number.len() as int]));
        }
    }
    lemma_other_prefix(disk, "nvme"@);
    lemma_other_prefix(disk, "sd"@);
    lemma_other_prefix(disk, "vd"@);
    lemma_other_prefix(disk, "xvd"@);
    lemma_other_prefix(section, "nvme"@);
    lemma_other_prefix(section, "sd"@);
    lemma_other_prefix(section, "vd"@);
    lemma_other_prefix(section, "xvd"@);
}

/// The contents of a file: a number on a line of its own.
pub open spec fn number_file(contents: Option<String>, number: nat) -> bool {
    contents is Some && contents->0@ == numerals::decimal(number) + seq!['\n']
}

proof fn lemma_number_file(contents: Option<String>, number: nat)
    requires
        number_file(contents, number),
    ensures
        device_text::meaningful_text(text::optional_view(contents)) == Some(
            numerals::decimal(number),
        ),
{
    reveal_strlit("unknown");
    reveal_strlit("not specified");
    let digits = numerals::decimal(number);
    text_laws::lemma_numbers_are_read_back(number, u64::MAX as int);
    lemma_digits_are_decimals(number);
    assert(Seq::<char>::empty() + digits + seq!['\n'] =~= contents->0@);
    text_laws::lemma_trimming_keeps_the_text(Seq::empty(), digits, seq!['\n']);
    assert(numerals::digit(digits[0]));
    assert(device_text::small_letters(digits)[0] == digits[0]);
}

/// The size of a disk is that of its sectors, which have 512 bytes each. A disk without any has
/// no size to show.
pub proof fn lemma_sectors_make_the_capacity(files: StorageFiles, sectors: nat)
    requires
        number_file(files.size, sectors),
        sectors * 512 <= u64::MAX,
    ensures
        sectors > 0 ==> files.capacity() == Some((sectors * 512) as u64),
        sectors == 0 ==> files.capacity() is None,
{
    lemma_number_file(files.size, sectors);
    text_laws::lemma_numbers_are_read_back(sectors, u64::MAX as int);
}

/// A memory module has the mebibytes that its size says. An empty slot says none.
pub proof fn lemma_mebibytes_make_the_capacity(count: nat, gap: Seq<char>)
    requires
        text_laws::blank(gap),
        count * 1_048_576 <= u64::MAX,
    ensures
        count > 0 ==> devices::module_capacity(numerals::decimal(count) + gap) == Some(
            (count * 1_048_576) as u64,
        ),
        count == 0 ==> devices::module_capacity(numerals::decimal(count) + gap) is None,
{
    let digits = numerals::decimal(count);
    text_laws::lemma_numbers_are_read_back(count, u64::MAX as int);
    lemma_digits_are_decimals(count);
    text_laws::lemma_trimming_keeps_the_text(Seq::empty(), digits, gap);
    assert(Seq::<char>::empty() + digits + gap =~= digits + gap);
}

/// The memory of a graphics card is what a file says in bytes, and that goes before what the
/// driver says; zero says nothing.
pub proof fn lemma_stated_vram_goes_first(files: GpuFiles, bytes: u64)
    requires
        number_file(files.vram_total, bytes as nat),
    ensures
        bytes > 0 ==> files.vram() == Some(bytes),
        bytes == 0 ==> files.vram() == files.nvidia().vram_bytes,
{
    lemma_number_file(files.vram_total, bytes as nat);
    text_laws::lemma_numbers_are_read_back(bytes as nat, u64::MAX as int);
}

/// A card that has a link of some lanes and says nothing else is discrete; one that says whether
/// it is integrated is what it says, whatever its link.
pub proof fn lemma_gpu_is_what_it_says(lanes: Option<u64>, link: Option<String>)
    requires
        lanes is Some ==> number_file(link, lanes->0 as nat),
        lanes is None ==> link is None,
    ensures
        devices::gpu_kind(None, None, text::optional_view(link)) == (if lanes is Some && lanes->0
            > 0 {
            Some(GpuKind::Discrete)
        } else {
            None
        }),
        devices::gpu_kind(Some("1"@), None, text::optional_view(link)) == Some(
            GpuKind::Integrated,
        ),
        devices::gpu_kind(Some("0"@), None, text::optional_view(link)) == Some(GpuKind::Discrete),
        devices::gpu_kind(None, Some("1"@), text::optional_view(link)) == Some(
            GpuKind::Integrated,
        ),
        devices::gpu_kind(None, Some("0"@), text::optional_view(link)) == Some(GpuKind::Discrete),
        devices::gpu_kind(Some("1"@), Some("0"@), text::optional_view(link)) == Some(
            GpuKind::Integrated,
        ),
{
    reveal_strlit("1");
    reveal_strlit("0");
    reveal_strlit("y");
    reveal_strlit("yes");
    reveal_strlit("n");
    reveal_strlit("no");
    reveal_strlit("true");
    reveal_strlit("false");
    reveal_strlit("unknown");
    reveal_strlit("not specified");
    if lanes is Some {
        let digits = numerals::decimal(lanes->0 as nat);
        lemma_number_file(link, lanes->0 as nat);
        text_laws::lemma_numbers_are_read_back(lanes->0 as nat, u64::MAX as int);
        let fields = seq![digits];
        let gaps = seq![Seq::<char>::empty()];
        assert(text_laws::spaced_out(gaps, fields) =~= digits) by {
            reveal_with_fuel(text_laws::spaced_out, 3);
        }
        text_laws::lemma_words_are_all_fields(gaps, fields);
        assert(text::words(digits)[0] == digits);
    }
    lemma_flag("1"@);
    lemma_flag("0"@);
}

proof fn lemma_flag(flag: Seq<char>)
    requires
        flag == "1"@ || flag == "0"@,
    ensures
        device_text::meaningful_text(Some(flag)) == Some(flag),
        device_text::small_letters(flag) == flag,
{
    reveal_strlit("1");
    reveal_strlit("0");
    reveal_strlit("unknown");
    reveal_strlit("not specified");
    text_laws::lemma_trimming_keeps_the_text(Seq::empty(), flag, Seq::empty());
    assert(Seq::<char>::empty() + flag + Seq::<char>::empty() =~= flag);
    assert(device_text::small_letters(flag) =~= flag);
}

/// The directory of a graphics card is called `card` and its number. That of a connector has
/// more behind the number, and is none.
pub proof fn lemma_card_names(number: u32, more: Seq<char>)
    requires
        more.len() > 0,
        !numerals::digit(more[0]),
    ensures
        devices::card_index("card"@ + numerals::decimal(number as nat)) == Some(number),
        devices::card_index("card"@ + numerals::decimal(number as nat) + more) is None,
{
    let digits = numerals::decimal(number as nat);
    lemma_digits_are_decimals(number as nat);
    text_laws::lemma_numbers_are_read_back(number as nat, u32::MAX as int);
    text_laws::lemma_prefix_is_taken_off("card"@ + digits, "card"@, digits);
    assert("card"@ + digits + more =~= "card"@ + (digits + more));
    text_laws::lemma_prefix_is_taken_off("card"@ + digits + more, "card"@, digits + more);
    assert((digits + more)[digits.len() as int] == more[0]);
    assert(!storage::some_digits(digits + more)) by {
        if numerals::all_digits(digits + more) {
            assert(numerals::digit((digits + more)[digits.len() as int]));
        }
    }
}

/// A package of processors has the model of the first processor on it.
pub proof fn lemma_first_processor_names_the_package(
    records: Seq<ProcessorFacts>,
    count: nat,
    id: u32,
    first: int,
)
    requires
        0 <= first < count <= records.len(),
        records[first].physical_id == Some(id),
        forall|i: int| 0 <= i < first ==> (#[trigger] records[i]).physical_id != Some(id),
    ensures
        cpu_packages::package_model(records, count, id) == Some(records[first].model),
    decreases count,
{
    if first < count - 1 {
        lemma_first_processor_names_the_package(records, (count - 1) as nat, id, first);
    } else {
        lemma_no_processor_on_it(records, first as nat, id);
    }
}

proof fn lemma_no_processor_on_it(records: Seq<ProcessorFacts>, count: nat, id: u32)
    requires
        count <= records.len(),
        forall|i: int| 0 <= i < count ==> (#[trigger] records[i]).physical_id != Some(id),
    ensures
        cpu_packages::package_model(records, count, id) is None,
    decreases count,
{
    if count > 0 {
        lemma_no_processor_on_it(records, (count - 1) as nat, id);
    }
}

/// Without numbers of packages every model is listed, and no other.
pub proof fn lemma_every_model_is_listed(
    records: Seq<ProcessorFacts>,
    count: nat,
    model: Seq<char>,
)
    requires
        count <= records.len(),
    ensures
        cpu_packages::distinct_models(records, count).contains(model) == exists|i: int|
            0 <= i < count && (#[trigger] records[i]).model == model,
    decreases count,
{
    let models = cpu_packages::distinct_models(records, count);
    if count > 0 {
        lemma_every_model_is_listed(records, (count - 1) as nat, model);
        let before = cpu_packages::distinct_models(records, (count - 1) as nat);
        let last = records[count - 1].model;
        if !before.contains(last) {
            assert(models == before.push(last));
            assert(models[before.len() as int] == last);
            if before.contains(model) {
                let i = choose|i: int| 0 <= i < before.len() && before[i] == model;
                assert(models[i] == model);
            }
            if models.contains(model) && model != last {
                let i = choose|i: int| 0 <= i < models.len() && models[i] == model;
                assert(before[i] == model);
            }
        }
        if exists|i: int| 0 <= i < count && (#[trigger] records[i]).model == model {
            let i = choose|i: int| 0 <= i < count && (#[trigger] records[i]).model == model;
            if i < count - 1 {
                assert(before.contains(model));
            }
        }
        if models.contains(model) {
            if before.contains(model) {
                let i = choose|i: int|
                    0 <= i < count - 1 && (#[trigger] records[i]).model == model;
                assert(records[i].model == model);
            } else {
                assert(records[count - 1].model == model);
            }
        }
    }
}

/// A line of a record: a name, a colon and a value, with blanks round both.
pub open spec fn record_line(name: Seq<char>, gap: Seq<char>, value: Seq<char>) -> Seq<char> {
    name + gap + seq![':'] + seq![' '] + value
}

/// The lines of a record say the number of the package and the model, and later lines do not
/// change what they say unless they say it again.
pub proof fn lemma_record_lines_are_read(
    facts: cpu_packages::RecordFacts,
    gap: Seq<char>,
    id: u32,
    model: Seq<char>,
)
    requires
        text_laws::blank(gap),
        !gap.contains(':'),
        model.len() > 0,
        !text::whitespace(model[0]),
        !text::whitespace(model.last()),
    ensures
        facts.with_line(record_line("physical id"@, gap, numerals::decimal(id as nat)))
            == (cpu_packages::RecordFacts { physical_id: Some(id), ..facts }),
        facts.with_line(record_line("model name"@, gap, model)) == (cpu_packages::RecordFacts {
            model: Some(model),
            ..facts
        }),
        facts.with_line(record_line("processor"@, gap, model)) == facts,
        facts.with_line(record_line("core id"@, gap, numerals::decimal(id as nat))) == facts,
{
    reveal_strlit("physical id");
    reveal_strlit("model name");
    reveal_strlit("processor");
    reveal_strlit("core id");
    reveal_strlit("Hardware");
    reveal_strlit("Processor");
    let digits = numerals::decimal(id as nat);
    text_laws::lemma_numbers_are_read_back(id as nat, u32::MAX as int);
    lemma_record_line("physical id"@, gap, digits);
    lemma_record_line("model name"@, gap, model);
    lemma_record_line("processor"@, gap, model);
    lemma_record_line("core id"@, gap, digits);
    assert("processor"@[0] == 'p');
    assert("Processor"@[0] == 'P');
}

proof fn lemma_record_line(name: Seq<char>, gap: Seq<char>, value: Seq<char>)
    requires
        text_laws::blank(gap),
        !gap.contains(':'),
        !name.contains(':'),
        name.len() > 0,
        !text::whitespace(name[0]),
        !text::whitespace(name.last()),
        value.len() > 0,
        !text::whitespace(value[0]),
        !text::whitespace(value.last()),
    ensures
        text::halves(record_line(name, gap, value), ':') matches Some((left, right))
            && text::trimmed(left) == name && text::trimmed(right) == value,
{
    let left = name + gap;
    let right = seq![' '] + value;
    assert(!left.contains(':')) by {
        if left.contains(':') {
            let i = choose|i: int| 0 <= i < left.len() && left[i] == ':';
            if i < name.len() {
                assert(name[i] == ':');
            } else {
                assert(gap[i - name.len()] == ':');
            }
        }
    }
    assert(record_line(name, gap, value) =~= left + seq![':'] + right);
    text_laws::lemma_halves_are_written(left, ':', right);
    text_laws::lemma_trimming_keeps_the_text(Seq::empty(), name, gap);
    assert(Seq::<char>::empty() + name + gap =~= left);
    text_laws::lemma_trimming_keeps_the_text(seq![' '], value, Seq::empty());
    assert(seq![' '] + value + Seq::<char>::empty() =~= right);
}

/// Arguments in a row, each with a zero byte behind it.
pub open spec fn zero_ended(arguments: Seq<Seq<u8>>) -> Seq<u8>
    decreases arguments.len(),
{
    if arguments.len() == 0 {
        Seq::empty()
    } else {
        arguments[0] + seq![0u8] + zero_ended(arguments.skip(1))
    }
}

/// An argument as a process is given it: not empty here, and without a zero byte.
pub open spec fn argument(bytes: Seq<u8>) -> bool {
    bytes.len() > 0 && forall|i: int| 0 <= i < bytes.len() ==> #[trigger] bytes[i] != 0
}

proof fn lemma_argument_ends(bytes: Seq<u8>, from: int, end: int)
    requires
        0 <= from <= end < bytes.len(),
        bytes[end] == 0,
        forall|i: int| from <= i < end ==> #[trigger] bytes[i] != 0,
    ensures
        stat::argument_end(bytes, from) == end,
    decreases end - from,
{
    if from < end {
        lemma_argument_ends(bytes, from + 1, end);
    }
}

proof fn lemma_arguments_behind(before: Seq<u8>, arguments: Seq<Seq<u8>>)
    requires
        forall|i: int| 0 <= i < arguments.len() ==> argument(#[trigger] arguments[i]),
    ensures
        stat::arguments_from(before + zero_ended(arguments), before.len() as int) == arguments,
    decreases arguments.len(),
{
    let all = before + zero_ended(arguments);
    let start = before.len() as int;
    if arguments.len() == 0 {
        assert(stat::arguments_from(all, start) =~= arguments);
    } else {
        let first = arguments[0];
        let rest = arguments.skip(1);
        let end = start + first.len();
        let longer = before + first + seq![0u8];
        assert(all =~= longer + zero_ended(rest));
        assert forall|i: int| start <= i < end implies #[trigger] all[i] != 0 by {
            assert(all[i] == first[i - start]);
        }
        assert(all[end] == 0);
        lemma_argument_ends(all, start, end);
        assert forall|i: int| 0 <= i < rest.len() implies argument(#[trigger] rest[i]) by {
            assert(rest[i] == arguments[i + 1]);
        }
        lemma_arguments_behind(longer, rest);
        assert(all.subrange(start, end) =~= first);
        assert(seq![first] + rest =~= arguments);
    }
}

/// Words with a blank between any two, from the first one on.
pub open spec fn blank_between(words: Seq<Seq<char>>) -> Seq<char>
    decreases words.len(),
{
    if words.len() == 0 {
        Seq::empty()
    } else if words.len() == 1 {
        words[0]
    } else {
        words[0] + seq![' '] + blank_between(words.skip(1))
    }
}

proof fn lemma_spaced_from_the_front(words: Seq<Seq<char>>)
    ensures
        stat::spaced(words) == blank_between(words),
    decreases words.len(),
{
    if words.len() > 1 {
        let rest = words.skip(1);
        let short = words.drop_last();
        lemma_spaced_from_the_front(short);
        lemma_spaced_from_the_front(rest);
        assert(short.skip(1) =~= rest.drop_last());
        if words.len() == 2 {
            assert(short[0] == words[0]);
            assert(stat::spaced(words) =~= words[0] + seq![' '] + words[1]);
            assert(blank_between(rest) == rest[0]);
        } else {
            lemma_spaced_from_the_front(rest.drop_last());
            assert(blank_between(short) == words[0] + seq![' '] + blank_between(short.skip(1)));
            assert(stat::spaced(rest) == stat::spaced(rest.drop_last()) + seq![' ']
                + rest.last());
            assert(stat::spaced(words) =~= words[0] + seq![' '] + stat::spaced(rest));
        }
    } else if words.len() == 1 {
        assert(stat::spaced(words) == words[0]);
    }
}

/// The command of a process is its arguments in their order, with a blank between any two.
pub proof fn lemma_command_is_its_arguments(arguments: Seq<Seq<u8>>)
    requires
        arguments.len() > 0,
        forall|i: int| 0 <= i < arguments.len() ==> argument(#[trigger] arguments[i]),
        text::lossy(arguments[0]).len() > 0,
    ensures
        stat::command_of(zero_ended(arguments)) == Some(
            blank_between(Seq::new(arguments.len(), |i: int| text::lossy(arguments[i]))),
        ),
{
    assert(Seq::<u8>::empty() + zero_ended(arguments) =~= zero_ended(arguments));
    lemma_arguments_behind(Seq::empty(), arguments);
    let words = stat::decoded(arguments);
    assert(words =~= Seq::new(arguments.len(), |i: int| text::lossy(arguments[i])));
    lemma_spaced_from_the_front(words);
    assert(words[0].len() > 0);
    assert(blank_between(words).len() >= words[0].len());
}

/// A card of the network has the manufacturer and the product for its model, as far as its files
/// say them, and what other files say only where they say neither.
pub proof fn lemma_card_is_named_by_its_maker(files: NicFiles, maker: Seq<char>, product: Seq<char>)
    requires
        text::optional_view(files.manufacturer) == Some(maker),
        text::optional_view(files.product) == Some(product),
        device_text::meaningful_text(Some(maker)) == Some(maker),
        device_text::meaningful_text(Some(product)) == Some(product),
        device_text::meaningful_text(Some(maker + seq![' '] + product)) == Some(
            maker + seq![' '] + product,
        ),
    ensures
        files.named() == Some(maker + seq![' '] + product),
{
}

proof fn lemma_hex_figures(value: nat)
    requires
        value < 16,
    ensures
        device_text::hex_digit(device_text::hex_char(value)) == Some(value as int),
        device_text::hex_char(value) != '+',
        device_text::hex_char(value) != 'x',
        !text::whitespace(device_text::hex_char(value)),
{
}

proof fn lemma_hex_digits(number: nat, width: nat)
    ensures
        ({
            let digits = device_text::hex_text(number, width);
            &&& digits.len() >= width
            &&& digits.len() > 0
            &&& device_text::hex_value(digits) == Some(number as int)
            &&& forall|i: int|
                0 <= i < digits.len() ==> #[trigger] digits[i] != '+' && digits[i] != 'x'
                    && !text::whitespace(digits[i])
        }),
    decreases number, width,
{
    let digits = device_text::hex_text(number, width);
    lemma_hex_figures(number % 16);
    reveal_with_fuel(device_text::hex_value, 3);
    if number < 16 && width <= 1 {
        assert(digits.drop_last() =~= Seq::<char>::empty());
        assert(digits.last() == device_text::hex_char(number));
    } else {
        let shorter: nat = if width == 0 {
            0
        } else {
            (width - 1) as nat
        };
        lemma_hex_digits(number / 16, shorter);
        let high = device_text::hex_text(number / 16, shorter);
        assert(digits == high.push(device_text::hex_char(number % 16)));
        assert(digits.drop_last() =~= high);
        assert forall|i: int| 0 <= i < digits.len() implies #[trigger] digits[i] != '+'
            && digits[i] != 'x' && !text::whitespace(digits[i]) by {
            if i < high.len() {
                assert(digits[i] == high[i]);
            }
        }
    }
}

/// The number of a vendor or device, as the system writes it, is the number that it is read as:
/// hexadecimal digits behind `0x`, on a line of their own.
pub proof fn lemma_hex_reads_back(number: u32, width: nat)
    ensures
        device_text::hex_content(
            Some(seq!['0', 'x'] + device_text::hex_text(number as nat, width) + seq!['\n']),
        ) == Some(number),
{
    reveal_strlit("unknown");
    reveal_strlit("not specified");
    let digits = device_text::hex_text(number as nat, width);
    let written = seq!['0', 'x'] + digits;
    lemma_hex_digits(number as nat, width);
    assert(written[0] == '0');
    assert(written.last() == digits.last());
    assert(Seq::<char>::empty() + written + seq!['\n'] =~= seq!['0', 'x'] + digits + seq!['\n']);
    text_laws::lemma_trimming_keeps_the_text(Seq::empty(), written, seq!['\n']);
    assert(device_text::small_letters(written)[0] == '0');
    assert(written.skip(2) =~= digits);
    assert(digits.len() >= 2 ==> digits[1] != 'x');
    assert(device_text::without_hex_prefix(digits) == digits) by {
        reveal_with_fuel(device_text::without_hex_prefix, 2);
    }
    assert(device_text::without_hex_prefix(written) == digits) by {
        reveal_with_fuel(device_text::without_hex_prefix, 2);
    }
    assert(digits[0] != '+');
    assert(numerals::unsigned_digits(digits) == digits);
}

/// What the driver of a graphics card says of its model and of its memory, which it counts in
/// mebibytes, is taken from the lines that say so.
pub proof fn lemma_driver_lines_are_read(
    facts: devices::NvidiaFacts,
    gap: Seq<char>,
    model: Seq<char>,
    count: nat,
)
    requires
        text_laws::blank(gap),
        !gap.contains(':'),
        model.len() > 0,
        !text::whitespace(model[0]),
        !text::whitespace(model.last()),
        device_text::meaningful_text(Some(model)) == Some(model),
        count * 1_048_576 <= u64::MAX,
    ensures
        facts.with_line(record_line("Model"@, gap, model)) == (devices::NvidiaFacts {
            model: Some(model),
            ..facts
        }),
        facts.with_line(
            record_line("Video Memory"@, gap, numerals::decimal(count) + seq![' '] + "MB"@),
        ) == (devices::NvidiaFacts { vram_bytes: Some((count * 1_048_576) as u64), ..facts }),
        facts.with_line(record_line("IRQ"@, gap, numerals::decimal(count))) == facts,
{
    reveal_strlit("Model");
    reveal_strlit("Video Memory");
    reveal_strlit("IRQ");
    reveal_strlit("MB");
    let digits = numerals::decimal(count);
    let size = digits + seq![' '] + "MB"@;
    text_laws::lemma_numbers_are_read_back(count, u64::MAX as int);
    assert(size[0] == digits[0]);
    assert(size.last() == "MB"@[1]);
    lemma_record_line("Model"@, gap, model);
    lemma_record_line("Video Memory"@, gap, size);
    lemma_record_line("IRQ"@, gap, digits);
    let behind = seq![' '] + size;
    let left = "Video Memory"@ + gap;
    assert(record_line("Video Memory"@, gap, size) =~= left + seq![':'] + behind);
    assert(!left.contains(':')) by {
        if left.contains(':') {
            let i = choose|i: int| 0 <= i < left.len() && left[i] == ':';
            if i >= "Video Memory"@.len() {
                assert(gap[i - "Video Memory"@.len()] == ':');
            }
        }
    }
    text_laws::lemma_halves_are_written(left, ':', behind);
    let fields = seq![digits, "MB"@];
    let gaps = seq![seq![' '], seq![' ']];
    assert(text_laws::spaced_out(gaps, fields) =~= behind) by {
        reveal_with_fuel(text_laws::spaced_out, 4);
        assert(fields.skip(1).skip(1) =~= Seq::<Seq<char>>::empty());
    }
    text_laws::lemma_words_are_all_fields(gaps, fields);
    assert(text::words(behind)[0] == digits);
}

/// A graphics card is called what its driver says, or else what the one file says, or else what
/// the other one does.
pub proof fn lemma_model_of_a_card(files: GpuFiles, vendor: u32)
    ensures
        ({
            let driver = files.nvidia().model;
            let product = device_text::meaningful_text(text::optional_view(files.product_name));
            let name = device_text::meaningful_text(text::optional_view(files.name));
            &&& driver is Some ==> files.model_text(vendor) == driver->0
            &&& driver is None && product is Some ==> files.model_text(vendor) == product->0
            &&& driver is None && product is None && name is Some ==> files.model_text(vendor)
                == name->0
            &&& files.information is None ==> driver is None
        }),
{
}

/// What a file of one line holds, without the end of the line, is what is shown of it; a file
/// with nothing in it is as good as none.
pub proof fn lemma_line_of_a_file(line: Seq<char>, gap: Seq<char>)
    requires
        text_laws::word(line),
        text_laws::blank(gap),
    ensures
        system_sampler::trimmed_content(Some(line + gap)) == Some(line),
        system_sampler::trimmed_content(None) is None,
{
    text_laws::lemma_trimming_keeps_the_text(Seq::empty(), line, gap);
    assert(Seq::<char>::empty() + line + gap =~= line + gap);
}

proof fn lemma_prefixed_names(names: Seq<String>, prefix: Seq<char>, count: nat, name: String)
    requires
        count <= names.len(),
    ensures
        devices::prefixed(names, prefix, count).contains(name) == (exists|i: int|
            0 <= i < count && #[trigger] names[i] == name && exists|rest: Seq<char>|
                name@ == #[trigger] (prefix + rest)),
    decreases count,
{
    if count > 0 {
        lemma_prefixed_names(names, prefix, (count - 1) as nat, name);
        let before = devices::prefixed(names, prefix, (count - 1) as nat);
        let after = devices::prefixed(names, prefix, count);
        let last = names[count - 1];
        if text::occurs_at(last@, prefix, 0) {
            assert(after == before.push(last));
            assert(after[before.len() as int] == last);
            assert(last@ =~= prefix + last@.skip(prefix.len() as int)) by {
                assert(last@.subrange(0, prefix.len() as int) =~= prefix);
                assert forall|k: int| 0 <= k < last@.len() implies last@[k] == (prefix
                    + last@.skip(prefix.len() as int))[k] by {
                    if k < prefix.len() {
                        assert(last@.subrange(0, prefix.len() as int)[k] == last@[k]);
                    }
                }
            }
            if before.contains(name) {
                let k = choose|k: int| 0 <= k < before.len() && before[k] == name;
                assert(after[k] == name);
            }
            if after.contains(name) && name != last {
                let k = choose|k: int| 0 <= k < after.len() && after[k] == name;
                assert(before[k] == name);
            }
        } else if exists|rest: Seq<char>| last@ == #[trigger] (prefix + rest) {
            let rest = choose|rest: Seq<char>| last@ == #[trigger] (prefix + rest);
            text_laws::lemma_prefix_is_taken_off(last@, prefix, rest);
        }
        if exists|i: int|
            0 <= i < count && #[trigger] names[i] == name && exists|rest: Seq<char>|
                name@ == #[trigger] (prefix + rest) {
            let i = choose|i: int|
                0 <= i < count && #[trigger] names[i] == name && exists|rest: Seq<char>|
                    name@ == #[trigger] (prefix + rest);
            if i < count - 1 {
                assert(before.contains(name));
            }
        }
        if before.contains(name) {
            let i = choose|i: int|
                0 <= i < count - 1 && #[trigger] names[i] == name && exists|rest: Seq<char>|
                    name@ == #[trigger] (prefix + rest);
            assert(names[i] == name);
        }
    }
}

/// The entries of a directory that are kept are those that begin as they should.
pub proof fn lemma_entries_are_kept_by_prefix(names: Seq<String>, prefix: Seq<char>, name: String)
    ensures
        order::arranged(
            order::string_order(),
            devices::prefixed(names, prefix, names.len()),
        ).contains(name) == (exists|i: int|
            0 <= i < names.len() && #[trigger] names[i] == name && exists|rest: Seq<char>|
                name@ == #[trigger] (prefix + rest)),
{
    let kept = devices::prefixed(names, prefix, names.len());
    let sorted = order::arranged(order::string_order(), kept);
    lemma_prefixed_names(names, prefix, names.len(), name);
    if kept.contains(name) {
        order::lemma_arranged_has(order::string_order(), kept, name);
    }
    if sorted.contains(name) {
        let i = choose|i: int| 0 <= i < sorted.len() && sorted[i] == name;
        order::lemma_arranged_from(order::string_order(), kept, i);
    }
}

/// The entries of a directory that are kept are in alphabetical order.
pub proof fn lemma_entries_are_in_alphabetical_order(
    names: Seq<String>,
    prefix: Seq<char>,
    i: int,
    j: int,
)
    requires
        0 <= i < j < order::arranged(
            order::string_order(),
            devices::prefixed(names, prefix, names.len()),
        ).len(),
    ensures
        ({
            let kept = order::arranged(
                order::string_order(),
                devices::prefixed(names, prefix, names.len()),
            );
            table_laws::alphabetical(kept[i]@, kept[j]@)
        }),
{
    let kept = devices::prefixed(names, prefix, names.len());
    let sorted = order::arranged(order::string_order(), kept);
    ByText.lawful();
    order::lemma_arranged_sorts(order::string_order(), kept);
    assert(order::string_order()(sorted[i], sorted[j]));
    table_laws::lemma_texts_are_in_alphabetical_order(sorted[i]@, sorted[j]@);
}

/// The directory of a graphics card is found under the number of the card.
pub proof fn lemma_cards_are_found_by_number(
    names: Seq<Seq<char>>,
    count: nat,
    number: u32,
    first: int,
)
    requires
        0 <= first < count <= names.len(),
        names[first] == "card"@ + numerals::decimal(number as nat),
        forall|i: int| 0 <= i < first ==> devices::card_index(#[trigger] names[i]) != Some(number),
    ensures
        devices::card_name(names, count, number) == Some(names[first]),
    decreases count,
{
    lemma_card_names(number, seq!['-']);
    if first < count - 1 {
        lemma_cards_are_found_by_number(names, (count - 1) as nat, number, first);
    } else {
        lemma_no_card_has_number(names, first as nat, number);
    }
}

proof fn lemma_no_card_has_number(names: Seq<Seq<char>>, count: nat, number: u32)
    requires
        count <= names.len(),
        forall|i: int| 0 <= i < count ==> devices::card_index(#[trigger] names[i]) != Some(number),
    ensures
        devices::card_name(names, count, number) is None,
    decreases count,
{
    if count > 0 {
        lemma_no_card_has_number(names, (count - 1) as nat, number);
    }
}

/// A card of the network that says nothing of itself has the model of its device where it is an
/// interface on a USB device, whose directories have a colon in their names, and none otherwise.
pub proof fn lemma_usb_card_has_the_model_of_its_device(
    before: Seq<char>,
    after: Seq<char>,
    device: NicFiles,
    parent: NicFiles,
)
    requires
        device.named() is None,
    ensures
        devices::nic_model(Some(before + seq![':'] + after), device, Some(parent))
            == parent.named(),
        !before.contains(':') ==> devices::nic_model(Some(before), device, Some(parent)) is None,
        devices::nic_model(None, device, Some(parent)) is None,
{
    reveal_strlit(":");
    assert(":"@ =~= seq![':']);
    text_laws::lemma_contained_is_found(before, ":"@, after);
    if text::contains(before, ":"@) {
        let split = text_laws::lemma_found_is_contained(before, ":"@);
        assert(before[split.0.len() as int] == ':');
    }
}

/// The vendor of a disk is shown, but for the name of the standard that some give for theirs.
pub proof fn lemma_vendor_of_a_disk(files: StorageFiles)
    ensures
        device_text::meaningful_text(text::optional_view(files.vendor)) == Some("ATA"@)
            ==> files.shown_vendor() is None,
        device_text::meaningful_text(text::optional_view(files.vendor)) is None
            ==> files.shown_vendor() is None,
        files.shown_vendor() is Some ==> files.shown_vendor() == device_text::meaningful_text(
            text::optional_view(files.vendor),
        ) && files.shown_vendor() != Some("ATA"@),
{
    reveal_strlit("ATA");
    text_laws::lemma_trimming_keeps_the_text(Seq::empty(), "ATA"@, Seq::empty());
    assert(Seq::<char>::empty() + "ATA"@ + Seq::<char>::empty() =~= "ATA"@);
}

/// The contents of a file that says something, on a line of its own.
pub open spec fn says(contents: Option<String>, what: Seq<char>) -> bool {
    &&& contents is Some
    &&& contents->0@ == what + seq!['\n']
    &&& what.len() > 0
    &&& !text::whitespace(what[0])
    &&& !text::whitespace(what.last())
    &&& device_text::meaningful_text(Some(what)) is Some
}

/// A file that says nothing, or is not there.
pub open spec fn silent(contents: Option<String>) -> bool {
    device_text::meaningful_text(text::optional_view(contents)) is None
}

proof fn lemma_said(contents: Option<String>, what: Seq<char>)
    requires
        says(contents, what),
    ensures
        device_text::meaningful_text(Some(what)) == Some(what),
        device_text::meaningful_text(text::optional_view(contents)) == Some(what),
{
    text_laws::lemma_trimming_keeps_the_text(Seq::empty(), what, seq!['\n']);
    assert(Seq::<char>::empty() + what + seq!['\n'] =~= what + seq!['\n']);
    text_laws::lemma_trimming_keeps_the_text(Seq::empty(), what, Seq::empty());
    assert(Seq::<char>::empty() + what + Seq::<char>::empty() =~= what);
}

/// A memory module has the size, the type and the place that its files say; its place is its
/// label, or else its location, and its speed is the one or else the other that is said.
pub proof fn lemma_module_is_read(
    module: Option<MemoryModule>,
    files: ModuleFiles,
    count: nat,
    place: Seq<char>,
    other: Seq<char>,
    kind: Seq<char>,
    speed: u64,
)
    requires
        devices::module_read(module, files),
        number_file(files.size, count),
        0 < count,
        count * 1_048_576 <= u64::MAX,
        says(files.label, place) && says(files.location, other) || silent(files.label) && says(
            files.location,
            place,
        ),
        says(files.memory_type, kind),
        number_file(files.dimm_speed, speed as nat) || silent(files.dimm_speed) && number_file(
            files.speed,
            speed as nat,
        ),
    ensures
        module is Some,
        module->0.capacity_bytes == count * 1_048_576,
        module->0.locator is Some && module->0.locator->0@ == place,
        module->0.memory_type is Some && module->0.memory_type->0@ == kind,
        module->0.speed_mts == Some(speed),
{
    lemma_number_file(files.size, count);
    lemma_mebibytes_make_the_capacity(count, Seq::empty());
    assert(numerals::decimal(count) + Seq::<char>::empty() =~= numerals::decimal(count));
    if says(files.label, place) {
        lemma_said(files.label, place);
    } else {
        lemma_said(files.location, place);
    }
    lemma_said(files.memory_type, kind);
    if number_file(files.dimm_speed, speed as nat) {
        lemma_number_file(files.dimm_speed, speed as nat);
    } else {
        lemma_number_file(files.speed, speed as nat);
    }
    let digits = numerals::decimal(speed as nat);
    text_laws::lemma_numbers_are_read_back(speed as nat, u64::MAX as int);
    let fields = seq![digits];
    let gaps = seq![Seq::<char>::empty()];
    assert(text_laws::spaced_out(gaps, fields) =~= digits) by {
        reveal_with_fuel(text_laws::spaced_out, 3);
    }
    text_laws::lemma_words_are_all_fields(gaps, fields);
    assert(text::words(digits)[0] == digits);
}

/// A disk is listed under its own name, with its kind and its size.
pub proof fn lemma_disk_is_read(
    device: Option<StorageDevice>,
    name: String,
    files: StorageFiles,
    sectors: nat,
)
    requires
        devices::disk_read(device, name, files),
        number_file(files.size, sectors),
        0 < sectors,
        sectors * 512 <= u64::MAX,
    ensures
        device is Some == storage::whole_disk(name@),
        device is Some ==> device->0.system_name == name && device->0.capacity_bytes == Some(
            (sectors * 512) as u64,
        ) && storage::kind_of(
            name@,
            device_text::meaningful_text(text::optional_view(files.vendor)),
            text::optional_view(files.canonical),
        ) == Some(device->0.kind),
{
    lemma_sectors_make_the_capacity(files, sectors);
    storage::lemma_whole_disks_have_kinds(
        name@,
        device_text::meaningful_text(text::optional_view(files.vendor)),
        text::optional_view(files.canonical),
    );
}

/// A graphics card with a vendor is listed, by the name that a file gives it, with the memory that
/// a file says it has.
pub proof fn lemma_card_is_read(
    gpu: Option<GpuDevice>,
    files: GpuFiles,
    vendor: u32,
    name: Seq<char>,
    bytes: u64,
)
    requires
        devices::gpu_read(gpu, files),
        device_text::hex_content(text::optional_view(files.vendor)) == Some(vendor),
        files.information is None,
        says(files.product_name, name) || silent(files.product_name) && says(files.name, name),
        number_file(files.vram_total, bytes as nat),
        bytes > 0,
    ensures
        gpu is Some,
        gpu->0.model@ == name,
        gpu->0.vram_bytes == Some(bytes),
{
    lemma_stated_vram_goes_first(files, bytes);
    lemma_model_of_a_card(files, vendor);
    if says(files.product_name, name) {
        lemma_said(files.product_name, name);
    } else {
        lemma_said(files.name, name);
    }
}

} // verus!
