//! Memory modules, graphics, disks and network cards, by the files that describe them.
use vstd::prelude::*;

use crate::linux::device_text;
use crate::linux::device_text::{
    first_number, join_nonempty, meaningful, parse_hex, pick, to_hex, to_small_letters,
};
use crate::linux::disk_io::SECTOR_BYTES;
use crate::linux::hardware::{GpuDevice, GpuKind, MemoryModule, NetworkDevice, StorageDevice};
use crate::linux::storage;
use crate::linux::storage::storage_kind;
use crate::numerals;
use crate::numerals::{has_only_digits, parse_u32, parse_u64};
use crate::order;
use crate::order::{arrange, ByText};
use crate::table;
use crate::table::{find, put};
use crate::text;
use crate::text::{
    contains_text, same_text, split_lines, split_once, starts_with, strip_prefix, trim,
};

verus! {

broadcast use vstd::string::group_string_axioms;

/// So many mebibytes in bytes, where they can be counted.
pub open spec fn mebibytes(count: int) -> Option<u64> {
    if count * 1_048_576 <= u64::MAX {
        Some((count * 1_048_576) as u64)
    } else {
        None
    }
}

/// The first number in a text that may be missing.
pub open spec fn optional_number(value: Option<Seq<char>>) -> Option<u64> {
    match value {
        Some(value) => match device_text::number_among(text::words(value), 0) {
            Some(number) => Some(number as u64),
            None => None,
        },
        None => None,
    }
}

fn read_optional_number(value: &Option<String>) -> (number: Option<u64>)
    ensures
        number == optional_number(text::optional_view(*value)),
{
    match value {
        Some(value) => first_number(value.as_str()),
        None => None,
    }
}

/// The capacity of a module by its size in mebibytes: none for an empty slot, and none that
/// cannot be counted.
pub open spec fn module_capacity(size_mib: Seq<char>) -> Option<u64> {
    match numerals::unsigned(text::trimmed(size_mib), u64::MAX as int) {
        Some(count) => if count == 0 {
            None
        } else {
            mebibytes(count)
        },
        None => None,
    }
}

/// The module in a slot, by what the memory controller says of it.
pub fn parse_edac_memory_module(
    size_mib: &str,
    locator: Option<String>,
    memory_type: Option<String>,
    speed_mts: Option<String>,
) -> (module: Option<MemoryModule>)
    ensures
        match module {
            Some(module) => {
                &&& module_capacity(size_mib@) == Some(module.capacity_bytes)
                &&& text::optional_view(module.locator) == device_text::meaningful_text(text::optional_view(locator))
                &&& text::optional_view(module.memory_type) == device_text::meaningful_text(text::optional_view(memory_type))
                &&& module.speed_mts == optional_number(text::optional_view(speed_mts))
                &&& module.manufacturer is None
                &&& module.part_number is None
            },
            None => module_capacity(size_mib@) is None,
        },
{
    match parse_u64(trim(size_mib).as_str()) {
        Some(count) => {
            if count == 0 {
                return None;
            }
            match count.checked_mul(1_048_576) {
                Some(capacity_bytes) => Some(
                    MemoryModule {
                        locator: meaningful(locator),
                        capacity_bytes,
                        memory_type: meaningful(memory_type),
                        speed_mts: read_optional_number(&speed_mts),
                        manufacturer: None,
                        part_number: None,
                    },
                ),
                None => None,
            }
        },
        None => None,
    }
}

/// The files that describe a memory module, as far as they could be read.
pub struct ModuleFiles {
    pub size: Option<String>,
    pub label: Option<String>,
    pub location: Option<String>,
    pub memory_type: Option<String>,
    pub dimm_speed: Option<String>,
    pub speed: Option<String>,
}

/// A memory module is what its files say, and there is one exactly where they say its size.
pub open spec fn module_read(module: Option<MemoryModule>, files: ModuleFiles) -> bool {
    match module {
        Some(module) => {
            let locator = device_text::either(
                device_text::meaningful_text(text::optional_view(files.label)),
                device_text::meaningful_text(text::optional_view(files.location)),
            );
            let speed = device_text::either(
                device_text::meaningful_text(text::optional_view(files.dimm_speed)),
                device_text::meaningful_text(text::optional_view(files.speed)),
            );
            &&& device_text::meaningful_text(text::optional_view(files.size)) matches Some(size)
                && module_capacity(size) == Some(module.capacity_bytes)
            &&& text::optional_view(module.locator) == device_text::meaningful_text(locator)
            &&& text::optional_view(module.memory_type) == device_text::meaningful_text(
                device_text::meaningful_text(text::optional_view(files.memory_type)),
            )
            &&& module.speed_mts == optional_number(speed)
            &&& module.manufacturer is None
            &&& module.part_number is None
        },
        None => device_text::meaningful_text(text::optional_view(files.size)) matches Some(size)
            ==> module_capacity(size) is None,
    }
}

/// The module that files describe: its place by its label, or else by its location, and its
/// speed by the first of two files that says it.
pub fn memory_module(files: ModuleFiles) -> (module: Option<MemoryModule>)
    ensures
        module_read(module, files),
{
    match meaningful(files.size) {
        Some(size) => parse_edac_memory_module(
            size.as_str(),
            pick(meaningful(files.label), meaningful(files.location)),
            meaningful(files.memory_type),
            pick(meaningful(files.dimm_speed), meaningful(files.speed)),
        ),
        None => None,
    }
}

/// The number of a graphics card by the name of its directory. The connectors of a card have
/// directories too, and have none.
pub open spec fn card_index(name: Seq<char>) -> Option<u32> {
    match text::without_prefix(name, "card"@) {
        Some(rest) => if storage::some_digits(rest) {
            match numerals::unsigned(rest, u32::MAX as int) {
                Some(index) => Some(index as u32),
                None => None,
            }
        } else {
            None
        },
        None => None,
    }
}

pub fn drm_card_index(name: &str) -> (index: Option<u32>)
    ensures
        index == card_index(name@),
{
    match strip_prefix(name, "card") {
        Some(rest) => {
            if rest.as_str().is_empty() || !has_only_digits(rest.as_str()) {
                return None;
            }
            proof {
                numerals::lemma_unsigned_range(rest@, u32::MAX as int);
            }
            parse_u32(rest.as_str())
        },
        None => None,
    }
}

/// The first of the first `count` names that has a number.
pub open spec fn card_name(names: Seq<Seq<char>>, count: nat, index: u32) -> Option<Seq<char>>
    decreases count,
{
    if count == 0 {
        None
    } else {
        match card_name(names, (count - 1) as nat, index) {
            Some(name) => Some(name),
            None => if card_index(names[count - 1]) == Some(index) {
                Some(names[count - 1])
            } else {
                None
            },
        }
    }
}

/// The graphics cards by number, ascending: one for every number that a name has.
pub fn sorted_drm_cards(names: Vec<String>) -> (cards: Vec<(u32, String)>)
    ensures
        table::ascending(cards@),
        forall|index: u32| #[trigger]
            text::optional_view(table::lookup(cards@, index)) == card_name(
                text::views(names@),
                names@.len(),
                index,
            ),
{
    let ghost all = text::views(names@);
    let mut cards: Vec<(u32, String)> = Vec::new();
    let mut i: usize = 0;
    assert(forall|index: u32| table::lookup(cards@, index) is None);
    while i < names.len()
        invariant
            i <= names@.len(),
            all == text::views(names@),
            table::ascending(cards@),
            forall|index: u32| #[trigger]
                text::optional_view(table::lookup(cards@, index)) == card_name(all, i as nat, index),
        decreases names@.len() - i,
    {
        assert(all[i as int] == names@[i as int]@);
        let ghost before = cards@;
        match drm_card_index(names[i].as_str()) {
            Some(index) => {
                let at: usize = find(&cards, index);
                assert(text::optional_view(table::lookup(before, index)) == card_name(all, i as nat, index));
                if !(at < cards.len() && cards[at].0 == index) {
                    put(&mut cards, index, names[i].clone());
                }
            },
            None => {},
        }
        assert forall|index: u32| #[trigger]
            text::optional_view(table::lookup(cards@, index)) == card_name(all, (i + 1) as nat, index) by {
            assert(text::optional_view(table::lookup(before, index)) == card_name(all, i as nat, index));
        }
        i += 1;
    }
    cards
}

/// The vendor with a number.
pub open spec fn vendor_text(vendor: u32) -> Seq<char> {
    if vendor == 0x1002 {
        "AMD"@
    } else if vendor == 0x10de {
        "NVIDIA"@
    } else if vendor == 0x8086 {
        "Intel"@
    } else {
        "GPU"@
    }
}

fn vendor_name(vendor: u32) -> (name: &'static str)
    ensures
        name@ == vendor_text(vendor),
{
    if vendor == 0x1002 {
        "AMD"
    } else if vendor == 0x10de {
        "NVIDIA"
    } else if vendor == 0x8086 {
        "Intel"
    } else {
        "GPU"
    }
}

/// What a graphics card is called that does not say its model.
pub open spec fn fallback_text(vendor: u32, device: Option<u32>) -> Seq<char> {
    vendor_text(vendor) + " graphics device"@ + match device {
        Some(device) => " ["@ + device_text::hex_text(device as nat, 4) + "]"@,
        None => Seq::empty(),
    }
}

pub fn fallback_gpu_name(vendor: u32, device: Option<u32>) -> (name: String)
    ensures
        name@ == fallback_text(vendor, device),
{
    let mut name = String::from_str(vendor_name(vendor));
    name.append(" graphics device");
    match device {
        Some(device) => {
            name.append(" [");
            name.append(to_hex(device, 4).as_str());
            name.append("]");
            assert(name@ =~= fallback_text(vendor, Some(device)));
        },
        None => {
            assert(name@ =~= fallback_text(vendor, None));
        },
    }
    name
}

/// What the driver of NVIDIA says of a card.
#[derive(Debug, Clone, PartialEq, Eq)]
pub struct NvidiaInformation {
    pub model: Option<String>,
    pub vram_bytes: Option<u64>,
}

/// The model of a card and the size of its memory.
pub struct NvidiaFacts {
    pub model: Option<Seq<char>>,
    pub vram_bytes: Option<u64>,
}

impl View for NvidiaInformation {
    type V = NvidiaFacts;

    open spec fn view(&self) -> NvidiaFacts {
        NvidiaFacts { model: text::optional_view(self.model), vram_bytes: self.vram_bytes }
    }
}

impl NvidiaFacts {
    /// What is known after one more line.
    pub open spec fn with_line(self, line: Seq<char>) -> NvidiaFacts {
        match text::halves(line, ':') {
            Some((key, value)) => if text::trimmed(key) == "Model"@ {
                NvidiaFacts { model: device_text::meaningful_text(Some(text::trimmed(value))), ..self }
            } else if text::trimmed(key) == "Video Memory"@ {
                NvidiaFacts {
                    vram_bytes: match device_text::number_among(text::words(value), 0) {
                        Some(count) => mebibytes(count),
                        None => None,
                    },
                    ..self
                }
            } else {
                self
            },
            None => self,
        }
    }
}

/// What the first `count` lines say.
pub open spec fn nvidia_facts(lines: Seq<Seq<char>>, count: nat) -> NvidiaFacts
    decreases count,
{
    if count == 0 {
        NvidiaFacts { model: None, vram_bytes: None }
    } else {
        nvidia_facts(lines, (count - 1) as nat).with_line(lines[count - 1])
    }
}

fn read_nvidia_line(information: &mut NvidiaInformation, line: &str)
    ensures
        final(information)@ == old(information)@.with_line(line@),
{
    match split_once(line, ':') {
        Some((key, value)) => {
            let key = trim(key.as_str());
            if same_text(key.as_str(), "Model") {
                information.model = meaningful(Some(trim(value.as_str())));
            } else if same_text(key.as_str(), "Video Memory") {
                information.vram_bytes = match first_number(value.as_str()) {
                    Some(count) => count.checked_mul(1_048_576),
                    None => None,
                };
            }
        },
        None => {},
    }
}

pub fn parse_nvidia_information(contents: &str) -> (information: NvidiaInformation)
    ensures
        information@ == nvidia_facts(text::lines(contents@), text::lines(contents@).len()),
{
    let lines = split_lines(contents);
    let mut information = NvidiaInformation { model: None, vram_bytes: None };
    let mut i: usize = 0;
    while i < lines.len()
        invariant
            i <= lines@.len(),
            information@ == nvidia_facts(text::views(lines@), i as nat),
        decreases lines@.len() - i,
    {
        assert(text::views(lines@)[i as int] == lines@[i as int]@);
        read_nvidia_line(&mut information, lines[i].as_str());
        i += 1;
    }
    information
}

/// What a file that says whether a card is integrated says.
pub open spec fn integration(value: Seq<char>) -> Option<GpuKind> {
    let value = device_text::small_letters(value);
    if value == "1"@ || value == "y"@ || value == "yes"@ || value == "true"@ {
        Some(GpuKind::Integrated)
    } else if value == "0"@ || value == "n"@ || value == "no"@ || value == "false"@ {
        Some(GpuKind::Discrete)
    } else {
        None
    }
}

fn read_integration(value: &str) -> (kind: Option<GpuKind>)
    ensures
        kind == integration(value@),
{
    let lower = to_small_letters(value);
    let lower = lower.as_str();
    if same_text(lower, "1") || same_text(lower, "y") || same_text(lower, "yes") || same_text(
        lower,
        "true",
    ) {
        Some(GpuKind::Integrated)
    } else if same_text(lower, "0") || same_text(lower, "n") || same_text(lower, "no") || same_text(
        lower,
        "false",
    ) {
        Some(GpuKind::Discrete)
    } else {
        None
    }
}

/// The kind of a card: what a file says of it, the first of two that says anything; or else
/// discrete, where it has a link to the processor that is any lanes wide.
pub open spec fn gpu_kind(
    is_integrated: Option<Seq<char>>,
    integrated: Option<Seq<char>>,
    link_width: Option<Seq<char>>,
) -> Option<GpuKind> {
    let stated = match device_text::either(device_text::meaningful_text(is_integrated), device_text::meaningful_text(integrated)) {
        Some(value) => integration(value),
        None => None,
    };
    match stated {
        Some(kind) => Some(kind),
        None => match optional_number(device_text::meaningful_text(link_width)) {
            Some(width) => if width > 0 {
                Some(GpuKind::Discrete)
            } else {
                None
            },
            None => None,
        },
    }
}

pub fn classify_gpu(
    is_integrated: Option<String>,
    integrated: Option<String>,
    link_width: Option<String>,
) -> (kind: Option<GpuKind>)
    ensures
        kind == gpu_kind(
            text::optional_view(is_integrated),
            text::optional_view(integrated),
            text::optional_view(link_width),
        ),
{
    let stated = match pick(meaningful(is_integrated), meaningful(integrated)) {
        Some(value) => read_integration(value.as_str()),
        None => None,
    };
    if stated.is_some() {
        return stated;
    }
    match read_optional_number(&meaningful(link_width)) {
        Some(width) => if width > 0 {
            Some(GpuKind::Discrete)
        } else {
            None
        },
        None => None,
    }
}

/// The files that describe a graphics card, as far as they could be read.
pub struct GpuFiles {
    pub vendor: Option<String>,
    pub device: Option<String>,
    /// What the driver of NVIDIA says of the card.
    pub information: Option<String>,
    pub product_name: Option<String>,
    pub name: Option<String>,
    pub vram_total: Option<String>,
    pub is_integrated: Option<String>,
    pub integrated: Option<String>,
    pub link_width: Option<String>,
}

impl GpuFiles {
    /// What the driver of NVIDIA says.
    pub open spec fn nvidia(self) -> NvidiaFacts {
        match self.information {
            Some(contents) => nvidia_facts(text::lines(contents@), text::lines(contents@).len()),
            None => NvidiaFacts { model: None, vram_bytes: None },
        }
    }

    /// The model: what the driver says, or else what one of two files says, or else what the
    /// numbers of vendor and device tell.
    pub open spec fn model_text(self, vendor: u32) -> Seq<char> {
        let named = device_text::either(
            self.nvidia().model,
            device_text::either(
                device_text::meaningful_text(text::optional_view(self.product_name)),
                device_text::meaningful_text(text::optional_view(self.name)),
            ),
        );
        match named {
            Some(model) => model,
            None => fallback_text(vendor, device_text::hex_content(text::optional_view(self.device))),
        }
    }

    /// The size of the memory: what a file says, where that is more than nothing, or else what
    /// the driver says. None is invented.
    pub open spec fn vram(self) -> Option<u64> {
        let stated = match device_text::meaningful_text(text::optional_view(self.vram_total)) {
            Some(value) => match numerals::unsigned(value, u64::MAX as int) {
                Some(bytes) => if bytes > 0 {
                    Some(bytes as u64)
                } else {
                    None
                },
                None => None,
            },
            None => None,
        };
        device_text::either(stated, self.nvidia().vram_bytes)
    }
}

fn read_vram(vram_total: Option<String>) -> (bytes: Option<u64>)
    ensures
        bytes == (match device_text::meaningful_text(text::optional_view(vram_total)) {
            Some(value) => match numerals::unsigned(value, u64::MAX as int) {
                Some(bytes) => if bytes > 0 {
                    Some(bytes as u64)
                } else {
                    None
                },
                None => None,
            },
            None => None,
        }),
{
    match meaningful(vram_total) {
        Some(value) => match parse_u64(value.as_str()) {
            Some(bytes) => if bytes > 0 {
                Some(bytes)
            } else {
                None
            },
            None => None,
        },
        None => None,
    }
}

/// A graphics card is what its files say, and there is one exactly where they say its vendor.
pub open spec fn gpu_read(gpu: Option<GpuDevice>, files: GpuFiles) -> bool {
    match gpu {
        Some(gpu) => {
            &&& device_text::hex_content(text::optional_view(files.vendor)) is Some
            &&& gpu.model@ == files.model_text(device_text::hex_content(text::optional_view(files.vendor))->0)
            &&& gpu.vram_bytes == files.vram()
            &&& gpu.kind == gpu_kind(
                text::optional_view(files.is_integrated),
                text::optional_view(files.integrated),
                text::optional_view(files.link_width),
            )
        },
        None => device_text::hex_content(text::optional_view(files.vendor)) is None,
    }
}

/// The card that files describe. Without a vendor there is none.
pub fn read_gpu(files: GpuFiles) -> (gpu: Option<GpuDevice>)
    ensures
        gpu_read(gpu, files),
{
    let vendor: u32 = match parse_hex(files.vendor) {
        Some(vendor) => vendor,
        None => {
            return None;
        },
    };
    let nvidia = match files.information {
        Some(contents) => parse_nvidia_information(contents.as_str()),
        None => NvidiaInformation { model: None, vram_bytes: None },
    };
    let named = pick(nvidia.model, pick(meaningful(files.product_name), meaningful(files.name)));
    let model = match named {
        Some(model) => model,
        None => fallback_gpu_name(vendor, parse_hex(files.device)),
    };
    let vram_bytes = match read_vram(files.vram_total) {
        Some(bytes) => Some(bytes),
        None => nvidia.vram_bytes,
    };
    Some(
        GpuDevice {
            model,
            kind: classify_gpu(files.is_integrated, files.integrated, files.link_width),
            vram_bytes,
        },
    )
}

/// The files that describe a block device, as far as they could be read.
pub struct StorageFiles {
    pub vendor: Option<String>,
    pub model: Option<String>,
    pub name: Option<String>,
    /// Its size in sectors.
    pub size: Option<String>,
    /// The path of the device with all links followed.
    pub canonical: Option<String>,
}

impl StorageFiles {
    /// The vendor as it is shown. The name of the standard is none.
    pub open spec fn shown_vendor(self) -> Option<Seq<char>> {
        match device_text::meaningful_text(text::optional_view(self.vendor)) {
            Some(vendor) => if text::trimmed(vendor) == "ATA"@ {
                None
            } else {
                Some(vendor)
            },
            None => None,
        }
    }

    /// The capacity by the number of sectors, where it is known and more than nothing.
    pub open spec fn capacity(self) -> Option<u64> {
        match device_text::meaningful_text(text::optional_view(self.size)) {
            Some(value) => match numerals::unsigned(value, u64::MAX as int) {
                Some(sectors) => if 0 < sectors * SECTOR_BYTES <= u64::MAX {
                    Some((sectors * SECTOR_BYTES) as u64)
                } else {
                    None
                },
                None => None,
            },
            None => None,
        }
    }
}

fn show_vendor(vendor: Option<String>) -> (shown: Option<String>)
    ensures
        text::optional_view(shown) == (match vendor {
            Some(vendor) => if text::trimmed(vendor@) == "ATA"@ {
                None
            } else {
                Some(vendor@)
            },
            None => None,
        }),
{
    match vendor {
        Some(vendor) => if same_text(trim(vendor.as_str()).as_str(), "ATA") {
            None
        } else {
            Some(vendor)
        },
        None => None,
    }
}

fn read_capacity(size: Option<String>) -> (bytes: Option<u64>)
    ensures
        bytes == (match device_text::meaningful_text(text::optional_view(size)) {
            Some(value) => match numerals::unsigned(value, u64::MAX as int) {
                Some(sectors) => if 0 < sectors * SECTOR_BYTES <= u64::MAX {
                    Some((sectors * SECTOR_BYTES) as u64)
                } else {
                    None
                },
                None => None,
            },
            None => None,
        }),
{
    match meaningful(size) {
        Some(value) => match parse_u64(value.as_str()) {
            Some(sectors) => match sectors.checked_mul(SECTOR_BYTES) {
                Some(bytes) => if bytes > 0 {
                    Some(bytes)
                } else {
                    None
                },
                None => None,
            },
            None => None,
        },
        None => None,
    }
}

/// A disk is what its name and files say, and there is one exactly where the name is that of a
/// whole disk.
pub open spec fn disk_read(device: Option<StorageDevice>, name: String, files: StorageFiles) -> bool {
    match device {
        Some(device) => {
            &&& device.system_name == name
            &&& storage::kind_of(
                name@,
                device_text::meaningful_text(text::optional_view(files.vendor)),
                text::optional_view(files.canonical),
            ) == Some(device.kind)
            &&& text::optional_view(device.model) == device_text::meaningful_text(
                Some(
                    device_text::pair_text(
                        files.shown_vendor(),
                        device_text::either(
                            device_text::meaningful_text(text::optional_view(files.model)),
                            device_text::meaningful_text(text::optional_view(files.name)),
                        ),
                    ),
                ),
            )
            &&& device.capacity_bytes == files.capacity()
        },
        None => !storage::whole_disk(name@),
    }
}

/// The disk with a name, by the files that describe it. There is none where the name is not
/// that of a whole disk.
pub fn storage_device(name: String, files: StorageFiles) -> (device: Option<StorageDevice>)
    ensures
        disk_read(device, name, files),
{
    let vendor = meaningful(files.vendor);
    let kind = storage_kind(
        name.as_str(),
        match &vendor {
            Some(vendor) => Some(vendor.as_str()),
            None => None,
        },
        match &files.canonical {
            Some(path) => Some(path.as_str()),
            None => None,
        },
    );
    proof {
        storage::lemma_whole_disks_have_kinds(
            name@,
            text::optional_view(vendor),
            text::optional_view(files.canonical),
        );
    }
    match kind {
        Some(kind) => Some(
            StorageDevice {
                system_name: name,
                kind,
                model: join_nonempty(
                    show_vendor(vendor),
                    pick(meaningful(files.model), meaningful(files.name)),
                ),
                capacity_bytes: read_capacity(files.size),
            },
        ),
        None => None,
    }
}

/// The files that name the model of a network card, as far as they could be read.
pub struct NicFiles {
    pub manufacturer: Option<String>,
    pub product: Option<String>,
    pub product_name: Option<String>,
    pub model: Option<String>,
}

impl NicFiles {
    /// The model: manufacturer and product, or else what one of two files says.
    pub open spec fn named(self) -> Option<Seq<char>> {
        device_text::either(
            device_text::meaningful_text(
                Some(
                    device_text::pair_text(
                        device_text::meaningful_text(text::optional_view(self.manufacturer)),
                        device_text::meaningful_text(text::optional_view(self.product)),
                    ),
                ),
            ),
            device_text::either(
                device_text::meaningful_text(text::optional_view(self.product_name)),
                device_text::meaningful_text(text::optional_view(self.model)),
            ),
        )
    }
}

fn name_nic(files: NicFiles) -> (model: Option<String>)
    ensures
        text::optional_view(model) == files.named(),
{
    pick(
        join_nonempty(meaningful(files.manufacturer), meaningful(files.product)),
        pick(meaningful(files.product_name), meaningful(files.model)),
    )
}

/// The name is that of an interface on a USB device, whose own directory is the one above.
pub open spec fn usb_interface(name: Seq<char>) -> bool {
    text::contains(name, ":"@)
}

/// The model of a network card: what its own files say or, where they say none and it is an
/// interface on a USB device, those of the device. Nothing else is taken for a model.
pub open spec fn nic_model(
    device_name: Option<Seq<char>>,
    device: NicFiles,
    parent: Option<NicFiles>,
) -> Option<Seq<char>> {
    match device.named() {
        Some(model) => Some(model),
        None => match (device_name, parent) {
            (Some(name), Some(parent)) => if usb_interface(name) {
                parent.named()
            } else {
                None
            },
            _ => None,
        },
    }
}

pub fn discover_nic_model(device_name: Option<String>, device: NicFiles, parent: Option<NicFiles>) -> (model:
    Option<String>)
    ensures
        text::optional_view(model) == nic_model(
            text::optional_view(device_name),
            device,
            parent,
        ),
{
    let own = name_nic(device);
    if own.is_some() {
        return own;
    }
    match (device_name, parent) {
        (Some(name), Some(parent)) => if contains_text(name.as_str(), ":") {
            name_nic(parent)
        } else {
            None
        },
        _ => None,
    }
}

/// The names that begin with `prefix`, among the first `count`.
pub open spec fn prefixed(names: Seq<String>, prefix: Seq<char>, count: nat) -> Seq<String>
    decreases count,
{
    if count == 0 {
        Seq::empty()
    } else if text::occurs_at(names[count - 1]@, prefix, 0) {
        prefixed(names, prefix, (count - 1) as nat).push(names[count - 1])
    } else {
        prefixed(names, prefix, (count - 1) as nat)
    }
}

/// The card behind a network interface. One without a model is a card all the same.
pub fn network_device(
    interface_name: String,
    device_name: Option<String>,
    device: NicFiles,
    parent: Option<NicFiles>,
) -> (card: NetworkDevice)
    ensures
        card.interface_name == interface_name,
        text::optional_view(card.model) == nic_model(
            text::optional_view(device_name),
            device,
            parent,
        ),
{
    NetworkDevice { interface_name, model: discover_nic_model(device_name, device, parent) }
}

/// The names of directory entries that begin with `prefix`, in alphabetical order.
pub fn sorted_names(names: &Vec<String>, prefix: &str) -> (kept: Vec<String>)
    ensures
        kept@ == order::arranged(order::string_order(), prefixed(names@, prefix@, names@.len())),
{
    let mut kept: Vec<String> = Vec::new();
    let mut i: usize = 0;
    while i < names.len()
        invariant
            i <= names@.len(),
            kept@ == prefixed(names@, prefix@, i as nat),
        decreases names@.len() - i,
    {
        if starts_with(names[i].as_str(), prefix) {
            kept.push(names[i].clone());
        }
        i += 1;
    }
    arrange(&ByText, kept)
}

} // verus!
