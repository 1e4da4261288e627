//! The hardware inventory.
use vstd::prelude::*;

use crate::likeness;
use crate::likeness::{all_equal, equal_option, Likeness};
use crate::text;
use crate::text::{same_optional_text, same_text};

verus! {

broadcast use vstd::string::group_string_axioms;

#[derive(Debug, Clone, PartialEq, Eq)]
pub struct HardwareInventory {
    pub cpus: Vec<CpuPackage>,
    pub memory_modules: Vec<MemoryModule>,
    pub total_memory: Option<u64>,
    pub gpus: Vec<GpuDevice>,
    pub storage_devices: Vec<StorageDevice>,
    pub network_devices: Vec<NetworkDevice>,
}

#[derive(Debug, Clone, PartialEq, Eq)]
pub struct CpuPackage {
    pub physical_id: Option<u32>,
    pub model: String,
}

#[derive(Debug, Clone, PartialEq, Eq)]
pub struct MemoryModule {
    pub locator: Option<String>,
    pub capacity_bytes: u64,
    pub memory_type: Option<String>,
    pub speed_mts: Option<u64>,
    pub manufacturer: Option<String>,
    pub part_number: Option<String>,
}

#[derive(Debug, Clone, Copy, PartialEq, Eq, Structural)]
pub enum GpuKind {
    Integrated,
    Discrete,
}

#[derive(Debug, Clone, PartialEq, Eq)]
pub struct GpuDevice {
    pub model: String,
    pub kind: Option<GpuKind>,
    pub vram_bytes: Option<u64>,
}

#[derive(Debug, Clone, Copy, PartialEq, Eq, Structural)]
pub enum StorageKind {
    Nvme,
    Sata,
    Scsi,
    Virtio,
    Mmc,
}

#[derive(Debug, Clone, PartialEq, Eq)]
pub struct StorageDevice {
    pub system_name: String,
    pub kind: StorageKind,
    pub model: Option<String>,
    pub capacity_bytes: Option<u64>,
}

#[derive(Debug, Clone, PartialEq, Eq)]
pub struct NetworkDevice {
    pub interface_name: String,
    pub model: Option<String>,
}

impl Default for HardwareInventory {
    fn default() -> (inventory: HardwareInventory)
        ensures
            inventory.cpus@.len() == 0,
            inventory.memory_modules@.len() == 0,
            inventory.total_memory is None,
            inventory.gpus@.len() == 0,
            inventory.storage_devices@.len() == 0,
            inventory.network_devices@.len() == 0,
    {
        HardwareInventory {
            cpus: Vec::new(),
            memory_modules: Vec::new(),
            total_memory: None,
            gpus: Vec::new(),
            storage_devices: Vec::new(),
            network_devices: Vec::new(),
        }
    }
}

impl Likeness for CpuPackage {
    open spec fn same(self, other: Self) -> bool {
        likeness::same_option(self.physical_id, other.physical_id) && self.model@ == other.model@
    }

    fn equals(&self, other: &Self) -> (same: bool) {
        equal_option(&self.physical_id, &other.physical_id) && same_text(
            self.model.as_str(),
            other.model.as_str(),
        )
    }
}

impl Likeness for MemoryModule {
    open spec fn same(self, other: Self) -> bool {
        &&& text::optional_view(self.locator) == text::optional_view(other.locator)
        &&& self.capacity_bytes == other.capacity_bytes
        &&& text::optional_view(self.memory_type) == text::optional_view(other.memory_type)
        &&& likeness::same_option(self.speed_mts, other.speed_mts)
        &&& text::optional_view(self.manufacturer) == text::optional_view(other.manufacturer)
        &&& text::optional_view(self.part_number) == text::optional_view(other.part_number)
    }

    fn equals(&self, other: &Self) -> (same: bool) {
        same_optional_text(&self.locator, &other.locator) && self.capacity_bytes == other.capacity_bytes && same_optional_text(&self.memory_type, &other.memory_type)
            && equal_option(&self.speed_mts, &other.speed_mts) && same_optional_text(
            &self.manufacturer,
            &other.manufacturer,
        ) && same_optional_text(&self.part_number, &other.part_number)
    }
}

impl Likeness for GpuDevice {
    open spec fn same(self, other: Self) -> bool {
        self.model@ == other.model@ && self.kind == other.kind && likeness::same_option(self.vram_bytes, other.vram_bytes)
    }

    fn equals(&self, other: &Self) -> (same: bool) {
        same_text(self.model.as_str(), other.model.as_str()) && (match (self.kind, other.kind) {
            (Some(left), Some(right)) => left == right,
            (None, None) => true,
            _ => false,
        }) && equal_option(&self.vram_bytes, &other.vram_bytes)
    }
}

impl Likeness for StorageDevice {
    open spec fn same(self, other: Self) -> bool {
        &&& self.system_name@ == other.system_name@
        &&& self.kind == other.kind
        &&& text::optional_view(self.model) == text::optional_view(other.model)
        &&& likeness::same_option(self.capacity_bytes, other.capacity_bytes)
    }

    fn equals(&self, other: &Self) -> (same: bool) {
        same_text(self.system_name.as_str(), other.system_name.as_str()) && self.kind == other.kind
            && same_optional_text(&self.model, &other.model) && equal_option(
            &self.capacity_bytes,
            &other.capacity_bytes,
        )
    }
}

impl Likeness for NetworkDevice {
    open spec fn same(self, other: Self) -> bool {
        self.interface_name@ == other.interface_name@ && text::optional_view(self.model)
            == text::optional_view(other.model)
    }

    fn equals(&self, other: &Self) -> (same: bool) {
        same_text(self.interface_name.as_str(), other.interface_name.as_str())
            && same_optional_text(&self.model, &other.model)
    }
}

impl Likeness for HardwareInventory {
    /// Two inventories list the same.
    open spec fn same(self, other: HardwareInventory) -> bool {
        &&& likeness::all_same(self.cpus@, other.cpus@)
        &&& likeness::all_same(self.memory_modules@, other.memory_modules@)
        &&& likeness::same_option(self.total_memory, other.total_memory)
        &&& likeness::all_same(self.gpus@, other.gpus@)
        &&& likeness::all_same(self.storage_devices@, other.storage_devices@)
        &&& likeness::all_same(self.network_devices@, other.network_devices@)
    }

    fn equals(&self, other: &HardwareInventory) -> (same: bool) {
        all_equal(&self.cpus, &other.cpus) && all_equal(&self.memory_modules, &other.memory_modules)
            && equal_option(&self.total_memory, &other.total_memory) && all_equal(
            &self.gpus,
            &other.gpus,
        ) && all_equal(&self.storage_devices, &other.storage_devices) && all_equal(
            &self.network_devices,
            &other.network_devices,
        )
    }
}

} // verus!
