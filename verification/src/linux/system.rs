//! System metrics: processors, memory, load, uptime, file systems and disks.
use vstd::prelude::*;

use crate::likeness;
use crate::likeness::{all_equal, equal_option, Likeness};
use crate::number;
use crate::number::{same_optional, Number};
use crate::text;
use crate::text::{same_optional_text, same_text};
use crate::time::Nanos;

verus! {

broadcast use vstd::string::group_string_axioms;

#[derive(Debug, Clone, PartialEq)]
pub struct SystemMetrics {
    pub cpu_percent: Option<Number>,
    pub logical_cpus: Vec<LogicalCpuMetrics>,
    pub memory: Option<ByteUsage>,
    /// `memory` as a percentage. It says nothing that `memory` does not.
    pub memory_percent: Option<Number>,
    pub uptime: Option<Nanos>,
    pub load_average: Option<LoadAverage>,
    pub root_filesystem: Option<ByteUsage>,
    pub system_identity: SystemIdentity,
    /// Throughput of whole disks; empty where their counters cannot be read.
    pub disks: Vec<DiskIo>,
}

#[derive(Debug, Clone, PartialEq)]
pub struct DiskIo {
    /// Kernel name, matching `StorageDevice::system_name`.
    pub name: String,
    /// `None` until a second sample exists for this disk.
    pub read_bytes_per_sec: Option<Number>,
    pub write_bytes_per_sec: Option<Number>,
}

#[derive(Debug, Clone, Copy, PartialEq, Structural)]
pub struct LogicalCpuMetrics {
    pub id: LogicalCpuId,
    pub utilization_percent: Option<Number>,
}

#[derive(Debug, Clone, Copy, PartialEq, Eq, PartialOrd, Ord, Structural)]
pub struct LogicalCpuId(pub u32);

impl LogicalCpuId {
    pub fn index(self) -> (index: u32)
        ensures
            index == self.0,
    {
        self.0
    }
}

#[derive(Debug, Clone, PartialEq, Eq)]
pub struct SystemIdentity {
    pub hostname: Option<String>,
    pub kernel_release: Option<String>,
}

#[derive(Debug, Clone, Copy, PartialEq, Eq, Structural)]
pub struct ByteUsage {
    pub used: u64,
    pub total: u64,
}

#[derive(Debug, Clone, Copy, PartialEq, Structural)]
pub struct LoadAverage {
    pub one: Number,
    pub five: Number,
    pub fifteen: Number,
}

impl Default for SystemIdentity {
    fn default() -> (identity: SystemIdentity)
        ensures
            identity.hostname is None,
            identity.kernel_release is None,
    {
        SystemIdentity { hostname: None, kernel_release: None }
    }
}

impl Default for SystemMetrics {
    fn default() -> (metrics: SystemMetrics)
        ensures
            metrics.cpu_percent is None,
            metrics.logical_cpus@.len() == 0,
            metrics.memory is None,
            metrics.memory_percent is None,
            metrics.uptime is None,
            metrics.load_average is None,
            metrics.root_filesystem is None,
            metrics.system_identity.hostname is None,
            metrics.system_identity.kernel_release is None,
            metrics.disks@.len() == 0,
    {
        SystemMetrics {
            cpu_percent: None,
            logical_cpus: Vec::new(),
            memory: None,
            memory_percent: None,
            uptime: None,
            load_average: None,
            root_filesystem: None,
            system_identity: SystemIdentity::default(),
            disks: Vec::new(),
        }
    }
}

impl Likeness for DiskIo {
    open spec fn same(self, other: DiskIo) -> bool {
        &&& self.name@ == other.name@
        &&& number::optional_equals(self.read_bytes_per_sec, other.read_bytes_per_sec)
        &&& number::optional_equals(self.write_bytes_per_sec, other.write_bytes_per_sec)
    }

    fn equals(&self, other: &DiskIo) -> (same: bool) {
        same_text(self.name.as_str(), other.name.as_str()) && same_optional(
            self.read_bytes_per_sec,
            other.read_bytes_per_sec,
        ) && same_optional(self.write_bytes_per_sec, other.write_bytes_per_sec)
    }
}

impl Likeness for LogicalCpuMetrics {
    open spec fn same(self, other: LogicalCpuMetrics) -> bool {
        self.id == other.id && number::optional_equals(self.utilization_percent, other.utilization_percent)
    }

    fn equals(&self, other: &LogicalCpuMetrics) -> (same: bool) {
        self.id == other.id && same_optional(self.utilization_percent, other.utilization_percent)
    }
}

impl Likeness for LoadAverage {
    open spec fn same(self, other: LoadAverage) -> bool {
        self.one.equals(other.one) && self.five.equals(other.five) && self.fifteen.equals(
            other.fifteen,
        )
    }

    fn equals(&self, other: &LoadAverage) -> (same: bool) {
        self.one.same(other.one) && self.five.same(other.five) && self.fifteen.same(other.fifteen)
    }
}

impl Likeness for ByteUsage {
    open spec fn same(self, other: ByteUsage) -> bool {
        self == other
    }

    fn equals(&self, other: &ByteUsage) -> (same: bool) {
        *self == *other
    }
}

impl Likeness for SystemMetrics {
    /// Two readings show the same.
    open spec fn same(self, other: SystemMetrics) -> bool {
        &&& number::optional_equals(self.cpu_percent, other.cpu_percent)
        &&& likeness::all_same(self.logical_cpus@, other.logical_cpus@)
        &&& likeness::same_option(self.memory, other.memory)
        &&& likeness::same_option(self.uptime, other.uptime)
        &&& likeness::same_option(self.load_average, other.load_average)
        &&& likeness::same_option(self.root_filesystem, other.root_filesystem)
        &&& text::optional_view(self.system_identity.hostname) == text::optional_view(
            other.system_identity.hostname,
        )
        &&& text::optional_view(self.system_identity.kernel_release) == text::optional_view(
            other.system_identity.kernel_release,
        )
        &&& likeness::all_same(self.disks@, other.disks@)
    }

    fn equals(&self, other: &SystemMetrics) -> (same: bool) {
        same_optional(self.cpu_percent, other.cpu_percent) && all_equal(
            &self.logical_cpus,
            &other.logical_cpus,
        ) && equal_option(&self.memory, &other.memory) && equal_option(&self.uptime, &other.uptime)
            && equal_option(&self.load_average, &other.load_average) && equal_option(
            &self.root_filesystem,
            &other.root_filesystem,
        ) && same_optional_text(&self.system_identity.hostname, &other.system_identity.hostname)
            && same_optional_text(
            &self.system_identity.kernel_release,
            &other.system_identity.kernel_release,
        ) && all_equal(&self.disks, &other.disks)
    }
}

} // verus!
