//! Sampling the whole system.
use vstd::prelude::*;

use crate::linux::cpu;
use crate::linux::cpu::{cpu_metrics, parse_cpu_sample, CpuSample, LogicalCpuShare, Utilization};
use crate::linux::disk_io;
use crate::linux::disk_io::{DiskIoSampler, DiskRates};
use crate::linux::memory;
use crate::linux::memory::{filesystem_usage, parse_memory_usage, FilesystemStatistics};
use crate::linux::rate::NamedCounters;
use crate::linux::system::{ByteUsage, LogicalCpuId, SystemIdentity};
use crate::table;
use crate::text;
use crate::text::trim;
use crate::time::Nanos;

verus! {

broadcast use vstd::string::group_string_axioms;

/// What was read of the system at one moment. What could not be read is missing.
pub struct SystemReadings {
    pub stat: Option<String>,
    pub meminfo: Option<String>,
    pub diskstats: Option<String>,
    pub root: Option<FilesystemStatistics>,
    pub at: Nanos,
}

/// What the readings say, and what they say together with those before.
#[derive(Debug, Clone, PartialEq, Eq)]
pub struct SystemReport {
    pub cpu: Option<Utilization>,
    pub logical_cpus: Vec<LogicalCpuShare>,
    pub memory: Option<ByteUsage>,
    pub root_filesystem: Option<ByteUsage>,
    pub disks: Vec<DiskRates>,
}

/// Samples the system again and again.
pub struct SystemMetricsSampler {
    previous_cpu: Option<CpuSample>,
    disks: DiskIoSampler,
}

impl SystemMetricsSampler {
    /// The processor times of the last sample that had any.
    pub closed spec fn cpu(self) -> Option<CpuSample> {
        self.previous_cpu
    }

    /// The disks of the last sample.
    pub closed spec fn disks(self) -> Seq<NamedCounters> {
        self.disks@
    }

    /// The processors of the last sample are in ascending order.
    pub closed spec fn wf(self) -> bool {
        self.previous_cpu matches Some(sample) ==> table::ascending(sample.logical@)
    }

    pub fn new() -> (sampler: SystemMetricsSampler)
        ensures
            sampler.wf(),
            sampler.cpu() is None,
            sampler.disks() == Seq::<NamedCounters>::empty(),
    {
        SystemMetricsSampler { previous_cpu: None, disks: DiskIoSampler::default() }
    }

    /// The report on a set of readings.
    pub fn collect(&mut self, readings: SystemReadings) -> (report: SystemReport)
        requires
            old(self).wf(),
        ensures
            final(self).wf(),
            cpu_reported(report, readings.stat, old(self).cpu(), final(self).cpu()),
            report.memory == (match readings.meminfo {
                Some(contents) => memory::memory_usage(contents@),
                None => None,
            }),
            report.root_filesystem == (match readings.root {
                Some(statistics) => Some(
                    memory::usage(
                        memory::capped_bytes(statistics.blocks, statistics.unit()),
                        memory::capped_bytes(statistics.available_blocks, statistics.unit()),
                    ),
                ),
                None => None,
            }),
            disk_io::rated(
                report.disks@,
                old(self).disks(),
                disk_io::disks_read(readings.diskstats, readings.at),
            ),
            final(self).disks() == disk_io::disks_read(readings.diskstats, readings.at),
    {
        let current = match readings.stat {
            Some(contents) => parse_cpu_sample(contents.as_str()),
            None => None,
        };
        let (cpu, logical_cpus) = match &current {
            Some(current) => cpu_metrics(self.previous_cpu.as_ref(), current),
            None => (None, Vec::new()),
        };
        if current.is_some() {
            self.previous_cpu = current;
        }
        let memory = match readings.meminfo {
            Some(contents) => parse_memory_usage(contents.as_str()),
            None => None,
        };
        let root_filesystem = match readings.root {
            Some(statistics) => Some(filesystem_usage(statistics)),
            None => None,
        };
        let disks = self.disks.collect(readings.diskstats, readings.at);
        SystemReport { cpu, logical_cpus, memory, root_filesystem, disks }
    }
}

/// The utilization of processors `shares` is that of a sample since the one before.
pub open spec fn shares_reported(
    shares: Seq<LogicalCpuShare>,
    previous: Option<CpuSample>,
    current: CpuSample,
) -> bool {
    &&& shares.len() == current.logical@.len()
    &&& forall|i: int|
        0 <= i < shares.len() ==> (#[trigger] shares[i]) == (LogicalCpuShare {
            id: LogicalCpuId(current.logical@[i].0),
            utilization: cpu::share_since(previous, current.logical@[i].0, current.logical@[i].1),
        })
}

/// A report shows the processors by the times read. Without times that can be read it shows
/// none, and the sample before stays the one to measure from.
pub open spec fn cpu_reported(
    report: SystemReport,
    stat: Option<String>,
    before: Option<CpuSample>,
    after: Option<CpuSample>,
) -> bool {
    let readable = stat matches Some(contents) && cpu::aggregate_times(
        text::lines(contents@),
        text::lines(contents@).len(),
    ) is Some;
    if readable {
        &&& after matches Some(current) && current.counted_in(text::lines(stat->0@)) && shares_reported(
            report.logical_cpus@,
            before,
            current,
        ) && report.cpu == (match before {
            Some(previous) => cpu::utilization(previous.aggregate, current.aggregate),
            None => None,
        })
    } else {
        &&& after == before
        &&& report.cpu is None
        &&& report.logical_cpus@.len() == 0
    }
}

/// What a file holds, without the white space around it, where there is anything else.
pub open spec fn trimmed_content(contents: Option<Seq<char>>) -> Option<Seq<char>> {
    match contents {
        Some(contents) => if text::trimmed(contents).len() > 0 {
            Some(text::trimmed(contents))
        } else {
            None
        },
        None => None,
    }
}

fn trim_content(contents: Option<String>) -> (value: Option<String>)
    ensures
        text::optional_view(value) == trimmed_content(text::optional_view(contents)),
{
    match contents {
        Some(contents) => {
            let value = trim(contents.as_str());
            if value.as_str().is_empty() {
                None
            } else {
                Some(value)
            }
        },
        None => None,
    }
}

/// The name of the host and the release of the kernel, by the files that hold them.
pub fn system_identity(hostname: Option<String>, kernel_release: Option<String>) -> (identity:
    SystemIdentity)
    ensures
        text::optional_view(identity.hostname) == trimmed_content(text::optional_view(hostname)),
        text::optional_view(identity.kernel_release) == trimmed_content(text::optional_view(kernel_release)),
{
    SystemIdentity {
        hostname: trim_content(hostname),
        kernel_release: trim_content(kernel_release),
    }
}

} // verus!
