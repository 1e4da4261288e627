use tuxctl::linux::cpu::{
    cpu_metrics, cpu_utilization, parse_cpu_sample, CpuTimes, Utilization,
};
use tuxctl::linux::disk_io::{parse_diskstats, DiskIoSampler, DiskRates, SECTOR_BYTES};
use tuxctl::linux::memory::{
    filesystem_usage, parse_memory_usage, parse_total_memory, FilesystemStatistics,
};
use tuxctl::linux::rate::{CounterSample, Rate};
use tuxctl::linux::system::ByteUsage;
use tuxctl::linux::system_sampler::{system_identity, SystemMetricsSampler, SystemReadings};
use tuxctl::time::SECOND;

fn percent(utilization: Utilization) -> f64 {
    (utilization.busy as f64 / utilization.total as f64) * 100.0
}

fn per_second(rate: Rate) -> f64 {
    rate.delta as f64 / (rate.elapsed as f64 / SECOND as f64)
}

#[test]
fn system_parses_aggregate_cpu_times_without_double_counting_guest_time() {
    let contents = "cpu  100 20 30 400 50 6 7 8 9 10\ncpu0 1 2 3 4\n";

    assert_eq!(
        parse_cpu_sample(contents).map(|sample| sample.aggregate),
        Some(CpuTimes {
            idle: 450,
            total: 621,
        })
    );
}

#[test]
fn overview_parses_aggregate_cpu_times_without_double_counting_guest_time() {
    let contents = "cpu  100 20 30 400 50 6 7 8 9 10\ncpu0 1 2 3 4\n";
    let sample = parse_cpu_sample(contents).unwrap();

    assert_eq!(
        sample.aggregate,
        CpuTimes {
            idle: 450,
            total: 621,
        }
    );
}

#[test]
fn parses_stable_logical_cpu_identifiers_and_skips_malformed_rows() {
    let contents = "cpu  100 0 50 850 0 0 0 0\n\
        cpu2 20 0 10 170 0 0 0 0\n\
        cpu0 10 0 5 85 0 0 0 0\n\
        cpu1 malformed\n\
        cpuX 1 2 3 4\n\
        intr 100\n";

    let sample = parse_cpu_sample(contents).unwrap();
    let ids: Vec<u32> = sample.logical.iter().map(|(id, _)| *id).collect();

    assert_eq!(ids, vec![0, 2]);
}

#[test]
fn the_last_line_about_a_processor_counts() {
    let sample = parse_cpu_sample("cpu 9 9 9 9\ncpu0 1 1 1 1\ncpu 1 2 3 4\ncpu0 2 2 2 2\ncpu0 x\n")
        .unwrap();

    assert_eq!(sample.aggregate, CpuTimes { idle: 4, total: 10 });
    assert_eq!(sample.logical, [(0, CpuTimes { idle: 2, total: 8 })]);
}

#[test]
fn calculates_each_logical_cpu_from_matching_counter_deltas() {
    let previous = parse_cpu_sample(
        "cpu 100 0 0 100 0 0 0 0\ncpu0 40 0 0 60 0 0 0 0\ncpu1 60 0 0 40 0 0 0 0\n",
    )
    .unwrap();
    let current = parse_cpu_sample(
        "cpu 160 0 0 140 0 0 0 0\ncpu0 70 0 0 70 0 0 0 0\ncpu1 90 0 0 70 0 0 0 0\n",
    )
    .unwrap();

    let (aggregate, logical) = cpu_metrics(Some(&previous), &current);

    assert_eq!(aggregate.map(percent), Some(60.0));
    assert_eq!(logical.len(), 2);
    assert_eq!(logical[0].id.index(), 0);
    assert_eq!(logical[0].utilization.map(percent), Some(75.0));
    assert_eq!(logical[1].id.index(), 1);
    assert_eq!(logical[1].utilization.map(percent), Some(50.0));
}

#[test]
fn first_cpu_sample_has_identities_without_invented_utilization() {
    let current = parse_cpu_sample("cpu 100 0 0 100\ncpu0 40 0 0 60\ncpu1 60 0 0 40\n").unwrap();

    let (aggregate, logical) = cpu_metrics(None, &current);

    assert_eq!(aggregate, None);
    assert_eq!(logical.len(), 2);
    assert!(logical.iter().all(|cpu| cpu.utilization.is_none()));
}

#[test]
fn logical_cpu_appearance_and_disappearance_are_nonfatal() {
    let previous = parse_cpu_sample("cpu 100 0 0 100\ncpu0 40 0 0 60\ncpu1 60 0 0 40\n").unwrap();
    let current = parse_cpu_sample("cpu 160 0 0 140\ncpu1 90 0 0 70\ncpu3 10 0 0 90\n").unwrap();

    let (_, logical) = cpu_metrics(Some(&previous), &current);

    assert_eq!(logical.len(), 2);
    assert_eq!(logical[0].id.index(), 1);
    assert_eq!(logical[0].utilization.map(percent), Some(50.0));
    assert_eq!(logical[1].id.index(), 3);
    assert_eq!(logical[1].utilization, None);
}

#[test]
fn rejects_missing_or_incomplete_aggregate_cpu_data() {
    assert_eq!(parse_cpu_sample("cpu0 1 2 3 4\n"), None);
    assert_eq!(parse_cpu_sample("cpu 1 2 3\ncpu0 1 2 3 4\n"), None);
    assert_eq!(parse_cpu_sample("cpu 1 bad 3 4\n"), None);
}

#[test]
fn system_calculates_cpu_usage_from_counter_deltas() {
    let previous = CpuTimes {
        idle: 400,
        total: 1_000,
    };
    let current = CpuTimes {
        idle: 450,
        total: 1_200,
    };

    assert_eq!(cpu_utilization(previous, current).map(percent), Some(75.0));
}

#[test]
fn overview_calculates_cpu_usage_from_counter_deltas() {
    let previous = CpuTimes {
        idle: 400,
        total: 1_000,
    };
    let current = CpuTimes {
        idle: 450,
        total: 1_200,
    };

    assert_eq!(
        cpu_utilization(previous, current),
        Some(Utilization {
            busy: 150,
            total: 200,
        })
    );
    assert_eq!(cpu_utilization(previous, current).map(percent), Some(75.0));
}

#[test]
fn system_rejects_invalid_cpu_deltas() {
    let sample = CpuTimes {
        idle: 400,
        total: 1_000,
    };
    assert_eq!(cpu_utilization(sample, sample), None);

    let reset = CpuTimes {
        idle: 10,
        total: 20,
    };
    assert_eq!(cpu_utilization(sample, reset), None);
}

#[test]
fn overview_rejects_invalid_cpu_deltas() {
    let sample = CpuTimes {
        idle: 400,
        total: 1_000,
    };
    assert_eq!(cpu_utilization(sample, sample), None);

    let reset = CpuTimes {
        idle: 10,
        total: 20,
    };
    assert_eq!(cpu_utilization(sample, reset), None);

    let lopsided = CpuTimes {
        idle: 600,
        total: 1_100,
    };
    assert_eq!(cpu_utilization(sample, lopsided), None);
}

#[test]
fn system_parses_memory_usage_from_available_memory() {
    let contents = "MemTotal:       1000 kB\nMemAvailable:    400 kB\n";

    assert_eq!(
        parse_memory_usage(contents),
        Some(ByteUsage {
            used: 600 * 1024,
            total: 1000 * 1024,
        })
    );
}

#[test]
fn overview_parses_memory_usage_from_available_memory() {
    let contents = "MemTotal:       1000 kB\nMemAvailable:    400 kB\n";

    assert_eq!(
        parse_memory_usage(contents),
        Some(ByteUsage {
            used: 600 * 1024,
            total: 1000 * 1024,
        })
    );
}

#[test]
fn available_memory_is_added_up_where_it_is_not_told() {
    let contents = "MemTotal: 1000 kB\nMemFree: 100 kB\nBuffers: 20 kB\nCached: 30 kB\n";
    assert_eq!(
        parse_memory_usage(contents),
        Some(ByteUsage {
            used: 850 * 1024,
            total: 1000 * 1024,
        })
    );
    assert_eq!(
        parse_memory_usage("MemTotal: 1 kB\nMemAvailable: 5 kB\n"),
        Some(ByteUsage {
            used: 0,
            total: 1024,
        })
    );
    assert_eq!(
        parse_memory_usage("MemTotal: 1 kB\nMemFree: 5 kB\nCached: 1 kB\n"),
        None
    );
    assert_eq!(parse_memory_usage("MemAvailable: 5 kB\n"), None);
    assert_eq!(
        parse_memory_usage("MemTotal: 18446744073709551615 kB\nMemAvailable: 1 kB\n"),
        None
    );
    assert_eq!(
        parse_total_memory("MemTotal: none\n MemTotal: 7\nMemTotal: 3 kB\nMemTotal: 4 kB\n"),
        Some(3 * 1024)
    );
}

#[test]
fn file_systems_are_counted_in_their_own_unit() {
    assert_eq!(
        filesystem_usage(FilesystemStatistics {
            fragment_size: 512,
            block_size: 4096,
            blocks: 100,
            available_blocks: 40,
        }),
        ByteUsage {
            used: 60 * 512,
            total: 100 * 512,
        }
    );
    assert_eq!(
        filesystem_usage(FilesystemStatistics {
            fragment_size: 0,
            block_size: 4096,
            blocks: u64::MAX,
            available_blocks: 1,
        }),
        ByteUsage {
            used: u64::MAX - 4096,
            total: u64::MAX,
        }
    );
}

/// A line of disk counters with `extra` trailing fields beyond the 14 of the oldest format.
fn diskstats_line(name: &str, sectors_read: u64, sectors_written: u64, extra: usize) -> String {
    let mut line =
        format!("   8       0 {name} 100 5 {sectors_read} 40 200 7 {sectors_written} 90 0 120 130");
    for _ in 0..extra {
        line.push_str(" 0");
    }
    line.push('\n');
    line
}

fn rows(contents: &str) -> Vec<(String, [u64; 2])> {
    parse_diskstats(contents)
        .into_iter()
        .map(|row| (row.name, [row.sectors_read, row.sectors_written]))
        .collect()
}

#[test]
fn diskstats_keeps_whole_disks_in_every_kernel_format() {
    let contents = [
        diskstats_line("sda", 10, 20, 0),
        diskstats_line("sda1", 1, 2, 0),
        diskstats_line("nvme0n1", 30, 40, 4),
        diskstats_line("nvme0n1p2", 3, 4, 4),
        diskstats_line("vdb", 50, 60, 6),
        diskstats_line("loop0", 5, 6, 6),
        diskstats_line("zram0", 5, 6, 6),
        diskstats_line("dm-0", 5, 6, 6),
        diskstats_line("md127", 5, 6, 6),
        diskstats_line("sr0", 5, 6, 6),
    ]
    .concat();

    assert_eq!(
        rows(&contents),
        [
            ("sda".to_owned(), [10, 20]),
            ("nvme0n1".to_owned(), [30, 40]),
            ("vdb".to_owned(), [50, 60])
        ]
    );
}

#[test]
fn malformed_diskstats_lines_are_skipped() {
    let max = u64::MAX;
    let contents = format!(
        "{}{}{}{}{}{}",
        "",
        "   8 0 sdb 1 2 3\n",
        "   8 0 sdc 1 2 x 4 5 6 7 8 9 10 11\n",
        "garbage\n\n",
        "   8 0 sdd -1 0 0 0 0 0 0 0 0 0 0\n",
        diskstats_line("sde", max, max, 0),
    );

    assert_eq!(rows(&contents), [("sde".to_owned(), [max, max])]);
    assert_eq!(parse_diskstats("").len(), 0);
}

/// Names with bytes read and written per second.
fn rates(disks: Vec<DiskRates>) -> Vec<(String, Option<f64>, Option<f64>)> {
    let bytes = |rate: Rate| per_second(rate) * SECTOR_BYTES as f64;
    disks
        .into_iter()
        .map(|disk| {
            (
                disk.name,
                disk.rates.map(|rates| bytes(rates.0)),
                disk.rates.map(|rates| bytes(rates.1)),
            )
        })
        .collect()
}

fn disk(name: &str, read: Option<f64>, write: Option<f64>) -> (String, Option<f64>, Option<f64>) {
    (name.to_owned(), read, write)
}

#[test]
fn disk_rates_come_from_sector_deltas_over_elapsed_time() {
    let mut sampler = DiskIoSampler::default();
    let t0 = 5 * SECOND;

    let contents = diskstats_line("sda", 1_000, 2_000, 4);
    assert_eq!(
        rates(sampler.collect(Some(contents), t0)),
        [disk("sda", None, None)],
        "no rate without a previous sample"
    );

    // 4096 sectors read and 2048 written in 2 s.
    let contents = diskstats_line("sda", 5_096, 4_048, 4);
    assert_eq!(
        rates(sampler.collect(Some(contents), t0 + 2 * SECOND)),
        [disk("sda", Some(1_048_576.0), Some(524_288.0))]
    );

    // A counter that went backwards (reset or 32-bit wrap) reads as zero once.
    let contents = diskstats_line("sda", 10, 4_048, 4);
    assert_eq!(
        rates(sampler.collect(Some(contents.clone()), t0 + 3 * SECOND)),
        [disk("sda", Some(0.0), Some(0.0))]
    );

    // Samples less than 1 ms apart report no rate.
    assert_eq!(
        rates(sampler.collect(Some(contents), t0 + 3 * SECOND)),
        [disk("sda", None, None)]
    );
}

#[test]
fn counters_near_u64_max_do_not_overflow() {
    let mut sampler = DiskIoSampler::default();

    sampler.collect(
        Some(diskstats_line("sda", u64::MAX - 10, u64::MAX - 1, 0)),
        0,
    );

    assert_eq!(
        rates(sampler.collect(Some(diskstats_line("sda", u64::MAX, u64::MAX, 0)), SECOND)),
        [disk("sda", Some(5_120.0), Some(512.0))]
    );
}

#[test]
fn disappearing_disks_restart_without_a_rate_across_the_gap() {
    let mut sampler = DiskIoSampler::default();
    let both = [
        diskstats_line("sda", 100, 100, 0),
        diskstats_line("sdb", 100, 100, 0),
    ]
    .concat();

    sampler.collect(Some(both), 0);
    assert_eq!(
        rates(sampler.collect(Some(diskstats_line("sda", 612, 100, 0)), SECOND)),
        [disk("sda", Some(262_144.0), Some(0.0))],
        "sdb vanished"
    );

    let both = [
        diskstats_line("sda", 612, 100, 0),
        diskstats_line("sdb", 9_000, 9_000, 0),
    ]
    .concat();
    assert_eq!(
        rates(sampler.collect(Some(both), 2 * SECOND)),
        [
            disk("sda", Some(0.0), Some(0.0)),
            disk("sdb", None, None)
        ],
        "a returning disk gets no rate spanning its absence"
    );
}

#[test]
fn a_failed_read_clears_the_rate_baselines() {
    let mut sampler = DiskIoSampler::default();

    sampler.collect(Some(diskstats_line("sda", 100, 100, 0)), 0);
    assert!(sampler.collect(None, SECOND).is_empty());

    assert_eq!(
        rates(sampler.collect(Some(diskstats_line("sda", 900, 900, 0)), 2 * SECOND)),
        [disk("sda", None, None)]
    );
}

#[test]
fn duplicate_disk_names_keep_the_first_row() {
    let mut sampler = DiskIoSampler::default();
    let contents = [
        diskstats_line("sda", 1, 1, 0),
        diskstats_line("sda", 2, 2, 0),
    ]
    .concat();

    assert_eq!(sampler.collect(Some(contents), 0).len(), 1);
    assert_eq!(
        rates(sampler.collect(Some(diskstats_line("sda", 3, 1, 0)), SECOND)),
        [disk("sda", Some(1_024.0), Some(0.0))]
    );
}

#[test]
fn first_sample_has_no_rate() {
    let sample = CounterSample::new(1_000_000, 500_000, 0);

    assert_eq!(sample.rates_since(None), None);
}

fn both(rates: Option<(Rate, Rate)>) -> Option<(f64, f64)> {
    rates.map(|(first, second)| (per_second(first), per_second(second)))
}

#[test]
fn rates_come_from_counter_and_elapsed_deltas() {
    let previous = CounterSample::new(1_000_000, 500_000, 0);
    let current = CounterSample::new(1_000_000 + 2_097_152, 500_000 + 1_048_576, 2 * SECOND);

    assert_eq!(
        both(current.rates_since(Some(previous))),
        Some((1_048_576.0, 524_288.0))
    );
}

#[test]
fn samples_less_than_a_millisecond_apart_have_no_rate() {
    let previous = CounterSample::new(100, 200, 0);

    assert_eq!(
        CounterSample::new(200, 300, 999_000).rates_since(Some(previous)),
        None
    );
    assert_eq!(
        CounterSample::new(200, 300, 999_999).rates_since(Some(previous)),
        None
    );
    assert!(CounterSample::new(200, 300, 1_000_000)
        .rates_since(Some(previous))
        .is_some());
}

#[test]
fn a_counter_that_went_backwards_reports_zero_for_that_sample() {
    let previous = CounterSample::new(10_000, 5_000, 0);
    let current = CounterSample::new(100, 5_500, SECOND);

    assert_eq!(both(current.rates_since(Some(previous))), Some((0.0, 500.0)));
}

fn readings(stat: Option<&str>, at: u64) -> SystemReadings {
    SystemReadings {
        stat: stat.map(str::to_owned),
        meminfo: Some("MemTotal: 4 kB\nMemAvailable: 1 kB\n".into()),
        diskstats: Some(diskstats_line("sda", at / SECOND, 0, 0)),
        root: None,
        at,
    }
}

#[test]
fn a_report_measures_from_the_last_readable_sample() {
    let mut sampler = SystemMetricsSampler::new();

    let first = sampler.collect(readings(Some("cpu 10 0 0 10\ncpu0 10 0 0 10\n"), 0));
    assert_eq!(first.cpu, None);
    assert_eq!(first.logical_cpus.len(), 1);
    assert_eq!(first.memory, Some(ByteUsage { used: 3072, total: 4096 }));
    assert_eq!(first.root_filesystem, None);

    let unreadable = sampler.collect(readings(None, SECOND));
    assert_eq!(unreadable.cpu, None);
    assert!(unreadable.logical_cpus.is_empty());
    assert_eq!(
        rates(unreadable.disks),
        [disk("sda", Some(512.0), Some(0.0))]
    );

    let next = sampler.collect(readings(Some("cpu 40 0 0 20\n"), 2 * SECOND));
    assert_eq!(next.cpu.map(percent), Some(75.0));
    assert!(next.logical_cpus.is_empty());
}

#[test]
fn the_system_is_named_by_what_its_files_hold() {
    let identity = system_identity(Some(" host \n".into()), Some("\n".into()));

    assert_eq!(identity.hostname.as_deref(), Some("host"));
    assert_eq!(identity.kernel_release, None);
    assert_eq!(system_identity(None, None).hostname, None);
}
