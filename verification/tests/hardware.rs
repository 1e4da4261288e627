use tuxctl::linux::cpu_packages::parse_cpu_packages;
use tuxctl::linux::device_text::{first_number, meaningful, parse_hex, to_hex};
use tuxctl::linux::devices::{
    classify_gpu, discover_nic_model, drm_card_index, fallback_gpu_name, memory_module, network_device,
    parse_edac_memory_module, parse_nvidia_information, read_gpu, sorted_drm_cards, sorted_names,
    storage_device, GpuFiles, ModuleFiles, NicFiles, StorageFiles,
};
use tuxctl::linux::hardware::{
    CpuPackage, GpuDevice, GpuKind, HardwareInventory, StorageDevice, StorageKind,
};
use tuxctl::linux::memory::parse_total_memory;
use tuxctl::linux::storage::{is_whole_disk, storage_kind};

fn text(value: &str) -> Option<String> {
    Some(value.to_owned())
}

#[test]
fn deduplicates_logical_cpus_by_physical_package() {
    let cpuinfo = "processor: 0\nphysical id: 1\nmodel name: Example CPU\n\nprocessor: 1\nphysical id: 1\nmodel name: Example CPU\n\nprocessor: 2\nphysical id: 3\nmodel name: Other CPU\n";

    assert_eq!(
        parse_cpu_packages(cpuinfo),
        vec![
            CpuPackage {
                physical_id: Some(1),
                model: "Example CPU".into(),
            },
            CpuPackage {
                physical_id: Some(3),
                model: "Other CPU".into(),
            },
        ]
    );
}

#[test]
fn packages_are_listed_by_number_with_their_first_model() {
    let cpuinfo = "physical id: 9\nmodel name: Nine\n\nphysical id: 2\nmodel name: Two\n\nphysical id: 9\nmodel name: Later\n\nmodel name: Nowhere\n";

    assert_eq!(
        parse_cpu_packages(cpuinfo),
        vec![
            CpuPackage {
                physical_id: Some(2),
                model: "Two".into(),
            },
            CpuPackage {
                physical_id: Some(9),
                model: "Nine".into(),
            },
        ]
    );
}

#[test]
fn deduplicates_cpu_models_when_package_ids_are_missing() {
    let cpuinfo =
        "processor: 0\nmodel name: Virtual CPU\n\nprocessor: 1\nmodel name: Virtual CPU\n";

    assert_eq!(parse_cpu_packages(cpuinfo).len(), 1);
}

#[test]
fn models_are_named_by_hardware_before_processor() {
    let cpuinfo = "Processor: ARM core\nHardware: Board\n\nProcessor: Other core\nProcessor: Ignored\n\nprocessor: 3\n\n";
    let models: Vec<String> = parse_cpu_packages(cpuinfo)
        .into_iter()
        .map(|package| package.model)
        .collect();

    assert_eq!(models, ["Board", "Other core"]);
    assert!(parse_cpu_packages("").is_empty());
}

#[test]
fn parses_edac_ram_module_and_ignores_empty_slots() {
    let module = parse_edac_memory_module(
        "16384\n",
        Some("DIMM_A1\n".into()),
        Some("DDR5\n".into()),
        Some("6000 MT/s\n".into()),
    )
    .unwrap();

    assert_eq!(module.capacity_bytes, 16 * 1024 * 1024 * 1024);
    assert_eq!(module.locator.as_deref(), Some("DIMM_A1"));
    assert_eq!(module.memory_type.as_deref(), Some("DDR5"));
    assert_eq!(module.speed_mts, Some(6000));
    assert!(parse_edac_memory_module("0", None, None, None).is_none());
}

#[test]
fn modules_that_cannot_be_counted_are_skipped() {
    assert!(parse_edac_memory_module("many", None, None, None).is_none());
    assert!(parse_edac_memory_module("18446744073709551615", None, None, None).is_none());
}

#[test]
fn a_module_is_described_by_its_files() {
    let module = memory_module(ModuleFiles {
        size: text("8192\n"),
        label: text("unknown"),
        location: text("channel 0 slot 1\n"),
        memory_type: text("Unbuffered-DDR4\n"),
        dimm_speed: None,
        speed: text("3200\n"),
    })
    .unwrap();

    assert_eq!(module.locator.as_deref(), Some("channel 0 slot 1"));
    assert_eq!(module.memory_type.as_deref(), Some("Unbuffered-DDR4"));
    assert_eq!(module.speed_mts, Some(3200));
    assert!(memory_module(ModuleFiles {
        size: None,
        label: None,
        location: None,
        memory_type: None,
        dimm_speed: None,
        speed: None,
    })
    .is_none());
}

#[test]
fn ram_gracefully_falls_back_to_total_only() {
    let inventory = HardwareInventory {
        total_memory: parse_total_memory("MemTotal: 33554432 kB\n"),
        ..HardwareInventory::default()
    };

    assert!(inventory.memory_modules.is_empty());
    assert_eq!(inventory.total_memory, Some(32 * 1024 * 1024 * 1024));
}

fn nic(manufacturer: Option<&str>, product: Option<&str>) -> NicFiles {
    NicFiles {
        manufacturer: manufacturer.map(str::to_owned),
        product: product.map(str::to_owned),
        product_name: None,
        model: None,
    }
}

#[test]
fn nic_model_uses_only_available_hardware_identity() {
    assert_eq!(
        discover_nic_model(None, nic(Some("Realtek\n"), Some("RTL8125 2.5GbE\n")), None).as_deref(),
        Some("Realtek RTL8125 2.5GbE")
    );
    assert_eq!(discover_nic_model(None, nic(None, None), None), None);
}

#[test]
fn usb_nics_are_named_by_the_device_above_them() {
    let parent = || Some(nic(Some("ASIX"), Some("AX88179")));

    assert_eq!(
        discover_nic_model(text("2-1:1.0"), nic(None, None), parent()).as_deref(),
        Some("ASIX AX88179")
    );
    assert_eq!(
        discover_nic_model(text("0000:"), nic(Some("Own"), None), parent()).as_deref(),
        Some("Own")
    );
    assert_eq!(
        discover_nic_model(text("bridge"), nic(None, None), parent()),
        None
    );
}

#[test]
fn enumerates_multiple_drm_cards_without_connector_duplicates() {
    let cards = sorted_drm_cards(vec![
        "card2".into(),
        "card0-HDMI-A-1".into(),
        "renderD128".into(),
        "card0".into(),
        "card1".into(),
    ]);

    assert_eq!(
        cards,
        vec![
            (0, "card0".into()),
            (1, "card1".into()),
            (2, "card2".into())
        ]
    );
}

#[test]
fn cards_with_the_same_number_keep_the_first_name() {
    assert_eq!(
        sorted_drm_cards(vec!["card01".into(), "card1".into()]),
        vec![(1, "card01".into())]
    );
    assert_eq!(drm_card_index("card"), None);
    assert_eq!(drm_card_index("card+1"), None);
    assert_eq!(drm_card_index("card4294967296"), None);
    assert_eq!(drm_card_index("card4294967295"), Some(u32::MAX));
}

#[test]
fn missing_gpu_metadata_uses_ids_without_inventing_vram_or_kind() {
    let gpu = GpuDevice {
        model: fallback_gpu_name(0x8086, Some(0x1234)),
        kind: None,
        vram_bytes: None,
    };

    assert_eq!(gpu.model, "Intel graphics device [1234]");
    assert_eq!(gpu.kind, None);
    assert_eq!(gpu.vram_bytes, None);
}

#[test]
fn fallback_names_know_the_vendors() {
    assert_eq!(
        fallback_gpu_name(0x1002, Some(0xab)),
        "AMD graphics device [00ab]"
    );
    assert_eq!(fallback_gpu_name(0x10de, None), "NVIDIA graphics device");
    assert_eq!(
        fallback_gpu_name(7, Some(0x12_34ab)),
        "GPU graphics device [1234ab]"
    );
}

#[test]
fn parses_nvidia_model_and_vram() {
    let information = parse_nvidia_information(
        "Model: NVIDIA GeForce Example\nVideo Memory: 16384 MB\nIRQ: 42\n",
    );

    assert_eq!(information.model.as_deref(), Some("NVIDIA GeForce Example"));
    assert_eq!(information.vram_bytes, Some(16 * 1024 * 1024 * 1024));
}

fn gpu_files() -> GpuFiles {
    GpuFiles {
        vendor: text("0x8086\n"),
        device: text("0x46a6\n"),
        information: None,
        product_name: None,
        name: None,
        vram_total: None,
        is_integrated: None,
        integrated: None,
        link_width: None,
    }
}

#[test]
fn a_card_is_described_by_its_files() {
    let gpu = read_gpu(gpu_files()).unwrap();
    assert_eq!(gpu.model, "Intel graphics device [46a6]");
    assert_eq!((gpu.kind, gpu.vram_bytes), (None, None));

    let gpu = read_gpu(GpuFiles {
        information: text("Model: RTX\nVideo Memory: 2 MB\n"),
        product_name: text("ignored"),
        vram_total: text("0\n"),
        link_width: text("16\n"),
        ..gpu_files()
    })
    .unwrap();
    assert_eq!(gpu.model, "RTX");
    assert_eq!(gpu.vram_bytes, Some(2 * 1024 * 1024));
    assert_eq!(gpu.kind, Some(GpuKind::Discrete));

    let gpu = read_gpu(GpuFiles {
        product_name: text("Unknown"),
        name: text(" Named \n"),
        vram_total: text("123\n"),
        ..gpu_files()
    })
    .unwrap();
    assert_eq!(gpu.model, "Named");
    assert_eq!(gpu.vram_bytes, Some(123));

    assert!(read_gpu(GpuFiles {
        vendor: text("zz"),
        ..gpu_files()
    })
    .is_none());
}

#[test]
fn cards_are_classified_by_what_they_say_or_by_their_link() {
    assert_eq!(
        classify_gpu(text("Yes\n"), None, text("16")),
        Some(GpuKind::Integrated)
    );
    assert_eq!(
        classify_gpu(None, text("0"), None),
        Some(GpuKind::Discrete)
    );
    assert_eq!(
        classify_gpu(text("maybe"), text("1"), text("x8 4 lanes")),
        Some(GpuKind::Discrete)
    );
    assert_eq!(classify_gpu(None, None, text("0")), None);
    assert_eq!(classify_gpu(None, None, None), None);
}

#[test]
fn filters_synthetic_storage_and_classifies_supported_devices() {
    assert_eq!(storage_kind("nvme0n1", None, None), Some(StorageKind::Nvme));
    assert_eq!(
        storage_kind("sda", Some("ATA"), None),
        Some(StorageKind::Sata)
    );
    assert_eq!(
        storage_kind("sdb", Some("IBM"), None),
        Some(StorageKind::Scsi)
    );
    assert_eq!(storage_kind("vda", None, None), Some(StorageKind::Virtio));
    assert_eq!(storage_kind("mmcblk0", None, None), Some(StorageKind::Mmc));
    for name in ["loop0", "ram0", "zram0", "dm-0", "md0", "nvme0n1p1"] {
        assert_eq!(storage_kind(name, None, None), None);
    }
}

#[test]
fn whole_disks_are_told_by_their_names() {
    for name in ["sda", "sdaa", "vdb", "xvdc", "nvme10n2", "mmcblk1"] {
        assert!(is_whole_disk(name), "{name}");
    }
    for name in [
        "sd", "sda1", "nvme0", "nvmen1", "nvme0n", "mmcblk", "mmcblk0p1", "sr0",
    ] {
        assert!(!is_whole_disk(name), "{name}");
    }
    assert_eq!(
        storage_kind("sdc", None, Some("/sys/devices/pci/ata2/host1")),
        Some(StorageKind::Sata)
    );
    assert_eq!(
        storage_kind("xvda", Some("ATA"), None),
        Some(StorageKind::Virtio)
    );
}

fn storage_files(vendor: Option<&str>, model: Option<&str>, size: Option<&str>) -> StorageFiles {
    StorageFiles {
        vendor: vendor.map(str::to_owned),
        model: model.map(str::to_owned),
        name: None,
        size: size.map(str::to_owned),
        canonical: None,
    }
}

#[test]
fn a_disk_is_described_by_its_files() {
    assert_eq!(
        storage_device(
            "sda".into(),
            storage_files(Some("ATA     \n"), Some("Samsung SSD\n"), Some("2048\n"))
        ),
        Some(StorageDevice {
            system_name: "sda".into(),
            kind: StorageKind::Sata,
            model: text("Samsung SSD"),
            capacity_bytes: Some(1024 * 1024),
        })
    );
    assert_eq!(
        storage_device(
            "sdb".into(),
            storage_files(Some("IBM"), Some("Disk"), Some("0"))
        ),
        Some(StorageDevice {
            system_name: "sdb".into(),
            kind: StorageKind::Scsi,
            model: text("IBM Disk"),
            capacity_bytes: None,
        })
    );
    assert_eq!(
        storage_device("loop0".into(), storage_files(None, None, Some("8"))),
        None
    );
    assert_eq!(
        storage_device("vda".into(), storage_files(None, None, Some("18446744073709551615")))
            .unwrap()
            .capacity_bytes,
        None
    );
}

#[test]
fn names_are_kept_by_prefix_and_sorted() {
    let names: Vec<String> = ["mc1", "power", "mc0", "mc10", "rank0"]
        .into_iter()
        .map(str::to_owned)
        .collect();

    assert_eq!(sorted_names(&names, "mc"), ["mc0", "mc1", "mc10"]);
    assert_eq!(
        sorted_names(&names, ""),
        ["mc0", "mc1", "mc10", "power", "rank0"]
    );
}

#[test]
fn values_that_say_nothing_are_left_out() {
    assert_eq!(meaningful(text("  \n")), None);
    assert_eq!(meaningful(text("UNKNOWN")), None);
    assert_eq!(meaningful(text(" Not Specified ")), None);
    assert_eq!(meaningful(text(" unknowns ")).as_deref(), Some("unknowns"));
    assert_eq!(meaningful(None), None);
}

#[test]
fn hexadecimal_numbers_are_read_as_the_standard_library_reads_them() {
    for value in [
        "0x10de", "10DE", "0x0x1", "+1f", "0x+1f", "-1", "0x", "", "+", "ffffffff", "100000000",
        "g1", "unknown", "x1",
    ] {
        let trimmed = value.trim_start_matches("0x");
        let expected = if value == "unknown" {
            None
        } else {
            u32::from_str_radix(trimmed, 16).ok()
        };
        assert_eq!(parse_hex(text(value)), expected, "{value}");
    }
    assert_eq!(parse_hex(None), None);
}

#[test]
fn hexadecimal_numbers_are_written_as_the_standard_library_writes_them() {
    for number in [0, 7, 0xf, 0x10, 0xabc, 0x1234, 0x12345, u32::MAX] {
        assert_eq!(to_hex(number, 4), format!("{number:04x}"));
        assert_eq!(to_hex(number, 0), format!("{number:x}"));
    }
}

#[test]
fn the_first_number_is_found_among_words() {
    assert_eq!(first_number("x8 16 lanes 4"), Some(16));
    assert_eq!(first_number("none at all"), None);
    assert_eq!(first_number("18446744073709551616 3"), Some(3));
}

#[test]
fn physical_nic_without_model_is_retained() {
    let card = network_device("enp6s0".into(), text("devices"), nic(None, None), None);

    assert_eq!(card.interface_name, "enp6s0");
    assert_eq!(card.model, None);
}
