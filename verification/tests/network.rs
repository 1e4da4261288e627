use std::cell::RefCell;

use tuxctl::linux::network::OperState;
use tuxctl::linux::network_sampler::{
    addresses_of, parse_proc_net_dev, read_mac_address, read_mtu, InterfaceAddress, InterfaceFiles,
    NetworkListing, NetworkSampler,
};
use tuxctl::number::Number;
use tuxctl::time::SECOND;

const SAMPLE_PROC_NET_DEV: &str = r#"Inter-|   Receive                                                |  Transmit
 face |bytes    packets errs drop fifo frame compressed multicast|bytes    packets errs drop fifo colls carrier compressed
    lo: 447897079 7585865    0    0    0     0          0         0 447897079 7585865    0    0    0     0       0          0
enp6s0: 15409598376 10794652    0    0    0     0          0     10235 606119989 5658836    5   15    0     0       0          0
docker0:   16306     214    0    0    0     0          0         0   593023    1043    0    1    0     0       0          0
"#;

#[test]
fn parses_proc_net_dev_correctly() {
    let rows = parse_proc_net_dev(SAMPLE_PROC_NET_DEV);
    assert_eq!(rows.len(), 3);

    assert_eq!(rows[0].name, "lo");
    assert_eq!(rows[0].rx_bytes, 447897079);
    assert_eq!(rows[0].rx_packets, 7585865);
    assert_eq!(rows[0].tx_bytes, 447897079);
    assert_eq!(rows[0].tx_packets, 7585865);

    assert_eq!(rows[1].name, "enp6s0");
    assert_eq!(rows[1].rx_bytes, 15409598376);
    assert_eq!(rows[1].rx_packets, 10794652);
    assert_eq!(rows[1].tx_bytes, 606119989);
    assert_eq!(rows[1].tx_packets, 5658836);
    assert_eq!(rows[1].tx_errors, 5);
    assert_eq!(rows[1].tx_dropped, 15);

    assert_eq!(rows[2].name, "docker0");
    assert_eq!(rows[2].rx_bytes, 16306);
    assert_eq!(rows[2].tx_bytes, 593023);
}

#[test]
fn lines_without_enough_counters_are_skipped() {
    assert!(parse_proc_net_dev("eth0: 1 2 3\n: 1 2 3 4 5 6 7 8 9 10 11 12 13 14 15 16\n").is_empty());
    let rows = parse_proc_net_dev("a:1 2 x 3 4 5 6 7 8 9 10 11 12 13 14 15 16\n");
    assert_eq!(rows.len(), 1);
    assert_eq!((rows[0].rx_errors, rows[0].rx_dropped), (3, 4));
}

#[test]
fn parses_operstate_strings() {
    assert_eq!(OperState::from_sys("up\n"), OperState::Up);
    assert_eq!(OperState::from_sys("DOWN"), OperState::Down);
    assert_eq!(OperState::from_sys("dormant"), OperState::Dormant);
    assert_eq!(OperState::from_sys("testing"), OperState::Testing);
    assert_eq!(
        OperState::from_sys("lowerlayerdown"),
        OperState::LowerLayerDown
    );
    assert_eq!(OperState::from_sys("notpresent"), OperState::NotPresent);
    assert_eq!(OperState::from_sys("unknown"), OperState::Unknown);
    assert_eq!(OperState::from_sys("custom"), OperState::Unknown);
}

#[test]
fn states_are_named_in_capitals() {
    assert_eq!(OperState::Up.as_str(), "UP");
    assert_eq!(OperState::LowerLayerDown.as_str(), "LOWER_DOWN");
    assert_eq!(OperState::NotPresent.as_str(), "NOT_PRESENT");
    assert_eq!(OperState::default().as_str(), "UNKNOWN");
    assert_eq!(OperState::from_word("UP"), OperState::Unknown);
}

fn net_dev_row(name: &str, rx_bytes: u64, tx_bytes: u64) -> String {
    format!("{name}: {rx_bytes} 1 0 0 0 0 0 0 {tx_bytes} 1 0 0 0 0 0 0\n")
}

fn no_files(_: &str) -> InterfaceFiles {
    InterfaceFiles {
        operstate: None,
        address: None,
        mtu: None,
    }
}

fn collect(
    sampler: &mut NetworkSampler,
    now: u64,
    contents: Result<&str, &str>,
    entries: &[&str],
) -> NetworkListing {
    let entries = entries.iter().map(|entry| (*entry).to_owned()).collect();
    sampler.collect_at(
        now,
        "/proc/net/dev",
        contents.map(str::to_owned).map_err(str::to_owned),
        &entries,
        &Vec::new(),
        no_files,
    )
}

/// Names with bytes received and sent per second.
fn rates(listing: &NetworkListing) -> Vec<(String, Option<(f64, f64)>)> {
    listing
        .interfaces
        .iter()
        .map(|reading| {
            let per_second = reading.rates.map(|(rx, tx)| {
                let elapsed = rx.elapsed as f64 / SECOND as f64;
                (rx.delta as f64 / elapsed, tx.delta as f64 / elapsed)
            });
            (reading.info.name.clone(), per_second)
        })
        .collect()
}

fn shown(name: &str, rates: Option<(f64, f64)>) -> Vec<(String, Option<(f64, f64)>)> {
    vec![(name.to_owned(), rates)]
}

#[test]
fn sampling_replaces_disappeared_interfaces_and_tracks_new_ones() {
    let mut sampler = NetworkSampler::default();

    let first = collect(&mut sampler, 0, Ok(&net_dev_row("tuxgone0", 1_000, 2_000)), &[]);
    assert_eq!(rates(&first), shown("tuxgone0", None));

    let second = collect(
        &mut sampler,
        SECOND,
        Ok(&net_dev_row("tuxnew0", 3_000, 4_000)),
        &[],
    );
    assert_eq!(rates(&second), shown("tuxnew0", None));

    let third = collect(
        &mut sampler,
        3 * SECOND,
        Ok(&net_dev_row("tuxnew0", 3_500, 5_000)),
        &[],
    );
    assert_eq!(rates(&third), shown("tuxnew0", Some((250.0, 500.0))));

    let returned = collect(
        &mut sampler,
        4 * SECOND,
        Ok(&net_dev_row("tuxgone0", 9_000, 9_000)),
        &[],
    );
    assert_eq!(rates(&returned), shown("tuxgone0", None));
}

#[test]
fn proc_read_failure_invalidates_rate_baselines_before_recovery() {
    const GIB: u64 = 1024 * 1024 * 1024;
    let mut sampler = NetworkSampler::default();

    let baseline = collect(&mut sampler, 0, Ok(&net_dev_row("enp6s0", 1_000, 2_000)), &[]);
    assert_eq!(rates(&baseline), shown("enp6s0", None));

    let failed = collect(&mut sampler, SECOND, Err("no such file"), &[]);
    assert!(failed.interfaces.is_empty());
    assert_eq!(
        failed.error.as_deref(),
        Some("Failed to read /proc/net/dev: no such file")
    );

    let recovered = collect(
        &mut sampler,
        2 * SECOND,
        Ok(&net_dev_row("enp6s0", 8 * GIB, 2 * GIB)),
        &[],
    );
    assert_eq!(rates(&recovered), shown("enp6s0", None));

    let resumed = collect(
        &mut sampler,
        3 * SECOND,
        Ok(&net_dev_row("enp6s0", 8 * GIB + 4_096, 2 * GIB + 2_048)),
        &[],
    );
    assert_eq!(rates(&resumed), shown("enp6s0", Some((4_096.0, 2_048.0))));
}

#[test]
fn sysfs_only_discovery_never_becomes_a_counter_baseline() {
    const GIB: u64 = 1024 * 1024 * 1024;
    let mut sampler = NetworkSampler::default();
    let mut at = 0;
    let mut listed = |contents: String| {
        let listing = collect(&mut sampler, at * SECOND, Ok(&contents), &["tuxsys0"]);
        at += 1;
        rates(&listing)
    };

    assert_eq!(listed(String::new()), shown("tuxsys0", None));
    assert_eq!(
        listed(net_dev_row("tuxsys0", 8 * GIB, 2 * GIB)),
        shown("tuxsys0", None)
    );
    assert_eq!(
        listed(net_dev_row("tuxsys0", 8 * GIB + 4_096, 2 * GIB + 2_048)),
        shown("tuxsys0", Some((4_096.0, 2_048.0)))
    );
    assert_eq!(listed(String::new()), shown("tuxsys0", None));
    assert_eq!(
        listed(net_dev_row("tuxsys0", 9 * GIB, 3 * GIB)),
        shown("tuxsys0", None)
    );
    assert_eq!(
        listed(net_dev_row("tuxsys0", 9 * GIB + 1_024, 3 * GIB + 512)),
        shown("tuxsys0", Some((1_024.0, 512.0)))
    );
}

#[test]
fn loopback_is_listed_last_and_nothing_twice() {
    let mut sampler = NetworkSampler::default();
    let contents = [
        net_dev_row("lo", 1, 1),
        net_dev_row("wlan0", 1, 1),
        net_dev_row("eth0", 1, 1),
    ]
    .concat();
    let listing = collect(&mut sampler, 0, Ok(&contents), &["eth0", "zz9", "bond0", "lo"]);
    let names: Vec<&str> = listing
        .interfaces
        .iter()
        .map(|reading| reading.info.name.as_str())
        .collect();

    assert_eq!(names, ["bond0", "eth0", "wlan0", "zz9", "lo"]);
}

#[test]
fn interfaces_are_described_by_their_files_and_addresses() {
    let mut sampler = NetworkSampler::default();
    let addresses = vec![
        InterfaceAddress::V4 {
            name: "eth0".into(),
            bits: 0x7f00_0001,
        },
        InterfaceAddress::V6 {
            name: "eth0".into(),
            bits: 1,
        },
        InterfaceAddress::V4 {
            name: "other".into(),
            bits: 2,
        },
    ];
    let asked = RefCell::new(Vec::new());
    let listing = sampler.collect_at(
        0,
        "/proc/net/dev",
        Ok([net_dev_row("eth0", 10, 20), net_dev_row("eth0", 30, 40)].concat()),
        &Vec::new(),
        &addresses,
        |name: &str| {
            asked.borrow_mut().push(name.to_owned());
            InterfaceFiles {
                operstate: Some("Up\n".into()),
                address: Some(" aa:bb:cc:dd:ee:ff\n".into()),
                mtu: Some("1500\n".into()),
            }
        },
    );

    assert_eq!(*asked.borrow(), ["eth0", "eth0"]);
    assert_eq!(listing.error, None);
    let info = listing.interfaces[0].clone().into_info(
        Some(Number { bits: 1 }),
        Some(Number { bits: 2 }),
    );
    assert_eq!(info.operstate, OperState::Up);
    assert_eq!(info.mac_address.as_deref(), Some("aa:bb:cc:dd:ee:ff"));
    assert_eq!(info.mtu, Some(1500));
    assert_eq!(info.ipv4_addresses, [0x7f00_0001]);
    assert_eq!(info.ipv6_addresses, [1]);
    assert_eq!((info.rx_bytes, info.tx_bytes), (10, 20));
    assert_eq!(info.rx_rate_bytes_per_sec, Some(Number { bits: 1 }));
    assert_eq!(info.tx_rate_bytes_per_sec, Some(Number { bits: 2 }));
    let repeated = &listing.interfaces[1].info;
    assert_eq!((repeated.rx_bytes, repeated.tx_bytes), (10, 20));
    assert!(repeated.ipv4_addresses.is_empty());
}

#[test]
fn addresses_are_listed_once_for_each_interface() {
    let v4 = |name: &str, bits| InterfaceAddress::V4 {
        name: name.to_owned(),
        bits,
    };
    let addresses = vec![v4("a", 5), v4("b", 5), v4("a", 3), v4("a", 5)];

    assert_eq!(addresses_of(&addresses, "a").0, [5, 3]);
    assert_eq!(addresses_of(&addresses, "b").0, [5]);
    assert!(addresses_of(&addresses, "c").0.is_empty());
}

#[test]
fn addresses_of_hardware_and_packet_sizes_are_read() {
    assert_eq!(read_mac_address(&Some("00:00:00:00:00:00\n".into())), None);
    assert_eq!(read_mac_address(&Some(" \n".into())), None);
    assert_eq!(
        read_mac_address(&Some("00:00:00:00:00:01\n".into())).as_deref(),
        Some("00:00:00:00:00:01")
    );
    assert_eq!(read_mtu(&Some("65536\n".into())), Some(65_536));
    assert_eq!(read_mtu(&Some("-1\n".into())), None);
    assert_eq!(read_mtu(&None), None);
}
