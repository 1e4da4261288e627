use tuxctl::action::{Action, Tab};
use tuxctl::app::App;
use tuxctl::app::items::log_matches;
use tuxctl::app::state::LOG_BUFFER_CAPACITY;
use tuxctl::linux::journal::{JournalBatch, JournalEntry};
use tuxctl::linux::network::{NetworkInterfaceInfo, NetworkSnapshot, OperState};
use tuxctl::linux::service::{ServiceInfo, ServiceRefreshGeneration, ServiceSnapshot};
use tuxctl::number::Number;

fn service(unit: &str, active_state: &str, description: &str) -> ServiceInfo {
    ServiceInfo {
        unit: unit.into(),
        load_state: "loaded".into(),
        active_state: active_state.into(),
        sub_state: if active_state == "active" {
            "running".into()
        } else {
            "dead".into()
        },
        description: description.into(),
    }
}

fn services(entries: Vec<ServiceInfo>) -> ServiceSnapshot {
    ServiceSnapshot {
        services: entries,
        ..ServiceSnapshot::default()
    }
}

fn services_completed(
    entries: Vec<ServiceInfo>,
    generation: ServiceRefreshGeneration,
) -> ServiceSnapshot {
    ServiceSnapshot {
        completed_refresh_generation: generation,
        ..services(entries)
    }
}

fn visible_units(app: &App) -> Vec<&str> {
    (0..app.service_count())
        .filter_map(|index| app.service_at(index).map(|service| service.unit.as_str()))
        .collect()
}

fn log_entry(id: u64, source: &str, priority: u8, message: &str) -> JournalEntry {
    JournalEntry {
        id,
        timestamp_micros: Some(id.saturating_mul(1_000_000)),
        source: source.into(),
        priority: Some(priority),
        message: message.into(),
    }
}

fn log_batch(entries: Vec<JournalEntry>) -> JournalBatch {
    JournalBatch {
        entries,
        ..JournalBatch::default()
    }
}

fn visible_log_ids(app: &App) -> Vec<u64> {
    (0..app.log_count())
        .filter_map(|index| app.log_at(index).map(|entry| entry.id))
        .collect()
}

fn dummy_network(name: &str) -> NetworkInterfaceInfo {
    NetworkInterfaceInfo {
        name: name.to_string(),
        operstate: OperState::Up,
        mac_address: Some("00:11:22:33:44:55".to_string()),
        mtu: Some(1500),
        ipv4_addresses: Vec::new(),
        ipv6_addresses: Vec::new(),
        rx_bytes: 1000,
        tx_bytes: 1000,
        rx_packets: 10,
        tx_packets: 10,
        rx_errors: 0,
        tx_errors: 0,
        rx_dropped: 0,
        tx_dropped: 0,
        rx_rate_bytes_per_sec: number(100.0),
        tx_rate_bytes_per_sec: number(100.0),
    }
}

fn number(value: f64) -> Option<Number> {
    Some(Number {
        bits: value.to_bits(),
    })
}

#[test]
fn services_service_filter_is_case_insensitive_across_unit_and_description() {
    let mut app = App::default();
    app.update(Action::SelectTab(Tab::Services));
    app.update(Action::ServicesUpdated(services(vec![
        service("alpha.service", "active", "Worker"),
        service("postgresql.service", "active", "Database Server"),
    ])));

    app.update(Action::BeginServiceSearch);
    for character in "DATABASE".chars() {
        app.update(Action::AppendServiceSearch(character));
    }

    assert_eq!(visible_units(&app), vec!["postgresql.service"]);
    assert_eq!(
        app.selected_service().map(|service| service.unit.as_str()),
        Some("postgresql.service")
    );
}

#[test]
fn services_service_navigation_keeps_selection_visible() {
    let mut app = App::default();
    app.update(Action::SelectTab(Tab::Services));
    app.update(Action::ServicesUpdated(services(
        (0..6)
            .map(|index| service(&format!("service-{index}.service"), "active", ""))
            .collect(),
    )));
    app.update(Action::ServiceViewportChanged {
        start: 0,
        height: 2,
    });

    app.update(Action::ServiceNextPage);
    assert_eq!(app.selected_service_index(), Some(2));
    assert_eq!(app.service_scroll(), 1);

    app.update(Action::ServiceLast);
    assert_eq!(app.selected_service_index(), Some(5));
    assert_eq!(app.service_scroll(), 4);
}

#[test]
fn services_service_refresh_preserves_selection_by_unit_name() {
    let mut app = App::default();
    app.update(Action::SelectTab(Tab::Services));
    app.update(Action::ServicesUpdated(services(vec![
        service("alpha.service", "inactive", "Alpha"),
        service("beta.service", "active", "Beta"),
    ])));
    app.update(Action::SelectService("beta.service".into()));

    app.update(Action::ServicesUpdated(services(vec![
        service("beta.service", "inactive", "Beta changed"),
        service("alpha.service", "active", "Alpha"),
    ])));

    assert_eq!(
        app.selected_service().map(|service| service.unit.as_str()),
        Some("beta.service")
    );
}

#[test]
fn services_disappearing_service_is_nonfatal_and_closes_details() {
    let mut app = App::default();
    app.update(Action::SelectTab(Tab::Services));
    app.update(Action::ServicesUpdated(services(vec![
        service("alpha.service", "active", "Alpha"),
        service("beta.service", "active", "Beta"),
    ])));
    app.update(Action::SelectService("beta.service".into()));
    app.update(Action::OpenServiceDetails);

    app.update(Action::ServicesUpdated(services(vec![service(
        "alpha.service",
        "inactive",
        "Alpha",
    )])));

    assert_eq!(
        app.selected_service().map(|service| service.unit.as_str()),
        Some("alpha.service")
    );
    assert!(!app.service_detail_visible());
}

#[test]
fn services_service_refresh_is_an_explicit_background_request() {
    let mut app = services_tab_after_entry_refresh();

    assert!(app.update(Action::RefreshServices));
    assert!(app.service_refreshing());
    assert_eq!(app.take_service_refresh_request(), Some(2));
    assert_eq!(app.take_service_refresh_request(), None);

    app.update(Action::ServicesUpdated(services(vec![service(
        "alpha.service",
        "active",
        "Alpha",
    )])));
    assert!(app.service_refreshing());

    assert!(app.update(Action::ServicesUpdated(services_completed(
        vec![service("alpha.service", "active", "Alpha")],
        2,
    ))));
    assert!(!app.service_refreshing());
}

#[test]
fn service_refresh_waits_for_the_latest_coalesced_generation() {
    let mut app = services_tab_after_entry_refresh();

    assert!(app.update(Action::RefreshServices));
    assert!(!app.update(Action::RefreshServices));
    assert!(!app.update(Action::RefreshServices));
    assert_eq!(app.take_service_refresh_request(), Some(4));

    app.update(Action::ServicesUpdated(services_completed(Vec::new(), 3)));
    assert!(app.service_refreshing());

    assert!(app.update(Action::ServicesUpdated(services_completed(Vec::new(), 4,))));
    assert!(!app.service_refreshing());
}

/// Selects Services and completes the refresh that entering the tab requests.
fn services_tab_after_entry_refresh() -> App {
    let mut app = App::default();
    app.update(Action::SelectTab(Tab::Services));
    assert_eq!(app.take_service_refresh_request(), Some(1));
    app.update(Action::ServicesUpdated(services_completed(Vec::new(), 1)));
    assert!(!app.service_refreshing());
    app
}

#[test]
fn entering_services_requests_exactly_one_refresh_per_entry() {
    let mut app = App::default();
    assert!(!app.services_visible());
    assert_eq!(app.take_service_refresh_request(), None);

    app.update(Action::SelectTab(Tab::Services));
    assert!(app.services_visible());
    assert!(app.service_refreshing());
    assert_eq!(app.take_service_refresh_request(), Some(1));

    app.update(Action::SelectTab(Tab::Services));
    app.update(Action::NextTab);
    app.update(Action::PreviousTab);
    assert_eq!(
        app.take_service_refresh_request(),
        Some(2),
        "leaving and re-entering requests one new refresh"
    );
    assert_eq!(app.take_service_refresh_request(), None);

    app.update(Action::SelectTab(Tab::Logs));
    assert!(!app.services_visible());
    assert_eq!(app.take_service_refresh_request(), None);
}

#[test]
fn services_service_collection_failure_preserves_the_last_good_snapshot() {
    let mut app = App::default();
    app.update(Action::SelectTab(Tab::Services));
    app.update(Action::ServicesUpdated(services(vec![service(
        "alpha.service",
        "active",
        "Alpha",
    )])));

    app.update(Action::ServicesUpdated(ServiceSnapshot {
        services: Vec::new(),
        error: Some("system bus unavailable".into()),
        completed_refresh_generation: 0,
    }));

    assert_eq!(visible_units(&app), vec!["alpha.service"]);
    assert_eq!(app.service_error().map(String::as_str), Some("system bus unavailable"));
}

#[test]
fn logs_logs_follow_latest_entry_until_manual_navigation() {
    let mut app = App::default();
    app.update(Action::SelectTab(Tab::Logs));
    app.update(Action::LogsUpdated(log_batch(vec![
        log_entry(1, "kernel", 6, "one"),
        log_entry(2, "sshd.service", 4, "two"),
    ])));

    assert_eq!(app.selected_log().map(|entry| entry.id), Some(2));
    assert!(app.log_following());

    app.update(Action::LogPrevious);
    assert_eq!(app.selected_log().map(|entry| entry.id), Some(1));
    assert!(!app.log_following());

    app.update(Action::LogsUpdated(log_batch(vec![log_entry(
        3,
        "dbus.service",
        6,
        "three",
    )])));
    assert_eq!(app.selected_log().map(|entry| entry.id), Some(1));
}

#[test]
fn logs_pausing_preserves_position_and_resuming_catches_up_when_following() {
    let mut app = App::default();
    app.update(Action::SelectTab(Tab::Logs));
    app.update(Action::LogsUpdated(log_batch(vec![log_entry(
        1, "kernel", 6, "one",
    )])));
    app.update(Action::ToggleLogPause);

    app.update(Action::LogsUpdated(log_batch(vec![log_entry(
        2, "kernel", 6, "two",
    )])));
    assert!(app.log_paused());
    assert_eq!(app.selected_log().map(|entry| entry.id), Some(1));

    app.update(Action::ToggleLogPause);
    assert!(!app.log_paused());
    assert_eq!(app.selected_log().map(|entry| entry.id), Some(2));
}

#[test]
fn logs_log_search_is_case_insensitive() {
    let mut app = App::default();
    app.update(Action::SelectTab(Tab::Logs));
    app.update(Action::LogsUpdated(log_batch(vec![
        log_entry(1, "kernel", 6, "device ready"),
        log_entry(2, "SSHD.service", 4, "Login Failed"),
    ])));
    app.update(Action::BeginLogSearch);
    for character in "login FAILED".chars() {
        app.update(Action::AppendLogSearch(character));
    }

    assert_eq!(visible_log_ids(&app), vec![2]);
}

#[test]
fn logs_log_buffer_evicts_oldest_entries_at_capacity() {
    let mut app = App::default();
    app.update(Action::SelectTab(Tab::Logs));
    let entries = (1..=LOG_BUFFER_CAPACITY as u64 + 1)
        .map(|id| log_entry(id, "test", 6, "entry"))
        .collect();

    app.update(Action::LogsUpdated(log_batch(entries)));

    assert_eq!(app.log_count(), LOG_BUFFER_CAPACITY);
    assert_eq!(app.log_at(0).map(|entry| entry.id), Some(2));
    assert_eq!(
        app.log_at(LOG_BUFFER_CAPACITY - 1).map(|entry| entry.id),
        Some(LOG_BUFFER_CAPACITY as u64 + 1)
    );
}

#[test]
fn logs_log_drop_and_error_metadata_is_nonfatal() {
    let mut app = App::default();
    app.update(Action::SelectTab(Tab::Logs));
    app.update(Action::LogsUpdated(JournalBatch {
        entries: vec![log_entry(1, "kernel", 3, "failure")],
        dropped: 7,
        error: Some("journal stream ended".into()),
    }));

    assert_eq!(app.log_count(), 1);
    assert_eq!(app.log_dropped(), 7);
    assert_eq!(app.log_error().map(String::as_str), Some("journal stream ended"));
}

#[test]
fn logs_journal_ingestion_does_not_redraw_an_inactive_screen() {
    let mut app = App::default();

    assert!(!app.update(Action::LogsUpdated(log_batch(vec![log_entry(
        1,
        "kernel",
        6,
        "background entry",
    )]))));
    assert_eq!(app.log_count(), 1);
}

#[test]
fn log_matches_matches_priority_names_and_numbers() {
    let error_entry = JournalEntry {
        id: 1,
        timestamp_micros: None,
        source: "app".into(),
        priority: Some(3),
        message: "something happened".into(),
    };
    let warn_entry = JournalEntry {
        id: 2,
        timestamp_micros: None,
        source: "app".into(),
        priority: Some(4),
        message: "look out".into(),
    };

    assert!(log_matches(&error_entry, "error"));
    assert!(log_matches(&error_entry, "err"));
    assert!(log_matches(&error_entry, "3"));
    assert!(!log_matches(&error_entry, "warn"));

    assert!(log_matches(&warn_entry, "warn"));
    assert!(log_matches(&warn_entry, "warning"));
    assert!(log_matches(&warn_entry, "4"));
    assert!(!log_matches(&warn_entry, "crit"));
}

#[test]
fn network_network_selection_is_preserved_by_name() {
    let mut app = App::default();
    app.update(Action::SelectTab(Tab::Network));
    app.update(Action::NetworkUpdated(NetworkSnapshot {
        interfaces: vec![dummy_network("eth0"), dummy_network("wlan0")],
        overview_rate: None,
        error: None,
    }));
    app.update(Action::SelectNetwork("wlan0".into()));
    assert_eq!(
        app.selected_network().map(|n| n.name.as_str()),
        Some("wlan0")
    );

    // Update with reordered list
    app.update(Action::NetworkUpdated(NetworkSnapshot {
        interfaces: vec![
            dummy_network("docker0"),
            dummy_network("eth0"),
            dummy_network("wlan0"),
        ],
        overview_rate: None,
        error: None,
    }));
    assert_eq!(
        app.selected_network().map(|n| n.name.as_str()),
        Some("wlan0")
    );
}

#[test]
fn network_disappearing_network_interface_recovers_and_closes_details() {
    let mut app = App::default();
    app.update(Action::SelectTab(Tab::Network));
    app.update(Action::NetworkUpdated(NetworkSnapshot {
        interfaces: vec![
            dummy_network("eth0"),
            dummy_network("wlan0"),
            dummy_network("veth1"),
        ],
        overview_rate: None,
        error: None,
    }));
    app.update(Action::SelectNetwork("wlan0".into()));
    app.update(Action::OpenNetworkDetails);
    assert!(app.network_detail_visible());

    // wlan0 disappears
    app.update(Action::NetworkUpdated(NetworkSnapshot {
        interfaces: vec![dummy_network("eth0"), dummy_network("veth1")],
        overview_rate: None,
        error: None,
    }));

    // Selection clamped to nearest and details closed
    assert!(!app.network_detail_visible());
    assert_eq!(
        app.selected_network().map(|n| n.name.as_str()),
        Some("veth1")
    );
}

#[test]
fn network_network_keyboard_navigation() {
    let mut app = App::default();
    app.update(Action::SelectTab(Tab::Network));
    app.update(Action::NetworkUpdated(NetworkSnapshot {
        interfaces: vec![
            dummy_network("eth0"),
            dummy_network("wlan0"),
            dummy_network("veth1"),
        ],
        overview_rate: None,
        error: None,
    }));
    assert_eq!(
        app.selected_network().map(|n| n.name.as_str()),
        Some("eth0")
    );

    app.update(Action::NetworkNext);
    assert_eq!(
        app.selected_network().map(|n| n.name.as_str()),
        Some("wlan0")
    );

    app.update(Action::NetworkLast);
    assert_eq!(
        app.selected_network().map(|n| n.name.as_str()),
        Some("veth1")
    );

    app.update(Action::NetworkPrevious);
    assert_eq!(
        app.selected_network().map(|n| n.name.as_str()),
        Some("wlan0")
    );

    app.update(Action::NetworkFirst);
    assert_eq!(
        app.selected_network().map(|n| n.name.as_str()),
        Some("eth0")
    );
}

#[test]
fn network_selection_and_details_guarded_by_active_tab() {
    let mut app = App::default();
    app.update(Action::NetworkUpdated(NetworkSnapshot {
        interfaces: vec![dummy_network("eth0"), dummy_network("eth1")],
        overview_rate: None,
        error: None,
    }));

    // On Overview tab, network selection actions should return false
    assert_eq!(app.active_tab(), Tab::Overview);
    assert!(!app.update(Action::SelectNetwork("eth1".into())));
    assert!(!app.update(Action::NetworkFirst));
    assert!(!app.update(Action::NetworkNext));

    // Switch to Network tab
    app.update(Action::SelectTab(Tab::Network));
    assert!(app.update(Action::SelectNetwork("eth1".into())));
    assert_eq!(
        app.selected_network().map(|n| n.name.as_str()),
        Some("eth1")
    );

    // Open network details should open, not toggle
    assert!(app.update(Action::OpenNetworkDetails));
    assert!(app.network_detail_visible());
    assert!(!app.update(Action::OpenNetworkDetails));
    assert!(app.network_detail_visible());
}
