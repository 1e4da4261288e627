use tuxctl::action::{Action, InputMode, MouseTarget, ProcessSortField, SignalConfirmButton, Tab};
use tuxctl::app::App;
use tuxctl::app::history::{MetricHistory, METRIC_HISTORY_CAPACITY};
use tuxctl::app::scroll::calculate_scroll;
use tuxctl::app::state::LOG_BUFFER_CAPACITY;
use tuxctl::linux::journal::{JournalBatch, JournalEntry};
use tuxctl::linux::network::{NetworkInterfaceInfo, NetworkSnapshot, OperState};
use tuxctl::linux::process::{ProcessIdentity, ProcessInfo, ProcessSignal, ProcessSnapshot, ProcessSummary};
use tuxctl::linux::service::{ServiceInfo, ServiceSnapshot};
use tuxctl::linux::signal::{verify_and_send_signal_at, OsError, StatError};
use tuxctl::linux::system::SystemMetrics;
use tuxctl::number::Number;

fn process(pid: u32, name: &str) -> ProcessInfo {
    ProcessInfo {
        pid,
        name: name.into(),
        cpu_percent: number(1.0),
        memory_bytes: 1024,
        command: Some(format!("/usr/bin/{name}")),
        state: "S (sleeping)".into(),
        parent_pid: 1,
        state_code: 'S',
        start_time: u64::from(pid),
    }
}

fn processes(entries: Vec<ProcessInfo>) -> ProcessSnapshot {
    ProcessSnapshot {
        processes: entries,
        error: None,
    }
}

fn service(unit: &str, active_state: &str, description: &str) -> ServiceInfo {
    ServiceInfo {
        unit: unit.into(),
        load_state: "loaded".into(),
        active_state: active_state.into(),
        sub_state: if active_state == "active" {
            "running".into()
        } else {
            "dead".into()
        },
        description: description.into(),
    }
}

fn services(entries: Vec<ServiceInfo>) -> ServiceSnapshot {
    ServiceSnapshot {
        services: entries,
        ..ServiceSnapshot::default()
    }
}

fn visible_units(app: &App) -> Vec<&str> {
    (0..app.service_count())
        .filter_map(|index| app.service_at(index).map(|service| service.unit.as_str()))
        .collect()
}

fn log_entry(id: u64, source: &str, priority: u8, message: &str) -> JournalEntry {
    JournalEntry {
        id,
        timestamp_micros: Some(id.saturating_mul(1_000_000)),
        source: source.into(),
        priority: Some(priority),
        message: message.into(),
    }
}

fn log_batch(entries: Vec<JournalEntry>) -> JournalBatch {
    JournalBatch {
        entries,
        ..JournalBatch::default()
    }
}

fn visible_log_ids(app: &App) -> Vec<u64> {
    (0..app.log_count())
        .filter_map(|index| app.log_at(index).map(|entry| entry.id))
        .collect()
}

fn process_with(pid: u32, name: &str, cpu: Option<f64>, memory: u64) -> ProcessInfo {
    ProcessInfo {
        cpu_percent: cpu.and_then(number),
        memory_bytes: memory,
        ..process(pid, name)
    }
}

fn visible_pids(app: &App) -> Vec<u32> {
    (0..app.process_count())
        .filter_map(|index| app.process_at(index).map(|process| process.pid))
        .collect()
}

fn dummy_network(name: &str) -> NetworkInterfaceInfo {
    NetworkInterfaceInfo {
        name: name.to_string(),
        operstate: OperState::Up,
        mac_address: Some("00:11:22:33:44:55".to_string()),
        mtu: Some(1500),
        ipv4_addresses: Vec::new(),
        ipv6_addresses: Vec::new(),
        rx_bytes: 1000,
        tx_bytes: 1000,
        rx_packets: 10,
        tx_packets: 10,
        rx_errors: 0,
        tx_errors: 0,
        rx_dropped: 0,
        tx_dropped: 0,
        rx_rate_bytes_per_sec: number(100.0),
        tx_rate_bytes_per_sec: number(100.0),
    }
}

fn number(value: f64) -> Option<Number> {
    Some(Number {
        bits: value.to_bits(),
    })
}

fn values(history: &MetricHistory) -> Vec<f64> {
    history
        .samples()
        .iter()
        .map(|sample| f64::from_bits(sample.bits))
        .collect()
}

/// Confirms the signal that is asked for and delivers it to a process with this status.
fn deliver(
    app: &mut App,
    open: impl FnOnce(i32) -> Result<i32, OsError>,
    stat: Option<&str>,
) -> Option<(i32, i32)> {
    app.update(Action::ConfirmProcessSignal);
    let confirmation = app.take_signal_request().expect("signal confirmed");
    let mut received = None;
    let result = verify_and_send_signal_at(
        confirmation.identity,
        confirmation.signal,
        open,
        |_| {
            stat.map(str::to_owned).ok_or(StatError {
                not_found: true,
                message: "not found".into(),
            })
        },
        |handle: &i32, signal| {
            received = Some((*handle, signal));
            Ok(())
        },
    );
    app.finish_process_signal(confirmation, result);
    received
}

#[test]
fn app_quit_action_stops_the_app() {
    let mut app = App::default();

    app.update(Action::Quit);

    assert!(app.should_quit());
}

#[test]
fn app_tab_navigation_wraps_in_both_directions() {
    let mut app = App::default();

    app.update(Action::PreviousTab);
    assert_eq!(app.active_tab(), Tab::Network);

    app.update(Action::NextTab);
    assert_eq!(app.active_tab(), Tab::Overview);
}

#[test]
fn app_selecting_a_tab_updates_central_state() {
    let mut app = App::default();

    app.update(Action::SelectTab(Tab::Services));

    assert_eq!(app.active_tab(), Tab::Services);
}

#[test]
fn app_help_is_modal_until_closed() {
    let mut app = App::default();

    app.update(Action::ShowHelp);
    app.update(Action::NextTab);
    assert!(app.help_visible());
    assert_eq!(app.active_tab(), Tab::Overview);

    app.update(Action::Escape);
    assert!(!app.help_visible());
}

#[test]
fn app_process_filter_is_case_insensitive() {
    let mut app = App::default();
    app.update(Action::SelectTab(Tab::Processes));
    app.update(Action::ProcessesUpdated(processes(vec![
        process(10, "Firefox"),
        process(20, "postgres"),
    ])));

    app.update(Action::BeginProcessSearch);
    for character in "FIRE".chars() {
        app.update(Action::AppendProcessSearch(character));
    }

    assert_eq!(app.process_count(), 1);
    assert_eq!(app.process_at(0).map(|process| process.pid), Some(10));
}

#[test]
fn app_service_filter_is_case_insensitive_across_unit_and_description() {
    let mut app = App::default();
    app.update(Action::SelectTab(Tab::Services));
    app.update(Action::ServicesUpdated(services(vec![
        service("alpha.service", "active", "Worker"),
        service("postgresql.service", "active", "Database Server"),
    ])));

    app.update(Action::BeginServiceSearch);
    for character in "DATABASE".chars() {
        app.update(Action::AppendServiceSearch(character));
    }

    assert_eq!(visible_units(&app), vec!["postgresql.service"]);
    assert_eq!(
        app.selected_service().map(|service| service.unit.as_str()),
        Some("postgresql.service")
    );
}

#[test]
fn app_service_navigation_keeps_selection_visible() {
    let mut app = App::default();
    app.update(Action::SelectTab(Tab::Services));
    app.update(Action::ServicesUpdated(services(
        (0..6)
            .map(|index| service(&format!("service-{index}.service"), "active", ""))
            .collect(),
    )));
    app.update(Action::ServiceViewportChanged {
        start: 0,
        height: 2,
    });

    app.update(Action::ServiceNextPage);
    assert_eq!(app.selected_service_index(), Some(2));
    assert_eq!(app.service_scroll(), 1);

    app.update(Action::ServiceLast);
    assert_eq!(app.selected_service_index(), Some(5));
    assert_eq!(app.service_scroll(), 4);
}

#[test]
fn app_service_refresh_preserves_selection_by_unit_name() {
    let mut app = App::default();
    app.update(Action::SelectTab(Tab::Services));
    app.update(Action::ServicesUpdated(services(vec![
        service("alpha.service", "inactive", "Alpha"),
        service("beta.service", "active", "Beta"),
    ])));
    app.update(Action::SelectService("beta.service".into()));

    app.update(Action::ServicesUpdated(services(vec![
        service("beta.service", "inactive", "Beta changed"),
        service("alpha.service", "active", "Alpha"),
    ])));

    assert_eq!(
        app.selected_service().map(|service| service.unit.as_str()),
        Some("beta.service")
    );
}

#[test]
fn app_disappearing_service_is_nonfatal_and_closes_details() {
    let mut app = App::default();
    app.update(Action::SelectTab(Tab::Services));
    app.update(Action::ServicesUpdated(services(vec![
        service("alpha.service", "active", "Alpha"),
        service("beta.service", "active", "Beta"),
    ])));
    app.update(Action::SelectService("beta.service".into()));
    app.update(Action::OpenServiceDetails);

    app.update(Action::ServicesUpdated(services(vec![service(
        "alpha.service",
        "inactive",
        "Alpha",
    )])));

    assert_eq!(
        app.selected_service().map(|service| service.unit.as_str()),
        Some("alpha.service")
    );
    assert!(!app.service_detail_visible());
}

#[test]
fn app_service_collection_failure_preserves_the_last_good_snapshot() {
    let mut app = App::default();
    app.update(Action::SelectTab(Tab::Services));
    app.update(Action::ServicesUpdated(services(vec![service(
        "alpha.service",
        "active",
        "Alpha",
    )])));

    app.update(Action::ServicesUpdated(ServiceSnapshot {
        services: Vec::new(),
        error: Some("system bus unavailable".into()),
        completed_refresh_generation: 0,
    }));

    assert_eq!(visible_units(&app), vec!["alpha.service"]);
    assert_eq!(app.service_error().map(String::as_str), Some("system bus unavailable"));
}

#[test]
fn app_logs_follow_latest_entry_until_manual_navigation() {
    let mut app = App::default();
    app.update(Action::SelectTab(Tab::Logs));
    app.update(Action::LogsUpdated(log_batch(vec![
        log_entry(1, "kernel", 6, "one"),
        log_entry(2, "sshd.service", 4, "two"),
    ])));

    assert_eq!(app.selected_log().map(|entry| entry.id), Some(2));
    assert!(app.log_following());

    app.update(Action::LogPrevious);
    assert_eq!(app.selected_log().map(|entry| entry.id), Some(1));
    assert!(!app.log_following());

    app.update(Action::LogsUpdated(log_batch(vec![log_entry(
        3,
        "dbus.service",
        6,
        "three",
    )])));
    assert_eq!(app.selected_log().map(|entry| entry.id), Some(1));
}

#[test]
fn app_pausing_preserves_position_and_resuming_catches_up_when_following() {
    let mut app = App::default();
    app.update(Action::SelectTab(Tab::Logs));
    app.update(Action::LogsUpdated(log_batch(vec![log_entry(
        1, "kernel", 6, "one",
    )])));
    app.update(Action::ToggleLogPause);

    app.update(Action::LogsUpdated(log_batch(vec![log_entry(
        2, "kernel", 6, "two",
    )])));
    assert!(app.log_paused());
    assert_eq!(app.selected_log().map(|entry| entry.id), Some(1));

    app.update(Action::ToggleLogPause);
    assert!(!app.log_paused());
    assert_eq!(app.selected_log().map(|entry| entry.id), Some(2));
}

#[test]
fn app_log_search_is_case_insensitive() {
    let mut app = App::default();
    app.update(Action::SelectTab(Tab::Logs));
    app.update(Action::LogsUpdated(log_batch(vec![
        log_entry(1, "kernel", 6, "device ready"),
        log_entry(2, "SSHD.service", 4, "Login Failed"),
    ])));
    app.update(Action::BeginLogSearch);
    for character in "login FAILED".chars() {
        app.update(Action::AppendLogSearch(character));
    }

    assert_eq!(visible_log_ids(&app), vec![2]);
}

#[test]
fn app_log_buffer_evicts_oldest_entries_at_capacity() {
    let mut app = App::default();
    app.update(Action::SelectTab(Tab::Logs));
    let entries = (1..=LOG_BUFFER_CAPACITY as u64 + 1)
        .map(|id| log_entry(id, "test", 6, "entry"))
        .collect();

    app.update(Action::LogsUpdated(log_batch(entries)));

    assert_eq!(app.log_count(), LOG_BUFFER_CAPACITY);
    assert_eq!(app.log_at(0).map(|entry| entry.id), Some(2));
    assert_eq!(
        app.log_at(LOG_BUFFER_CAPACITY - 1).map(|entry| entry.id),
        Some(LOG_BUFFER_CAPACITY as u64 + 1)
    );
}

#[test]
fn app_log_drop_and_error_metadata_is_nonfatal() {
    let mut app = App::default();
    app.update(Action::SelectTab(Tab::Logs));
    app.update(Action::LogsUpdated(JournalBatch {
        entries: vec![log_entry(1, "kernel", 3, "failure")],
        dropped: 7,
        error: Some("journal stream ended".into()),
    }));

    assert_eq!(app.log_count(), 1);
    assert_eq!(app.log_dropped(), 7);
    assert_eq!(app.log_error().map(String::as_str), Some("journal stream ended"));
}

#[test]
fn app_journal_ingestion_does_not_redraw_an_inactive_screen() {
    let mut app = App::default();

    assert!(!app.update(Action::LogsUpdated(log_batch(vec![log_entry(
        1,
        "kernel",
        6,
        "background entry",
    )]))));
    assert_eq!(app.log_count(), 1);
}

#[test]
fn app_cpu_sort_defaults_to_descending_and_toggles_to_ascending() {
    let mut app = App::default();
    app.update(Action::SelectTab(Tab::Processes));
    app.update(Action::ProcessesUpdated(processes(vec![
        process_with(1, "one", Some(5.0), 100),
        process_with(2, "two", Some(20.0), 200),
        process_with(3, "three", None, 300),
    ])));

    assert_eq!(visible_pids(&app), vec![2, 1, 3]);

    app.update(Action::SortProcesses(ProcessSortField::Cpu));
    assert_eq!(visible_pids(&app), vec![1, 2, 3]);
    assert!(!app.process_sort().descending);
}

#[test]
fn app_memory_sort_uses_descending_then_ascending_order() {
    let mut app = App::default();
    app.update(Action::SelectTab(Tab::Processes));
    app.update(Action::ProcessesUpdated(processes(vec![
        process_with(1, "one", Some(1.0), 100),
        process_with(2, "two", Some(1.0), 300),
        process_with(3, "three", Some(1.0), 200),
    ])));

    app.update(Action::SortProcesses(ProcessSortField::Memory));
    assert_eq!(visible_pids(&app), vec![2, 3, 1]);

    app.update(Action::SortProcesses(ProcessSortField::Memory));
    assert_eq!(visible_pids(&app), vec![1, 3, 2]);
}

#[test]
fn app_pid_sort_uses_ascending_then_descending_order() {
    let mut app = App::default();
    app.update(Action::SelectTab(Tab::Processes));
    app.update(Action::ProcessesUpdated(processes(vec![
        process(20, "twenty"),
        process(3, "three"),
        process(11, "eleven"),
    ])));

    app.update(Action::SortProcesses(ProcessSortField::Pid));
    assert_eq!(visible_pids(&app), vec![3, 11, 20]);

    app.update(Action::SortProcesses(ProcessSortField::Pid));
    assert_eq!(visible_pids(&app), vec![20, 11, 3]);
}

#[test]
fn app_name_sort_is_case_insensitive_and_toggleable() {
    let mut app = App::default();
    app.update(Action::SelectTab(Tab::Processes));
    app.update(Action::ProcessesUpdated(processes(vec![
        process(1, "zebra"),
        process(2, "Alpha"),
        process(3, "middle"),
    ])));

    app.update(Action::SortProcesses(ProcessSortField::Name));
    assert_eq!(visible_pids(&app), vec![2, 3, 1]);

    app.update(Action::SortProcesses(ProcessSortField::Name));
    assert_eq!(visible_pids(&app), vec![1, 3, 2]);
}

#[test]
fn app_filtering_happens_before_sorting() {
    let mut app = App::default();
    app.update(Action::SelectTab(Tab::Processes));
    app.update(Action::ProcessesUpdated(processes(vec![
        process_with(1, "alpha-low", Some(1.0), 100),
        process_with(2, "unrelated", Some(50.0), 500),
        process_with(3, "ALPHA-high", Some(10.0), 300),
    ])));
    app.update(Action::SortProcesses(ProcessSortField::Memory));
    app.update(Action::BeginProcessSearch);
    for character in "alpha".chars() {
        app.update(Action::AppendProcessSearch(character));
    }

    assert_eq!(visible_pids(&app), vec![3, 1]);
}

#[test]
fn app_sort_and_refresh_preserve_selected_process_identity() {
    let mut app = App::default();
    app.update(Action::SelectTab(Tab::Processes));
    app.update(Action::ProcessesUpdated(processes(vec![
        process_with(1, "zulu", Some(5.0), 100),
        process_with(2, "alpha", Some(10.0), 200),
    ])));
    app.update(Action::SelectProcess(ProcessIdentity {
        pid: 1,
        start_time: 1,
    }));

    app.update(Action::SortProcesses(ProcessSortField::Name));
    assert_eq!(
        app.selected_process().map(ProcessInfo::identity),
        Some(ProcessIdentity {
            pid: 1,
            start_time: 1
        })
    );

    app.update(Action::ProcessesUpdated(processes(vec![
        process_with(2, "alpha", Some(1.0), 200),
        process_with(1, "zulu", Some(99.0), 100),
    ])));
    assert_eq!(
        app.selected_process().map(ProcessInfo::identity),
        Some(ProcessIdentity {
            pid: 1,
            start_time: 1
        })
    );
}

#[test]
fn app_selection_remains_visible_while_moving_and_paging() {
    let mut app = App::default();
    app.update(Action::SelectTab(Tab::Processes));
    app.update(Action::ProcessesUpdated(processes(
        (1..=10)
            .map(|pid| process(pid, &format!("process-{pid}")))
            .collect(),
    )));
    app.update(Action::ProcessViewportChanged {
        start: 0,
        height: 3,
    });

    app.update(Action::ProcessNextPage);
    assert_eq!(app.selected_process_index(), Some(3));
    assert_eq!(app.process_scroll(), 1);

    app.update(Action::ProcessLast);
    assert_eq!(app.selected_process_index(), Some(9));
    assert_eq!(app.process_scroll(), 7);
}

#[test]
fn app_disappearing_selection_uses_nearest_row_and_closes_details() {
    let mut app = App::default();
    app.update(Action::SelectTab(Tab::Processes));
    app.update(Action::ProcessesUpdated(processes(vec![
        process(1, "one"),
        process(2, "two"),
        process(3, "three"),
    ])));
    app.update(Action::SelectProcess(ProcessIdentity {
        pid: 2,
        start_time: 2,
    }));
    app.update(Action::OpenProcessDetails);

    app.update(Action::ProcessesUpdated(processes(vec![
        process(1, "one"),
        process(3, "three"),
    ])));

    assert_eq!(app.selected_process().map(|process| process.pid), Some(3));
    assert!(!app.process_detail_visible());
}

#[test]
fn app_reused_pid_does_not_keep_stale_detail_selection() {
    let mut app = App::default();
    app.update(Action::SelectTab(Tab::Processes));
    app.update(Action::ProcessesUpdated(processes(vec![process(7, "old")])));
    app.update(Action::OpenProcessDetails);

    let mut replacement = process(7, "new");
    replacement.start_time = 999;
    app.update(Action::ProcessesUpdated(processes(vec![replacement])));

    assert_eq!(
        app.selected_process().map(|process| process.name.as_str()),
        Some("new")
    );
    assert!(!app.process_detail_visible());
}

#[test]
fn app_process_refresh_clears_only_a_stale_hover_identity() {
    let mut app = App::default();
    app.update(Action::SelectTab(Tab::Processes));
    app.update(Action::ProcessesUpdated(processes(vec![process(7, "old")])));
    let old_identity = app.process_at(0).unwrap().identity();
    app.update(Action::HoverMouseTarget(Some(MouseTarget::ProcessRow(
        old_identity,
    ))));

    let mut replacement = process(7, "new");
    replacement.start_time = 999;
    app.update(Action::ProcessesUpdated(processes(vec![replacement])));

    assert_eq!(app.hovered(), None);
}

#[test]
fn app_hover_only_invalidates_rendering_on_semantic_transitions() {
    let mut app = App::default();
    let target = MouseTarget::Tab(Tab::Processes);

    assert!(app.update(Action::HoverMouseTarget(Some(target.clone()))));
    assert!(!app.update(Action::HoverMouseTarget(Some(target))));
    assert!(app.update(Action::HoverMouseTarget(None)));
    assert!(!app.update(Action::HoverMouseTarget(None)));
}

#[test]
fn app_hover_does_not_rebuild_or_select_the_process_list() {
    let mut app = App::default();
    app.update(Action::SelectTab(Tab::Processes));
    app.update(Action::ProcessesUpdated(processes(vec![
        process(1, "one"),
        process(2, "two"),
    ])));
    let selected = app.selected_process().map(ProcessInfo::identity);
    let order = visible_pids(&app);
    let hovered = app.process_at(1).unwrap().identity();

    app.update(Action::HoverMouseTarget(Some(MouseTarget::ProcessRow(
        hovered,
    ))));

    assert_eq!(app.selected_process().map(ProcessInfo::identity), selected);
    assert_eq!(visible_pids(&app), order);
}

#[test]
fn app_scroll_calculation_handles_resize_and_empty_viewports() {
    assert_eq!(calculate_scroll(20, Some(10), 0, 5), 6);
    assert_eq!(calculate_scroll(20, Some(10), 6, 2), 9);
    assert_eq!(calculate_scroll(3, Some(2), usize::MAX, 20), 0);
    assert_eq!(calculate_scroll(20, Some(10), 0, 0), 10);
    assert_eq!(calculate_scroll(0, None, usize::MAX, 0), 0);
}

#[test]
fn app_network_selection_is_preserved_by_name() {
    let mut app = App::default();
    app.update(Action::SelectTab(Tab::Network));
    app.update(Action::NetworkUpdated(NetworkSnapshot {
        interfaces: vec![dummy_network("eth0"), dummy_network("wlan0")],
        overview_rate: None,
        error: None,
    }));
    app.update(Action::SelectNetwork("wlan0".into()));
    assert_eq!(
        app.selected_network().map(|n| n.name.as_str()),
        Some("wlan0")
    );

    // Update with reordered list
    app.update(Action::NetworkUpdated(NetworkSnapshot {
        interfaces: vec![
            dummy_network("docker0"),
            dummy_network("eth0"),
            dummy_network("wlan0"),
        ],
        overview_rate: None,
        error: None,
    }));
    assert_eq!(
        app.selected_network().map(|n| n.name.as_str()),
        Some("wlan0")
    );
}

#[test]
fn app_disappearing_network_interface_recovers_and_closes_details() {
    let mut app = App::default();
    app.update(Action::SelectTab(Tab::Network));
    app.update(Action::NetworkUpdated(NetworkSnapshot {
        interfaces: vec![
            dummy_network("eth0"),
            dummy_network("wlan0"),
            dummy_network("veth1"),
        ],
        overview_rate: None,
        error: None,
    }));
    app.update(Action::SelectNetwork("wlan0".into()));
    app.update(Action::OpenNetworkDetails);
    assert!(app.network_detail_visible());

    // wlan0 disappears
    app.update(Action::NetworkUpdated(NetworkSnapshot {
        interfaces: vec![dummy_network("eth0"), dummy_network("veth1")],
        overview_rate: None,
        error: None,
    }));

    // Selection clamped to nearest and details closed
    assert!(!app.network_detail_visible());
    assert_eq!(
        app.selected_network().map(|n| n.name.as_str()),
        Some("veth1")
    );
}

#[test]
fn app_network_keyboard_navigation() {
    let mut app = App::default();
    app.update(Action::SelectTab(Tab::Network));
    app.update(Action::NetworkUpdated(NetworkSnapshot {
        interfaces: vec![
            dummy_network("eth0"),
            dummy_network("wlan0"),
            dummy_network("veth1"),
        ],
        overview_rate: None,
        error: None,
    }));
    assert_eq!(
        app.selected_network().map(|n| n.name.as_str()),
        Some("eth0")
    );

    app.update(Action::NetworkNext);
    assert_eq!(
        app.selected_network().map(|n| n.name.as_str()),
        Some("wlan0")
    );

    app.update(Action::NetworkLast);
    assert_eq!(
        app.selected_network().map(|n| n.name.as_str()),
        Some("veth1")
    );

    app.update(Action::NetworkPrevious);
    assert_eq!(
        app.selected_network().map(|n| n.name.as_str()),
        Some("wlan0")
    );

    app.update(Action::NetworkFirst);
    assert_eq!(
        app.selected_network().map(|n| n.name.as_str()),
        Some("eth0")
    );
}

#[test]
fn app_process_signal_confirmation_workflow() {
    let mut app = App::default();
    app.update(Action::SelectTab(Tab::Processes));
    app.update(Action::ProcessesUpdated(processes(vec![
        process(100, "bash"),
        process(200, "nginx"),
    ])));

    assert_eq!(app.selected_process().map(|p| p.pid), Some(100));

    // 1. Request SIGTERM
    app.update(Action::RequestProcessSignal(ProcessSignal::Term));
    let confirmation = app
        .process_signal_confirmation()
        .expect("confirmation open");
    assert_eq!(confirmation.identity.pid, 100);
    assert_eq!(confirmation.name, "bash");
    assert_eq!(confirmation.signal, ProcessSignal::Term);
    assert_eq!(confirmation.focused_button, SignalConfirmButton::Cancel);
    assert_eq!(app.input_mode(), InputMode::ProcessSignalConfirm);

    // 2. Tab/toggle focus between Cancel and Confirm
    app.update(Action::ToggleProcessSignalFocus);
    assert_eq!(
        app.process_signal_confirmation().unwrap().focused_button,
        SignalConfirmButton::Confirm
    );
    app.update(Action::ToggleProcessSignalFocus);
    assert_eq!(
        app.process_signal_confirmation().unwrap().focused_button,
        SignalConfirmButton::Cancel
    );

    // Explicit button focus
    app.update(Action::FocusProcessSignal(SignalConfirmButton::Confirm));
    assert_eq!(
        app.process_signal_confirmation().unwrap().focused_button,
        SignalConfirmButton::Confirm
    );
    app.update(Action::FocusProcessSignal(SignalConfirmButton::Cancel));
    assert_eq!(
        app.process_signal_confirmation().unwrap().focused_button,
        SignalConfirmButton::Cancel
    );

    // 3. Enter on Cancel (default) cancels the modal
    app.update(Action::ExecuteFocusedProcessSignal);
    assert!(app.process_signal_confirmation().is_none());
    assert_eq!(app.input_mode(), InputMode::Normal);
    assert!(app.process_action_message().is_none());

    // 4. Request SIGKILL
    app.update(Action::RequestProcessSignal(ProcessSignal::Kill));
    let confirmation = app
        .process_signal_confirmation()
        .expect("confirmation open");
    assert_eq!(confirmation.signal, ProcessSignal::Kill);
    assert_eq!(confirmation.focused_button, SignalConfirmButton::Cancel);

    // 5. Esc cancels the modal
    app.update(Action::Escape);
    assert!(app.process_signal_confirmation().is_none());

    // 6. Cancel action cancels the modal
    app.update(Action::RequestProcessSignal(ProcessSignal::Term));
    assert!(app.process_signal_confirmation().is_some());
    app.update(Action::CancelProcessSignal);
    assert!(app.process_signal_confirmation().is_none());

    // 7. Modal blocks tab switching until dismissed
    app.update(Action::RequestProcessSignal(ProcessSignal::Term));
    assert!(app.process_signal_confirmation().is_some());
    app.update(Action::NextTab);
    assert!(app.process_signal_confirmation().is_some());
    assert_eq!(app.active_tab(), Tab::Processes);
    app.update(Action::Escape);
    assert!(app.process_signal_confirmation().is_none());
}

#[test]
fn app_process_signal_dismissed_if_target_process_exits() {
    let mut app = App::default();
    app.update(Action::SelectTab(Tab::Processes));
    app.update(Action::ProcessesUpdated(processes(vec![
        process(100, "bash"),
        process(200, "nginx"),
    ])));

    app.update(Action::RequestProcessSignal(ProcessSignal::Term));
    assert!(app.process_signal_confirmation().is_some());

    // Process 100 terminates/disappears in next snapshot
    app.update(Action::ProcessesUpdated(processes(vec![process(
        200, "nginx",
    )])));

    assert!(app.process_signal_confirmation().is_none());
    assert_eq!(
        app.process_action_message().map(String::as_str),
        Some("Process bash (100) exited before signal")
    );
}

#[test]
fn app_process_signal_verification_with_mock_proc() {
    let mut app = App::default();
    app.update(Action::SelectTab(Tab::Processes));
    app.update(Action::ProcessesUpdated(processes(vec![process(
        100, "bash",
    )])));

    // The process is the one that was chosen.
    let stat_valid = "100 (bash) S 1 100 100 0 0 0 0 0 0 0 0 0 0 0 0 0 0 0 100 0 0 0 0 0 0 0 0 0 0 0 0 0 0 0 0 0 0 0 0 0 0 0 0 0 0 0 0 0 0";
    app.update(Action::RequestProcessSignal(ProcessSignal::Term));
    assert_eq!(
        deliver(&mut app, Ok, Some(stat_valid)),
        Some((100, libc::SIGTERM))
    );
    assert_eq!(
        app.process_action_message().map(String::as_str),
        Some("Sent SIGTERM to bash (100)")
    );

    // Its number was given to another process, which started later.
    let stat_reused = "100 (bash) S 1 100 100 0 0 0 0 0 0 0 0 0 0 0 0 0 0 0 999 0 0 0 0 0 0 0 0 0 0 0 0 0 0 0 0 0 0 0 0 0 0 0 0 0 0 0 0 0 0";
    app.update(Action::RequestProcessSignal(ProcessSignal::Kill));
    assert_eq!(deliver(&mut app, Ok, Some(stat_reused)), None);
    assert_eq!(
        app.process_action_message().map(String::as_str),
        Some("Refused to send SIGKILL: PID 100 was reused")
    );

    // It is gone.
    app.update(Action::RequestProcessSignal(ProcessSignal::Term));
    assert_eq!(deliver(&mut app, Ok, None), None);
    assert_eq!(
        app.process_action_message().map(String::as_str),
        Some("Failed to send SIGTERM: process bash (100) not found")
    );
}

#[test]
fn app_aggregate_cpu_history_is_bounded_and_evicts_oldest_samples() {
    let mut app = App::default();
    let sample_count = METRIC_HISTORY_CAPACITY + 5;

    for sample in 0..sample_count {
        app.update(Action::SystemMetricsUpdated(SystemMetrics {
            cpu_percent: number(sample as f64),
            ..Default::default()
        }));
    }

    let history = values(app.aggregate_cpu_history());
    assert_eq!(history.len(), METRIC_HISTORY_CAPACITY);
    assert_eq!(history.first(), Some(&5.0));
    assert_eq!(history.last(), Some(&64.0));
}

#[test]
fn app_process_summary_is_cached_from_process_snapshots() {
    let mut app = App::default();
    let mut running = process(1, "running");
    running.state = "R (running)".into();
    running.state_code = 'R';
    let mut zombie = process(2, "zombie");
    zombie.state = "Z (zombie)".into();
    zombie.state_code = 'Z';

    assert!(app.update(Action::ProcessesUpdated(processes(vec![
        running,
        zombie,
        process(3, "sleeping"),
    ]))));
    assert_eq!(
        app.process_summary(),
        ProcessSummary {
            total: 3,
            running: 1,
            zombies: 1,
        }
    );
}

#[test]
fn app_process_search_clears_action_message() {
    let mut app = App::default();
    app.update(Action::SelectTab(Tab::Processes));
    app.update(Action::ProcessesUpdated(processes(vec![process(
        100, "bash",
    )])));
    app.update(Action::RequestProcessSignal(ProcessSignal::Term));
    app.update(Action::ConfirmProcessSignal);
    let confirmation = app.take_signal_request().expect("signal confirmed");
    app.finish_process_signal(confirmation, Ok(()));
    assert_eq!(
        app.process_action_message().map(String::as_str),
        Some("Sent SIGTERM to bash (100)")
    );

    app.update(Action::BeginProcessSearch);
    assert!(app.process_action_message().is_none());
}
