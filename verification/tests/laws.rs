use tuxctl::action::{
    Action, IntervalStep, MouseTarget, PinMove, ProcessSort, ProcessSortField, Tab,
};
use tuxctl::app::health::{preset_label, step_preset, Collector, Health, SAMPLING_PRESETS};
use tuxctl::app::interfaces::{is_overview_interface, is_physical_interface};
use tuxctl::app::scroll::{calculate_scroll, Step};
use tuxctl::app::App;
use tuxctl::linux::hardware::{HardwareInventory, NetworkDevice};
use tuxctl::linux::journal::{JournalBatch, JournalEntry};
use tuxctl::linux::process::{ProcessInfo, ProcessSignal, ProcessSignalError, ProcessSnapshot};
use tuxctl::linux::signal::{interpret_error, map_signal_error, OsError};
use tuxctl::time::SECOND;

fn process(pid: u32, name: &str) -> ProcessInfo {
    ProcessInfo {
        pid,
        name: name.into(),
        cpu_percent: None,
        memory_bytes: u64::from(pid),
        command: None,
        state: "S (sleeping)".into(),
        parent_pid: 1,
        state_code: 'S',
        start_time: u64::from(pid),
    }
}

fn app_with(pids: &[u32]) -> App {
    let mut app = App::default();
    app.update(Action::SelectTab(Tab::Processes));
    app.update(Action::ProcessesUpdated(ProcessSnapshot {
        processes: pids.iter().map(|pid| process(*pid, "p")).collect(),
        error: None,
    }));
    app
}

fn pids(app: &App) -> Vec<u32> {
    (0..app.process_count())
        .filter_map(|row| app.process_at(row).map(|process| process.pid))
        .collect()
}

#[test]
fn tabs_step_forth_and_back() {
    for tab in Tab::ALL {
        assert_eq!(tab.next().previous(), tab);
        assert_eq!(tab.previous().next(), tab);
        assert_eq!(tab.next().next().next().next().next(), tab);
        let mut app = App::default();
        app.update(Action::SelectTab(tab));
        app.update(Action::NextTab);
        app.update(Action::PreviousTab);
        assert_eq!(app.active_tab(), tab);
    }
    assert_eq!(
        Tab::ALL.map(Tab::label),
        ["Overview", "Processes", "Services", "Logs", "Network"]
    );
    assert_eq!(
        Tab::ALL.map(Tab::short_label),
        ["Ovr", "Proc", "Svc", "Logs", "Net"]
    );
}

#[test]
fn presets_step_forth_and_back() {
    for window in SAMPLING_PRESETS.windows(2) {
        let (shorter, longer) = (window[0].1, window[1].1);
        assert_eq!(step_preset(shorter, IntervalStep::Longer), Some(longer));
        assert_eq!(step_preset(longer, IntervalStep::Shorter), Some(shorter));
    }
    assert_eq!(preset_label(2 * SECOND), "2s");
    assert_eq!(preset_label(3 * SECOND), "?");
    assert_eq!(step_preset(3 * SECOND, IntervalStep::Longer), None);
}

#[test]
fn quitting_is_final() {
    let mut app = App::default();
    app.update(Action::Quit);
    for action in [Action::ShowHelp, Action::Escape, Action::Resize, Action::NextTab] {
        app.update(action);
        assert!(app.should_quit());
    }
}

#[test]
fn dropped_entries_add_up() {
    let mut app = App::default();
    for dropped in [7, 5, usize::MAX] {
        app.update(Action::LogsUpdated(JournalBatch {
            dropped,
            ..JournalBatch::default()
        }));
    }
    assert_eq!(app.log_dropped(), usize::MAX);

    let mut app = App::default();
    for dropped in [7, 5] {
        app.update(Action::LogsUpdated(JournalBatch {
            dropped,
            ..JournalBatch::default()
        }));
    }
    assert_eq!(app.log_dropped(), 12);
}

#[test]
fn a_following_journal_shows_its_newest_entry() {
    let mut app = App::default();
    app.update(Action::SelectTab(Tab::Logs));
    for id in 1..=3 {
        app.update(Action::LogsUpdated(JournalBatch {
            entries: vec![JournalEntry {
                id,
                timestamp_micros: None,
                source: "test".into(),
                priority: None,
                message: "entry".into(),
            }],
            ..JournalBatch::default()
        }));
        assert_eq!(app.selected_log().map(|entry| entry.id), Some(id));
    }
}

#[test]
fn only_a_confirmed_signal_is_asked_for() {
    let mut app = app_with(&[1, 2]);
    app.update(Action::RequestProcessSignal(ProcessSignal::Kill));
    assert!(app.take_signal_request().is_none());
    app.update(Action::ExecuteFocusedProcessSignal);
    assert!(
        app.take_signal_request().is_none(),
        "cancelling is what is chosen at first"
    );

    app.update(Action::RequestProcessSignal(ProcessSignal::Kill));
    app.update(Action::ToggleProcessSignalFocus);
    app.update(Action::ExecuteFocusedProcessSignal);
    let request = app.take_signal_request().expect("confirmed");
    assert_eq!(request.signal, ProcessSignal::Kill);
    assert!(app.take_signal_request().is_none(), "handed out once");
}

#[test]
fn every_outcome_of_a_signal_is_put_in_words() {
    let outcomes = [
        (Ok(()), "Sent SIGTERM to p (1)"),
        (
            Err(ProcessSignalError::ProcessNotFound),
            "Failed to send SIGTERM: process p (1) not found",
        ),
        (
            Err(ProcessSignalError::StaleIdentity),
            "Refused to send SIGTERM: PID 1 was reused",
        ),
        (
            Err(ProcessSignalError::PermissionDenied),
            "Failed to send SIGTERM: permission denied for p (1)",
        ),
        (
            Err(ProcessSignalError::Unsupported),
            "Failed to send SIGTERM: pidfd signaling is not supported",
        ),
        (
            Err(ProcessSignalError::Failed("odd".into())),
            "Failed to send SIGTERM to p (1): odd",
        ),
    ];
    for (outcome, message) in outcomes {
        let mut app = app_with(&[1]);
        app.update(Action::RequestProcessSignal(ProcessSignal::Term));
        app.update(Action::ConfirmProcessSignal);
        let confirmation = app.take_signal_request().expect("confirmed");
        app.finish_process_signal(confirmation, outcome);
        assert_eq!(
            app.process_action_message().map(String::as_str),
            Some(message)
        );
    }
}

#[test]
fn errors_of_the_system_are_understood() {
    let error = |code| OsError {
        code,
        message: "message".into(),
    };

    assert_eq!(
        map_signal_error(error(Some(libc::ESRCH))),
        ProcessSignalError::ProcessNotFound
    );
    for code in [libc::EPERM, libc::EACCES] {
        assert_eq!(
            map_signal_error(error(Some(code))),
            ProcessSignalError::PermissionDenied
        );
    }
    assert_eq!(
        map_signal_error(error(Some(libc::ENOSYS))),
        ProcessSignalError::Unsupported
    );
    for code in [None, Some(libc::EINVAL)] {
        assert_eq!(
            map_signal_error(error(code)),
            ProcessSignalError::Failed("message".into())
        );
    }
    assert_eq!(
        interpret_error(error(Some(7)), 7),
        ProcessSignalError::Unsupported
    );
    assert_eq!(ProcessSignal::Term.as_c_int(), libc::SIGTERM);
    assert_eq!(ProcessSignal::Kill.as_c_int(), libc::SIGKILL);
}

#[test]
fn a_moved_pin_moves_back() {
    let mut app = app_with(&[1, 2, 3]);
    for pid in [1, 2] {
        let identity = process(pid, "p").identity();
        app.update(Action::SelectProcess(identity));
        app.update(Action::TogglePin);
    }
    let before = pids(&app);
    let identity = process(1, "p").identity();

    assert!(app.update(Action::MovePin(identity, PinMove::Down)));
    assert_ne!(pids(&app), before);
    assert!(app.update(Action::MovePin(identity, PinMove::Up)));
    assert_eq!(pids(&app), before);
}

#[test]
fn columns_begin_in_their_usual_order() {
    for (field, descending, label) in [
        (ProcessSortField::Cpu, true, "CPU"),
        (ProcessSortField::Memory, true, "MEM"),
        (ProcessSortField::Pid, false, "PID"),
        (ProcessSortField::Name, false, "NAME"),
    ] {
        assert_eq!(
            ProcessSort::for_field(field),
            ProcessSort { field, descending }
        );
        assert_eq!(field.as_str(), label);
    }
    assert_eq!(
        ProcessSort::default(),
        ProcessSort::for_field(ProcessSortField::Cpu)
    );
}

#[test]
fn a_view_has_no_empty_rows_at_its_end_while_rows_are_left() {
    for count in 0..12 {
        for height in 0..6 {
            for requested in 0..14 {
                for selected in (0..count).map(Some).chain([None]) {
                    let start = calculate_scroll(count, selected, requested, height);
                    if height > 0 {
                        assert!(start <= count.saturating_sub(height));
                        if let Some(row) = selected {
                            assert!(start <= row && row < start + height);
                        }
                    }
                }
            }
        }
    }
}

#[test]
fn moves_stay_within_the_rows() {
    let step = |forward, rows| Step { forward, rows };

    assert_eq!(step(true, 3).apply(2, 9), 5);
    assert_eq!(step(true, usize::MAX).apply(2, 9), 9);
    assert_eq!(step(false, 1).apply(2, 9), 1);
    assert_eq!(step(false, 5).apply(2, 9), 0);
}

#[test]
fn interfaces_of_the_inventory_are_shown_whatever_their_name() {
    let inventory = HardwareInventory {
        network_devices: vec![NetworkDevice {
            interface_name: "veth0".into(),
            model: None,
        }],
        ..HardwareInventory::default()
    };

    assert!(is_physical_interface("veth0", Some(&inventory)));
    assert!(is_overview_interface("veth0", Some(&inventory)));
    assert!(!is_overview_interface("veth0", None));
    assert!(is_overview_interface("enp6s0", None));
    assert!(!is_overview_interface("lo", None));
}

#[test]
fn collectors_are_judged_only_once_they_have_periods() {
    let mut health = Health::new();
    assert!(!health.is_enabled());
    health.record(Collector::Metrics);
    assert!(!health.tick(Tab::Overview, 100 * SECOND));
    assert!(health.stale_collectors(Tab::Overview).is_empty());
    assert!(Collector::Services.shown_on(Tab::Services));
    assert!(!Collector::Services.shown_on(Tab::Overview));
}

#[test]
fn hovering_over_nothing_new_changes_nothing() {
    let mut app = App::default();
    let target = MouseTarget::NetworkRow("eth0".into());

    assert!(app.update(Action::HoverMouseTarget(Some(target.clone()))));
    assert!(!app.update(Action::HoverMouseTarget(Some(target.clone()))));
    assert_eq!(app.hovered(), Some(&target));
}
