use std::cell::RefCell;
use std::collections::VecDeque;
use std::rc::Rc;

use tuxctl::action::{Action, IntervalStep, MouseTarget, ProcessSortField, Tab};
use tuxctl::app::App;
use tuxctl::linux::journal::{JournalBatch, JournalEntry};
use tuxctl::linux::network::NetworkSnapshot;
use tuxctl::linux::process::{ProcessInfo, ProcessSnapshot};
use tuxctl::linux::service::ServiceSnapshot;
use tuxctl::linux::system::SystemMetrics;
use tuxctl::number::Number;
use tuxctl::scheduler::{
    apply_action, apply_actions, finish_application, input_action, poll_ready_action,
    service_pause_change, RedrawPolicy, RedrawScheduler, TurnStep, BACKGROUND_FRAME_INTERVAL,
    HOVER_FRAME_INTERVAL, MAX_ACTIONS_PER_TURN,
};
use tuxctl::shutdown::Shutdown;
use tuxctl::time::{Nanos, MILLISECOND, SECOND};

const NOW: Nanos = 60 * SECOND;

struct RecordedDrop {
    name: &'static str,
    events: Rc<RefCell<Vec<&'static str>>>,
}

impl Drop for RecordedDrop {
    fn drop(&mut self) {
        self.events.borrow_mut().push(self.name);
    }
}

fn no_ready_action() -> Option<Action> {
    None
}

fn new_scheduler() -> RedrawScheduler {
    RedrawScheduler::new(HOVER_FRAME_INTERVAL, BACKGROUND_FRAME_INTERVAL)
}

/// Actions that are ready, in order.
struct Queued(RefCell<VecDeque<Action>>);

impl Queued {
    fn new(actions: Vec<Action>) -> Self {
        Queued(RefCell::new(actions.into()))
    }

    fn next(&self) -> Result<Option<Action>, String> {
        Ok(self.0.borrow_mut().pop_front())
    }
}

fn number(value: f64) -> Number {
    Number {
        bits: value.to_bits(),
    }
}

fn metrics_with_cpu(cpu: f64) -> SystemMetrics {
    SystemMetrics {
        cpu_percent: Some(number(cpu)),
        ..SystemMetrics::default()
    }
}

fn process_snapshot(pids: &[u32]) -> ProcessSnapshot {
    ProcessSnapshot {
        processes: pids
            .iter()
            .map(|&pid| ProcessInfo {
                pid,
                name: format!("proc{pid}"),
                cpu_percent: None,
                memory_bytes: 0,
                command: None,
                state: "S".into(),
                parent_pid: 1,
                state_code: 'S',
                start_time: u64::from(pid),
            })
            .collect(),
        error: None,
    }
}

fn network_snapshot() -> NetworkSnapshot {
    NetworkSnapshot {
        interfaces: Vec::new(),
        overview_rate: None,
        error: None,
    }
}

fn empty_batch() -> JournalBatch {
    JournalBatch {
        entries: Vec::new(),
        dropped: 0,
        error: None,
    }
}

fn journal_batch(id: u64) -> JournalBatch {
    JournalBatch {
        entries: vec![JournalEntry {
            id,
            timestamp_micros: None,
            source: "test".into(),
            priority: Some(6),
            message: format!("entry {id}"),
        }],
        ..empty_batch()
    }
}

#[test]
fn idle_scheduler_does_not_request_continuous_frames() {
    let mut scheduler = new_scheduler();

    assert_eq!(scheduler.deadline(), None);
    assert!(!scheduler.take_due(NOW + SECOND));
    assert_eq!(scheduler.deadline(), None);
}

#[test]
fn hover_changes_coalesce_while_app_keeps_latest_target() {
    let mut app = App::default();
    let mut scheduler = new_scheduler();

    for (offset, tab) in [Tab::Overview, Tab::Processes, Tab::Services, Tab::Logs]
        .into_iter()
        .enumerate()
    {
        assert!(app.update(Action::HoverMouseTarget(Some(MouseTarget::Tab(tab)))));
        scheduler.request_hover(NOW + offset as Nanos * MILLISECOND);
    }

    assert_eq!(app.hovered(), Some(&MouseTarget::Tab(Tab::Logs)));
    assert!(!scheduler.take_due(NOW + HOVER_FRAME_INTERVAL - MILLISECOND));
    assert!(scheduler.take_due(NOW + HOVER_FRAME_INTERVAL));
    assert_eq!(scheduler.deadline(), None);
}

#[test]
fn rapid_hover_transitions_are_frame_limited() {
    let mut app = App::default();
    let mut scheduler = new_scheduler();
    let mut transitions = 0;
    let mut redraws = 0;

    for millisecond in 0..100 {
        let tab = if millisecond % 2 == 0 {
            Tab::Overview
        } else {
            Tab::Processes
        };
        let now = NOW + millisecond * MILLISECOND;
        if app.update(Action::HoverMouseTarget(Some(MouseTarget::Tab(tab)))) {
            transitions += 1;
            scheduler.request_hover(now);
        }
        redraws += usize::from(scheduler.take_due(now));
    }
    redraws += usize::from(scheduler.take_due(NOW + 132 * MILLISECOND));

    assert_eq!(transitions, 100);
    assert_eq!(redraws, 3);
}

#[test]
fn intentional_input_and_resize_use_immediate_redraws() {
    for action in [
        Action::SelectTab(Tab::Processes),
        Action::ProcessNext,
        Action::SortProcesses(ProcessSortField::Cpu),
        Action::StepSamplingInterval(IntervalStep::Shorter),
        Action::Resize,
    ] {
        assert_eq!(RedrawPolicy::for_action(&action), RedrawPolicy::Immediate);
    }
    assert_eq!(
        RedrawPolicy::for_action(&Action::HoverMouseTarget(None)),
        RedrawPolicy::CoalescedHover
    );
}

#[test]
fn immediate_render_satisfies_a_pending_hover_redraw() {
    let mut scheduler = new_scheduler();
    scheduler.request_hover(NOW);

    scheduler.rendered(NOW);

    assert_eq!(scheduler.deadline(), None);
}

#[test]
fn background_updates_arriving_together_render_once() {
    let mut app = App::default();
    let mut scheduler = new_scheduler();
    scheduler.rendered(NOW - SECOND);
    let remaining = Queued::new(vec![
        Action::ProcessesUpdated(process_snapshot(&[1, 2])),
        Action::NetworkUpdated(network_snapshot()),
    ]);

    let (render_now, pulled) = apply_actions(
        &mut app,
        &mut scheduler,
        Some(Action::SystemMetricsUpdated(metrics_with_cpu(12.0))),
        NOW,
        0,
        |pulled, _| (remaining.next(), pulled + 1),
    );
    let render_now = render_now.unwrap();

    assert!(!render_now);
    assert_eq!(
        pulled, 3,
        "all ready snapshots are drained in one turn"
    );
    assert_eq!(app.process_summary().total, 2);
    assert!(
        scheduler.take_due(NOW),
        "idle background data renders promptly"
    );
    assert!(!scheduler.take_due(NOW));
}

#[test]
fn inactive_tab_snapshots_do_not_schedule_a_redraw() {
    let mut app = App::default();
    app.update(Action::SelectTab(Tab::Services));
    let mut scheduler = new_scheduler();
    let remaining = Queued::new(vec![Action::SystemMetricsUpdated(metrics_with_cpu(3.0))]);

    let (render_now, _) = apply_actions(
        &mut app,
        &mut scheduler,
        Some(Action::ProcessesUpdated(process_snapshot(&[1]))),
        NOW,
        remaining,
        |remaining, _| (remaining.next(), remaining),
    );
    let render_now = render_now.unwrap();

    assert!(!render_now);
    assert_eq!(scheduler.deadline(), None);
}

#[test]
fn continuous_journal_batches_are_frame_limited() {
    let mut app = App::default();
    app.update(Action::SelectTab(Tab::Logs));
    let mut scheduler = new_scheduler();
    scheduler.rendered(NOW);
    let mut renders = 0;

    for millisecond in 1..=1000_u64 {
        let now = NOW + Nanos::from(millisecond) * MILLISECOND;
        let (render_now, ()) = apply_actions(
            &mut app,
            &mut scheduler,
            Some(Action::LogsUpdated(journal_batch(millisecond))),
            now,
            (),
            |(), _| (Ok::<_, String>(None), ()),
        );
        assert!(!render_now.unwrap());
        if scheduler.take_due(now) {
            renders += 1;
            scheduler.rendered(now);
        }
    }

    assert_eq!(app.log_count(), 1000);
    assert_eq!(renders, 20);
}

#[test]
fn a_continuously_ready_source_cannot_monopolize_a_turn() {
    let mut app = App::default();
    let mut scheduler = new_scheduler();

    let (turn, next_id) = apply_actions(
        &mut app,
        &mut scheduler,
        Some(Action::LogsUpdated(journal_batch(0))),
        NOW,
        0_u64,
        |last, _| {
            let id = last + 1;
            (
                Ok::<_, String>(Some(Action::LogsUpdated(journal_batch(id)))),
                id,
            )
        },
    );
    turn.unwrap();

    assert_eq!(next_id as usize, MAX_ACTIONS_PER_TURN - 1);
}

#[test]
fn state_changing_input_ends_the_turn_for_an_immediate_render() {
    let mut app = App::default();
    let mut scheduler = new_scheduler();
    let remaining = Queued::new(vec![
        Action::SelectTab(Tab::Processes),
        Action::SelectTab(Tab::Logs),
    ]);

    let (render_now, remaining) = apply_actions(
        &mut app,
        &mut scheduler,
        Some(Action::SystemMetricsUpdated(metrics_with_cpu(50.0))),
        NOW,
        remaining,
        |remaining, _| (remaining.next(), remaining),
    );
    let render_now = render_now.unwrap();

    assert!(render_now);
    assert_eq!(app.active_tab(), Tab::Processes);
    assert_eq!(
        remaining.next().unwrap(),
        Some(Action::SelectTab(Tab::Logs)),
        "later input waits for regions from the immediate render"
    );
}

#[test]
fn quit_stops_draining_ready_actions() {
    let mut app = App::default();
    let mut scheduler = new_scheduler();

    let (render_now, pulled) = apply_actions(
        &mut app,
        &mut scheduler,
        Some(Action::Quit),
        NOW,
        0,
        |pulled, _| {
            (
                Ok::<_, String>(Some(Action::LogsUpdated(journal_batch(1)))),
                pulled + 1,
            )
        },
    );

    assert!(!render_now.unwrap());
    assert!(app.should_quit());
    assert_eq!(pulled, 0);
}

#[test]
fn a_turn_hands_on_the_failure_of_what_is_ready() {
    let mut app = App::default();
    let mut scheduler = new_scheduler();

    let failing = |asked: u32, _: &App| (Err("terminal lost".to_owned()), asked + 1);
    assert_eq!(
        apply_actions(
            &mut app,
            &mut scheduler,
            Some(Action::Tick(NOW)),
            NOW,
            0,
            failing
        ),
        (Err("terminal lost".to_owned()), 1)
    );
    assert_eq!(
        apply_actions(&mut app, &mut scheduler, None, NOW, 0, failing),
        (Ok(false), 0)
    );
}

#[test]
fn an_action_tells_how_its_turn_goes_on() {
    let mut app = App::default();
    let mut scheduler = new_scheduler();
    let logs = || Action::LogsUpdated(journal_batch(1));

    let apply = |app: &mut App, scheduler: &mut RedrawScheduler, action, applied| {
        apply_action(app, scheduler, action, NOW, applied)
    };
    assert_eq!(apply(&mut app, &mut scheduler, logs(), 1), TurnStep::Continue);
    assert_eq!(
        apply(&mut app, &mut scheduler, logs(), MAX_ACTIONS_PER_TURN),
        TurnStep::End
    );
    assert_eq!(scheduler.deadline(), None, "the journal is not on the screen");
    assert_eq!(
        apply(&mut app, &mut scheduler, Action::NextTab, 1),
        TurnStep::Render
    );
    assert_eq!(
        apply(&mut app, &mut scheduler, Action::Quit, 1),
        TurnStep::End
    );
}

#[test]
fn background_snapshots_use_frame_limited_redraws() {
    for action in [
        Action::SystemMetricsUpdated(SystemMetrics::default()),
        Action::ProcessesUpdated(process_snapshot(&[])),
        Action::ServicesUpdated(ServiceSnapshot {
            services: Vec::new(),
            error: None,
            completed_refresh_generation: 0,
        }),
        Action::NetworkUpdated(network_snapshot()),
        Action::LogsUpdated(empty_batch()),
    ] {
        assert_eq!(
            RedrawPolicy::for_action(&action),
            RedrawPolicy::FrameLimited
        );
    }
}

#[test]
fn pending_hover_frame_is_not_delayed_by_background_requests() {
    let mut scheduler = new_scheduler();
    scheduler.rendered(NOW);

    scheduler.request_hover(NOW);
    scheduler.request_background(NOW);

    assert_eq!(scheduler.deadline(), Some(NOW + HOVER_FRAME_INTERVAL));
}

#[test]
fn continuous_journal_readiness_cannot_delay_quit() {
    let mut journal_polls = 0;

    for _ in 0..100 {
        let action = poll_ready_action(
            || Ok::<_, String>(Some(Action::Quit)),
            no_ready_action,
            no_ready_action,
            no_ready_action,
            no_ready_action,
            no_ready_action,
            || {
                journal_polls += 1;
                Some(Action::LogsUpdated(empty_batch()))
            },
        )
        .unwrap();

        assert_eq!(action, Some(Action::Quit));
    }
    assert_eq!(journal_polls, 0);
}

#[test]
fn continuous_journal_readiness_cannot_delay_resize() {
    let mut journal_polls = 0;

    for _ in 0..100 {
        let action = poll_ready_action(
            || Ok::<_, String>(Some(Action::Resize)),
            no_ready_action,
            no_ready_action,
            no_ready_action,
            no_ready_action,
            no_ready_action,
            || {
                journal_polls += 1;
                Some(Action::LogsUpdated(empty_batch()))
            },
        )
        .unwrap();

        assert_eq!(action, Some(Action::Resize));
    }
    assert_eq!(journal_polls, 0);
}

#[test]
fn continuous_journal_readiness_cannot_delay_network_updates() {
    let mut journal_polls = 0;

    let action = poll_ready_action(
        || Ok::<_, String>(None),
        no_ready_action,
        no_ready_action,
        no_ready_action,
        || Some(Action::NetworkUpdated(network_snapshot())),
        no_ready_action,
        || {
            journal_polls += 1;
            Some(Action::LogsUpdated(empty_batch()))
        },
    )
    .unwrap();

    assert!(matches!(action, Some(Action::NetworkUpdated(_))));
    assert_eq!(journal_polls, 0);
}

#[test]
fn a_termination_signal_quits_before_pending_input_and_snapshots() {
    let mut shutdown = Shutdown::default();
    let mut terminal_polls = 0;
    assert_eq!(
        input_action(&shutdown, || {
            terminal_polls += 1;
            Ok::<_, String>(Some(Action::NextTab))
        })
        .unwrap(),
        Some(Action::NextTab)
    );

    shutdown.signal = libc::SIGTERM as usize;
    let action = poll_ready_action(
        || {
            input_action(&shutdown, || {
                terminal_polls += 1;
                Ok::<_, String>(Some(Action::NextTab))
            })
        },
        || Some(Action::SystemMetricsUpdated(metrics_with_cpu(1.0))),
        no_ready_action,
        no_ready_action,
        no_ready_action,
        no_ready_action,
        no_ready_action,
    )
    .unwrap();

    assert_eq!(action, Some(Action::Quit));
    assert_eq!(
        terminal_polls, 1,
        "pending input is not read after a signal"
    );
}

#[test]
fn a_failing_terminal_ends_the_poll() {
    let action = poll_ready_action(
        || Err("terminal lost".to_owned()),
        || Some(Action::SystemMetricsUpdated(metrics_with_cpu(1.0))),
        no_ready_action,
        no_ready_action,
        no_ready_action,
        no_ready_action,
        no_ready_action,
    );

    assert_eq!(action, Err("terminal lost".to_owned()));
}

#[test]
fn sources_behind_the_first_that_is_ready_are_left_alone() {
    for ready in 0..8 {
        let asked = RefCell::new(Vec::new());
        let source = |place: usize| {
            asked.borrow_mut().push(place);
            (place == ready).then_some(Action::Resize)
        };
        let action = poll_ready_action(
            || Ok::<_, String>(source(0)),
            || source(1),
            || source(2),
            || source(3),
            || source(4),
            || source(5),
            || source(6),
        )
        .unwrap();

        assert_eq!(action.is_some(), ready < 7);
        let expected: Vec<usize> = (0..7).filter(|place| *place <= ready).collect();
        assert_eq!(*asked.borrow(), expected);
    }
}

#[test]
fn normal_and_error_results_restore_terminal_before_workers() {
    for run_result in [Ok(()), Err("main loop failed")] {
        let events = Rc::new(RefCell::new(Vec::new()));
        let terminal = RecordedDrop {
            name: "terminal",
            events: Rc::clone(&events),
        };
        let worker = RecordedDrop {
            name: "worker",
            events: Rc::clone(&events),
        };

        let expected_ok = run_result.is_ok();
        let result = finish_application(terminal, worker, run_result);

        assert_eq!(*events.borrow(), ["terminal", "worker"]);
        assert_eq!(result.is_ok(), expected_ok);
    }
}

#[test]
fn quit_uses_normal_terminal_first_teardown() {
    let mut app = App::default();
    assert!(!app.update(Action::Quit));
    assert!(app.should_quit());

    let events = Rc::new(RefCell::new(Vec::new()));
    let terminal = RecordedDrop {
        name: "terminal",
        events: Rc::clone(&events),
    };
    let worker = RecordedDrop {
        name: "worker",
        events: Rc::clone(&events),
    };

    finish_application(terminal, worker, Ok::<(), String>(())).unwrap();

    assert_eq!(*events.borrow(), ["terminal", "worker"]);
}

#[test]
fn services_are_paused_while_they_are_not_seen() {
    assert_eq!(service_pause_change(false, true), None);
    assert_eq!(service_pause_change(false, false), Some(true));
    assert_eq!(service_pause_change(true, true), Some(false));
    assert_eq!(service_pause_change(true, false), None);
}
