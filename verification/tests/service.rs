use tuxctl::linux::control::{CollectorControl, CollectorWake, Deadline, WaitStep};
use tuxctl::linux::latest_snapshot::LatestSlot;
use tuxctl::linux::service::{ServiceInfo, ServiceSnapshot, SYSTEMCTL_TIMEOUT};
use tuxctl::linux::service_listing::{
    collect_services, parse_systemctl_show, poll_command, services_from_text, ChildState,
    CollectionStep, CommandOutcome, PollStep, ServiceRefreshProgress, COMMAND_POLL_INTERVAL,
};
use tuxctl::time::SECOND;

fn empty_snapshot() -> ServiceSnapshot {
    ServiceSnapshot {
        services: Vec::new(),
        error: None,
        completed_refresh_generation: 0,
    }
}

#[test]
fn refresh_requested_during_collection_requires_the_follow_up_collection() {
    let mut progress = ServiceRefreshProgress::default();

    // The first collection was under way before the request came.
    let first = progress.finish_collection(empty_snapshot(), None);
    assert_eq!(first.completed_refresh_generation, 0);

    assert_eq!(
        CollectionStep::after_waiting(CollectorWake::Refresh(7)),
        CollectionStep::Collect(Some(7))
    );
    let second = progress.finish_collection(empty_snapshot(), Some(7));
    assert_eq!(second.completed_refresh_generation, 7);
}

#[test]
fn a_wait_ends_in_a_collection_or_the_end() {
    assert_eq!(
        CollectionStep::after_waiting(CollectorWake::Timeout),
        CollectionStep::Collect(None)
    );
    assert_eq!(
        CollectionStep::after_waiting(CollectorWake::Stop),
        CollectionStep::End
    );
}

#[test]
fn completed_generation_survives_latest_snapshot_replacement() {
    let mut progress = ServiceRefreshProgress::default();
    let completed = progress.finish_collection(empty_snapshot(), Some(11));
    let periodic = progress.finish_collection(empty_snapshot(), None);
    let mut slot = LatestSlot::new();

    assert!(slot.publish(completed));
    assert!(slot.publish(periodic));

    assert_eq!(slot.take_latest().unwrap().completed_refresh_generation, 11);
}

#[test]
fn periodic_collections_do_not_invent_refresh_completion() {
    let mut progress = ServiceRefreshProgress::default();

    let first = progress.finish_collection(empty_snapshot(), None);
    let second = progress.finish_collection(empty_snapshot(), None);

    assert_eq!(first.completed_refresh_generation, 0);
    assert_eq!(second.completed_refresh_generation, 0);
}

#[test]
fn an_earlier_refresh_does_not_undo_a_later_one() {
    let mut progress = ServiceRefreshProgress::default();
    progress.finish_collection(empty_snapshot(), Some(9));

    let snapshot = progress.finish_collection(empty_snapshot(), Some(4));

    assert_eq!(snapshot.completed_refresh_generation, 9);
}

#[test]
fn hung_command_times_out_and_is_killed() {
    let deadline = SYSTEMCTL_TIMEOUT;

    assert_eq!(
        poll_command(ChildState::Running, 0, deadline),
        PollStep::Wait(COMMAND_POLL_INTERVAL)
    );
    assert_eq!(
        poll_command(ChildState::Running, deadline - 1, deadline),
        PollStep::Wait(1)
    );
    assert_eq!(
        poll_command(ChildState::Running, deadline, deadline),
        PollStep::Kill(CommandOutcome::TimedOut)
    );
    assert_eq!(
        collect_services(CommandOutcome::TimedOut).error.as_deref(),
        Some("systemctl timed out")
    );
}

#[test]
fn a_command_that_ended_in_time_is_finished_or_lost() {
    assert_eq!(
        poll_command(ChildState::Exited, 20 * SECOND, SECOND),
        PollStep::Finish
    );
    assert_eq!(
        poll_command(ChildState::Lost("gone".into()), 0, SECOND),
        PollStep::Kill(CommandOutcome::Spawn("gone".into()))
    );
}

#[test]
fn failing_command_reports_status_and_stderr() {
    let failed = |stderr: &[u8]| {
        collect_services(CommandOutcome::Finished {
            success: false,
            stdout: b"Id=ignored.service\n".to_vec(),
            stderr: stderr.to_vec(),
        })
    };

    assert_eq!(failed(b"boom\n").error.as_deref(), Some("boom"));
    assert!(failed(b"boom\n").services.is_empty());
    assert_eq!(
        failed(b"  first \r\nsecond\n").error.as_deref(),
        Some("first")
    );
    assert_eq!(failed(b"").error.as_deref(), Some("systemctl failed"));
    assert_eq!(failed(b"\nlater").error.as_deref(), Some(""));
    assert_eq!(failed(b"a\xff").error.as_deref(), Some("a\u{fffd}"));
}

#[test]
fn missing_program_is_a_spawn_error() {
    let snapshot = collect_services(CommandOutcome::Spawn("not found".into()));

    assert_eq!(
        snapshot.error.as_deref(),
        Some("cannot run systemctl: not found")
    );
    assert_eq!(
        collect_services(CommandOutcome::Stopped).error.as_deref(),
        Some("systemctl collection stopped")
    );
}

#[test]
fn parses_machine_readable_systemctl_properties() {
    let output = "\
Id=alpha.service
LoadState=loaded
ActiveState=active
SubState=running
Description=Alpha worker service

Id=beta.service
LoadState=not-found
ActiveState=inactive
SubState=dead
Description=
";

    assert_eq!(
        parse_systemctl_show(output),
        vec![
            ServiceInfo {
                unit: "alpha.service".into(),
                load_state: "loaded".into(),
                active_state: "active".into(),
                sub_state: "running".into(),
                description: "Alpha worker service".into(),
            },
            ServiceInfo {
                unit: "beta.service".into(),
                load_state: "not-found".into(),
                active_state: "inactive".into(),
                sub_state: "dead".into(),
                description: String::new(),
            },
        ]
    );
}

#[test]
fn skips_incomplete_records_without_unit_identity() {
    let output = "ActiveState=active\nDescription=no identity\n\nId=real.service\n";

    assert_eq!(
        parse_systemctl_show(output),
        vec![ServiceInfo {
            unit: "real.service".into(),
            ..ServiceInfo::default()
        }]
    );
}

#[test]
fn property_values_may_contain_equals_signs() {
    let output = "Id=query.service\nDescription=Worker with A=B\n";

    assert_eq!(
        parse_systemctl_show(output)[0].description,
        "Worker with A=B"
    );
}

#[test]
fn services_are_listed_by_unit_and_each_once() {
    let output = "Id=c\n\nId=a\nDescription=first\n\nId=b\n\nId=a\nDescription=second\n";
    let listed: Vec<(String, String)> = services_from_text(output)
        .into_iter()
        .map(|service| (service.unit, service.description))
        .collect();

    assert_eq!(
        listed,
        [
            ("a".to_owned(), "first".to_owned()),
            ("b".to_owned(), String::new()),
            ("c".to_owned(), String::new()),
        ]
    );
    let snapshot = collect_services(CommandOutcome::Finished {
        success: true,
        stdout: output.as_bytes().to_vec(),
        stderr: b"a warning\n".to_vec(),
    });
    assert_eq!(snapshot.error, None);
    assert_eq!(snapshot.services.len(), 3);
}

#[test]
fn paused_collector_runs_no_command_until_resumed_with_one_refresh() {
    let mut control = CollectorControl::new(3600 * SECOND, true);
    let mut progress = ServiceRefreshProgress::default();
    assert_eq!(control.poll(Deadline::At(0), 0), WaitStep::Sleep);

    control.request_refresh(1);
    control.set_paused(false);
    let WaitStep::Wake(wake) = control.poll(Deadline::At(0), 0) else {
        panic!("a collector that goes on serves what was asked for");
    };
    let CollectionStep::Collect(generation) = CollectionStep::after_waiting(wake) else {
        panic!("a refresh is a collection");
    };
    let snapshot = progress.finish_collection(empty_snapshot(), generation);
    assert_eq!(snapshot.completed_refresh_generation, 1);

    assert_eq!(
        control.poll(Deadline::PeriodAfter(0), 0),
        WaitStep::SleepFor(3600 * SECOND),
        "resume plus refresh must collect exactly once"
    );
}
