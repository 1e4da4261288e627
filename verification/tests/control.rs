use tuxctl::linux::control::{CollectorControl, CollectorWake, Deadline, PeriodicStep, WaitStep};
use tuxctl::time::{MILLISECOND, SECOND};

/// One look at the control of a collector whose wait ends at once.
fn wait_no_time(control: &mut CollectorControl) -> WaitStep {
    control.poll(Deadline::At(0), 0)
}

#[test]
fn repeated_refresh_requests_coalesce_to_one_pending_wake() {
    let mut control = CollectorControl::default();

    for generation in 1..=10_000 {
        control.request_refresh(generation);
    }

    assert_eq!(
        wait_no_time(&mut control),
        WaitStep::Wake(CollectorWake::Refresh(10_000))
    );
    assert_eq!(
        wait_no_time(&mut control),
        WaitStep::Wake(CollectorWake::Timeout)
    );
}

#[test]
fn stop_takes_priority_over_a_pending_refresh() {
    let mut control = CollectorControl::default();
    control.request_refresh(1);

    control.stop();

    assert_eq!(
        wait_no_time(&mut control),
        WaitStep::Wake(CollectorWake::Stop)
    );
}

#[test]
fn a_stopped_collector_takes_no_requests() {
    let mut control = CollectorControl::default();
    control.stop();

    assert!(!control.request_refresh(5));
    assert_eq!(control.pending_refresh_generation, None);
}

#[test]
fn an_earlier_request_does_not_replace_a_later_one() {
    let mut control = CollectorControl::default();
    assert!(control.request_refresh(7));
    assert!(control.request_refresh(3));

    assert_eq!(
        wait_no_time(&mut control),
        WaitStep::Wake(CollectorWake::Refresh(7))
    );
}

#[test]
fn paused_wait_ignores_timeouts_until_resumed() {
    let mut control = CollectorControl::new(SECOND, true);
    let deadline = Deadline::At(10 * MILLISECOND);

    assert_eq!(control.poll(deadline, 100 * MILLISECOND), WaitStep::Sleep);
    assert!(control.set_paused(false));

    assert_eq!(
        control.poll(deadline, 100 * MILLISECOND),
        WaitStep::Wake(CollectorWake::Timeout)
    );
}

#[test]
fn refresh_requested_while_paused_is_served_once_on_resume() {
    let mut control = CollectorControl::new(SECOND, true);
    let deadline = Deadline::At(3600 * SECOND);

    control.request_refresh(3);
    assert_eq!(control.poll(deadline, 50 * MILLISECOND), WaitStep::Sleep);
    control.set_paused(false);

    assert_eq!(
        control.poll(deadline, 50 * MILLISECOND),
        WaitStep::Wake(CollectorWake::Refresh(3))
    );
    assert_eq!(
        wait_no_time(&mut control),
        WaitStep::Wake(CollectorWake::Timeout)
    );
}

#[test]
fn stop_wakes_a_paused_worker() {
    let mut control = CollectorControl::new(SECOND, true);

    control.stop();

    assert_eq!(
        control.poll(Deadline::At(3600 * SECOND), 0),
        WaitStep::Wake(CollectorWake::Stop)
    );
}

#[test]
fn a_shorter_period_applies_from_the_start_of_the_wait() {
    let mut control = CollectorControl::new(3600 * SECOND, false);
    let deadline = Deadline::PeriodAfter(SECOND);

    assert!(control.set_period(300 * MILLISECOND));

    assert_eq!(
        control.poll(deadline, SECOND + 50 * MILLISECOND),
        WaitStep::SleepFor(250 * MILLISECOND)
    );
    assert_eq!(
        control.poll(deadline, SECOND + 300 * MILLISECOND),
        WaitStep::Wake(CollectorWake::Timeout)
    );
}

#[test]
fn a_period_already_elapsed_collects_at_once() {
    let mut control = CollectorControl::new(3600 * SECOND, false);

    control.set_period(50 * MILLISECOND);

    assert_eq!(
        control.poll(Deadline::PeriodAfter(0), 150 * MILLISECOND),
        WaitStep::Wake(CollectorWake::Timeout)
    );
}

#[test]
fn a_longer_period_extends_the_wait() {
    let mut control = CollectorControl::new(100 * MILLISECOND, false);

    control.set_period(400 * MILLISECOND);

    assert_eq!(
        control.poll(Deadline::PeriodAfter(0), 100 * MILLISECOND),
        WaitStep::SleepFor(300 * MILLISECOND)
    );
}

#[test]
fn an_unchanged_period_or_pause_notifies_nobody() {
    let mut control = CollectorControl::new(SECOND, false);

    assert!(!control.set_period(SECOND));
    assert!(!control.set_paused(false));
}

#[test]
fn stop_wins_over_a_period_change() {
    let mut control = CollectorControl::new(3600 * SECOND, false);

    control.stop();
    control.set_period(0);

    assert_eq!(
        control.poll(Deadline::PeriodAfter(0), 0),
        WaitStep::Wake(CollectorWake::Stop)
    );
}

#[test]
fn a_period_beyond_the_clock_waits_for_its_end() {
    let mut control = CollectorControl::new(u64::MAX, false);

    assert_eq!(
        control.poll(Deadline::PeriodAfter(5), 5),
        WaitStep::SleepFor(u64::MAX - 5)
    );
}

#[test]
fn periodic_worker_publishes_until_stopped() {
    let mut control = CollectorControl::new(5 * MILLISECOND, false);
    let mut published = Vec::new();
    let mut sample = 0;
    let mut now = 0;
    let mut step = PeriodicStep::first();
    while step != PeriodicStep::End {
        step = match step {
            PeriodicStep::Collect => {
                sample += 1;
                published.push(sample);
                if sample == 3 {
                    control.stop();
                }
                PeriodicStep::after_publishing(true)
            }
            _ => {
                let started = now;
                now += 5 * MILLISECOND;
                match control.poll(Deadline::PeriodAfter(started), now) {
                    WaitStep::Wake(wake) => PeriodicStep::after_waiting(wake),
                    _ => PeriodicStep::Wait,
                }
            }
        };
    }

    assert_eq!(published, [1, 2, 3]);
}

#[test]
fn dropped_receiver_ends_the_periodic_worker() {
    let mut collections = 0;
    let mut step = PeriodicStep::first();
    while step != PeriodicStep::End {
        assert_eq!(step, PeriodicStep::Collect);
        collections += 1;
        step = PeriodicStep::after_publishing(false);
    }

    assert_eq!(collections, 1);
}

#[test]
fn stop_wakes_and_joins_a_waiting_worker() {
    let mut control = CollectorControl::default();
    let deadline = Deadline::At(60 * SECOND);

    assert_eq!(
        control.poll(deadline, 0),
        WaitStep::SleepFor(60 * SECOND)
    );
    control.stop();
    assert_eq!(
        control.poll(deadline, 0),
        WaitStep::Wake(CollectorWake::Stop)
    );
}

#[test]
fn a_period_set_while_paused_applies_on_resume() {
    let mut control = CollectorControl::new(3600 * SECOND, true);
    let wait = Deadline::PeriodAfter(0);

    control.set_period(10 * MILLISECOND);
    assert_eq!(
        control.poll(wait, 100 * MILLISECOND),
        WaitStep::Sleep,
        "a paused worker must not collect"
    );
    control.set_paused(false);

    assert_eq!(
        control.poll(wait, 100 * MILLISECOND),
        WaitStep::Wake(CollectorWake::Timeout)
    );
}

#[test]
fn repeated_period_changes_do_not_force_extra_collections() {
    let mut control = CollectorControl::new(3600 * SECOND, false);
    let wait = Deadline::PeriodAfter(0);

    for step in 0..100 {
        // Key repeat over presets that are all longer than the time waited.
        control.set_period(if step % 2 == 0 { 60 } else { 30 } * SECOND);
        assert!(matches!(
            control.poll(wait, 50 * MILLISECOND),
            WaitStep::SleepFor(_)
        ));
    }
    assert_eq!(
        control.poll(wait, 150 * MILLISECOND),
        WaitStep::SleepFor(30 * SECOND - 150 * MILLISECOND)
    );
}

#[test]
fn stop_interrupts_a_long_periodic_wait() {
    let mut control = CollectorControl::new(3600 * SECOND, false);
    assert_eq!(PeriodicStep::first(), PeriodicStep::Collect);
    assert_eq!(PeriodicStep::after_publishing(true), PeriodicStep::Wait);

    control.stop();

    let WaitStep::Wake(wake) = control.poll(Deadline::PeriodAfter(0), 0) else {
        panic!("a stopped collector does not wait");
    };
    assert_eq!(PeriodicStep::after_waiting(wake), PeriodicStep::End);
}
