use std::cell::{Cell, RefCell};
use std::collections::VecDeque;

use tuxctl::linux::journal::{priority_label, JournalEntry};
use tuxctl::linux::journal_reader::{
    drain_journal_entries, entry_from_fields, parse_journal_json, JournalDrain, JournalFailure,
    JournalFields, JournalReader, JournalStatus, LineStep, Received, SendOutcome, SendStep,
    JOURNAL_MAX_BATCH,
};

/// How many entries the queue between the reader and the screen holds.
const CHANNEL_CAPACITY: usize = 512;

fn entry(id: u64) -> JournalEntry {
    JournalEntry {
        id,
        timestamp_micros: Some(id),
        source: "test".into(),
        priority: Some(6),
        message: format!("entry {id}"),
    }
}

fn entry_ids(entries: &[JournalEntry]) -> Vec<u64> {
    entries.iter().map(|entry| entry.id).collect()
}

/// A queue of entries whose other end is there or gone.
struct Queue {
    entries: RefCell<VecDeque<JournalEntry>>,
    open: Cell<bool>,
}

impl Queue {
    fn new(ids: std::ops::Range<u64>) -> Self {
        Queue {
            entries: RefCell::new(ids.map(entry).collect()),
            open: Cell::new(true),
        }
    }

    fn try_recv(&self) -> Received {
        match self.entries.borrow_mut().pop_front() {
            Some(entry) => Received::Entry(entry),
            None if self.open.get() => Received::Empty,
            None => Received::Disconnected,
        }
    }

    fn drain(&self) -> JournalDrain {
        drain_journal_entries(self, |queue| (queue.try_recv(), queue)).0
    }
}

#[test]
fn parses_structured_journal_entry_with_unit() {
    let entry = parse_journal_json(
        r#"{"__REALTIME_TIMESTAMP":"1720000123456789","_SYSTEMD_UNIT":"sshd.service","SYSLOG_IDENTIFIER":"sshd","PRIORITY":"4","MESSAGE":"Login failed: a=b"}"#,
        9,
    )
    .unwrap();

    assert_eq!(entry.id, 9);
    assert_eq!(entry.timestamp_micros, Some(1_720_000_123_456_789));
    assert_eq!(entry.source, "sshd.service");
    assert_eq!(entry.priority, Some(4));
    assert_eq!(entry.message, "Login failed: a=b");
}

#[test]
fn falls_back_to_process_source_and_handles_optional_fields() {
    let entry = parse_journal_json(r#"{"_COMM":"kernel-worker","MESSAGE":[1,2,3]}"#, 1).unwrap();

    assert_eq!(entry.timestamp_micros, None);
    assert_eq!(entry.source, "kernel-worker");
    assert_eq!(entry.priority, None);
    assert_eq!(entry.message, "<binary or empty message>");
}

#[test]
fn rejects_malformed_json_without_panicking() {
    assert_eq!(parse_journal_json("not-json", 1), None);
}

#[test]
fn values_that_are_no_objects_have_no_fields() {
    for line in ["[1]", "\"text\"", "null", "{}"] {
        let entry = parse_journal_json(line, 3).unwrap();
        assert_eq!(entry.source, "journal");
        assert_eq!(entry.message, "<binary or empty message>");
    }
}

fn fields() -> JournalFields {
    JournalFields {
        timestamp: None,
        unit: None,
        user_unit: None,
        identifier: None,
        comm: None,
        priority: None,
        message: None,
    }
}

#[test]
fn the_source_is_the_first_of_four_fields() {
    let named = |fields: JournalFields| entry_from_fields(fields, 1).source;
    let some = |text: &str| Some(text.to_owned());

    assert_eq!(
        named(JournalFields {
            user_unit: some("user"),
            identifier: some("name"),
            comm: some("comm"),
            ..fields()
        }),
        "user"
    );
    assert_eq!(
        named(JournalFields {
            identifier: some("name"),
            comm: some("comm"),
            ..fields()
        }),
        "name"
    );
    assert_eq!(named(fields()), "journal");
}

#[test]
fn numbers_that_do_not_fit_are_left_out() {
    let entry = entry_from_fields(
        JournalFields {
            timestamp: Some("18446744073709551616".into()),
            priority: Some("256".into()),
            ..fields()
        },
        1,
    );
    assert_eq!((entry.timestamp_micros, entry.priority), (None, None));
    let entry = entry_from_fields(
        JournalFields {
            priority: Some("255".into()),
            ..fields()
        },
        1,
    );
    assert_eq!(entry.priority, Some(255));
    assert_eq!(entry.priority_label(), "-");
}

#[test]
fn severities_have_names() {
    let names: Vec<&str> = (0..9).map(|level| priority_label(Some(level))).collect();

    assert_eq!(
        names,
        ["emerg", "alert", "crit", "error", "warn", "notice", "info", "debug", "-"]
    );
    assert_eq!(priority_label(None), "-");
}

#[test]
fn empty_channel_produces_an_empty_drain() {
    let queue = Queue::new(0..0);

    let drain = queue.drain();

    assert!(drain.entries.is_empty());
    assert!(!drain.disconnected);
}

#[test]
fn drain_returns_every_available_entry_below_the_limit_in_fifo_order() {
    let queue = Queue::new(1..JOURNAL_MAX_BATCH as u64);

    let drain = queue.drain();

    assert_eq!(
        entry_ids(&drain.entries),
        (1..JOURNAL_MAX_BATCH as u64).collect::<Vec<_>>()
    );
    assert!(!drain.disconnected);
}

#[test]
fn bounded_drains_leave_remaining_entries_and_preserve_global_fifo_order() {
    let total = JOURNAL_MAX_BATCH * 2 + 5;
    let queue = Queue::new(1..total as u64 + 1);

    let first = queue.drain();
    let second = queue.drain();
    let third = queue.drain();
    let mut all_ids = entry_ids(&first.entries);
    all_ids.extend(entry_ids(&second.entries));
    all_ids.extend(entry_ids(&third.entries));

    assert_eq!(first.entries.len(), JOURNAL_MAX_BATCH);
    assert_eq!(second.entries.len(), JOURNAL_MAX_BATCH);
    assert_eq!(third.entries.len(), 5);
    assert_eq!(all_ids, (1..=total as u64).collect::<Vec<_>>());
}

#[test]
fn continuously_ready_source_cannot_exceed_one_batch_budget() {
    let (drain, next_id) =
        drain_journal_entries(1_u64, |id| (Received::Entry(entry(id)), id + 1));

    assert_eq!(drain.entries.len(), JOURNAL_MAX_BATCH);
    assert_eq!(
        entry_ids(&drain.entries),
        (1..=JOURNAL_MAX_BATCH as u64).collect::<Vec<_>>()
    );
    assert_eq!(next_id, JOURNAL_MAX_BATCH as u64 + 1);
}

#[test]
fn a_drain_asks_no_further_than_the_first_that_is_no_entry() {
    for (end, disconnected) in [(Received::Empty, false), (Received::Disconnected, true)] {
        let queue = vec![
            Received::Entry(entry(3)),
            end,
            Received::Entry(entry(2)),
            Received::Entry(entry(1)),
        ];
        let (drain, rest) = drain_journal_entries(queue, |mut queue| {
            (queue.pop().expect("asked too often"), queue)
        });

        assert_eq!(entry_ids(&drain.entries), [1, 2]);
        assert_eq!(drain.disconnected, disconnected);
        assert_eq!(rest, [Received::Entry(entry(3))]);
    }
}

#[test]
fn a_drain_takes_in_one_outcome_after_the_other() {
    let mut drain = JournalDrain {
        entries: Vec::new(),
        disconnected: false,
    };
    for id in 1..JOURNAL_MAX_BATCH as u64 {
        assert!(drain.take_in(Received::Entry(entry(id))));
    }
    assert!(!drain.take_in(Received::Empty));
    assert!(!drain.disconnected);
    assert!(!drain.take_in(Received::Entry(entry(JOURNAL_MAX_BATCH as u64))));
    assert!(!drain.take_in(Received::Disconnected));
    assert!(drain.disconnected);
    assert_eq!(
        entry_ids(&drain.entries),
        (1..=JOURNAL_MAX_BATCH as u64).collect::<Vec<_>>()
    );
}

#[test]
fn full_entry_queue_cannot_hide_reader_failure() {
    let queue = Queue::new(1..CHANNEL_CAPACITY as u64 + 1);
    let mut status = JournalStatus::new();
    let mut reader = JournalReader::new();
    let LineStep::Fail(failure) = reader.read_line(Err("simulated read failure".into())) else {
        panic!("a failure to read ends the journal");
    };
    status.report_terminal_error(&failure);

    let batch = status
        .latest(queue.drain(), false, 0)
        .expect("entries and error are observable");

    assert_eq!(batch.entries.len(), JOURNAL_MAX_BATCH);
    assert_eq!(
        batch.error.as_deref(),
        Some("journal stream read failed: simulated read failure")
    );
    assert_eq!(
        status.terminal_error.as_deref(),
        Some("journal stream read failed: simulated read failure")
    );
}

#[test]
fn no_data_and_terminal_failure_are_distinct_states() {
    let queue = Queue::new(0..0);
    let mut status = JournalStatus::new();

    assert_eq!(status.latest(queue.drain(), false, 0), None);

    status.report_terminal_error(&JournalFailure::Ended);
    queue.open.set(false);
    let batch = status
        .latest(queue.drain(), false, 0)
        .expect("terminal state is observable");
    assert!(batch.entries.is_empty());
    assert_eq!(batch.error.as_deref(), Some("journal stream ended"));
    assert_eq!(status.latest(queue.drain(), false, 0), None);
}

#[test]
fn unexplained_sender_disconnect_reports_terminal_failure_once() {
    let queue = Queue::new(0..0);
    let mut status = JournalStatus::new();
    queue.open.set(false);

    let batch = status
        .latest(queue.drain(), false, 0)
        .expect("disconnect is observable");

    assert_eq!(
        batch.error.as_deref(),
        Some("journal reader stopped unexpectedly")
    );
    assert_eq!(status.latest(queue.drain(), false, 0), None);
}

#[test]
fn a_reader_that_finished_is_reported_like_a_lost_queue() {
    let mut status = JournalStatus::new();
    let batch = status.latest(Queue::new(0..0).drain(), true, 0).unwrap();

    assert_eq!(
        batch.error.as_deref(),
        Some("journal reader stopped unexpectedly")
    );
}

#[test]
fn dropped_entries_alone_make_a_batch() {
    let mut status = JournalStatus::new();
    let batch = status.latest(Queue::new(0..0).drain(), false, 4).unwrap();

    assert_eq!(batch.dropped, 4);
    assert_eq!(batch.error, None);
}

#[test]
fn stream_eof_reports_terminal_status_before_reading_stderr() {
    let queue = Queue::new(0..0);
    let mut status = JournalStatus::new();
    status.report_terminal_error(&JournalFailure::Ended);
    queue.open.set(false);

    let batch = status
        .latest(queue.drain(), true, 0)
        .expect("EOF status is observable");

    assert_eq!(batch.error.as_deref(), Some("journal stream ended"));
}

#[test]
fn reader_stops_cleanly_when_consumer_disconnects() {
    let mut reader = JournalReader::new();
    let step = reader.read_line(Ok(r#"{"MESSAGE":"entry after shutdown"}"#.into()));

    assert!(matches!(step, LineStep::Send(_)));
    assert_eq!(JournalReader::sent(SendOutcome::Disconnected), SendStep::Stop);
    assert_eq!(JournalReader::sent(SendOutcome::Full), SendStep::Drop);
    assert_eq!(JournalReader::sent(SendOutcome::Sent), SendStep::Continue);
}

#[test]
fn lines_are_numbered_and_malformed_ones_take_no_number() {
    let mut reader = JournalReader::new();
    let mut read = |line: &str| match reader.read_line(Ok(line.to_owned())) {
        LineStep::Send(entry) => Some(entry.id),
        LineStep::Drop => None,
        LineStep::Fail(failure) => panic!("{failure:?}"),
    };

    assert_eq!(read("{}"), Some(1));
    assert_eq!(read("not-json"), None);
    assert_eq!(read("{}"), Some(2));

    let mut last = JournalReader { next_id: u64::MAX };
    assert!(matches!(
        last.read_line(Ok("{}".into())),
        LineStep::Send(entry) if entry.id == u64::MAX
    ));
    assert_eq!(last.next_id, 1);
}

#[test]
fn failures_are_put_in_words() {
    let texts: Vec<String> = [
        JournalFailure::CannotStart("no program".into()),
        JournalFailure::NoOutput,
        JournalFailure::NoThread("no room".into()),
    ]
    .iter()
    .map(JournalFailure::message)
    .collect();

    assert_eq!(
        texts,
        [
            "cannot start journalctl: no program",
            "journalctl did not provide an output stream",
            "cannot start journal reader thread: no room",
        ]
    );
}

#[test]
fn only_the_first_failure_counts() {
    let mut status = JournalStatus::new();
    status.report_terminal_error(&JournalFailure::Ended);
    status.report_terminal_error(&JournalFailure::NoOutput);

    assert_eq!(status.terminal_error.as_deref(), Some("journal stream ended"));
}
