//! Reading the journal as it is written.
use vstd::prelude::*;

use crate::linux::device_text;
use crate::linux::device_text::pick;
use crate::linux::journal::{JournalBatch, JournalEntry};
use crate::numerals;
use crate::numerals::{parse_u32, parse_u64};
use crate::text;
use crate::text::copy_optional_text;

verus! {

broadcast use vstd::string::group_string_axioms;

/// `serde_json::Value`: one value in JSON.
#[verifier::external_type_specification]
#[verifier::external_body]
pub struct ExJsonValue(serde_json::Value);

/// `serde_json::Error`: why a text is not JSON.
#[verifier::external_type_specification]
#[verifier::external_body]
pub struct ExJsonError(serde_json::Error);

/// The fields of a JSON object whose values are strings. A value that is no object has none.
pub uninterp spec fn string_fields(value: serde_json::Value) -> Map<Seq<char>, Seq<char>>;

/// The string fields of the JSON value that a text is taken for; `None` where it is taken for none.
pub uninterp spec fn json_strings(line: Seq<char>) -> Option<Map<Seq<char>, Seq<char>>>;

/// Calls `serde_json::from_str`. Whether the text is taken for a JSON value, and which string
/// fields that value has, depends on the text alone.
#[verifier::external_body]
fn parse_json(line: &str) -> (value: Result<serde_json::Value, serde_json::Error>)
    ensures
        match value {
            Ok(value) => json_strings(line@) == Some(string_fields(value)),
            Err(_) => json_strings(line@) is None,
        },
{
    serde_json::from_str::<serde_json::Value>(line)
}

/// Calls `serde_json::Value::get` and then `as_str`: the string under a name, where the value is
/// an object that has a string there.
#[verifier::external_body]
fn field(object: &serde_json::Value, name: &str) -> (text: Option<String>)
    ensures
        match text {
            Some(text) => string_fields(*object).dom().contains(name@) && string_fields(
                *object,
            )[name@] == text@,
            None => !string_fields(*object).dom().contains(name@),
        },
{
    object.get(name)?.as_str().map(str::to_owned)
}

/// The fields of an entry that are read.
pub struct JournalFields {
    pub timestamp: Option<String>,
    pub unit: Option<String>,
    pub user_unit: Option<String>,
    pub identifier: Option<String>,
    pub comm: Option<String>,
    pub priority: Option<String>,
    pub message: Option<String>,
}

/// The text of a field, where there is one.
pub open spec fn field_text(fields: Map<Seq<char>, Seq<char>>, name: Seq<char>) -> Option<Seq<char>> {
    if fields.dom().contains(name) {
        Some(fields[name])
    } else {
        None
    }
}

/// A number of at most `max` in a text that may be missing.
pub open spec fn number_in(text: Option<Seq<char>>, max: int) -> Option<int> {
    match text {
        Some(text) => numerals::unsigned(text, max),
        None => None,
    }
}

/// The source of an entry: its unit, or else the unit of the user, the name it was logged under
/// or the command.
pub open spec fn source_text(
    unit: Option<Seq<char>>,
    user_unit: Option<Seq<char>>,
    identifier: Option<Seq<char>>,
    comm: Option<Seq<char>>,
) -> Seq<char> {
    match device_text::either(unit, device_text::either(user_unit, device_text::either(identifier, comm))) {
        Some(source) => source,
        None => "journal"@,
    }
}

/// The text of a message, or what is shown in its place.
pub open spec fn message_text(message: Option<Seq<char>>) -> Seq<char> {
    match message {
        Some(message) => message,
        None => "<binary or empty message>"@,
    }
}

impl JournalEntry {
    /// The entry is the one with these fields.
    pub open spec fn written_as(
        self,
        id: u64,
        timestamp: Option<Seq<char>>,
        source: Seq<char>,
        priority: Option<Seq<char>>,
        message: Option<Seq<char>>,
    ) -> bool {
        &&& self.id == id
        &&& match self.timestamp_micros {
            Some(micros) => number_in(timestamp, u64::MAX as int) == Some(micros as int),
            None => number_in(timestamp, u64::MAX as int) is None,
        }
        &&& self.source@ == source
        &&& match self.priority {
            Some(level) => number_in(priority, u8::MAX as int) == Some(level as int),
            None => number_in(priority, u8::MAX as int) is None,
        }
        &&& self.message@ == message_text(message)
    }

    /// The entry is the one that a JSON object with these string fields describes.
    pub open spec fn described_by(self, id: u64, fields: Map<Seq<char>, Seq<char>>) -> bool {
        self.written_as(
            id,
            field_text(fields, "__REALTIME_TIMESTAMP"@),
            source_text(
                field_text(fields, "_SYSTEMD_UNIT"@),
                field_text(fields, "_SYSTEMD_USER_UNIT"@),
                field_text(fields, "SYSLOG_IDENTIFIER"@),
                field_text(fields, "_COMM"@),
            ),
            field_text(fields, "PRIORITY"@),
            field_text(fields, "MESSAGE"@),
        )
    }
}

fn read_level(priority: &Option<String>) -> (level: Option<u8>)
    ensures
        match level {
            Some(level) => number_in(text::optional_view(*priority), u8::MAX as int) == Some(
                level as int,
            ),
            None => number_in(text::optional_view(*priority), u8::MAX as int) is None,
        },
{
    match priority {
        Some(text) => match parse_u32(text.as_str()) {
            Some(number) => if number <= 255 {
                Some(number as u8)
            } else {
                None
            },
            None => None,
        },
        None => None,
    }
}

/// The entry with these fields.
pub fn entry_from_fields(fields: JournalFields, id: u64) -> (entry: JournalEntry)
    ensures
        entry.written_as(
            id,
            text::optional_view(fields.timestamp),
            source_text(
                text::optional_view(fields.unit),
                text::optional_view(fields.user_unit),
                text::optional_view(fields.identifier),
                text::optional_view(fields.comm),
            ),
            text::optional_view(fields.priority),
            text::optional_view(fields.message),
        ),
{
    let timestamp_micros = match &fields.timestamp {
        Some(text) => parse_u64(text.as_str()),
        None => None,
    };
    let priority = read_level(&fields.priority);
    let named = pick(fields.unit, pick(fields.user_unit, pick(fields.identifier, fields.comm)));
    let source = match named {
        Some(source) => source,
        None => String::from_str("journal"),
    };
    let message = match fields.message {
        Some(message) => message,
        None => String::from_str("<binary or empty message>"),
    };
    JournalEntry { id, timestamp_micros, source, priority, message }
}

/// The entry that a line of JSON describes. A line that is not JSON describes none.
pub fn parse_journal_json(line: &str, id: u64) -> (entry: Option<JournalEntry>)
    ensures
        match entry {
            Some(entry) => json_strings(line@) is Some && entry.described_by(
                id,
                json_strings(line@)->0,
            ),
            None => json_strings(line@) is None,
        },
{
    match parse_json(line) {
        Ok(object) => Some(
            entry_from_fields(
                JournalFields {
                    timestamp: field(&object, "__REALTIME_TIMESTAMP"),
                    unit: field(&object, "_SYSTEMD_UNIT"),
                    user_unit: field(&object, "_SYSTEMD_USER_UNIT"),
                    identifier: field(&object, "SYSLOG_IDENTIFIER"),
                    comm: field(&object, "_COMM"),
                    priority: field(&object, "PRIORITY"),
                    message: field(&object, "MESSAGE"),
                },
                id,
            ),
        ),
        Err(_) => None,
    }
}

/// Why the journal cannot be read, or no longer.
#[derive(Debug, Clone, PartialEq, Eq)]
pub enum JournalFailure {
    CannotStart(String),
    NoOutput,
    NoThread(String),
    ReadFailed(String),
    Ended,
    Stopped,
}

impl JournalFailure {
    /// The failure in words.
    pub open spec fn text(self) -> Seq<char> {
        match self {
            JournalFailure::CannotStart(error) => "cannot start journalctl: "@ + error@,
            JournalFailure::NoOutput => "journalctl did not provide an output stream"@,
            JournalFailure::NoThread(error) => "cannot start journal reader thread: "@ + error@,
            JournalFailure::ReadFailed(error) => "journal stream read failed: "@ + error@,
            JournalFailure::Ended => "journal stream ended"@,
            JournalFailure::Stopped => "journal reader stopped unexpectedly"@,
        }
    }

    pub fn message(&self) -> (text: String)
        ensures
            text@ == self.text(),
    {
        match self {
            JournalFailure::CannotStart(error) => with_detail("cannot start journalctl: ", error),
            JournalFailure::NoOutput => String::from_str(
                "journalctl did not provide an output stream",
            ),
            JournalFailure::NoThread(error) => with_detail(
                "cannot start journal reader thread: ",
                error,
            ),
            JournalFailure::ReadFailed(error) => with_detail("journal stream read failed: ", error),
            JournalFailure::Ended => String::from_str("journal stream ended"),
            JournalFailure::Stopped => String::from_str("journal reader stopped unexpectedly"),
        }
    }
}

fn with_detail(what: &str, detail: &String) -> (text: String)
    ensures
        text@ == what@ + detail@,
{
    let mut text = String::from_str(what);
    text.append(detail.as_str());
    text
}

/// The number of the entry after this one. Zero is no number.
pub open spec fn id_after(id: u64) -> u64 {
    if id == u64::MAX {
        1
    } else {
        (id + 1) as u64
    }
}

/// What becomes of a line.
#[derive(Debug, PartialEq, Eq)]
pub enum LineStep {
    /// The entry goes on to the screen.
    Send(JournalEntry),
    /// The line is dropped, and counted.
    Drop,
    /// Reading ends with this failure.
    Fail(JournalFailure),
}

/// What follows the attempt to pass an entry on.
#[derive(Debug, Clone, Copy, PartialEq, Eq, Structural)]
pub enum SendStep {
    Continue,
    /// There was no room. The entry is dropped, and counted.
    Drop,
    /// Nobody takes entries any more.
    Stop,
}

/// Whether an entry was passed on.
#[derive(Debug, Clone, Copy, PartialEq, Eq, Structural)]
pub enum SendOutcome {
    Sent,
    Full,
    Disconnected,
}

/// Turns lines into entries and numbers them.
#[derive(Debug, Clone, PartialEq, Eq)]
pub struct JournalReader {
    pub next_id: u64,
}

impl JournalReader {
    pub fn new() -> (reader: JournalReader)
        ensures
            reader.next_id == 1,
    {
        JournalReader { next_id: 1 }
    }

    /// What becomes of a line, or of the failure to read one. Only an entry takes a number.
    pub fn read_line(&mut self, line: Result<String, String>) -> (step: LineStep)
        ensures
            match line {
                Ok(line) => match step {
                    LineStep::Send(entry) => {
                        &&& json_strings(line@) is Some
                        &&& entry.described_by(old(self).next_id, json_strings(line@)->0)
                        &&& final(self).next_id == id_after(old(self).next_id)
                    },
                    LineStep::Drop => json_strings(line@) is None && final(self).next_id == old(
                        self,
                    ).next_id,
                    LineStep::Fail(_) => false,
                },
                Err(error) => step == LineStep::Fail(JournalFailure::ReadFailed(error))
                    && final(self).next_id == old(self).next_id,
            },
    {
        match line {
            Ok(line) => match parse_journal_json(line.as_str(), self.next_id) {
                Some(entry) => {
                    self.next_id = if self.next_id == u64::MAX {
                        1
                    } else {
                        self.next_id + 1
                    };
                    LineStep::Send(entry)
                },
                None => LineStep::Drop,
            },
            Err(error) => LineStep::Fail(JournalFailure::ReadFailed(error)),
        }
    }

    /// What follows the attempt to pass an entry on.
    pub fn sent(outcome: SendOutcome) -> (step: SendStep)
        ensures
            step == (match outcome {
                SendOutcome::Sent => SendStep::Continue,
                SendOutcome::Full => SendStep::Drop,
                SendOutcome::Disconnected => SendStep::Stop,
            }),
    {
        match outcome {
            SendOutcome::Sent => SendStep::Continue,
            SendOutcome::Full => SendStep::Drop,
            SendOutcome::Disconnected => SendStep::Stop,
        }
    }
}

/// As many entries are taken over at a time, so that a journal that never pauses cannot hold up
/// everything else.
pub const JOURNAL_MAX_BATCH: usize = 64;

/// What came out of the queue of entries.
#[derive(Debug, PartialEq, Eq)]
pub enum Received {
    Entry(JournalEntry),
    Empty,
    Disconnected,
}

/// The entries taken over at a time, and whether the other end is gone.
#[derive(Debug, Clone, PartialEq, Eq)]
pub struct JournalDrain {
    pub entries: Vec<JournalEntry>,
    pub disconnected: bool,
}

/// The entries are those that came out one after the other, and then the queue was empty or
/// cut off, or enough entries had come out.
pub open spec fn drained(drain: JournalDrain, outcomes: Seq<Received>) -> bool {
    let count = drain.entries@.len();
    &&& count <= JOURNAL_MAX_BATCH
    &&& forall|i: int|
        0 <= i < count ==> outcomes[i] == Received::Entry(#[trigger] drain.entries@[i])
    &&& if count == JOURNAL_MAX_BATCH {
        outcomes.len() == count && !drain.disconnected
    } else {
        &&& outcomes.len() == count + 1
        &&& outcomes[count as int] == if drain.disconnected {
            Received::Disconnected
        } else {
            Received::Empty
        }
    }
}

impl JournalDrain {
    /// Takes in what came out of the queue, and tells whether to ask for more.
    pub fn take_in(&mut self, received: Received) -> (more: bool)
        ensures
            match received {
                Received::Entry(entry) => {
                    &&& final(self).entries@ == old(self).entries@.push(entry)
                    &&& final(self).disconnected == old(self).disconnected
                    &&& more == (final(self).entries@.len() < JOURNAL_MAX_BATCH)
                },
                Received::Empty => {
                    &&& *final(self) == *old(self)
                    &&& !more
                },
                Received::Disconnected => {
                    &&& final(self).entries == old(self).entries
                    &&& final(self).disconnected
                    &&& !more
                },
            },
    {
        match received {
            Received::Entry(entry) => {
                self.entries.push(entry);
                self.entries.len() < JOURNAL_MAX_BATCH
            },
            Received::Empty => false,
            Received::Disconnected => {
                self.disconnected = true;
                false
            },
        }
    }
}

/// The outcomes came out of the queue one after the other: each left the queue behind that the
/// next came out of.
pub open spec fn taken<Q, F>(queues: Seq<Q>, outcomes: Seq<Received>, try_receive: F) -> bool where
    F: Fn(Q) -> (Received, Q),
 {
    &&& queues.len() == outcomes.len() + 1
    &&& forall|i: int|
        0 <= i < outcomes.len() ==> try_receive.ensures(
            (queues[i],),
            (#[trigger] outcomes[i], queues[i + 1]),
        )
}

/// More has to come out of the queue: so far there were entries only, and not enough of them.
pub open spec fn more_wanted(outcomes: Seq<Received>) -> bool {
    &&& outcomes.len() < JOURNAL_MAX_BATCH
    &&& forall|i: int| 0 <= i < outcomes.len() ==> (#[trigger] outcomes[i]) is Entry
}

/// Takes entries out of their queue, in order, until it is empty or enough were taken.
/// `try_receive` takes one out, and gives back the queue without it. The queue is handed back as
/// the last of these left it, so nothing comes out of it that is not in the drain.
pub fn drain_journal_entries<Q, F>(queue: Q, try_receive: F) -> (drained_queue: (JournalDrain, Q)) where
    F: Fn(Q) -> (Received, Q),

    requires
        forall|queues: Seq<Q>, outcomes: Seq<Received>| #[trigger]
            taken(queues, outcomes, try_receive) && queues[0] == queue && more_wanted(outcomes)
                ==> try_receive.requires((queues.last(),)),
    ensures
        exists|queues: Seq<Q>, outcomes: Seq<Received>| #[trigger]
            taken(queues, outcomes, try_receive) && queues[0] == queue && queues.last()
                == drained_queue.1 && drained(drained_queue.0, outcomes),
{
    let mut rest = queue;
    let mut drain = JournalDrain { entries: Vec::new(), disconnected: false };
    let ghost mut queues: Seq<Q> = seq![queue];
    let ghost mut outcomes: Seq<Received> = Seq::empty();
    loop
        invariant
            forall|queues: Seq<Q>, outcomes: Seq<Received>| #[trigger]
                taken(queues, outcomes, try_receive) && queues[0] == queue && more_wanted(outcomes)
                    ==> try_receive.requires((queues.last(),)),
            taken(queues, outcomes, try_receive),
            queues[0] == queue,
            queues.last() == rest,
            !drain.disconnected,
            outcomes.len() == drain.entries@.len() < JOURNAL_MAX_BATCH,
            forall|i: int|
                0 <= i < outcomes.len() ==> #[trigger] outcomes[i] == Received::Entry(
                    drain.entries@[i],
                ),
        decreases JOURNAL_MAX_BATCH - drain.entries@.len(),
    {
        let (received, left) = try_receive(rest);
        let ghost before = outcomes;
        let ghost entries = drain.entries@;
        proof {
            let earlier = queues;
            queues = queues.push(left);
            outcomes = outcomes.push(received);
            assert forall|i: int| 0 <= i < outcomes.len() implies try_receive.ensures(
                (queues[i],),
                (#[trigger] outcomes[i], queues[i + 1]),
            ) by {
                assert(queues[i] == earlier[i]);
                if i < before.len() {
                    assert(outcomes[i] == before[i]);
                    assert(queues[i + 1] == earlier[i + 1]);
                }
            }
            assert(taken(queues, outcomes, try_receive));
        }
        rest = left;
        let more = drain.take_in(received);
        proof {
            assert forall|i: int| 0 <= i < before.len() implies #[trigger] outcomes[i]
                == Received::Entry(drain.entries@[i]) by {
                assert(outcomes[i] == before[i]);
                assert(drain.entries@[i] == entries[i]);
            }
        }
        if !more {
            assert(drained(drain, outcomes));
            return (drain, rest);
        }
    }
}

/// Drains in a row give what one long drain would: the next one goes on where the last left the
/// queue, so that entries keep their order and none is lost between the two.
pub proof fn lemma_drains_join_up<Q, F>(
    queues: Seq<Q>,
    outcomes: Seq<Received>,
    later_queues: Seq<Q>,
    later_outcomes: Seq<Received>,
    try_receive: F,
) where F: Fn(Q) -> (Received, Q)
    requires
        taken(queues, outcomes, try_receive),
        taken(later_queues, later_outcomes, try_receive),
        later_queues[0] == queues.last(),
    ensures
        taken(queues.drop_last() + later_queues, outcomes + later_outcomes, try_receive),
{
    let all_queues = queues.drop_last() + later_queues;
    let all_outcomes = outcomes + later_outcomes;
    assert forall|i: int| 0 <= i < all_outcomes.len() implies try_receive.ensures(
        (all_queues[i],),
        (#[trigger] all_outcomes[i], all_queues[i + 1]),
    ) by {
        if i < outcomes.len() {
            assert(all_outcomes[i] == outcomes[i]);
            assert(all_queues[i] == queues[i]);
            assert(all_queues[i + 1] == queues[i + 1]);
        } else {
            let j = i - outcomes.len();
            assert(all_outcomes[i] == later_outcomes[j]);
            assert(all_queues[i] == later_queues[j]);
            assert(all_queues[i + 1] == later_queues[j + 1]);
        }
    }
}

/// How the journal is getting on: the failure that ended it, which is told once.
#[derive(Debug, Clone, PartialEq, Eq)]
pub struct JournalStatus {
    pub terminal_error: Option<String>,
    pub terminal_error_delivered: bool,
}

impl JournalStatus {
    pub fn new() -> (status: JournalStatus)
        ensures
            status.terminal_error is None,
            !status.terminal_error_delivered,
    {
        JournalStatus { terminal_error: None, terminal_error_delivered: false }
    }

    /// Notes the failure that ended the journal. Only the first one counts.
    pub fn report_terminal_error(&mut self, failure: &JournalFailure)
        ensures
            final(self).terminal_error_delivered == old(self).terminal_error_delivered,
            old(self).terminal_error is Some ==> final(self).terminal_error == old(
                self,
            ).terminal_error,
            old(self).terminal_error is None ==> text::optional_view(final(self).terminal_error) == Some(
                failure.text(),
            ),
    {
        if self.terminal_error.is_none() {
            self.terminal_error = Some(failure.message());
        }
    }

    /// The failure to be told now: once the reader is gone there is one, and each is told once.
    pub open spec fn untold(self, gone: bool) -> Option<Seq<char>> {
        if self.terminal_error_delivered {
            None
        } else {
            match self.terminal_error {
                Some(error) => Some(error@),
                None => if gone {
                    Some(JournalFailure::Stopped.text())
                } else {
                    None
                },
            }
        }
    }

    /// There is something to tell: entries, that some were dropped, or a failure.
    pub open spec fn has_news(self, entries: nat, dropped: usize, gone: bool) -> bool {
        entries > 0 || dropped > 0 || self.untold(gone) is Some
    }

    /// What is new: the entries taken over, how many were dropped, and the failure that ended
    /// the journal, where it was not told yet. `worker_finished` tells that the reader is gone.
    pub fn latest(&mut self, drain: JournalDrain, worker_finished: bool, dropped: usize) -> (batch:
        Option<JournalBatch>)
        ensures
            ({
                let gone = drain.disconnected || worker_finished;
                let error = old(self).untold(gone);
                &&& text::optional_view(final(self).terminal_error) == (match old(self).terminal_error {
                    Some(error) => Some(error@),
                    None => if gone {
                        Some(JournalFailure::Stopped.text())
                    } else {
                        None
                    },
                })
                &&& final(self).terminal_error_delivered == (old(self).terminal_error_delivered
                    || error is Some)
                &&& batch is Some == old(self).has_news(drain.entries@.len(), dropped, gone)
                &&& batch matches Some(batch) ==> batch.entries == drain.entries && batch.dropped
                    == dropped && text::optional_view(batch.error) == error
            }),
    {
        if drain.disconnected || worker_finished {
            self.report_terminal_error(&JournalFailure::Stopped);
        }
        let error = if self.terminal_error_delivered {
            None
        } else {
            copy_optional_text(&self.terminal_error)
        };
        if error.is_some() {
            self.terminal_error_delivered = true;
        }
        if drain.entries.len() > 0 || dropped > 0 || error.is_some() {
            Some(JournalBatch { entries: drain.entries, dropped, error })
        } else {
            None
        }
    }
}

/// A failure that was told is not told again.
pub proof fn lemma_failure_is_told_once(status: JournalStatus, gone: bool)
    requires
        status.terminal_error_delivered,
    ensures
        status.untold(gone) is None,
{
}

/// Numbers go up by one, and zero is never given out.
pub proof fn lemma_ids_go_up(id: u64)
    ensures
        id_after(id) > 0,
        id < u64::MAX ==> id_after(id) == id + 1,
{
}

} // verus!
