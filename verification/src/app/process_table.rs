//! The table of processes: its rows, its selection and the processes pinned to its top.
use vstd::prelude::*;

use crate::action::{PinMove, ProcessSort, ProcessSortField};
use crate::app::process_laws;
use crate::app::process_order;
use crate::app::process_order::{process_matches, ByColumn, ProcessKeys};
use crate::app::scroll;
use crate::app::scroll::{calculate_scroll, Step};
use crate::likeness;
use crate::likeness::all_equal;
use crate::linux::process;
use crate::linux::process::{ProcessIdentity, ProcessInfo, ProcessSummary};
use crate::order;
use crate::order::arrange;
use crate::text;
use crate::text::{characters, to_lowercase};
use crate::time::{saturating_since, Nanos};

verus! {

broadcast use vstd::string::group_string_axioms;

/// Upper bound on pinned processes; keeps the pinned section within a small terminal.
pub const MAX_PINNED_PROCESSES: usize = 8;

/// How long an exited pinned process stays listed.
pub const EXITED_PIN_LINGER: Nanos = 5_000_000_000;

/// A process the user pinned to the top of the table, identified by PID and start time so
/// that a reused PID never inherits the pin.
#[derive(Debug)]
pub struct PinnedProcess {
    pub identity: ProcessIdentity,
    pub exited: Option<ExitedPin>,
}

#[derive(Debug)]
pub struct ExitedPin {
    /// The process as last seen, shown dimmed until the pin is dropped.
    pub last_seen: ProcessInfo,
    /// Set by the first tick after the exit was noticed.
    pub since: Option<Nanos>,
}

/// One row of the table.
#[derive(Debug, Clone, Copy, PartialEq, Eq, Structural)]
pub enum ProcessRow {
    /// A process by its place in the listing. A dimmed one is pinned and does not match the
    /// search; it stays listed but is never a fallback selection.
    Live { index: usize, dimmed: bool },
    /// A pinned process that has exited, by its place among the pins.
    Exited { pin: usize },
}

/// The first process from `from` on that is `identity`, by its place.
pub open spec fn process_place(
    processes: Seq<ProcessInfo>,
    identity: ProcessIdentity,
    from: int,
) -> Option<usize>
    decreases processes.len() - from,
{
    if from >= processes.len() {
        None
    } else if processes[from].id() == identity {
        Some(from as usize)
    } else {
        process_place(processes, identity, from + 1)
    }
}

/// The last of the first `count` processes that is `identity`, by its place.
pub open spec fn last_process_place(
    processes: Seq<ProcessInfo>,
    identity: ProcessIdentity,
    count: int,
) -> Option<usize>
    decreases count,
{
    if count <= 0 {
        None
    } else if processes[count - 1].id() == identity {
        Some((count - 1) as usize)
    } else {
        last_process_place(processes, identity, count - 1)
    }
}

/// The first pin from `from` on that pins `identity`, by its place.
pub open spec fn pin_place(
    pinned: Seq<PinnedProcess>,
    identity: ProcessIdentity,
    from: int,
) -> Option<usize>
    decreases pinned.len() - from,
{
    if from >= pinned.len() {
        None
    } else if pinned[from].identity == identity {
        Some(from as usize)
    } else {
        pin_place(pinned, identity, from + 1)
    }
}

/// No process is pinned twice.
pub open spec fn pins_distinct(pinned: Seq<PinnedProcess>) -> bool {
    forall|i: int, j: int|
        #![trigger pinned[i], pinned[j]]
        0 <= i < j < pinned.len() ==> pinned[i].identity != pinned[j].identity
}

/// What an exited pin shows is the process that it pins.
pub open spec fn pins_true(pinned: Seq<PinnedProcess>) -> bool {
    forall|i: int|
        0 <= i < pinned.len() && (#[trigger] pinned[i]).exited is Some
            ==> pinned[i].exited->0.last_seen.id() == pinned[i].identity
}

/// The row that a live pinned process has, where it is listed.
pub open spec fn pinned_row(
    processes: Seq<ProcessInfo>,
    identity: ProcessIdentity,
    query: Seq<char>,
    count: int,
) -> Option<ProcessRow> {
    match last_process_place(processes, identity, count) {
        Some(index) => Some(
            ProcessRow::Live { index, dimmed: !process_order::found_by(processes[index as int], query) },
        ),
        None => None,
    }
}

/// The rows of the first `count` pins, in the order of the pins.
pub open spec fn pinned_rows(
    processes: Seq<ProcessInfo>,
    pinned: Seq<PinnedProcess>,
    query: Seq<char>,
    count: int,
) -> Seq<ProcessRow>
    decreases count,
{
    if count <= 0 {
        Seq::empty()
    } else {
        let rows = pinned_rows(processes, pinned, query, count - 1);
        let pin = pinned[count - 1];
        if pin.exited is Some {
            rows.push(ProcessRow::Exited { pin: (count - 1) as usize })
        } else {
            match pinned_row(processes, pin.identity, query, processes.len() as int) {
                Some(row) => rows.push(row),
                None => rows,
            }
        }
    }
}

/// The places of those among the first `count` processes that are found and not pinned.
pub open spec fn unpinned_matches(
    processes: Seq<ProcessInfo>,
    pinned: Seq<PinnedProcess>,
    query: Seq<char>,
    count: int,
) -> Seq<usize>
    decreases count,
{
    if count <= 0 {
        Seq::empty()
    } else {
        let places = unpinned_matches(processes, pinned, query, count - 1);
        let process = processes[count - 1];
        if pin_place(pinned, process.id(), 0) is None && process_order::found_by(process, query) {
            places.push((count - 1) as usize)
        } else {
            places
        }
    }
}

/// The rows of processes that are neither pinned nor dimmed.
pub open spec fn plain_rows(places: Seq<usize>) -> Seq<ProcessRow> {
    Seq::new(places.len(), |i: int| ProcessRow::Live { index: places[i], dimmed: false })
}

/// The rows of the table: the pinned ones as the user put them, then the sorted rest of what
/// the query finds.
pub open spec fn table_rows(
    processes: Seq<ProcessInfo>,
    pinned: Seq<PinnedProcess>,
    query: Seq<char>,
    sort: ProcessSort,
) -> Seq<ProcessRow> {
    pinned_rows(processes, pinned, query, pinned.len() as int) + plain_rows(
        order::arranged(
            process_order::listing_order(processes, sort),
            unpinned_matches(processes, pinned, query, processes.len() as int),
        ),
    )
}

/// A row that may be selected without the user asking for it.
pub open spec fn selectable(row: ProcessRow) -> bool {
    row matches ProcessRow::Live { dimmed, .. } && !dimmed
}

/// The first selectable row from `from` on.
pub open spec fn next_selectable(rows: Seq<ProcessRow>, from: int) -> Option<usize>
    decreases rows.len() - from,
{
    if from >= rows.len() {
        None
    } else if selectable(rows[from]) {
        Some(from as usize)
    } else {
        next_selectable(rows, from + 1)
    }
}

/// The last selectable row before `before`.
pub open spec fn previous_selectable(rows: Seq<ProcessRow>, before: int) -> Option<usize>
    decreases before,
{
    if before <= 0 {
        None
    } else if selectable(rows[before - 1]) {
        Some((before - 1) as usize)
    } else {
        previous_selectable(rows, before - 1)
    }
}

/// The selectable row nearest to `wanted`: that row or the next one behind it, else the last
/// one before it.
pub open spec fn nearest_selectable(rows: Seq<ProcessRow>, wanted: int) -> Option<usize> {
    if rows.len() == 0 {
        None
    } else {
        let start = if wanted < rows.len() {
            wanted
        } else {
            rows.len() - 1
        };
        match next_selectable(rows, start) {
            Some(row) => Some(row),
            None => previous_selectable(rows, start),
        }
    }
}

/// Pins after a new listing: of the first `count`, those of listed processes stay, those of
/// processes that are gone keep what was last seen of them, and pins of processes that were
/// never listed are dropped.
pub open spec fn marked_pins(
    pinned: Seq<PinnedProcess>,
    processes: Seq<ProcessInfo>,
    next: Seq<ProcessInfo>,
    count: int,
) -> Seq<PinnedProcess>
    decreases count,
{
    if count <= 0 {
        Seq::empty()
    } else {
        let kept = marked_pins(pinned, processes, next, count - 1);
        let pin = pinned[count - 1];
        if pin.exited is Some || process_place(next, pin.identity, 0) is Some {
            kept.push(pin)
        } else {
            match process_place(processes, pin.identity, 0) {
                Some(place) => kept.push(
                    PinnedProcess {
                        identity: pin.identity,
                        exited: Some(
                            ExitedPin { last_seen: processes[place as int], since: None },
                        ),
                    },
                ),
                None => kept,
            }
        }
    }
}

/// When an exited process was first seen to be gone; now, if it was not seen before.
pub open spec fn gone_since(exited: ExitedPin, now: Nanos) -> Nanos {
    match exited.since {
        Some(since) => since,
        None => now,
    }
}

/// An exited process is still listed.
pub open spec fn lingers(exited: ExitedPin, now: Nanos) -> bool {
    now - gone_since(exited, now) < EXITED_PIN_LINGER
}

/// Of the first `count` pins those that are still listed, the clock of each exited one set.
pub open spec fn lingering_pins(pinned: Seq<PinnedProcess>, now: Nanos, count: int) -> Seq<
    PinnedProcess,
>
    decreases count,
{
    if count <= 0 {
        Seq::empty()
    } else {
        let kept = lingering_pins(pinned, now, count - 1);
        let pin = pinned[count - 1];
        match pin.exited {
            None => kept.push(pin),
            Some(exited) => if lingers(exited, now) {
                kept.push(
                    PinnedProcess {
                        identity: pin.identity,
                        exited: Some(
                            ExitedPin {
                                last_seen: exited.last_seen,
                                since: Some(gone_since(exited, now)),
                            },
                        ),
                    },
                )
            } else {
                kept
            },
        }
    }
}

/// The process that a row shows.
pub open spec fn shown_process(
    processes: Seq<ProcessInfo>,
    pinned: Seq<PinnedProcess>,
    row: ProcessRow,
) -> Option<ProcessInfo> {
    match row {
        ProcessRow::Live { index, .. } => if index < processes.len() {
            Some(processes[index as int])
        } else {
            None
        },
        ProcessRow::Exited { pin } => if pin < pinned.len() {
            match pinned[pin as int].exited {
                Some(exited) => Some(exited.last_seen),
                None => None,
            }
        } else {
            None
        },
    }
}

/// A row shows the process `identity`.
pub open spec fn row_shows(
    processes: Seq<ProcessInfo>,
    pinned: Seq<PinnedProcess>,
    row: ProcessRow,
    identity: ProcessIdentity,
) -> bool {
    match shown_process(processes, pinned, row) {
        Some(process) => process.id() == identity,
        None => false,
    }
}

/// The first row from `from` on that shows `identity`.
pub open spec fn row_from(
    rows: Seq<ProcessRow>,
    processes: Seq<ProcessInfo>,
    pinned: Seq<PinnedProcess>,
    identity: ProcessIdentity,
    from: int,
) -> Option<usize>
    decreases rows.len() - from,
{
    if from >= rows.len() {
        None
    } else if row_shows(processes, pinned, rows[from], identity) {
        Some(from as usize)
    } else {
        row_from(rows, processes, pinned, identity, from + 1)
    }
}

/// What came of pinning or freeing a process.
#[derive(Debug, Clone, Copy, PartialEq, Eq, Structural)]
pub enum PinOutcome {
    Nothing,
    LimitReached,
    Changed,
}

/// What the table is made of.
#[verifier::ext_equal]
pub struct TableState {
    pub processes: Seq<ProcessInfo>,
    pub summary: ProcessSummary,
    pub rows: Seq<ProcessRow>,
    pub pinned: Seq<PinnedProcess>,
    /// Set while the rows are left out because nobody sees them: the row to fall back to.
    pub deferred: Option<usize>,
    pub selected: Option<ProcessIdentity>,
    pub scroll: usize,
    pub height: usize,
    pub query: Seq<char>,
    pub sort: ProcessSort,
}

impl TableState {
    /// The process that a row shows.
    pub open spec fn row_process(self, row: ProcessRow) -> Option<ProcessInfo> {
        shown_process(self.processes, self.pinned, row)
    }

    /// The row that shows `identity`.
    pub open spec fn row_of(self, identity: ProcessIdentity) -> Option<usize> {
        row_from(self.rows, self.processes, self.pinned, identity, 0)
    }

    pub open spec fn selected_row(self) -> Option<usize> {
        match self.selected {
            Some(identity) => self.row_of(identity),
            None => None,
        }
    }

    /// The process selected, where it still runs.
    pub open spec fn selected_process(self) -> Option<ProcessInfo> {
        match self.selected {
            Some(identity) => match process_place(self.processes, identity, 0) {
                Some(place) => Some(self.processes[place as int]),
                None => None,
            },
            None => None,
        }
    }

    /// The process shown at a row.
    pub open spec fn process_at(self, row: int) -> Option<ProcessInfo> {
        if 0 <= row < self.rows.len() {
            self.row_process(self.rows[row])
        } else {
            None
        }
    }

    /// What to select when the selection is gone.
    pub open spec fn fallback(self, wanted: int) -> Option<ProcessIdentity> {
        match nearest_selectable(self.rows, wanted) {
            Some(row) => match self.process_at(row as int) {
                Some(process) => Some(process.id()),
                None => None,
            },
            None => None,
        }
    }

    /// The same table scrolled to its selected row.
    pub open spec fn scrolled(self) -> TableState {
        TableState {
            scroll: scroll::scroll_start(
                self.rows.len() as int,
                self.selected_row(),
                self.scroll as int,
                self.height as int,
            ) as usize,
            ..self
        }
    }

    /// The selection kept where it is still listed, else replaced.
    pub open spec fn reselected(
        self,
        previous: Option<ProcessIdentity>,
        wanted: int,
    ) -> TableState {
        let kept = previous is Some && self.row_of(previous->0) is Some;
        TableState {
            selected: if kept {
                previous
            } else {
                self.fallback(wanted)
            },
            ..self
        }
    }

    /// The row that a lost selection falls back to.
    pub open spec fn fallback_row(self) -> usize {
        match self.deferred {
            Some(row) => row,
            None => match self.selected_row() {
                Some(row) => row,
                None => 0,
            },
        }
    }

    /// The same table with its rows made anew.
    #[verifier::opaque]
    pub open spec fn rebuilt(self) -> TableState {
        let fresh = TableState {
            rows: table_rows(self.processes, self.pinned, text::lowercase(self.query), self.sort),
            deferred: None,
            ..self
        };
        fresh.reselected(self.selected, self.fallback_row() as int).scrolled()
    }

    /// After a query edit, the selection moved off a pinned row that the query no longer
    /// finds, so that what is opened next is a match.
    #[verifier::opaque]
    pub open spec fn undimmed(self) -> TableState {
        match self.selected_row() {
            Some(row) => if self.rows[row as int] matches ProcessRow::Live { dimmed, .. } && dimmed {
                TableState { selected: self.fallback(row as int), ..self }.scrolled()
            } else {
                self
            },
            None => self,
        }
    }

    /// The table with another query.
    #[verifier::opaque]
    pub open spec fn searched(self, query: Seq<char>) -> TableState {
        TableState { query, ..self }.rebuilt().undimmed()
    }

    /// The table with another listing, while it is shown.
    #[verifier::opaque]
    pub open spec fn replaced(self, next: Seq<ProcessInfo>) -> TableState {
        let wanted = match self.selected_row() {
            Some(row) => row,
            None => 0,
        };
        TableState {
            processes: next,
            pinned: marked_pins(self.pinned, self.processes, next, self.pinned.len() as int),
            summary: process::summarized(next),
            ..self
        }.rebuilt().reselected(self.selected, wanted as int).scrolled()
    }

    /// The table with another listing, while it is hidden: its rows wait until it is shown.
    #[verifier::opaque]
    pub open spec fn replaced_hidden(self, next: Seq<ProcessInfo>) -> TableState {
        TableState {
            processes: next,
            pinned: marked_pins(self.pinned, self.processes, next, self.pinned.len() as int),
            summary: process::summarized(next),
            rows: Seq::empty(),
            deferred: Some(self.fallback_row()),
            ..self
        }
    }

    /// The selection on the process at a row.
    #[verifier::opaque]
    pub open spec fn selected_at(self, row: int) -> TableState {
        match self.process_at(row) {
            Some(process) => TableState { selected: Some(process.id()), ..self }.scrolled(),
            None => self,
        }
    }

    /// The selection moved by a number of rows, as far as there are any.
    #[verifier::opaque]
    pub open spec fn stepped(self, step: Step) -> TableState {
        if self.rows.len() == 0 {
            self
        } else {
            self.selected_at(
                step.from(
                    match self.selected_row() {
                        Some(row) => row as int,
                        None => 0,
                    },
                    self.rows.len() - 1,
                ),
            )
        }
    }

    /// The table sorted by a column; one sorted by it already turns round.
    #[verifier::opaque]
    pub open spec fn sorted_by(self, field: ProcessSortField) -> TableState {
        TableState {
            sort: if self.sort.field == field {
                ProcessSort { field, descending: !self.sort.descending }
            } else {
                ProcessSort::initial(field)
            },
            ..self
        }.rebuilt()
    }

    /// The selected process pinned, or freed where it was pinned.
    #[verifier::opaque]
    pub open spec fn pin_toggled(self) -> (TableState, PinOutcome) {
        match self.selected {
            None => (self, PinOutcome::Nothing),
            Some(identity) => match pin_place(self.pinned, identity, 0) {
                Some(place) => (
                    TableState { pinned: self.pinned.remove(place as int), ..self }.rebuilt(),
                    PinOutcome::Changed,
                ),
                None => if self.selected_process() is None {
                    (self, PinOutcome::Nothing)
                } else if self.pinned.len() >= MAX_PINNED_PROCESSES {
                    (self, PinOutcome::LimitReached)
                } else {
                    (
                        TableState {
                            pinned: self.pinned.push(PinnedProcess { identity, exited: None }),
                            ..self
                        }.rebuilt(),
                        PinOutcome::Changed,
                    )
                },
            },
        }
    }

    /// Where a pin goes when it is moved, where there is room.
    pub open spec fn pin_target(self, identity: ProcessIdentity, direction: PinMove) -> Option<
        (int, int),
    > {
        match pin_place(self.pinned, identity, 0) {
            Some(place) => match direction {
                PinMove::Up => if place > 0 {
                    Some((place as int, place - 1))
                } else {
                    None
                },
                PinMove::Down => if place + 1 < self.pinned.len() {
                    Some((place as int, place + 1))
                } else {
                    None
                },
            },
            None => None,
        }
    }

    /// A pin moved by one place.
    #[verifier::opaque]
    pub open spec fn pin_moved(self, identity: ProcessIdentity, direction: PinMove) -> TableState {
        match self.pin_target(identity, direction) {
            Some((place, target)) => TableState {
                pinned: self.pinned.update(place, self.pinned[target]).update(
                    target,
                    self.pinned[place],
                ),
                ..self
            }.rebuilt(),
            None => self,
        }
    }

    /// The table after its exited pins were looked at.
    #[verifier::opaque]
    pub open spec fn expired(self, now: Nanos) -> TableState {
        let pinned = lingering_pins(self.pinned, now, self.pinned.len() as int);
        let looked = TableState { pinned, ..self };
        if pinned.len() == self.pinned.len() {
            looked
        } else {
            looked.rebuilt()
        }
    }

    /// The table in another viewport.
    #[verifier::opaque]
    pub open spec fn viewed(self, start: usize, height: usize) -> TableState {
        TableState { scroll: start, height, ..self }.scrolled()
    }

    /// What holds of the table whenever nobody is changing it: the pins are sound; while it is
    /// hidden it may have no rows; otherwise its rows are those of its listing, the selected
    /// process is listed, and its row is in view.
    #[verifier::opaque]
    pub open spec fn settled(self) -> bool {
        &&& self.pins_sound()
        &&& self.deferred is Some ==> self.rows.len() == 0
        &&& self.deferred is None ==> {
            &&& self.rows == table_rows(
                self.processes,
                self.pinned,
                text::lowercase(self.query),
                self.sort,
            )
            &&& self.selected is Some ==> self.selected_row() is Some
            &&& self.scrolled() == self
        }
    }

    /// There are no more pins than allowed, none twice, and each shows its own process.
    pub open spec fn pins_sound(self) -> bool {
        self.pinned.len() <= MAX_PINNED_PROCESSES && pins_distinct(self.pinned) && pins_true(
            self.pinned,
        )
    }
}

/// The first process that is `identity`, by its place.
fn find_process(processes: &Vec<ProcessInfo>, identity: ProcessIdentity) -> (place: Option<usize>)
    ensures
        place == process_place(processes@, identity, 0),
        place is Some ==> place->0 < processes@.len() && processes@[place->0 as int].id()
            == identity,
{
    let mut i: usize = 0;
    while i < processes.len()
        invariant
            i <= processes@.len(),
            process_place(processes@, identity, 0) == process_place(
                processes@,
                identity,
                i as int,
            ),
        decreases processes@.len() - i,
    {
        if processes[i].identity() == identity {
            return Some(i);
        }
        i += 1;
    }
    None
}

/// The first pin of `identity`, by its place.
fn find_pin(pinned: &Vec<PinnedProcess>, identity: ProcessIdentity) -> (place: Option<usize>)
    ensures
        place == pin_place(pinned@, identity, 0),
        place is Some ==> place->0 < pinned@.len() && pinned@[place->0 as int].identity == identity,
{
    let mut i: usize = 0;
    while i < pinned.len()
        invariant
            i <= pinned@.len(),
            pin_place(pinned@, identity, 0) == pin_place(pinned@, identity, i as int),
        decreases pinned@.len() - i,
    {
        if pinned[i].identity == identity {
            return Some(i);
        }
        i += 1;
    }
    None
}

pub proof fn lemma_process_place(
    processes: Seq<ProcessInfo>,
    identity: ProcessIdentity,
    from: int,
)
    requires
        0 <= from <= processes.len(),
        processes.len() <= usize::MAX,
    ensures
        match process_place(processes, identity, from) {
            Some(place) => {
                &&& from <= place < processes.len()
                &&& processes[place as int].id() == identity
            },
            None => forall|i: int|
                from <= i < processes.len() ==> (#[trigger] processes[i]).id() != identity,
        },
    decreases processes.len() - from,
{
    if from < processes.len() && processes[from].id() != identity {
        lemma_process_place(processes, identity, from + 1);
    }
}

pub proof fn lemma_pin_place(pinned: Seq<PinnedProcess>, identity: ProcessIdentity, from: int)
    requires
        0 <= from <= pinned.len(),
        pinned.len() <= usize::MAX,
    ensures
        match pin_place(pinned, identity, from) {
            Some(place) => {
                &&& from <= place < pinned.len()
                &&& pinned[place as int].identity == identity
                &&& forall|i: int| from <= i < place ==> (#[trigger] pinned[i]).identity != identity
            },
            None => forall|i: int|
                from <= i < pinned.len() ==> (#[trigger] pinned[i]).identity != identity,
        },
    decreases pinned.len() - from,
{
    if from < pinned.len() && pinned[from].identity != identity {
        lemma_pin_place(pinned, identity, from + 1);
    }
}

/// The table of processes.
#[derive(Debug)]
pub struct ProcessTable {
    processes: Vec<ProcessInfo>,
    /// One entry for each process, or none at all until the rows are made again.
    keys: Vec<ProcessKeys>,
    summary: ProcessSummary,
    rows: Vec<ProcessRow>,
    pinned: Vec<PinnedProcess>,
    deferred: Option<usize>,
    selected: Option<ProcessIdentity>,
    scroll: usize,
    height: usize,
    query: String,
    sort: ProcessSort,
}

impl View for ProcessTable {
    type V = TableState;

    closed spec fn view(&self) -> TableState {
        TableState {
            processes: self.processes@,
            summary: self.summary,
            rows: self.rows@,
            pinned: self.pinned@,
            deferred: self.deferred,
            selected: self.selected,
            scroll: self.scroll,
            height: self.height,
            query: self.query@,
            sort: self.sort,
        }
    }
}

/// What is needed to draw one row.
#[derive(Debug, Clone, Copy)]
pub struct ProcessRowView<'a> {
    pub process: &'a ProcessInfo,
    pub pinned: bool,
    pub dimmed: bool,
    pub exited: bool,
}

/// How many of the first `count` rows are matches that still run.
pub open spec fn listed_count(rows: Seq<ProcessRow>, count: int) -> nat
    decreases count,
{
    if count <= 0 {
        0
    } else {
        listed_count(rows, count - 1) + if selectable(rows[count - 1]) {
            1nat
        } else {
            0nat
        }
    }
}

impl TableState {
    /// A row belongs to the pinned section.
    pub open spec fn row_is_pinned(self, row: ProcessRow) -> bool {
        match row {
            ProcessRow::Live { index, .. } => index < self.processes.len() && pin_place(
                self.pinned,
                self.processes[index as int].id(),
                0,
            ) is Some,
            ProcessRow::Exited { .. } => true,
        }
    }

    /// The first row from `from` on that is not pinned.
    pub open spec fn first_unpinned(self, from: int) -> int
        decreases self.rows.len() - from,
    {
        if from >= self.rows.len() || !self.row_is_pinned(self.rows[from]) {
            from
        } else {
            self.first_unpinned(from + 1)
        }
    }

    /// An empty table, sorted as it is at the start.
    pub open spec fn initial() -> TableState {
        TableState {
            processes: Seq::empty(),
            summary: ProcessSummary { total: 0, running: 0, zombies: 0 },
            rows: Seq::empty(),
            pinned: Seq::empty(),
            deferred: None,
            selected: None,
            scroll: 0,
            height: 0,
            query: Seq::empty(),
            sort: ProcessSort { field: ProcessSortField::Cpu, descending: true },
        }
    }
}

impl ProcessTable {
    pub fn new() -> (table: ProcessTable)
        ensures
            table@ == TableState::initial(),
            table.wf(),
    {
        proof {
            reveal(TableState::settled);
        }
        let table = ProcessTable {
            processes: Vec::new(),
            keys: Vec::new(),
            summary: ProcessSummary::default(),
            rows: Vec::new(),
            pinned: Vec::new(),
            deferred: None,
            selected: None,
            scroll: 0,
            height: 0,
            query: String::new(),
            sort: ProcessSort::default(),
        };
        assert(table@ =~= TableState::initial());
        assert(table@.rows =~= table_rows(
            table@.processes,
            table@.pinned,
            text::lowercase(table@.query),
            table@.sort,
        ));
        table
    }

    /// Rows of the table, pinned ones included.
    pub fn row_count(&self) -> (count: usize)
        ensures
            count == self@.rows.len(),
    {
        self.rows.len()
    }

    /// Live processes that the table lists as matches.
    pub fn listed_count(&self) -> (count: usize)
        ensures
            count == listed_count(self@.rows, self@.rows.len() as int),
    {
        let mut count: usize = 0;
        let mut i: usize = 0;
        while i < self.rows.len()
            invariant
                count <= i <= self.rows@.len(),
                count == listed_count(self.rows@, i as int),
            decreases self.rows@.len() - i,
        {
            if matches!(self.rows[i], ProcessRow::Live { dimmed: false, .. }) {
                count += 1;
            }
            i += 1;
        }
        count
    }

    fn is_pinned(&self, row: ProcessRow) -> (pinned: bool)
        ensures
            pinned == self@.row_is_pinned(row),
    {
        match row {
            ProcessRow::Live { index, .. } => index < self.processes.len() && find_pin(
                &self.pinned,
                self.processes[index].identity(),
            ).is_some(),
            ProcessRow::Exited { .. } => true,
        }
    }

    /// Leading rows that belong to the pinned section.
    pub fn pinned_count(&self) -> (count: usize)
        ensures
            count == self@.first_unpinned(0),
    {
        let mut i: usize = 0;
        while i < self.rows.len() && self.is_pinned(self.rows[i])
            invariant
                i <= self.rows@.len() == self@.rows.len(),
                self.rows@ == self@.rows,
                self@.first_unpinned(0) == self@.first_unpinned(i as int),
            decreases self.rows@.len() - i,
        {
            i += 1;
        }
        i
    }

    /// What is shown at a row.
    pub fn row_at(&self, index: usize) -> (view: Option<ProcessRowView<'_>>)
        ensures
            view is Some == (self@.process_at(index as int) is Some),
            view matches Some(view) ==> {
                let row = self@.rows[index as int];
                &&& self@.process_at(index as int) == Some(*view.process)
                &&& view.pinned == self@.row_is_pinned(row)
                &&& view.dimmed == (row matches ProcessRow::Live { dimmed, .. } && dimmed)
                &&& view.exited == (row is Exited)
            },
    {
        if index >= self.rows.len() {
            return None;
        }
        let row = self.rows[index];
        match self.process_of_row(row) {
            Some(process) => Some(
                ProcessRowView {
                    process,
                    pinned: self.is_pinned(row),
                    dimmed: matches!(row, ProcessRow::Live { dimmed: true, .. }),
                    exited: matches!(row, ProcessRow::Exited { .. }),
                },
            ),
            None => None,
        }
    }

    pub fn summary(&self) -> (summary: ProcessSummary)
        ensures
            summary == self@.summary,
    {
        self.summary
    }

    /// The selected row's identity, also when it is an exited pinned process.
    pub fn selected_identity(&self) -> (identity: Option<ProcessIdentity>)
        ensures
            identity == self@.selected,
    {
        self.selected
    }

    pub fn scroll(&self) -> (scroll: usize)
        ensures
            scroll == self@.scroll,
    {
        self.scroll
    }

    pub fn height(&self) -> (height: usize)
        ensures
            height == self@.height,
    {
        self.height
    }

    pub fn query(&self) -> (query: &str)
        ensures
            query@ == self@.query,
    {
        self.query.as_str()
    }

    pub fn sort(&self) -> (sort: ProcessSort)
        ensures
            sort == self@.sort,
    {
        self.sort
    }

    /// Whether a process is in the listing.
    pub fn lists(&self, identity: ProcessIdentity) -> (listed: bool)
        ensures
            listed == (process_place(self@.processes, identity, 0) is Some),
    {
        find_process(&self.processes, identity).is_some()
    }

    /// Whether a listing says nothing new.
    pub fn lists_the_same(&self, processes: &Vec<ProcessInfo>) -> (same: bool)
        ensures
            same == likeness::all_same(self@.processes, processes@),
    {
        all_equal(&self.processes, processes)
    }

    /// The table is as it should be: settled, and ready to be searched and sorted.
    pub open spec fn wf(&self) -> bool {
        self.keys_valid() && self@.settled()
    }

    /// What is kept to search and sort by is up to date.
    pub closed spec fn keys_valid(&self) -> bool {
        self.keys@.len() == self.processes@.len() ==> process_order::keyed(self.processes@, self.keys@)
    }

    fn process_of_row(&self, row: ProcessRow) -> (process: Option<&ProcessInfo>)
        ensures
            match process {
                Some(process) => self@.row_process(row) == Some(*process),
                None => self@.row_process(row) is None,
            },
    {
        match row {
            ProcessRow::Live { index, .. } => if index < self.processes.len() {
                Some(&self.processes[index])
            } else {
                None
            },
            ProcessRow::Exited { pin } => if pin < self.pinned.len() {
                match &self.pinned[pin].exited {
                    Some(exited) => Some(&exited.last_seen),
                    None => None,
                }
            } else {
                None
            },
        }
    }

    /// The row that shows `identity`.
    pub fn row_position(&self, identity: ProcessIdentity) -> (row: Option<usize>)
        ensures
            row == self@.row_of(identity),
            row is Some ==> row->0 < self@.rows.len(),
    {
        let mut i: usize = 0;
        while i < self.rows.len()
            invariant
                i <= self.rows@.len() == self@.rows.len(),
                self.rows@ == self@.rows,
                self@.row_of(identity) == row_from(
                    self.rows@,
                    self.processes@,
                    self.pinned@,
                    identity,
                    i as int,
                ),
            decreases self.rows@.len() - i,
        {
            match self.process_of_row(self.rows[i]) {
                Some(process) => {
                    if process.identity() == identity {
                        return Some(i);
                    }
                },
                None => {},
            }
            i += 1;
        }
        None
    }

    pub fn selected_index(&self) -> (row: Option<usize>)
        ensures
            row == self@.selected_row(),
            row is Some ==> row->0 < self@.rows.len(),
    {
        match self.selected {
            Some(identity) => self.row_position(identity),
            None => None,
        }
    }

    fn ensure_visible(&mut self)
        ensures
            final(self)@ == old(self)@.scrolled(),
            final(self).keys_valid() == old(self).keys_valid(),
    {
        self.scroll = calculate_scroll(
            self.rows.len(),
            self.selected_index(),
            self.scroll,
            self.height,
        );
    }

    /// The row to select when the selection is gone: the row now at `wanted`, or the nearest
    /// matching live row after or before it. Dimmed and exited rows are only ever selected on
    /// purpose.
    fn fallback_selection(&self, wanted: usize) -> (identity: Option<ProcessIdentity>)
        ensures
            identity == self@.fallback(wanted as int),
    {
        if self.rows.len() == 0 {
            return None;
        }
        let start: usize = if wanted < self.rows.len() {
            wanted
        } else {
            self.rows.len() - 1
        };
        let mut row: usize = start;
        while row < self.rows.len()
            invariant
                start <= row <= self.rows@.len() == self@.rows.len(),
                start < self.rows@.len(),
                self.rows@ == self@.rows,
                start == if wanted < self.rows@.len() {
                    wanted as int
                } else {
                    self.rows@.len() - 1
                },
                next_selectable(self.rows@, start as int) == next_selectable(
                    self.rows@,
                    row as int,
                ),
            decreases self.rows@.len() - row,
        {
            if matches!(self.rows[row], ProcessRow::Live { dimmed: false, .. }) {
                return self.identity_at(row);
            }
            row += 1;
        }
        let mut before: usize = start;
        while before > 0
            invariant
                before <= start < self.rows@.len() == self@.rows.len(),
                self.rows@ == self@.rows,
                start == if wanted < self.rows@.len() {
                    wanted as int
                } else {
                    self.rows@.len() - 1
                },
                next_selectable(self.rows@, start as int) is None,
                previous_selectable(self.rows@, start as int) == previous_selectable(
                    self.rows@,
                    before as int,
                ),
            decreases before,
        {
            if matches!(self.rows[before - 1], ProcessRow::Live { dimmed: false, .. }) {
                return self.identity_at(before - 1);
            }
            before -= 1;
        }
        None
    }

    /// Who is shown at a row.
    fn identity_at(&self, row: usize) -> (identity: Option<ProcessIdentity>)
        ensures
            identity == (match self@.process_at(row as int) {
                Some(process) => Some(process.id()),
                None => None,
            }),
    {
        match self.process_at(row) {
            Some(process) => Some(process.identity()),
            None => None,
        }
    }

    /// The process shown at `index`; for an exited pinned row, as last seen.
    pub fn process_at(&self, index: usize) -> (process: Option<&ProcessInfo>)
        ensures
            match process {
                Some(process) => self@.process_at(index as int) == Some(*process),
                None => self@.process_at(index as int) is None,
            },
    {
        if index < self.rows.len() {
            self.process_of_row(self.rows[index])
        } else {
            None
        }
    }

    /// Brings the keys up to date.
    fn refresh_keys(&mut self)
        requires
            old(self).keys_valid(),
        ensures
            final(self)@ == old(self)@,
            final(self).keys_valid(),
            process_order::keyed(final(self).processes@, final(self).keys@),
    {
        if self.keys.len() == self.processes.len() {
            return ;
        }
        let mut keys: Vec<ProcessKeys> = Vec::new();
        let mut i: usize = 0;
        while i < self.processes.len()
            invariant
                i <= self.processes@.len(),
                keys@.len() == i,
                forall|j: int| 0 <= j < i ==> (#[trigger] keys@[j]).of(self.processes@[j]),
            decreases self.processes@.len() - i,
        {
            keys.push(ProcessKeys::new(&self.processes[i]));
            i += 1;
        }
        self.keys = keys;
    }

    /// The rows of the table.
    fn make_rows(&self) -> (rows: Vec<ProcessRow>)
        requires
            process_order::keyed(self.processes@, self.keys@),
            self@.pins_sound(),
        ensures
            rows@ == table_rows(
                self.processes@,
                self.pinned@,
                text::lowercase(self.query@),
                self.sort,
            ),
    {
        let ghost query = text::lowercase(self.query@);
        let wanted = characters(to_lowercase(self.query.as_str()).as_str());
        // One pass: live pinned processes go to their slot, the rest are filtered.
        let mut slots: Vec<Option<ProcessRow>> = Vec::new();
        let mut slot: usize = 0;
        while slot < self.pinned.len()
            invariant
                slot <= self.pinned@.len(),
                slots@.len() == slot,
                forall|j: int| 0 <= j < slot ==> (#[trigger] slots@[j]) is None,
            decreases self.pinned@.len() - slot,
        {
            slots.push(None);
            slot += 1;
        }
        let mut places: Vec<usize> = Vec::new();
        let mut i: usize = 0;
        while i < self.processes.len()
            invariant
                i <= self.processes@.len(),
                process_order::keyed(self.processes@, self.keys@),
                self.pinned@.len() <= MAX_PINNED_PROCESSES,
                pins_distinct(self.pinned@),
                wanted@ == query,
                slots@.len() == self.pinned@.len(),
                forall|j: int|
                    0 <= j < slots@.len() ==> (#[trigger] slots@[j]) == pinned_row(
                        self.processes@,
                        self.pinned@[j].identity,
                        query,
                        i as int,
                    ),
                places@ == unpinned_matches(self.processes@, self.pinned@, query, i as int),
            decreases self.processes@.len() - i,
        {
            let process = &self.processes[i];
            assert(self.keys@[i as int].of(self.processes@[i as int]));
            let found = process_matches(process, &self.keys[i], &wanted);
            let identity = process.identity();
            proof {
                lemma_pin_place(self.pinned@, identity, 0);
            }
            match find_pin(&self.pinned, identity) {
                Some(slot) => {
                    slots.set(slot, Some(ProcessRow::Live { index: i, dimmed: !found }));
                },
                None => {
                    if found {
                        places.push(i);
                    }
                },
            }
            i += 1;
        }
        let order = ByColumn { processes: &self.processes, keys: &self.keys, sort: self.sort };
        proof {
            lemma_matches_in_range(self.processes@, self.pinned@, query, i as int);
        }
        let arranged_places = arrange(&order, places);
        let mut rows: Vec<ProcessRow> = Vec::new();
        let mut pin: usize = 0;
        while pin < self.pinned.len()
            invariant
                pin <= self.pinned@.len(),
                slots@.len() == self.pinned@.len(),
                forall|j: int|
                    0 <= j < slots@.len() ==> (#[trigger] slots@[j]) == pinned_row(
                        self.processes@,
                        self.pinned@[j].identity,
                        query,
                        self.processes@.len() as int,
                    ),
                rows@ == pinned_rows(self.processes@, self.pinned@, query, pin as int),
            decreases self.pinned@.len() - pin,
        {
            if self.pinned[pin].exited.is_some() {
                rows.push(ProcessRow::Exited { pin });
            } else {
                match slots[pin] {
                    Some(row) => {
                        rows.push(row);
                    },
                    None => {},
                }
            }
            pin += 1;
        }
        let ghost leading = rows@;
        let mut next: usize = 0;
        while next < arranged_places.len()
            invariant
                next <= arranged_places@.len(),
                rows@ == leading + plain_rows(arranged_places@.take(next as int)),
            decreases arranged_places@.len() - next,
        {
            rows.push(ProcessRow::Live { index: arranged_places[next], dimmed: false });
            assert(plain_rows(arranged_places@.take(next + 1)) =~= plain_rows(
                arranged_places@.take(next as int),
            ).push(
                ProcessRow::Live { index: arranged_places@[next as int], dimmed: false },
            ));
            next += 1;
        }
        assert(arranged_places@.take(next as int) =~= arranged_places@);
        rows
    }

    /// Makes the rows anew and keeps the selection on its process, or near it.
    fn rebuild(&mut self)
        requires
            old(self).keys_valid(),
            old(self)@.pins_sound(),
        ensures
            final(self)@ == old(self)@.rebuilt(),
            final(self).wf(),
    {
        proof {
            reveal(TableState::rebuilt);
            reveal(TableState::settled);
        }
        let previous_index: usize = match self.deferred {
            Some(index) => index,
            None => match self.selected_index() {
                Some(index) => index,
                None => 0,
            },
        };
        let previous = self.selected;
        self.refresh_keys();
        self.rows = self.make_rows();
        self.deferred = None;
        self.reselect(previous, previous_index);
        self.ensure_visible();
        let count: usize = self.rows.len();
        proof {
            process_laws::lemma_rebuilt_settles(old(self)@);
        }
    }

    /// Keeps the selection where it is still listed, else replaces it.
    fn reselect(&mut self, previous: Option<ProcessIdentity>, wanted: usize)
        ensures
            final(self)@ == old(self)@.reselected(previous, wanted as int),
            final(self).keys_valid() == old(self).keys_valid(),
    {
        let listed = match previous {
            Some(identity) => self.row_position(identity).is_some(),
            None => false,
        };
        self.selected = if listed {
            previous
        } else {
            self.fallback_selection(wanted)
        };
    }
}

impl ProcessTable {
    fn leave_dimmed(&mut self)
        ensures
            final(self)@ == old(self)@.undimmed(),
            final(self).keys_valid() == old(self).keys_valid(),
    {
        proof {
            reveal(TableState::undimmed);
        }
        match self.selected_index() {
            Some(row) => {
                if matches!(self.rows[row], ProcessRow::Live { dimmed: true, .. }) {
                    self.selected = self.fallback_selection(row);
                    self.ensure_visible();
                }
            },
            None => {},
        }
    }

    /// Searches for another query.
    pub fn search(&mut self, query: String)
        requires
            old(self).wf(),
        ensures
            final(self)@.deferred is None,
            final(self)@ == old(self)@.searched(query@),
            final(self).wf(),
    {
        proof {
            reveal(TableState::searched);
            reveal(TableState::settled);
            reveal(TableState::rebuilt);
            reveal(TableState::undimmed);
        }
        self.query = query;
        self.rebuild();
        let count: usize = self.rows.len();
        proof {
            process_laws::lemma_undimmed_settles(self@);
        }
        self.leave_dimmed();
    }

    /// Lists every process again.
    pub fn clear_search(&mut self)
        requires
            old(self).wf(),
        ensures
            final(self)@.deferred is None,
            final(self)@ == (TableState { query: Seq::empty(), ..old(self)@ }).rebuilt(),
            final(self).wf(),
    {
        proof {
            reveal(TableState::rebuilt);
            reveal(TableState::settled);
        }
        self.query = String::new();
        self.rebuild();
    }

    /// Makes rows that were left out while nobody saw them.
    pub fn show(&mut self)
        requires
            old(self).wf(),
        ensures
            final(self)@.deferred is None,
            final(self)@ == (if old(self)@.deferred is Some {
                old(self)@.rebuilt()
            } else {
                old(self)@
            }),
            final(self).wf(),
    {
        proof {
            reveal(TableState::rebuilt);
            reveal(TableState::settled);
        }
        if self.deferred.is_some() {
            self.rebuild();
        }
    }

    /// Marks pinned processes missing from `next` as exited, keeping what was last seen of
    /// them for display.
    fn mark_exited_pins(&mut self, next: &Vec<ProcessInfo>)
        ensures
            final(self)@ == (TableState {
                pinned: marked_pins(
                    old(self)@.pinned,
                    old(self)@.processes,
                    next@,
                    old(self)@.pinned.len() as int,
                ),
                ..old(self)@
            }),
            final(self).keys_valid() == old(self).keys_valid(),
    {
        let mut pins: Vec<PinnedProcess> = Vec::new();
        std::mem::swap(&mut pins, &mut self.pinned);
        let ghost all = pins@;
        let mut kept: Vec<PinnedProcess> = Vec::new();
        for pin in it: pins
            invariant
                it.seq() == all,
                kept@ == marked_pins(all, self.processes@, next@, it.index()),
        {
            let mut pin = pin;
            if pin.exited.is_some() || find_process(next, pin.identity).is_some() {
                kept.push(pin);
            } else {
                match find_process(&self.processes, pin.identity) {
                    Some(place) => {
                        kept.push(
                            PinnedProcess {
                                identity: pin.identity,
                                exited: Some(
                                    ExitedPin {
                                        last_seen: self.processes[place].duplicate(),
                                        since: None,
                                    },
                                ),
                            },
                        );
                    },
                    None => {},
                }
            }
        }
        self.pinned = kept;
    }

    /// Takes over a new listing while the table is shown. Returns whether the selection is
    /// still listed.
    pub fn replace(&mut self, next: Vec<ProcessInfo>, summary: ProcessSummary) -> (kept: bool)
        requires
            old(self).wf(),
            summary == process::summarized(next@),
        ensures
            final(self)@.deferred is None,
            final(self)@ == old(self)@.replaced(next@),
            final(self).wf(),
            kept == (old(self)@.selected is Some && final(self)@.row_of(old(self)@.selected->0)
                is Some),
    {
        proof {
            reveal(TableState::replaced);
            reveal(TableState::settled);
            reveal(TableState::rebuilt);
        }
        let wanted: usize = match self.selected_index() {
            Some(row) => row,
            None => 0,
        };
        let previous = self.selected;
        let listed: usize = self.processes.len();
        self.mark_exited_pins(&next);
        proof {
            lemma_marked_pins_sound(
                old(self)@.pinned,
                old(self)@.processes,
                next@,
                old(self)@.pinned.len() as int,
            );
        }
        self.processes = next;
        self.keys = Vec::new();
        self.summary = summary;
        self.rebuild();
        let kept = match previous {
            Some(identity) => self.row_position(identity).is_some(),
            None => false,
        };
        self.reselect(previous, wanted);
        self.ensure_visible();
        let count: usize = self.rows.len();
        proof {
            process_laws::lemma_replaced_settles(old(self)@, next@);
        }
        kept
    }

    /// Takes over a new listing while the table is hidden. Filtering and sorting are only
    /// needed to show the table, so the rows wait; cleared, none can point into the new listing.
    pub fn replace_hidden(&mut self, next: Vec<ProcessInfo>, summary: ProcessSummary)
        requires
            old(self).wf(),
            summary == process::summarized(next@),
        ensures
            final(self)@ == old(self)@.replaced_hidden(next@),
            final(self).wf(),
    {
        proof {
            reveal(TableState::replaced_hidden);
            reveal(TableState::settled);
        }
        if self.deferred.is_none() {
            self.deferred = Some(
                match self.selected_index() {
                    Some(row) => row,
                    None => 0,
                },
            );
        }
        let listed: usize = self.processes.len();
        proof {
            process_laws::lemma_replaced_hidden_settles(old(self)@, next@);
        }
        self.mark_exited_pins(&next);
        self.rows = Vec::new();
        self.processes = next;
        self.keys = Vec::new();
        self.summary = summary;
    }

    /// Selects the process at a row. Returns whether anything changed.
    pub fn select_index(&mut self, index: usize) -> (changed: bool)
        requires
            old(self).wf(),
        ensures
            final(self)@.deferred == old(self)@.deferred,
            final(self)@ == old(self)@.selected_at(index as int),
            final(self).wf(),
            changed == (old(self)@.selected != final(self)@.selected || old(self)@.scroll
                != final(self)@.scroll),
    {
        proof {
            reveal(TableState::selected_at);
            reveal(TableState::settled);
        }
        let count: usize = self.rows.len();
        proof {
            process_laws::lemma_selected_at_settles(self@, index as int);
        }
        match self.identity_at(index) {
            Some(identity) => {
                let previous = self.selected;
                let scroll: usize = self.scroll;
                self.selected = Some(identity);
                self.ensure_visible();
                let moved = match previous {
                    Some(previous) => previous != identity,
                    None => true,
                };
                moved || scroll != self.scroll
            },
            None => false,
        }
    }

    /// Moves the selection by a number of rows.
    pub fn step_selection(&mut self, step: Step) -> (changed: bool)
        requires
            old(self).wf(),
        ensures
            final(self)@.deferred == old(self)@.deferred,
            final(self)@ == old(self)@.stepped(step),
            final(self).wf(),
            changed == (old(self)@.selected != final(self)@.selected || old(self)@.scroll
                != final(self)@.scroll),
    {
        proof {
            reveal(TableState::stepped);
            reveal(TableState::settled);
            reveal(TableState::selected_at);
        }
        if self.rows.len() == 0 {
            return false;
        }
        let current: usize = match self.selected_index() {
            Some(row) => row,
            None => 0,
        };
        let target: usize = step.apply(current, self.rows.len() - 1);
        self.select_index(target)
    }

    /// Sorts by a column, or turns the order round.
    pub fn sort_by(&mut self, field: ProcessSortField)
        requires
            old(self).wf(),
        ensures
            final(self)@.deferred is None,
            final(self)@ == old(self)@.sorted_by(field),
            final(self).wf(),
    {
        proof {
            reveal(TableState::sorted_by);
            reveal(TableState::settled);
            reveal(TableState::rebuilt);
        }
        if self.sort.field == field {
            self.sort = ProcessSort { field, descending: !self.sort.descending };
        } else {
            self.sort = ProcessSort::for_field(field);
        }
        self.rebuild();
    }

    /// The selected process if it is still running.
    pub fn selected_process(&self) -> (process: Option<&ProcessInfo>)
        ensures
            match process {
                Some(process) => self@.selected_process() == Some(*process),
                None => self@.selected_process() is None,
            },
    {
        match self.selected {
            Some(identity) => match find_process(&self.processes, identity) {
                Some(place) => Some(&self.processes[place]),
                None => None,
            },
            None => None,
        }
    }

    /// Pins the selected process, or frees it where it is pinned.
    pub fn toggle_pin(&mut self) -> (outcome: PinOutcome)
        requires
            old(self).wf(),
        ensures
            old(self)@.deferred is None ==> final(self)@.deferred is None,
            (final(self)@, outcome) == old(self)@.pin_toggled(),
            outcome != PinOutcome::Changed ==> final(self)@ == old(self)@,
            final(self).wf(),
    {
        proof {
            reveal(TableState::pin_toggled);
            reveal(TableState::settled);
            reveal(TableState::rebuilt);
        }
        let identity = match self.selected {
            Some(identity) => identity,
            None => {
                return PinOutcome::Nothing;
            },
        };
        proof {
            process_laws::lemma_pins_stay_sound(self@, identity, PinMove::Up);
        }
        match find_pin(&self.pinned, identity) {
            Some(place) => {
                self.pinned.remove(place);
            },
            None => {
                if self.selected_process().is_none() {
                    return PinOutcome::Nothing;
                }
                if self.pinned.len() >= MAX_PINNED_PROCESSES {
                    return PinOutcome::LimitReached;
                }
                proof {
                    lemma_pin_place(self.pinned@, identity, 0);
                }
                self.pinned.push(PinnedProcess { identity, exited: None });
            },
        }
        self.rebuild();
        PinOutcome::Changed
    }

    /// Moves a pinned process one place within the pinned section; the selection stays on
    /// whatever it was on.
    pub fn move_pin(&mut self, identity: ProcessIdentity, direction: PinMove) -> (moved: bool)
        requires
            old(self).wf(),
        ensures
            old(self)@.deferred is None ==> final(self)@.deferred is None,
            final(self)@ == old(self)@.pin_moved(identity, direction),
            moved == (old(self)@.pin_target(identity, direction) is Some),
            !moved ==> final(self)@ == old(self)@,
            final(self).wf(),
    {
        proof {
            reveal(TableState::pin_moved);
            reveal(TableState::settled);
            reveal(TableState::rebuilt);
        }
        let place: usize = match find_pin(&self.pinned, identity) {
            Some(place) => place,
            None => {
                return false;
            },
        };
        let target: usize = match direction {
            PinMove::Up => {
                if place == 0 {
                    return false;
                }
                place - 1
            },
            PinMove::Down => {
                if place + 1 >= self.pinned.len() {
                    return false;
                }
                place + 1
            },
        };
        proof {
            process_laws::lemma_pins_stay_sound(self@, identity, direction);
        }
        swap_pins(&mut self.pinned, place, target);
        self.rebuild();
        true
    }

    /// Drops pins of exited processes after a while. Returns whether any was dropped.
    pub fn expire_exited_pins(&mut self, now: Nanos) -> (dropped: bool)
        requires
            old(self).wf(),
        ensures
            old(self)@.deferred is None ==> final(self)@.deferred is None,
            final(self)@ == old(self)@.expired(now),
            dropped == (final(self)@.pinned.len() != old(self)@.pinned.len()),
            final(self).wf(),
    {
        proof {
            reveal(TableState::expired);
            reveal(TableState::settled);
            reveal(TableState::rebuilt);
        }
        let before: usize = self.pinned.len();
        let mut pins: Vec<PinnedProcess> = Vec::new();
        std::mem::swap(&mut pins, &mut self.pinned);
        let ghost all = pins@;
        let mut kept: Vec<PinnedProcess> = Vec::new();
        for pin in it: pins
            invariant
                it.seq() == all,
                kept@ == lingering_pins(all, now, it.index()),
        {
            let identity = pin.identity;
            match pin.exited {
                None => {
                    kept.push(PinnedProcess { identity, exited: None });
                },
                Some(exited) => {
                    let since: Nanos = match exited.since {
                        Some(since) => since,
                        None => now,
                    };
                    if saturating_since(now, since) < EXITED_PIN_LINGER {
                        kept.push(
                            PinnedProcess {
                                identity,
                                exited: Some(
                                    ExitedPin { last_seen: exited.last_seen, since: Some(since) },
                                ),
                            },
                        );
                    }
                },
            }
        }
        self.pinned = kept;
        proof {
            lemma_lingering_pins_sound(all, now, all.len() as int);
        }
        let count: usize = self.rows.len();
        if self.pinned.len() == before {
            proof {
                process_laws::lemma_expired_settles(old(self)@, now);
            }
            return false;
        }
        self.rebuild();
        true
    }

    /// Shows the table in another viewport.
    pub fn set_viewport(&mut self, start: usize, height: usize)
        requires
            old(self).wf(),
        ensures
            final(self)@.deferred == old(self)@.deferred,
            final(self)@ == old(self)@.viewed(start, height),
            final(self).wf(),
    {
        proof {
            reveal(TableState::viewed);
            reveal(TableState::settled);
        }
        proof {
            process_laws::lemma_viewed_settles(self@, start, height);
        }
        self.height = height;
        self.scroll = start;
        self.ensure_visible();
    }
}

fn swap_pins(pinned: &mut Vec<PinnedProcess>, place: usize, target: usize)
    requires
        place < old(pinned)@.len(),
        target < old(pinned)@.len(),
        place != target,
    ensures
        final(pinned)@ == old(pinned)@.update(place as int, old(pinned)@[target as int]).update(
            target as int,
            old(pinned)@[place as int],
        ),
{
    let (low, high): (usize, usize) = if place < target {
        (place, target)
    } else {
        (target, place)
    };
    let upper = pinned.remove(high);
    let lower = pinned.remove(low);
    pinned.insert(low, upper);
    pinned.insert(high, lower);
    assert(pinned@ =~= old(pinned)@.update(place as int, old(pinned)@[target as int]).update(
        target as int,
        old(pinned)@[place as int],
    ));
}

/// Marking pins adds none and pins nothing twice.
pub proof fn lemma_marked_pins_sound(
    pinned: Seq<PinnedProcess>,
    processes: Seq<ProcessInfo>,
    next: Seq<ProcessInfo>,
    count: int,
)
    requires
        0 <= count <= pinned.len(),
        processes.len() <= usize::MAX,
        pins_distinct(pinned),
        pins_true(pinned),
    ensures
        marked_pins(pinned, processes, next, count).len() <= count,
        pins_true(marked_pins(pinned, processes, next, count)),
        pins_distinct(marked_pins(pinned, processes, next, count)),
        forall|i: int|
            #![trigger marked_pins(pinned, processes, next, count)[i]]
            0 <= i < marked_pins(pinned, processes, next, count).len() ==> exists|j: int|
                0 <= j < count && (#[trigger] pinned[j]).identity == marked_pins(
                    pinned,
                    processes,
                    next,
                    count,
                )[i].identity,
    decreases count,
{
    if count > 0 {
        lemma_marked_pins_sound(pinned, processes, next, count - 1);
        let kept = marked_pins(pinned, processes, next, count - 1);
        let marked = marked_pins(pinned, processes, next, count);
        lemma_process_place(processes, pinned[count - 1].identity, 0);
        assert forall|i: int|
            0 <= i < marked.len() && (#[trigger] marked[i]).exited is Some implies
            marked[i].exited->0.last_seen.id() == marked[i].identity by {
            if i < kept.len() {
                assert(marked[i] == kept[i]);
            }
        }
        assert(marked.len() == kept.len() || marked.len() == kept.len() + 1);
        assert forall|i: int| 0 <= i < marked.len() implies exists|j: int|
            0 <= j < count && (#[trigger] pinned[j]).identity == (#[trigger] marked[i]).identity by {
            if i < kept.len() {
                assert(marked[i] == kept[i]);
                let j = choose|j: int|
                    0 <= j < count - 1 && (#[trigger] pinned[j]).identity == kept[i].identity;
                assert(pinned[j].identity == marked[i].identity);
            } else {
                assert(pinned[count - 1].identity == marked[i].identity);
            }
        }
        assert forall|i: int, j: int|
            #![trigger marked[i], marked[j]]
            0 <= i < j < marked.len() implies marked[i].identity != marked[j].identity by {
            assert(marked[i] == kept[i]);
            if j < kept.len() {
                assert(marked[j] == kept[j]);
            } else {
                let k = choose|k: int|
                    0 <= k < count - 1 && (#[trigger] pinned[k]).identity == kept[i].identity;
                assert(pinned[k].identity != pinned[count - 1].identity);
            }
        }
    }
}

/// Dropping pins adds none and pins nothing twice.
pub proof fn lemma_lingering_pins_sound(pinned: Seq<PinnedProcess>, now: Nanos, count: int)
    requires
        0 <= count <= pinned.len(),
        pins_distinct(pinned),
        pins_true(pinned),
    ensures
        lingering_pins(pinned, now, count).len() <= count,
        pins_true(lingering_pins(pinned, now, count)),
        pins_distinct(lingering_pins(pinned, now, count)),
        forall|i: int|
            #![trigger lingering_pins(pinned, now, count)[i]]
            0 <= i < lingering_pins(pinned, now, count).len() ==> exists|j: int|
                0 <= j < count && (#[trigger] pinned[j]).identity == lingering_pins(
                    pinned,
                    now,
                    count,
                )[i].identity,
    decreases count,
{
    if count > 0 {
        lemma_lingering_pins_sound(pinned, now, count - 1);
        let kept = lingering_pins(pinned, now, count - 1);
        let longer = lingering_pins(pinned, now, count);
        assert forall|i: int|
            0 <= i < longer.len() && (#[trigger] longer[i]).exited is Some implies
            longer[i].exited->0.last_seen.id() == longer[i].identity by {
            if i < kept.len() {
                assert(longer[i] == kept[i]);
            }
        }
        assert(longer.len() == kept.len() || longer.len() == kept.len() + 1);
        assert forall|i: int| 0 <= i < longer.len() implies exists|j: int|
            0 <= j < count && (#[trigger] pinned[j]).identity == (#[trigger] longer[i]).identity by {
            if i < kept.len() {
                assert(longer[i] == kept[i]);
                let j = choose|j: int|
                    0 <= j < count - 1 && (#[trigger] pinned[j]).identity == kept[i].identity;
                assert(pinned[j].identity == longer[i].identity);
            } else {
                assert(pinned[count - 1].identity == longer[i].identity);
            }
        }
        assert forall|i: int, j: int|
            #![trigger longer[i], longer[j]]
            0 <= i < j < longer.len() implies longer[i].identity != longer[j].identity by {
            assert(longer[i] == kept[i]);
            if j < kept.len() {
                assert(longer[j] == kept[j]);
            } else {
                let k = choose|k: int|
                    0 <= k < count - 1 && (#[trigger] pinned[k]).identity == kept[i].identity;
                assert(pinned[k].identity != pinned[count - 1].identity);
            }
        }
    }
}

proof fn lemma_matches_in_range(
    processes: Seq<ProcessInfo>,
    pinned: Seq<PinnedProcess>,
    query: Seq<char>,
    count: int,
)
    requires
        0 <= count <= processes.len() <= usize::MAX,
    ensures
        forall|i: int|
            0 <= i < unpinned_matches(processes, pinned, query, count).len()
                ==> #[trigger] unpinned_matches(processes, pinned, query, count)[i] < count,
    decreases count,
{
    if count > 0 {
        lemma_matches_in_range(processes, pinned, query, count - 1);
        let shorter = unpinned_matches(processes, pinned, query, count - 1);
        let longer = unpinned_matches(processes, pinned, query, count);
        assert forall|i: int| 0 <= i < longer.len() implies #[trigger] longer[i] < count by {
            if i < shorter.len() {
                assert(longer[i] == shorter[i]);
            }
        }
    }
}

} // verus!
