//! What the rows of the tables show, in terms of the things they show.
use vstd::prelude::*;

use crate::action::ProcessSortField;
use crate::app::items;
use crate::app::list;
use crate::app::list::{Item, ListState};
use crate::app::process_laws;
use crate::app::process_order;
use crate::app::process_table;
use crate::app::process_table::{PinnedProcess, ProcessRow, TableState};
use crate::app::scroll;
use crate::linux::journal;
use crate::linux::journal::JournalEntry;
use crate::linux::process::{ProcessIdentity, ProcessInfo};
use crate::linux::service::ServiceInfo;
use crate::numerals;
use crate::order;
use crate::text;
use crate::text_laws;

verus! {

broadcast use vstd::string::group_string_axioms;

/// A text holds another, with something before it and something behind it.
pub open spec fn holds(text: Seq<char>, part: Seq<char>) -> bool {
    exists|before: Seq<char>, after: Seq<char>| text == #[trigger] (before + part + after)
}

proof fn lemma_holds(text: Seq<char>, part: Seq<char>)
    ensures
        holds(text, part) == text::contains(text, part),
{
    if holds(text, part) {
        let (before, after) = choose|before: Seq<char>, after: Seq<char>|
            text == #[trigger] (before + part + after);
        text_laws::lemma_contained_is_found(before, part, after);
    }
    if text::contains(text, part) {
        let split = text_laws::lemma_found_is_contained(text, part);
        assert(text == split.0 + part + split.1);
    }
}

/// What is sought, in small letters, is part of the name or of the command of a process, in small
/// letters, or of its PID, or nothing is sought.
pub open spec fn sought(process: ProcessInfo, query: Seq<char>) -> bool {
    let wanted = text::lowercase(query);
    ||| wanted.len() == 0
    ||| holds(text::lowercase(process.name@), wanted)
    ||| holds(numerals::decimal(process.pid as nat), wanted)
    ||| process.command is Some && holds(text::lowercase(process.command->0@), wanted)
}

/// A process is pinned.
pub open spec fn is_pinned(pinned: Seq<PinnedProcess>, process: ProcessInfo) -> bool {
    exists|i: int|
        0 <= i < pinned.len() && (#[trigger] pinned[i]).identity.pid == process.pid
            && pinned[i].identity.start_time == process.start_time
}

proof fn lemma_pinned(pinned: Seq<PinnedProcess>, process: ProcessInfo)
    requires
        pinned.len() <= usize::MAX,
    ensures
        is_pinned(pinned, process) == (process_table::pin_place(pinned, process.id(), 0) is Some),
{
    process_table::lemma_pin_place(pinned, process.id(), 0);
}

proof fn lemma_sought(process: ProcessInfo, query: Seq<char>)
    ensures
        sought(process, query) == process_order::found_by(process, text::lowercase(query)),
{
    let wanted = text::lowercase(query);
    lemma_holds(text::lowercase(process.name@), wanted);
    lemma_holds(numerals::decimal(process.pid as nat), wanted);
    if process.command is Some {
        lemma_holds(text::lowercase(process.command->0@), wanted);
    }
}

/// The table of processes is shown and up to date.
pub open spec fn shown(table: TableState) -> bool {
    &&& table.settled()
    &&& table.deferred is None
    &&& table.processes.len() <= usize::MAX
    &&& table.pinned.len() <= usize::MAX
}

/// A process that is not pinned has a row exactly if it is what is sought.
pub proof fn lemma_search_shows_what_is_sought(table: TableState, place: int)
    requires
        shown(table),
        0 <= place < table.processes.len(),
        !is_pinned(table.pinned, table.processes[place]),
    ensures
        sought(table.processes[place], table.query) == exists|row: int|
            0 <= row < table.rows.len() && #[trigger] table.rows[row] is Live
                && table.rows[row]->index == place,
{
    reveal(TableState::settled);
    let query = text::lowercase(table.query);
    let process = table.processes[place];
    lemma_pinned(table.pinned, process);
    lemma_sought(process, table.query);
    process_laws::lemma_matches_are_listed(
        table.processes,
        table.pinned,
        query,
        table.sort,
        place,
    );
    let leading = process_table::pinned_rows(
        table.processes,
        table.pinned,
        query,
        table.pinned.len() as int,
    );
    let wanted = ProcessRow::Live { index: place as usize, dimmed: false };
    if sought(process, table.query) {
        let behind = table.rows.skip(leading.len() as int);
        let parts = process_table::plain_rows(
            order::arranged(
                process_order::listing_order(table.processes, table.sort),
                process_table::unpinned_matches(
                    table.processes,
                    table.pinned,
                    query,
                    table.processes.len() as int,
                ),
            ),
        );
        assert(behind =~= parts);
        let i = choose|i: int| 0 <= i < behind.len() && behind[i] == wanted;
        assert(table.rows[leading.len() + i] == wanted);
    } else {
        assert forall|row: int|
            0 <= row < table.rows.len() && #[trigger] table.rows[row] is Live
                && table.rows[row]->index == place implies false by {
            process_laws::lemma_pinned_rows_lead(table, row);
            if row < leading.len() {
                assert(table.row_is_pinned(table.rows[row]));
                lemma_pinned(table.pinned, process);
            } else {
                let parts = process_table::plain_rows(
                    order::arranged(
                        process_order::listing_order(table.processes, table.sort),
                        process_table::unpinned_matches(
                            table.processes,
                            table.pinned,
                            query,
                            table.processes.len() as int,
                        ),
                    ),
                );
                assert(table.rows[row] == parts[row - leading.len()]);
                assert(parts[row - leading.len()] == wanted);
                assert(parts.contains(wanted));
            }
        }
    }
}

/// The first text comes before the second in the alphabet, or is it: where they first differ the
/// first has the lower character, and where one goes on and the other does not, the first is
/// the shorter one.
pub open spec fn alphabetical(left: Seq<char>, right: Seq<char>) -> bool {
    &&& forall|k: int|
        0 <= k < left.len() && k < right.len() && left.take(k) == right.take(k) ==> (
        #[trigger] left[k]) <= right[k]
    &&& right.len() < left.len() ==> left.take(right.len() as int) != right
}

proof fn lemma_alphabetical(left: Seq<char>, right: Seq<char>, from: int)
    requires
        0 <= from <= left.len(),
        from <= right.len(),
        left.take(from) == right.take(from),
        order::text_leq_from(left, right, from),
    ensures
        forall|k: int|
            from <= k < left.len() && k < right.len() && left.take(k) == right.take(k) ==> (
            #[trigger] left[k]) <= right[k],
        right.len() < left.len() ==> left.take(right.len() as int) != right,
    decreases left.len() - from,
{
    if from < left.len() {
        if from >= right.len() {
        } else if left[from] != right[from] {
            assert forall|k: int|
                from < k < left.len() && k < right.len() && left.take(k) == right.take(
                    k,
                ) implies (#[trigger] left[k]) <= right[k] by {
                assert(left.take(k)[from] == right.take(k)[from]);
            }
            if right.len() < left.len() && left.take(right.len() as int) == right {
                assert(left.take(right.len() as int)[from] == right[from]);
            }
        } else {
            assert(left.take(from + 1) =~= right.take(from + 1)) by {
                assert(left.take(from + 1) =~= left.take(from).push(left[from]));
                assert(right.take(from + 1) =~= right.take(from).push(right[from]));
            }
            lemma_alphabetical(left, right, from + 1);
        }
    }
}

/// The order of texts is that of the alphabet.
pub proof fn lemma_texts_are_in_alphabetical_order(left: Seq<char>, right: Seq<char>)
    requires
        order::text_leq(left, right),
    ensures
        alphabetical(left, right),
{
    assert(left.take(0) =~= right.take(0));
    lemma_alphabetical(left, right, 0);
}

/// Two shares of the processors that are not below zero: the first is not less than the second.
pub open spec fn no_less(left: ProcessInfo, right: ProcessInfo) -> bool {
    left.cpu_percent is Some && right.cpu_percent is Some && left.cpu_percent->0.bits
        < 0x8000_0000_0000_0000 && right.cpu_percent->0.bits < 0x8000_0000_0000_0000
        ==> left.cpu_percent->0.bits >= right.cpu_percent->0.bits
}

/// Of any two rows of processes that are not pinned, the upper one has no less of what the table
/// is sorted by where that goes down, and no more where it goes up. A share that is not known
/// comes last either way, and of equals the lower PID comes first.
pub proof fn lemma_rows_are_sorted(table: TableState, upper: int, lower: int)
    requires
        shown(table),
        0 <= upper < lower < table.rows.len(),
        table.rows[upper] is Live,
        table.rows[lower] is Live,
        table.rows[upper]->index < table.processes.len(),
        table.rows[lower]->index < table.processes.len(),
        !is_pinned(table.pinned, table.processes[table.rows[upper]->index as int]),
        !is_pinned(table.pinned, table.processes[table.rows[lower]->index as int]),
    ensures
        ({
            let first = table.processes[table.rows[upper]->index as int];
            let second = table.processes[table.rows[lower]->index as int];
            let down = table.sort.descending;
            match table.sort.field {
                ProcessSortField::Cpu => {
                    &&& first.cpu_percent is None ==> second.cpu_percent is None
                    &&& down ==> no_less(first, second)
                    &&& !down ==> no_less(second, first)
                    &&& first.cpu_percent == second.cpu_percent ==> first.pid <= second.pid
                },
                ProcessSortField::Memory => {
                    &&& down ==> first.memory_bytes >= second.memory_bytes
                    &&& !down ==> first.memory_bytes <= second.memory_bytes
                    &&& first.memory_bytes == second.memory_bytes ==> first.pid <= second.pid
                },
                ProcessSortField::Pid => {
                    &&& down ==> first.pid >= second.pid
                    &&& !down ==> first.pid <= second.pid
                },
                ProcessSortField::Name => {
                    let left = text::lowercase(first.name@);
                    let right = text::lowercase(second.name@);
                    &&& down ==> alphabetical(right, left)
                    &&& !down ==> alphabetical(left, right)
                    &&& left == right ==> first.pid <= second.pid
                },
            }
        }),
{
    reveal(TableState::settled);
    let query = text::lowercase(table.query);
    let first = table.processes[table.rows[upper]->index as int];
    let second = table.processes[table.rows[lower]->index as int];
    lemma_pinned(table.pinned, first);
    lemma_pinned(table.pinned, second);
    process_laws::lemma_pinned_rows_lead(table, upper);
    process_laws::lemma_pinned_rows_lead(table, lower);
    process_laws::lemma_table_is_sorted(
        table.processes,
        table.pinned,
        query,
        table.sort,
        upper,
        lower,
    );
    let left = text::lowercase(first.name@);
    let right = text::lowercase(second.name@);
    order::lemma_text_order(left, left, right);
    if order::text_leq(left, right) {
        lemma_texts_are_in_alphabetical_order(left, right);
    }
    if order::text_leq(right, left) {
        lemma_texts_are_in_alphabetical_order(right, left);
    }
}

/// The pinned processes lead the table, one row each, in the order in which they were pinned, as
/// long as each is listed or was seen to exit.
pub proof fn lemma_pins_lead_in_order(table: TableState, place: int)
    requires
        shown(table),
        0 <= place < table.pinned.len(),
        forall|i: int|
            0 <= i < table.pinned.len() ==> (#[trigger] table.pinned[i]).exited is Some
                || exists|k: int|
                0 <= k < table.processes.len() && (#[trigger] table.processes[k]).id()
                    == table.pinned[i].identity,
    ensures
        table.rows.len() >= table.pinned.len(),
        match table.rows[place] {
            ProcessRow::Live { index, .. } => table.pinned[place].exited is None && index
                < table.processes.len() && table.processes[index as int].pid
                == table.pinned[place].identity.pid && table.processes[index as int].start_time
                == table.pinned[place].identity.start_time,
            ProcessRow::Exited { pin } => table.pinned[place].exited is Some && pin == place,
        },
{
    reveal(TableState::settled);
    let query = text::lowercase(table.query);
    lemma_pin_rows(
        table.processes,
        table.pinned,
        query,
        table.pinned.len() as int,
    );
    let leading = process_table::pinned_rows(
        table.processes,
        table.pinned,
        query,
        table.pinned.len() as int,
    );
    assert(table.rows[place] == leading[place]);
}

proof fn lemma_last_listed(processes: Seq<ProcessInfo>, identity: ProcessIdentity, k: int, count: int)
    requires
        0 <= k < count <= processes.len() <= usize::MAX,
        processes[k].id() == identity,
    ensures
        process_table::last_process_place(processes, identity, count) matches Some(place) && place
            < count && processes[place as int].id() == identity,
    decreases count,
{
    if processes[count - 1].id() != identity {
        lemma_last_listed(processes, identity, k, count - 1);
    }
}

proof fn lemma_pin_rows(
    processes: Seq<ProcessInfo>,
    pinned: Seq<PinnedProcess>,
    query: Seq<char>,
    count: int,
)
    requires
        0 <= count <= pinned.len() <= usize::MAX,
        processes.len() <= usize::MAX,
        forall|i: int|
            0 <= i < pinned.len() ==> (#[trigger] pinned[i]).exited is Some || exists|k: int|
                0 <= k < processes.len() && (#[trigger] processes[k]).id() == pinned[i].identity,
    ensures
        ({
            let rows = process_table::pinned_rows(processes, pinned, query, count);
            &&& rows.len() == count
            &&& forall|i: int|
                0 <= i < count ==> match #[trigger] rows[i] {
                    ProcessRow::Live { index, .. } => pinned[i].exited is None && index
                        < processes.len() && processes[index as int].id() == pinned[i].identity,
                    ProcessRow::Exited { pin } => pinned[i].exited is Some && pin == i,
                }
        }),
    decreases count,
{
    if count > 0 {
        lemma_pin_rows(processes, pinned, query, count - 1);
        let pin = pinned[count - 1];
        if pin.exited is None {
            let k = choose|k: int|
                0 <= k < processes.len() && (#[trigger] processes[k]).id() == pin.identity;
            lemma_last_listed(processes, pin.identity, k, processes.len() as int);
        }
    }
}

/// What is sought, in small letters, is part of one of the texts of a service, or nothing is
/// sought.
pub open spec fn service_sought(service: ServiceInfo, query: Seq<char>) -> bool {
    let wanted = text::lowercase(query);
    ||| wanted.len() == 0
    ||| holds(text::lowercase(service.unit@), wanted)
    ||| holds(text::lowercase(service.description@), wanted)
    ||| holds(text::lowercase(service.load_state@), wanted)
    ||| holds(text::lowercase(service.active_state@), wanted)
    ||| holds(text::lowercase(service.sub_state@), wanted)
}

/// The search finds the services that are sought.
pub proof fn lemma_service_found(service: ServiceInfo, query: Seq<char>)
    ensures
        service_sought(service, query) == items::service_found(service, text::lowercase(query)),
{
    let wanted = text::lowercase(query);
    let texts = items::service_texts(service);
    lemma_holds(text::lowercase(service.unit@), wanted);
    lemma_holds(text::lowercase(service.description@), wanted);
    lemma_holds(text::lowercase(service.load_state@), wanted);
    lemma_holds(text::lowercase(service.active_state@), wanted);
    lemma_holds(text::lowercase(service.sub_state@), wanted);
    if service_sought(service, query) && wanted.len() > 0 {
        if holds(text::lowercase(service.unit@), wanted) {
            assert(text::contains(texts[0], wanted));
        } else if holds(text::lowercase(service.description@), wanted) {
            assert(text::contains(texts[1], wanted));
        } else if holds(text::lowercase(service.load_state@), wanted) {
            assert(text::contains(texts[2], wanted));
        } else if holds(text::lowercase(service.active_state@), wanted) {
            assert(text::contains(texts[3], wanted));
        } else {
            assert(text::contains(texts[4], wanted));
        }
    }
}

/// A service has a row exactly if it is what is sought.
pub proof fn lemma_search_shows_services(services: ListState<ServiceInfo>, place: int)
    requires
        services.settled(),
        0 <= place < services.items.len() <= usize::MAX,
    ensures
        services.rows.contains(place as usize) == service_sought(
            services.items[place],
            services.query,
        ),
{
    reveal(ListState::settled);
    let wanted = text::lowercase(services.query);
    lemma_service_found(services.items[place], services.query);
    list::lemma_found_is_shown(services.items, wanted, services.items.len() as int, place);
}

/// The name of a severity.
pub open spec fn severity_name(level: u8) -> Seq<char> {
    if level == 0 {
        "emerg"@
    } else if level == 1 {
        "alert"@
    } else if level == 2 {
        "crit"@
    } else if level == 3 {
        "error"@
    } else if level == 4 {
        "warn"@
    } else if level == 5 {
        "notice"@
    } else if level == 6 {
        "info"@
    } else if level == 7 {
        "debug"@
    } else {
        "-"@
    }
}

/// A severity is shown under its name, and an entry without one as such.
pub proof fn lemma_severities_are_named(priority: Option<u8>)
    ensures
        priority is Some ==> journal::priority_name(priority) == severity_name(priority->0),
        priority is None ==> journal::priority_name(priority) == "-"@,
{
}

/// What is sought, in small letters, is part of the source or of the message of an entry, in small
/// letters, of the number or of the name of its severity, or nothing is sought.
pub open spec fn entry_sought(entry: JournalEntry, query: Seq<char>) -> bool {
    let wanted = text::lowercase(query);
    ||| wanted.len() == 0
    ||| holds(text::lowercase(entry.source@), wanted)
    ||| holds(text::lowercase(entry.message@), wanted)
    ||| entry.priority is Some && holds(numerals::decimal(entry.priority->0 as nat), wanted)
    ||| entry.priority is Some && holds(severity_name(entry.priority->0), wanted)
    ||| entry.priority == Some(4u8) && holds("warning"@, wanted)
}

/// An entry of the journal has a row exactly if it is what is sought.
pub proof fn lemma_search_shows_entries(logs: ListState<JournalEntry>, place: int)
    requires
        logs.settled(),
        0 <= place < logs.items.len() <= usize::MAX,
    ensures
        logs.rows.contains(place as usize) == entry_sought(logs.items[place], logs.query),
{
    reveal(ListState::settled);
    let wanted = text::lowercase(logs.query);
    let entry = logs.items[place];
    list::lemma_found_is_shown(logs.items, wanted, logs.items.len() as int, place);
    let texts = items::log_texts(entry);
    let count = texts.len() as int;
    lemma_holds(text::lowercase(entry.source@), wanted);
    lemma_holds(text::lowercase(entry.message@), wanted);
    lemma_holds("warning"@, wanted);
    assert(texts[count - 1] == text::lowercase(entry.message@));
    assert(texts[count - 2] == text::lowercase(entry.source@));
    if entry.priority is Some {
        let level = entry.priority->0;
        lemma_holds(numerals::decimal(level as nat), wanted);
        lemma_holds(severity_name(level), wanted);
        assert(texts[0] == numerals::decimal(level as nat));
        assert(texts[1] == severity_name(level));
        if level == 4 {
            assert(texts[2] == "warning"@);
        }
    }
    if entry_sought(entry, logs.query) && wanted.len() > 0 {
        if holds(text::lowercase(entry.source@), wanted) {
            assert(text::contains(texts[count - 2], wanted));
        } else if holds(text::lowercase(entry.message@), wanted) {
            assert(text::contains(texts[count - 1], wanted));
        } else if holds(numerals::decimal(entry.priority->0 as nat), wanted) {
            assert(text::contains(texts[0], wanted));
        } else if holds(severity_name(entry.priority->0), wanted) {
            assert(text::contains(texts[1], wanted));
        } else {
            assert(text::contains(texts[2], wanted));
        }
    }
}

/// The rows of a list are in the order of its items.
pub proof fn lemma_rows_keep_the_order<T: list::Item>(list: ListState<T>, upper: int, lower: int)
    requires
        list.settled(),
        list.items.len() <= usize::MAX,
        0 <= upper < lower < list.rows.len(),
    ensures
        list.rows[upper] < list.rows[lower],
{
    reveal(ListState::settled);
    list::lemma_rows_ascend(
        list.items,
        text::lowercase(list.query),
        list.items.len() as int,
        upper,
        lower,
    );
}

/// A list whose selected row is in view, and which fills its view, is not scrolled.
pub proof fn lemma_no_needless_scrolling(count: int, selected: usize, start: int, height: int)
    requires
        0 < height <= count,
        0 <= start <= count - height,
        start <= selected < start + height,
    ensures
        scroll::scroll_start(count, Some(selected), start, height) == start,
{
}

/// A list is scrolled no further than it takes: a row above the view becomes the first in view, a
/// row below it the last.
pub proof fn lemma_scrolling_goes_no_further(count: int, selected: usize, start: int, height: int)
    requires
        0 < height <= count,
        0 <= start <= count - height,
        0 <= selected < count,
    ensures
        selected < start ==> scroll::scroll_start(count, Some(selected), start, height) == selected,
        selected >= start + height ==> scroll::scroll_start(count, Some(selected), start, height)
            + height == selected + 1,
{
}

/// The selected item is the one that is selected, and the first of the items that are it.
pub proof fn lemma_selected_item_is_the_selected_one<T: Item>(list: ListState<T>, place: int)
    requires
        0 <= place < list.items.len() <= usize::MAX,
        list.selected == Some(list.items[place].tag()),
        forall|i: int| 0 <= i < place ==> (#[trigger] list.items[i]).tag() != list.items[place].tag(),
    ensures
        list.selected_item() == Some(list.items[place]),
{
    lemma_item_is_placed(list.items, place, 0);
}

proof fn lemma_item_is_placed<T: Item>(items: Seq<T>, place: int, from: int)
    requires
        0 <= from <= place < items.len(),
        forall|i: int| from <= i < place ==> (#[trigger] items[i]).tag() != items[place].tag(),
    ensures
        list::item_place(items, items[place].tag(), from) == Some(place as usize),
    decreases place - from,
{
    if from < place {
        lemma_item_is_placed(items, place, from + 1);
    }
}

/// The selected process is the one that is selected, with its current data.
pub proof fn lemma_selected_process_is_the_selected_one(table: TableState, place: int)
    requires
        0 <= place < table.processes.len() <= usize::MAX,
        table.selected == Some(table.processes[place].id()),
        forall|i: int|
            0 <= i < place ==> (#[trigger] table.processes[i]).id() != table.processes[place].id(),
    ensures
        table.selected_process() == Some(table.processes[place]),
{
    lemma_process_is_at(table.processes, place, 0);
}

proof fn lemma_process_is_at(processes: Seq<ProcessInfo>, place: int, from: int)
    requires
        0 <= from <= place < processes.len(),
        forall|i: int|
            from <= i < place ==> (#[trigger] processes[i]).id() != processes[place].id(),
    ensures
        process_table::process_place(processes, processes[place].id(), from) == Some(
            place as usize,
        ),
    decreases place - from,
{
    if from < place {
        lemma_process_is_at(processes, place, from + 1);
    }
}

/// A row shows the process that it stands for: one of the listing, or a pinned one that exited, as
/// it was last seen.
pub proof fn lemma_rows_show_their_processes(table: TableState, row: int)
    requires
        0 <= row < table.rows.len(),
    ensures
        table.rows[row] is Live && table.rows[row]->index < table.processes.len()
            ==> table.process_at(row) == Some(table.processes[table.rows[row]->index as int]),
        table.rows[row] is Exited && table.rows[row]->pin < table.pinned.len()
            && table.pinned[table.rows[row]->pin as int].exited is Some ==> table.process_at(row)
            == Some(table.pinned[table.rows[row]->pin as int].exited->0.last_seen),
{
}

/// Another view of a list is as high as it was said to be, shows the same rows with the same one
/// selected, and starts where it was said to where the selected row is in it.
pub proof fn lemma_views_keep_the_rows<T: Item>(list: ListState<T>, start: usize, height: usize)
    requires
        list.items.len() <= usize::MAX,
        list.selected_row() is Some,
        0 < height <= list.rows.len() <= usize::MAX,
        start <= list.rows.len() - height,
        start <= list.selected_row()->0 < start + height,
    ensures
        list.viewed(start, height).height == height,
        list.viewed(start, height).scroll == start,
        list.viewed(start, height).rows == list.rows,
        list.viewed(start, height).selected == list.selected,
{
    reveal(ListState::viewed);
    let moved = ListState { scroll: start, height, ..list };
    assert(moved.selected_row() == list.selected_row());
}

/// As many processes are counted as listed as there are rows that are not dimmed.
pub proof fn lemma_listed_rows_are_counted(rows: Seq<ProcessRow>, next: ProcessRow)
    ensures
        process_table::listed_count(rows.push(next), rows.len() as int + 1)
            == process_table::listed_count(rows, rows.len() as int) + (if next is Live
            && !next->dimmed {
            1nat
        } else {
            0nat
        }),
{
    lemma_count_of_first(rows, rows.push(next), rows.len() as int);
}

proof fn lemma_count_of_first(left: Seq<ProcessRow>, right: Seq<ProcessRow>, count: int)
    requires
        0 <= count <= left.len(),
        count <= right.len(),
        forall|i: int| 0 <= i < count ==> #[trigger] left[i] == right[i],
    ensures
        process_table::listed_count(left, count) == process_table::listed_count(right, count),
    decreases count,
{
    if count > 0 {
        lemma_count_of_first(left, right, count - 1);
        assert(left[count - 1] == right[count - 1]);
    }
}

} // verus!
