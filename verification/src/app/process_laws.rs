//! What holds of the table of processes.
use vstd::prelude::*;

use crate::action::{PinMove, ProcessSort, ProcessSortField};
use crate::app::process_order;
use crate::app::process_table;
use crate::app::process_table::{
    PinOutcome, PinnedProcess, ProcessRow, TableState, MAX_PINNED_PROCESSES,
};
use crate::app::scroll;
use crate::linux::process::{ProcessIdentity, ProcessInfo};
use crate::order;
use crate::order::Standing;
use crate::text;
use crate::time::Nanos;

verus! {

proof fn lemma_row_from(
    rows: Seq<ProcessRow>,
    processes: Seq<ProcessInfo>,
    pinned: Seq<PinnedProcess>,
    identity: ProcessIdentity,
    from: int,
    row: int,
)
    requires
        0 <= from <= row < rows.len(),
        row <= usize::MAX,
        process_table::row_shows(processes, pinned, rows[row], identity),
    ensures
        process_table::row_from(rows, processes, pinned, identity, from) is Some,
        from <= process_table::row_from(rows, processes, pinned, identity, from)->0 <= row,
    decreases row - from,
{
    if !process_table::row_shows(processes, pinned, rows[from], identity) {
        lemma_row_from(rows, processes, pinned, identity, from + 1, row);
    }
}

proof fn lemma_next_selectable(rows: Seq<ProcessRow>, from: int)
    requires
        0 <= from,
        rows.len() <= usize::MAX,
    ensures
        process_table::next_selectable(rows, from) matches Some(row) ==> from <= row < rows.len() && process_table::selectable(
            rows[row as int],
        ),
        process_table::next_selectable(rows, from) is None ==> forall|i: int|
            from <= i < rows.len() ==> !process_table::selectable(#[trigger] rows[i]),
    decreases rows.len() - from,
{
    if from < rows.len() && !process_table::selectable(rows[from]) {
        lemma_next_selectable(rows, from + 1);
    }
}

proof fn lemma_previous_selectable(rows: Seq<ProcessRow>, before: int)
    requires
        before <= rows.len() <= usize::MAX,
    ensures
        process_table::previous_selectable(rows, before) matches Some(row) ==> row < before && process_table::selectable(
            rows[row as int],
        ),
        process_table::previous_selectable(rows, before) is None ==> forall|i: int|
            0 <= i < before ==> !process_table::selectable(#[trigger] rows[i]),
    decreases before,
{
    if before > 0 && !process_table::selectable(rows[before - 1]) {
        lemma_previous_selectable(rows, before - 1);
    }
}

/// A fallback selection is a live match, and there is one whenever the table lists any.
pub proof fn lemma_fallback_is_a_match(rows: Seq<ProcessRow>, wanted: int)
    requires
        0 <= wanted,
        rows.len() <= usize::MAX,
    ensures
        process_table::nearest_selectable(rows, wanted) matches Some(row) ==> row < rows.len() && process_table::selectable(
            rows[row as int],
        ),
        process_table::nearest_selectable(rows, wanted) is None ==> forall|i: int|
            0 <= i < rows.len() ==> !process_table::selectable(#[trigger] rows[i]),
{
    if rows.len() > 0 {
        let start = if wanted < rows.len() {
            wanted
        } else {
            rows.len() - 1
        };
        lemma_next_selectable(rows, start);
        lemma_previous_selectable(rows, start);
    }
}

/// Scrolling twice is scrolling once.
pub proof fn lemma_scrolled_settles(table: TableState)
    ensures
        table.scrolled().scrolled() == table.scrolled(),
        table.scrolled().scroll == scroll::scroll_start(
            table.rows.len() as int,
            table.selected_row(),
            table.scroll as int,
            table.height as int,
        ),
{
    scroll::lemma_scroll_settles(
        table.rows.len() as int,
        table.selected_row(),
        table.scroll as int,
        table.height as int,
    );
    assert(table.scrolled().selected_row() == table.selected_row());
}

proof fn lemma_reselected_is_listed(
    table: TableState,
    previous: Option<ProcessIdentity>,
    wanted: int,
)
    requires
        0 <= wanted,
        table.rows.len() <= usize::MAX,
    ensures
        table.reselected(previous, wanted).selected is Some ==> table.reselected(
            previous,
            wanted,
        ).selected_row() is Some,
{
    lemma_fallback_is_listed(table, wanted);
}

proof fn lemma_fallback_is_listed(table: TableState, wanted: int)
    requires
        0 <= wanted,
        table.rows.len() <= usize::MAX,
    ensures
        table.fallback(wanted) matches Some(identity) ==> table.row_of(identity) is Some,
{
    lemma_fallback_is_a_match(table.rows, wanted);
    match process_table::nearest_selectable(table.rows, wanted) {
        Some(row) => match table.process_at(row as int) {
            Some(process) => {
                lemma_row_from(
                    table.rows,
                    table.processes,
                    table.pinned,
                    process.id(),
                    0,
                    row as int,
                );
            },
            None => {},
        },
        None => {},
    }
}

/// However the table was before, making its rows anew settles it.
pub proof fn lemma_rebuilt_settles(table: TableState)
    requires
        table.pins_sound(),
        table.rebuilt().rows.len() <= usize::MAX,
    ensures
        table.rebuilt().settled(),
{
    reveal(TableState::settled);
    reveal(TableState::rebuilt);
    let fresh = TableState {
        rows: process_table::table_rows(table.processes, table.pinned, text::lowercase(table.query), table.sort),
        deferred: None,
        ..table
    };
    let chosen = fresh.reselected(table.selected, table.fallback_row() as int);
    lemma_reselected_is_listed(fresh, table.selected, table.fallback_row() as int);
    lemma_scrolled_settles(chosen);
}

/// Moving the selection off a dimmed row keeps the table settled.
pub proof fn lemma_undimmed_settles(table: TableState)
    requires
        table.settled(),
        table.rows.len() <= usize::MAX,
    ensures
        table.undimmed().settled(),
{
    reveal(TableState::settled);
    reveal(TableState::undimmed);
    match table.selected_row() {
        Some(row) => {
            lemma_fallback_is_listed(table, row as int);
            lemma_scrolled_settles(TableState { selected: table.fallback(row as int), ..table });
        },
        None => {},
    }
}

/// Selecting a row keeps the table settled.
pub proof fn lemma_selected_at_settles(table: TableState, row: int)
    requires
        table.settled(),
        table.rows.len() <= usize::MAX,
    ensures
        table.selected_at(row).settled(),
{
    reveal(TableState::settled);
    reveal(TableState::selected_at);
    match table.process_at(row) {
        Some(process) => {
            lemma_row_from(table.rows, table.processes, table.pinned, process.id(), 0, row);
            lemma_scrolled_settles(TableState { selected: Some(process.id()), ..table });
        },
        None => {},
    }
}

/// Another viewport keeps the table settled.
pub proof fn lemma_viewed_settles(table: TableState, start: usize, height: usize)
    requires
        table.settled(),
    ensures
        table.viewed(start, height).settled(),
{
    reveal(TableState::settled);
    reveal(TableState::viewed);
    let moved = TableState { scroll: start, height, ..table };
    lemma_scrolled_settles(moved);
}

/// A new listing settles a shown table.
pub proof fn lemma_replaced_settles(table: TableState, next: Seq<ProcessInfo>)
    requires
        table.pins_sound(),
        table.processes.len() <= usize::MAX,
        table.replaced(next).rows.len() <= usize::MAX,
    ensures
        table.replaced(next).settled(),
{
    reveal(TableState::settled);
    reveal(TableState::replaced);
    reveal(TableState::rebuilt);
    let wanted = match table.selected_row() {
        Some(row) => row,
        None => 0,
    };
    let changed = TableState {
        processes: next,
        pinned: process_table::marked_pins(table.pinned, table.processes, next, table.pinned.len() as int),
        summary: crate::linux::process::summarized(next),
        ..table
    };
    process_table::lemma_marked_pins_sound(table.pinned, table.processes, next, table.pinned.len() as int);
    lemma_rebuilt_settles(changed);
    let fresh = changed.rebuilt();
    lemma_reselected_is_listed(fresh, table.selected, wanted as int);
    lemma_scrolled_settles(fresh.reselected(table.selected, wanted as int));
}

/// A new listing settles a hidden table.
pub proof fn lemma_replaced_hidden_settles(table: TableState, next: Seq<ProcessInfo>)
    requires
        table.pins_sound(),
        table.processes.len() <= usize::MAX,
    ensures
        table.replaced_hidden(next).settled(),
{
    reveal(TableState::settled);
    reveal(TableState::replaced_hidden);
    process_table::lemma_marked_pins_sound(table.pinned, table.processes, next, table.pinned.len() as int);
}

/// Two rows of pins pin the same processes and agree on which have exited, and as what.
spec fn pins_alike(left: Seq<PinnedProcess>, right: Seq<PinnedProcess>) -> bool {
    left.len() == right.len() && forall|i: int|
        #![trigger left[i]]
        #![trigger right[i]]
        0 <= i < left.len() ==> {
            &&& left[i].identity == right[i].identity
            &&& left[i].exited is Some == right[i].exited is Some
            &&& left[i].exited is Some ==> left[i].exited->0.last_seen == right[i].exited->0.last_seen
        }
}

proof fn lemma_alike_place(
    left: Seq<PinnedProcess>,
    right: Seq<PinnedProcess>,
    identity: ProcessIdentity,
    from: int,
)
    requires
        pins_alike(left, right),
        0 <= from,
    ensures
        process_table::pin_place(left, identity, from) == process_table::pin_place(right, identity, from),
    decreases left.len() - from,
{
    if from < left.len() {
        assert(left[from].identity == right[from].identity);
        lemma_alike_place(left, right, identity, from + 1);
    }
}

proof fn lemma_alike_rows(
    processes: Seq<ProcessInfo>,
    left: Seq<PinnedProcess>,
    right: Seq<PinnedProcess>,
    query: Seq<char>,
    count: int,
)
    requires
        pins_alike(left, right),
        count <= left.len(),
    ensures
        process_table::pinned_rows(processes, left, query, count) == process_table::pinned_rows(processes, right, query, count),
    decreases count,
{
    if count > 0 {
        assert(left[count - 1].identity == right[count - 1].identity);
        lemma_alike_rows(processes, left, right, query, count - 1);
    }
}

proof fn lemma_alike_matches(
    processes: Seq<ProcessInfo>,
    left: Seq<PinnedProcess>,
    right: Seq<PinnedProcess>,
    query: Seq<char>,
    count: int,
)
    requires
        pins_alike(left, right),
    ensures
        process_table::unpinned_matches(processes, left, query, count) == process_table::unpinned_matches(
            processes,
            right,
            query,
            count,
        ),
    decreases count,
{
    if count > 0 {
        lemma_alike_matches(processes, left, right, query, count - 1);
        lemma_alike_place(left, right, processes[count - 1].id(), 0);
    }
}

proof fn lemma_alike_row_from(
    rows: Seq<ProcessRow>,
    processes: Seq<ProcessInfo>,
    left: Seq<PinnedProcess>,
    right: Seq<PinnedProcess>,
    identity: ProcessIdentity,
    from: int,
)
    requires
        pins_alike(left, right),
    ensures
        process_table::row_from(rows, processes, left, identity, from) == process_table::row_from(
            rows,
            processes,
            right,
            identity,
            from,
        ),
    decreases rows.len() - from,
{
    if from < rows.len() {
        match rows[from] {
            ProcessRow::Exited { pin } => {
                if pin < left.len() {
                    assert(left[pin as int].identity == right[pin as int].identity);
                }
            },
            ProcessRow::Live { .. } => {},
        }
        lemma_alike_row_from(rows, processes, left, right, identity, from + 1);
    }
}

proof fn lemma_all_linger(pinned: Seq<PinnedProcess>, now: Nanos, count: int)
    requires
        0 <= count <= pinned.len(),
    ensures
        process_table::lingering_pins(pinned, now, count).len() <= count,
        process_table::lingering_pins(pinned, now, count).len() == count ==> pins_alike(
            process_table::lingering_pins(pinned, now, count),
            pinned.take(count),
        ),
    decreases count,
{
    if count > 0 {
        lemma_all_linger(pinned, now, count - 1);
        let shorter = process_table::lingering_pins(pinned, now, count - 1);
        let longer = process_table::lingering_pins(pinned, now, count);
        if longer.len() == count {
            assert forall|i: int| 0 <= i < count implies {
                &&& (#[trigger] longer[i]).identity == pinned.take(count)[i].identity
                &&& longer[i].exited is Some == pinned.take(count)[i].exited is Some
                &&& longer[i].exited is Some ==> longer[i].exited->0.last_seen == pinned.take(
                    count,
                )[i].exited->0.last_seen
            } by {
                if i < count - 1 {
                    assert(longer[i] == shorter[i]);
                    assert(pinned.take(count)[i] == pinned.take(count - 1)[i]);
                }
            }
        }
    }
}

/// Looking at the exited pins keeps the table settled, whether or not one is dropped.
pub proof fn lemma_expired_settles(table: TableState, now: Nanos)
    requires
        table.settled(),
        table.expired(now).rows.len() <= usize::MAX,
    ensures
        table.expired(now).settled(),
{
    reveal(TableState::settled);
    reveal(TableState::expired);
    reveal(TableState::rebuilt);
    let count = table.pinned.len() as int;
    let pinned = process_table::lingering_pins(table.pinned, now, count);
    let looked = TableState { pinned, ..table };
    process_table::lemma_lingering_pins_sound(table.pinned, now, count);
    if pinned.len() == table.pinned.len() {
        lemma_all_linger(table.pinned, now, count);
        assert(table.pinned.take(count) =~= table.pinned);
        let query = text::lowercase(table.query);
        lemma_alike_rows(table.processes, pinned, table.pinned, query, count);
        lemma_alike_matches(
            table.processes,
            pinned,
            table.pinned,
            query,
            table.processes.len() as int,
        );
        if table.selected is Some {
            lemma_alike_row_from(
                table.rows,
                table.processes,
                pinned,
                table.pinned,
                table.selected->0,
                0,
            );
        }
        assert(looked.selected_row() == table.selected_row());
        assert(looked.scrolled().scroll == table.scrolled().scroll);
    } else {
        lemma_rebuilt_settles(looked);
    }
}

/// Sorting never touches the pinned rows: they lead, in the same order, whatever the column.
pub proof fn lemma_sorting_keeps_pinned_rows(
    processes: Seq<ProcessInfo>,
    pinned: Seq<PinnedProcess>,
    query: Seq<char>,
    sort: ProcessSort,
)
    ensures
        process_table::table_rows(processes, pinned, query, sort).take(
            process_table::pinned_rows(processes, pinned, query, pinned.len() as int).len() as int,
        ) == process_table::pinned_rows(processes, pinned, query, pinned.len() as int),
{
    let leading = process_table::pinned_rows(processes, pinned, query, pinned.len() as int);
    assert(process_table::table_rows(processes, pinned, query, sort).take(leading.len() as int) =~= leading);
}

/// Behind the pinned rows no process stands before one that the chosen column puts first.
pub proof fn lemma_table_is_sorted(
    processes: Seq<ProcessInfo>,
    pinned: Seq<PinnedProcess>,
    query: Seq<char>,
    sort: ProcessSort,
    i: int,
    j: int,
)
    requires
        process_table::pinned_rows(processes, pinned, query, pinned.len() as int).len() <= i <= j < process_table::table_rows(
            processes,
            pinned,
            query,
            sort,
        ).len(),
    ensures
        ({
            let rows = process_table::table_rows(processes, pinned, query, sort);
            &&& rows[i] is Live && rows[j] is Live
            &&& process_order::table_order(
                processes[rows[i]->index as int],
                processes[rows[j]->index as int],
                sort,
            ) != Standing::After
        }),
{
    let leading = process_table::pinned_rows(processes, pinned, query, pinned.len() as int);
    let leq = process_order::listing_order(processes, sort);
    let places = process_table::unpinned_matches(processes, pinned, query, processes.len() as int);
    process_order::lemma_listing_order(processes, sort);
    order::lemma_arranged_sorts(leq, places);
    let row = order::arranged(leq, places);
    let rows = process_table::table_rows(processes, pinned, query, sort);
    assert(rows[i] == process_table::plain_rows(row)[i - leading.len()]);
    assert(rows[j] == process_table::plain_rows(row)[j - leading.len()]);
    assert(leq(row[i - leading.len()], row[j - leading.len()]));
}

proof fn lemma_match_is_found(
    processes: Seq<ProcessInfo>,
    pinned: Seq<PinnedProcess>,
    query: Seq<char>,
    count: int,
    i: int,
)
    requires
        count <= processes.len() <= usize::MAX,
        0 <= i < process_table::unpinned_matches(processes, pinned, query, count).len(),
    ensures
        ({
            let place = process_table::unpinned_matches(processes, pinned, query, count)[i];
            &&& place < count
            &&& process_order::found_by(processes[place as int], query)
            &&& process_table::pin_place(pinned, processes[place as int].id(), 0) is None
        }),
    decreases count,
{
    if count > 0 {
        let shorter = process_table::unpinned_matches(processes, pinned, query, count - 1);
        if i < shorter.len() {
            lemma_match_is_found(processes, pinned, query, count - 1, i);
        }
    }
}

proof fn lemma_found_is_match(
    processes: Seq<ProcessInfo>,
    pinned: Seq<PinnedProcess>,
    query: Seq<char>,
    count: int,
    place: int,
)
    requires
        0 <= place < count <= processes.len() <= usize::MAX,
        process_order::found_by(processes[place], query),
        process_table::pin_place(pinned, processes[place].id(), 0) is None,
    ensures
        process_table::unpinned_matches(processes, pinned, query, count).contains(place as usize),
    decreases count,
{
    let longer = process_table::unpinned_matches(processes, pinned, query, count);
    if place == count - 1 {
        assert(longer.last() == place as usize);
    } else {
        lemma_found_is_match(processes, pinned, query, count - 1, place);
        let shorter = process_table::unpinned_matches(processes, pinned, query, count - 1);
        let i = choose|i: int| 0 <= i < shorter.len() && shorter[i] == place as usize;
        assert(longer[i] == place as usize);
    }
}

proof fn lemma_matches_ascend(
    processes: Seq<ProcessInfo>,
    pinned: Seq<PinnedProcess>,
    query: Seq<char>,
    count: int,
)
    requires
        count <= processes.len() <= usize::MAX,
    ensures
        process_table::unpinned_matches(processes, pinned, query, count).no_duplicates(),
    decreases count,
{
    if count > 0 {
        lemma_matches_ascend(processes, pinned, query, count - 1);
        let shorter = process_table::unpinned_matches(processes, pinned, query, count - 1);
        let longer = process_table::unpinned_matches(processes, pinned, query, count);
        assert forall|i: int, j: int|
            0 <= i < longer.len() && 0 <= j < longer.len() && i != j implies longer[i]
            != longer[j] by {
            if i < shorter.len() {
                lemma_match_is_found(processes, pinned, query, count - 1, i);
            }
            if j < shorter.len() {
                lemma_match_is_found(processes, pinned, query, count - 1, j);
            }
        }
    }
}

/// A process that is not pinned has a row exactly if the query finds it, and never two.
pub proof fn lemma_matches_are_listed(
    processes: Seq<ProcessInfo>,
    pinned: Seq<PinnedProcess>,
    query: Seq<char>,
    sort: ProcessSort,
    place: int,
)
    requires
        0 <= place < processes.len() <= usize::MAX,
        process_table::pin_place(pinned, processes[place].id(), 0) is None,
    ensures
        ({
            let row = ProcessRow::Live { index: place as usize, dimmed: false };
            let behind = process_table::plain_rows(
                order::arranged(
                    process_order::listing_order(processes, sort),
                    process_table::unpinned_matches(processes, pinned, query, processes.len() as int),
                ),
            );
            &&& process_table::table_rows(processes, pinned, query, sort) == process_table::pinned_rows(
                processes,
                pinned,
                query,
                pinned.len() as int,
            ) + behind
            &&& behind.contains(row) == process_order::found_by(processes[place], query)
            &&& behind.no_duplicates()
        }),
{
    let leq = process_order::listing_order(processes, sort);
    let places = process_table::unpinned_matches(processes, pinned, query, processes.len() as int);
    let arranged_places = order::arranged(leq, places);
    let behind = process_table::plain_rows(arranged_places);
    let row = ProcessRow::Live { index: place as usize, dimmed: false };
    if process_order::found_by(processes[place], query) {
        lemma_found_is_match(processes, pinned, query, processes.len() as int, place);
        order::lemma_arranged_has(leq, places, place as usize);
        let i = choose|i: int|
            0 <= i < arranged_places.len() && arranged_places[i] == place as usize;
        assert(behind[i] == row);
    } else if behind.contains(row) {
        let i = choose|i: int| 0 <= i < behind.len() && behind[i] == row;
        order::lemma_arranged_from(leq, places, i);
        let j = choose|j: int| 0 <= j < places.len() && places[j] == arranged_places[i];
        lemma_match_is_found(processes, pinned, query, processes.len() as int, j);
    }
    lemma_matches_ascend(processes, pinned, query, processes.len() as int);
    order::lemma_arranged_keeps(leq, places);
    places.lemma_multiset_has_no_duplicates();
    arranged_places.lemma_multiset_has_no_duplicates_conv();
    assert forall|i: int, j: int|
        0 <= i < behind.len() && 0 <= j < behind.len() && i != j implies behind[i] != behind[j] by {
        assert(arranged_places[i] != arranged_places[j]);
    }
}

proof fn lemma_last_place(processes: Seq<ProcessInfo>, identity: ProcessIdentity, count: int)
    requires
        0 <= count <= processes.len() <= usize::MAX,
    ensures
        process_table::last_process_place(processes, identity, count) matches Some(place) ==> place < count
            && processes[place as int].id() == identity,
        process_table::last_process_place(processes, identity, count) is None ==> forall|i: int|
            0 <= i < count ==> (#[trigger] processes[i]).id() != identity,
    decreases count,
{
    if count > 0 && processes[count - 1].id() != identity {
        lemma_last_place(processes, identity, count - 1);
    }
}

proof fn lemma_pin_found(pinned: Seq<PinnedProcess>, place: int, from: int)
    requires
        0 <= from <= place < pinned.len() <= usize::MAX,
    ensures
        process_table::pin_place(pinned, pinned[place].identity, from) is Some,
    decreases place - from,
{
    if from < place && pinned[from].identity != pinned[place].identity {
        lemma_pin_found(pinned, place, from + 1);
    }
}

proof fn lemma_pinned_rows_are_pinned(table: TableState, query: Seq<char>, count: int, i: int)
    requires
        0 <= count <= table.pinned.len() <= usize::MAX,
        table.processes.len() <= usize::MAX,
        0 <= i < process_table::pinned_rows(table.processes, table.pinned, query, count).len(),
    ensures
        table.row_is_pinned(process_table::pinned_rows(table.processes, table.pinned, query, count)[i]),
        table.row_process(process_table::pinned_rows(table.processes, table.pinned, query, count)[i]) is Some,
    decreases count,
{
    if count > 0 {
        let shorter = process_table::pinned_rows(table.processes, table.pinned, query, count - 1);
        if i < shorter.len() {
            lemma_pinned_rows_are_pinned(table, query, count - 1, i);
        } else {
            let pin = table.pinned[count - 1];
            lemma_last_place(table.processes, pin.identity, table.processes.len() as int);
            lemma_pin_found(table.pinned, count - 1, 0);
        }
    }
}

/// The pinned rows lead the table and every row behind them is not pinned. All rows show a
/// process.
pub proof fn lemma_pinned_rows_lead(table: TableState, row: int)
    requires
        table.settled(),
        table.deferred is None,
        table.pinned.len() <= usize::MAX,
        table.processes.len() <= usize::MAX,
        0 <= row < table.rows.len(),
    ensures
        table.row_process(table.rows[row]) is Some,
        table.row_is_pinned(table.rows[row]) == (row < process_table::pinned_rows(
            table.processes,
            table.pinned,
            text::lowercase(table.query),
            table.pinned.len() as int,
        ).len()),
{
    reveal(TableState::settled);
    let query = text::lowercase(table.query);
    let leading = process_table::pinned_rows(table.processes, table.pinned, query, table.pinned.len() as int);
    if row < leading.len() {
        assert(table.rows[row] == leading[row]);
        lemma_pinned_rows_are_pinned(table, query, table.pinned.len() as int, row);
    } else {
        let leq = process_order::listing_order(table.processes, table.sort);
        let places = process_table::unpinned_matches(
            table.processes,
            table.pinned,
            query,
            table.processes.len() as int,
        );
        let i = row - leading.len();
        assert(table.rows[row] == process_table::plain_rows(order::arranged(leq, places))[i]);
        order::lemma_arranged_from(leq, places, i);
        let j = choose|j: int| 0 <= j < places.len() && places[j] == order::arranged(leq, places)[i];
        lemma_match_is_found(
            table.processes,
            table.pinned,
            query,
            table.processes.len() as int,
            j,
        );
    }
}

/// In a settled table that is shown the selected row is in view.
pub proof fn lemma_selection_in_view(table: TableState)
    requires
        table.settled(),
        table.deferred is None,
        table.selected is Some,
        table.rows.len() <= usize::MAX,
        table.height > 0,
    ensures
        table.selected_row() is Some,
        table.scroll <= table.selected_row()->0 < table.scroll + table.height,
        table.selected_row()->0 < table.rows.len(),
{
    reveal(TableState::settled);
    lemma_row_in_range(table.rows, table.processes, table.pinned, table.selected->0, 0);
    scroll::lemma_selected_row_in_view(
        table.rows.len() as int,
        table.selected_row()->0,
        table.scroll as int,
        table.height as int,
    );
    lemma_scrolled_settles(table);
}

proof fn lemma_row_in_range(
    rows: Seq<ProcessRow>,
    processes: Seq<ProcessInfo>,
    pinned: Seq<PinnedProcess>,
    identity: ProcessIdentity,
    from: int,
)
    requires
        0 <= from,
        rows.len() <= usize::MAX,
    ensures
        process_table::row_from(rows, processes, pinned, identity, from) matches Some(row) ==> from <= row
            < rows.len() && process_table::row_shows(processes, pinned, rows[row as int], identity),
    decreases rows.len() - from,
{
    if from < rows.len() && !process_table::row_shows(processes, pinned, rows[from], identity) {
        lemma_row_in_range(rows, processes, pinned, identity, from + 1);
    }
}

/// A refresh leaves the selection on its process as long as the table still lists it.
pub proof fn lemma_refresh_keeps_selection(table: TableState, next: Seq<ProcessInfo>)
    requires
        table.selected is Some,
        table.replaced(next).row_of(table.selected->0) is Some,
    ensures
        table.replaced(next).selected == table.selected,
{
    reveal(TableState::replaced);
    reveal(TableState::rebuilt);
}

/// A listing that came while the table was hidden leaves the selection on its process too, and
/// shows the same rows as if the table had been seen all along.
pub proof fn lemma_hidden_listing_keeps_selection(table: TableState, next: Seq<ProcessInfo>)
    ensures
        table.replaced_hidden(next).rebuilt().rows == table.replaced(next).rows,
        table.selected is Some && table.replaced(next).row_of(table.selected->0) is Some
            ==> table.replaced_hidden(next).rebuilt().selected == table.selected,
{
    reveal(TableState::replaced);
    reveal(TableState::replaced_hidden);
    reveal(TableState::rebuilt);
    let shown = table.replaced_hidden(next).rebuilt();
    assert(shown.rows == table.replaced(next).rows);
    if table.selected is Some && table.replaced(next).row_of(table.selected->0) is Some {
        assert(shown.row_of(table.selected->0) == table.replaced(next).row_of(table.selected->0));
    }
}

/// Which letters of a query are capitals makes no difference.
pub proof fn lemma_search_ignores_case(table: TableState, left: Seq<char>, right: Seq<char>)
    requires
        text::lowercase(left) == text::lowercase(right),
    ensures
        table.searched(left).rows == table.searched(right).rows,
        table.searched(left).selected == table.searched(right).selected,
{
    reveal(TableState::searched);
    reveal(TableState::rebuilt);
    reveal(TableState::undimmed);
}

/// Sorting leaves the selection on its process: no row is lost by it.
pub proof fn lemma_sorting_keeps_selection(table: TableState, field: ProcessSortField)
    requires
        table.settled(),
        table.deferred is None,
        table.selected is Some,
        table.rows.len() <= usize::MAX,
        table.processes.len() <= usize::MAX,
        table.pinned.len() <= usize::MAX,
        table.sorted_by(field).rows.len() <= usize::MAX,
    ensures
        table.sorted_by(field).selected == table.selected,
{
    reveal(TableState::settled);
    reveal(TableState::sorted_by);
    reveal(TableState::rebuilt);
    let identity = table.selected->0;
    let query = text::lowercase(table.query);
    let leading = process_table::pinned_rows(table.processes, table.pinned, query, table.pinned.len() as int);
    let places = process_table::unpinned_matches(
        table.processes,
        table.pinned,
        query,
        table.processes.len() as int,
    );
    lemma_row_in_range(table.rows, table.processes, table.pinned, identity, 0);
    let row = table.selected_row()->0 as int;
    let after = table.sorted_by(field);
    let rows = after.rows;
    let leq = process_order::listing_order(table.processes, table.sort);
    let next_leq = process_order::listing_order(table.processes, after.sort);
    assert(rows == leading + process_table::plain_rows(order::arranged(next_leq, places)));
    if row < leading.len() {
        assert(rows[row] == table.rows[row]);
        lemma_row_from(rows, table.processes, table.pinned, identity, 0, row);
    } else {
        let i = row - leading.len();
        assert(table.rows[row] == process_table::plain_rows(order::arranged(leq, places))[i]);
        order::lemma_arranged_from(leq, places, i);
        let place = order::arranged(leq, places)[i];
        order::lemma_arranged_has(next_leq, places, place);
        let j = choose|j: int|
            0 <= j < order::arranged(next_leq, places).len() && order::arranged(next_leq, places)[j] == place;
        assert(rows[leading.len() + j] == table.rows[row]);
        lemma_row_from(rows, table.processes, table.pinned, identity, 0, leading.len() + j);
    }
}

/// A process that got the PID of a pinned one is not pinned by that.
pub proof fn lemma_reused_pid_is_not_pinned(
    pinned: Seq<PinnedProcess>,
    process: ProcessInfo,
    from: int,
)
    requires
        0 <= from,
        forall|i: int|
            0 <= i < pinned.len() ==> (#[trigger] pinned[i]).identity.pid != process.pid
                || pinned[i].identity.start_time != process.start_time,
    ensures
        process_table::pin_place(pinned, process.id(), from) is None,
    decreases pinned.len() - from,
{
    if from < pinned.len() {
        assert(pinned[from].identity != process.id());
        lemma_reused_pid_is_not_pinned(pinned, process, from + 1);
    }
}

/// Moving a pin up and down again, or down and up again, leaves the pins as they were.
pub proof fn lemma_moved_pin_moves_back(
    table: TableState,
    identity: ProcessIdentity,
    direction: PinMove,
)
    requires
        table.pins_sound(),
        table.pin_target(identity, direction) is Some,
    ensures
        ({
            let back = match direction {
                PinMove::Up => PinMove::Down,
                PinMove::Down => PinMove::Up,
            };
            table.pin_moved(identity, direction).pin_moved(identity, back).pinned == table.pinned
        }),
{
    reveal(TableState::pin_moved);
    reveal(TableState::rebuilt);
    let (place, target) = table.pin_target(identity, direction)->0;
    let moved = table.pin_moved(identity, direction);
    process_table::lemma_pin_place(table.pinned, identity, 0);
    assert(moved.pinned[target].identity == identity);
    assert forall|i: int| 0 <= i < moved.pinned.len() && i != target implies (
    #[trigger] moved.pinned[i]).identity != identity by {
        if i == place {
            assert(moved.pinned[i] == table.pinned[target]);
        } else {
            assert(moved.pinned[i] == table.pinned[i]);
        }
    }
    process_table::lemma_pin_place(moved.pinned, identity, 0);
    let back = match direction {
        PinMove::Up => PinMove::Down,
        PinMove::Down => PinMove::Up,
    };
    assert(moved.pin_target(identity, back) == Some((target, place)));
    assert(moved.pin_moved(identity, back).pinned =~= table.pinned);
}

/// No operation on the pins exceeds their limit or pins a process twice.
pub proof fn lemma_pins_stay_sound(table: TableState, identity: ProcessIdentity, direction: PinMove)
    requires
        table.pins_sound(),
    ensures
        table.pin_toggled().0.pins_sound(),
        table.pin_moved(identity, direction).pins_sound(),
{
    reveal(TableState::pin_toggled);
    reveal(TableState::pin_moved);
    reveal(TableState::rebuilt);
    if table.selected is Some {
        let chosen = table.selected->0;
        process_table::lemma_pin_place(table.pinned, chosen, 0);
        match process_table::pin_place(table.pinned, chosen, 0) {
            Some(place) => {
                let fewer = table.pinned.remove(place as int);
                assert forall|i: int, j: int|
                    #![trigger fewer[i], fewer[j]]
                    0 <= i < j < fewer.len() implies fewer[i].identity != fewer[j].identity by {
                    let left = if i < place { i } else { i + 1 };
                    let right = if j < place { j } else { j + 1 };
                    assert(fewer[i] == table.pinned[left] && fewer[j] == table.pinned[right]);
                }
            },
            None => {},
        }
    }
    process_table::lemma_pin_place(table.pinned, identity, 0);
    match table.pin_target(identity, direction) {
        Some((place, target)) => {
            let moved = table.pin_moved(identity, direction).pinned;
            assert forall|i: int, j: int|
                #![trigger moved[i], moved[j]]
                0 <= i < j < moved.len() implies moved[i].identity != moved[j].identity by {
                let left = if i == place { target } else if i == target { place } else { i };
                let right = if j == place { target } else if j == target { place } else { j };
                assert(moved[i] == table.pinned[left] && moved[j] == table.pinned[right]);
            }
        },
        None => {},
    }
}

/// Which pin a pinned row belongs to.
spec fn row_pin(
    processes: Seq<ProcessInfo>,
    pinned: Seq<PinnedProcess>,
    query: Seq<char>,
    count: int,
    row: int,
) -> int
    decreases count,
{
    if count <= 0 || row >= process_table::pinned_rows(processes, pinned, query, count - 1).len() {
        count - 1
    } else {
        row_pin(processes, pinned, query, count - 1, row)
    }
}

proof fn lemma_row_pin(
    processes: Seq<ProcessInfo>,
    pinned: Seq<PinnedProcess>,
    query: Seq<char>,
    count: int,
    row: int,
)
    requires
        0 <= count <= pinned.len() <= usize::MAX,
        processes.len() <= usize::MAX,
        process_table::pins_true(pinned),
        0 <= row < process_table::pinned_rows(processes, pinned, query, count).len(),
    ensures
        0 <= row_pin(processes, pinned, query, count, row) < count,
        process_table::row_shows(
            processes,
            pinned,
            process_table::pinned_rows(processes, pinned, query, count)[row],
            pinned[row_pin(processes, pinned, query, count, row)].identity,
        ),
    decreases count,
{
    let shorter = process_table::pinned_rows(processes, pinned, query, count - 1);
    if row < shorter.len() {
        lemma_row_pin(processes, pinned, query, count - 1, row);
    } else {
        lemma_last_place(processes, pinned[count - 1].identity, processes.len() as int);
    }
}

proof fn lemma_row_pin_ascends(
    processes: Seq<ProcessInfo>,
    pinned: Seq<PinnedProcess>,
    query: Seq<char>,
    count: int,
    i: int,
    j: int,
)
    requires
        0 <= count <= pinned.len() <= usize::MAX,
        processes.len() <= usize::MAX,
        process_table::pins_true(pinned),
        0 <= i < j < process_table::pinned_rows(processes, pinned, query, count).len(),
    ensures
        row_pin(processes, pinned, query, count, i) < row_pin(processes, pinned, query, count, j),
    decreases count,
{
    let shorter = process_table::pinned_rows(processes, pinned, query, count - 1);
    if j < shorter.len() {
        lemma_row_pin_ascends(processes, pinned, query, count - 1, i, j);
    } else if i < shorter.len() {
        lemma_row_pin(processes, pinned, query, count - 1, i);
    }
}

/// No more than a few processes can be pinned: where that many are, another one is refused and
/// nothing changes.
pub proof fn lemma_pin_limit_holds(table: TableState)
    requires
        table.selected_process() is Some,
        process_table::pin_place(table.pinned, table.selected->0, 0) is None,
        table.pinned.len() >= MAX_PINNED_PROCESSES,
    ensures
        table.pin_toggled() == (table, PinOutcome::LimitReached),
{
    reveal(TableState::pin_toggled);
}

/// A pin stays for as long as its process runs, and for a while after that; its place among the
/// pins is that of the process. After that while it is gone.
pub proof fn lemma_exited_pins_linger(pinned: Seq<PinnedProcess>, now: Nanos, count: int, place: int)
    requires
        process_table::pins_distinct(pinned),
        0 <= place < count <= pinned.len(),
    ensures
        (exists|i: int|
            0 <= i < process_table::lingering_pins(pinned, now, count).len() && (
            #[trigger] process_table::lingering_pins(pinned, now, count)[i]).identity
                == pinned[place].identity) == (pinned[place].exited is None
            || process_table::lingers(pinned[place].exited->0, now)),
    decreases count,
{
    let kept = process_table::lingering_pins(pinned, now, count - 1);
    let pins = process_table::lingering_pins(pinned, now, count);
    lemma_lingering_identities(pinned, now, count - 1);
    if place < count - 1 {
        lemma_exited_pins_linger(pinned, now, count - 1, place);
        let stays = pinned[place].exited is None || process_table::lingers(
            pinned[place].exited->0,
            now,
        );
        if stays {
            let i = choose|i: int|
                0 <= i < kept.len() && (#[trigger] kept[i]).identity == pinned[place].identity;
            assert(pins[i].identity == pinned[place].identity);
        } else {
            assert forall|i: int| 0 <= i < pins.len() implies (#[trigger] pins[i]).identity
                != pinned[place].identity by {
                if i < kept.len() {
                    assert(kept[i].identity != pinned[place].identity);
                } else {
                    assert(pins[i].identity == pinned[count - 1].identity);
                }
            }
        }
    } else if pinned[place].exited is None || process_table::lingers(
        pinned[place].exited->0,
        now,
    ) {
        assert(pins[kept.len() as int].identity == pinned[place].identity);
    } else {
        assert forall|i: int| 0 <= i < pins.len() implies (#[trigger] pins[i]).identity
            != pinned[place].identity by {
            let j = choose|j: int|
                0 <= j < count - 1 && (#[trigger] pinned[j]).identity == kept[i].identity;
            assert(pinned[j].identity != pinned[place].identity);
        }
    }
}

proof fn lemma_lingering_identities(pinned: Seq<PinnedProcess>, now: Nanos, count: int)
    requires
        0 <= count <= pinned.len(),
    ensures
        forall|i: int|
            0 <= i < process_table::lingering_pins(pinned, now, count).len() ==> exists|j: int|
                0 <= j < count && (#[trigger] pinned[j]).identity == (
                #[trigger] process_table::lingering_pins(pinned, now, count)[i]).identity,
    decreases count,
{
    if count > 0 {
        lemma_lingering_identities(pinned, now, count - 1);
        let kept = process_table::lingering_pins(pinned, now, count - 1);
        let pins = process_table::lingering_pins(pinned, now, count);
        assert forall|i: int| 0 <= i < pins.len() implies exists|j: int|
            0 <= j < count && (#[trigger] pinned[j]).identity == (#[trigger] pins[i]).identity by {
            if i < kept.len() {
                let j = choose|j: int|
                    0 <= j < count - 1 && (#[trigger] pinned[j]).identity == kept[i].identity;
                assert(pinned[j].identity == pins[i].identity);
            } else {
                assert(pinned[count - 1].identity == pins[i].identity);
            }
        }
    }
}

/// The process that a row shows is never shown by a pinned row above or below it.
pub proof fn lemma_pinned_rows_are_unique(table: TableState, i: int, j: int)
    requires
        table.settled(),
        table.deferred is None,
        table.processes.len() <= usize::MAX,
        0 <= i < j < table.rows.len(),
        i < process_table::pinned_rows(
            table.processes,
            table.pinned,
            text::lowercase(table.query),
            table.pinned.len() as int,
        ).len(),
    ensures
        table.row_process(table.rows[i]) is Some,
        table.row_process(table.rows[j]) is Some,
        table.row_process(table.rows[i])->0.id() != table.row_process(table.rows[j])->0.id(),
{
    reveal(TableState::settled);
    let query = text::lowercase(table.query);
    let count = table.pinned.len() as int;
    let leading = process_table::pinned_rows(table.processes, table.pinned, query, count);
    lemma_pinned_rows_lead(table, i);
    lemma_pinned_rows_lead(table, j);
    assert(table.rows[i] == leading[i]);
    lemma_row_pin(table.processes, table.pinned, query, count, i);
    if j < leading.len() {
        assert(table.rows[j] == leading[j]);
        lemma_row_pin(table.processes, table.pinned, query, count, j);
        lemma_row_pin_ascends(table.processes, table.pinned, query, count, i, j);
        let left = row_pin(table.processes, table.pinned, query, count, i);
        let right = row_pin(table.processes, table.pinned, query, count, j);
        assert(table.pinned[left].identity != table.pinned[right].identity);
    } else {
        let pin = row_pin(table.processes, table.pinned, query, count, i);
        lemma_pin_found(table.pinned, pin, 0);
        process_table::lemma_pin_place(table.pinned, table.row_process(table.rows[j])->0.id(), 0);
    }
}

/// A query edit never leaves the selection on a pinned process that the query does not find
/// while the table lists a match.
pub proof fn lemma_search_selects_a_match(table: TableState, query: Seq<char>, listed: int)
    requires
        table.pins_sound(),
        table.processes.len() <= usize::MAX,
        table.searched(query).rows.len() <= usize::MAX,
        0 <= listed < table.searched(query).rows.len(),
        process_table::selectable(table.searched(query).rows[listed]),
        table.searched(query).selected_row() is Some,
    ensures
        !(table.searched(query).rows[table.searched(query).selected_row()->0 as int]
            matches ProcessRow::Live { dimmed, .. } && dimmed),
{
    reveal(TableState::rebuilt);
    reveal(TableState::searched);
    reveal(TableState::undimmed);
    let rebuilt = TableState { query, ..table }.rebuilt();
    let row = rebuilt.selected_row();
    if row is Some {
        let identity = rebuilt.selected->0;
        lemma_row_in_range(rebuilt.rows, rebuilt.processes, rebuilt.pinned, identity, 0);
        lemma_fallback_is_a_match(rebuilt.rows, row->0 as int);
        if rebuilt.rows[row->0 as int] matches ProcessRow::Live { dimmed, .. } && dimmed {
            let chosen = process_table::nearest_selectable(rebuilt.rows, row->0 as int);
            assert(chosen is Some);
            lemma_rebuilt_settles(TableState { query, ..table });
            let process = rebuilt.process_at(chosen->0 as int);
            lemma_pinned_rows_lead(rebuilt, chosen->0 as int);
            let after = table.searched(query);
            assert(after.selected == Some(process->0.id()));
            lemma_row_in_range(
                rebuilt.rows,
                rebuilt.processes,
                rebuilt.pinned,
                process->0.id(),
                0,
            );
            let first = after.selected_row()->0 as int;
            lemma_row_from(
                rebuilt.rows,
                rebuilt.processes,
                rebuilt.pinned,
                process->0.id(),
                0,
                chosen->0 as int,
            );
            lemma_pinned_rows_lead(rebuilt, first);
            if rebuilt.rows[first] matches ProcessRow::Live { dimmed, .. } && dimmed {
                assert(first < chosen->0);
                let leading = process_table::pinned_rows(
                    rebuilt.processes,
                    rebuilt.pinned,
                    text::lowercase(query),
                    rebuilt.pinned.len() as int,
                );
                if first >= leading.len() {
                    let places = process_table::unpinned_matches(
                        rebuilt.processes,
                        rebuilt.pinned,
                        text::lowercase(query),
                        rebuilt.processes.len() as int,
                    );
                    let leq = process_order::listing_order(rebuilt.processes, rebuilt.sort);
                    assert(rebuilt.rows[first] == process_table::plain_rows(order::arranged(leq, places))[first
                        - leading.len()]);
                }
                lemma_pinned_rows_are_unique(rebuilt, first, chosen->0 as int);
            }
        }
    }
}

} // verus!
