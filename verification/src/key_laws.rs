//! What each key and each click leads to on the screen.
use vstd::prelude::*;

use crate::action::{Action, MenuItem, MouseTarget, ProcessSortField, SignalConfirmButton, Tab};
use crate::app::health;
use crate::app::laws;
use crate::app::list;
use crate::app::list::{ListState, Tag};
use crate::app::process_table;
use crate::app::process_table::{ProcessRow, TableState};
use crate::app::state::{AppState, Overlay};
use crate::event;
use crate::event::{
    Area, KeyCode, KeyEvent, KeyEventKind, MouseEvent, MouseEventKind, ScrollList, UiRegions,
};
use crate::linux::journal::JournalEntry;
use crate::linux::network::NetworkInterfaceInfo;
use crate::linux::process::{ProcessIdentity, ProcessInfo, ProcessSignal};
use crate::linux::service::ServiceInfo;

verus! {

/// The application after a key: what the key means is done.
pub open spec fn pressed(app: AppState, key: KeyEvent) -> AppState {
    match event::key_action(key, app.mode()) {
        Some(action) => app.after(action).0,
        None => app,
    }
}

/// A key goes down, or stays down, with no other key held.
pub open spec fn alone(key: KeyEvent) -> bool {
    &&& key.kind != KeyEventKind::Release
    &&& !key.modifiers.shift
    &&& !key.modifiers.control
    &&& !key.modifiers.alt
}

/// A key goes down, or stays down, with shift held.
pub open spec fn with_shift(key: KeyEvent) -> bool {
    &&& key.kind != KeyEventKind::Release
    &&& key.modifiers.shift
    &&& !key.modifiers.control
    &&& !key.modifiers.alt
}

/// A key that types a character, not one that only controls.
pub open spec fn types_text(key: KeyEvent) -> bool {
    &&& key.code is Char
    &&& ' ' <= key.code->Char_0 < '\u{7f}' || '\u{a0}' <= key.code->Char_0
}

/// A tab is shown with nothing over it, and no search is typed.
pub open spec fn on_tab(app: AppState, tab: Tab) -> bool {
    &&& app.overlay is None
    &&& !app.process_searching
    &&& !app.service_searching
    &&& !app.log_searching
    &&& app.active_tab == tab
}

/// A tab is shown with nothing over it, and a search is typed there.
pub open spec fn typing_on(app: AppState, tab: Tab) -> bool {
    &&& app.overlay is None
    &&& app.active_tab == tab
    &&& app.process_searching == (tab == Tab::Processes)
    &&& app.service_searching == (tab == Tab::Services)
    &&& app.log_searching == (tab == Tab::Logs)
}

pub open spec fn up_key(key: KeyEvent) -> bool {
    key.code == KeyCode::Up || key.code == KeyCode::Char('k')
}

pub open spec fn down_key(key: KeyEvent) -> bool {
    key.code == KeyCode::Down || key.code == KeyCode::Char('j')
}

/// The row that a key leads to from a row, of `count` rows of which `height` are in view: up and
/// down by one row, by a page, to the first and to the last.
pub open spec fn key_leads(key: KeyEvent, from: int, to: int, count: int, height: int) -> bool {
    let page = if height == 0 {
        1
    } else {
        height
    };
    &&& 0 <= to < count
    &&& up_key(key) ==> to == (if from == 0 {
        0
    } else {
        from - 1
    })
    &&& down_key(key) ==> to == (if from == count - 1 {
        from
    } else {
        from + 1
    })
    &&& key.code == KeyCode::PageUp ==> to == (if from < page {
        0
    } else {
        from - page
    })
    &&& key.code == KeyCode::PageDown ==> to == (if from + page > count - 1 {
        count - 1
    } else {
        from + page
    })
    &&& key.code == KeyCode::Home ==> to == 0
    &&& key.code == KeyCode::End ==> to == count - 1
}

/// A key that moves through a list.
pub open spec fn moves(key: KeyEvent) -> bool {
    ||| up_key(key)
    ||| down_key(key)
    ||| key.code == KeyCode::PageUp
    ||| key.code == KeyCode::PageDown
    ||| key.code == KeyCode::Home
    ||| key.code == KeyCode::End
}

/// A key that moves through a list while a search is typed.
pub open spec fn moves_while_typing(key: KeyEvent) -> bool {
    ||| key.code == KeyCode::Up
    ||| key.code == KeyCode::Down
    ||| key.code == KeyCode::PageUp
    ||| key.code == KeyCode::PageDown
}

/// Every row is a place among the items.
pub open spec fn rows_listed(rows: Seq<usize>, items: nat) -> bool {
    rows.len() <= usize::MAX && forall|i: int|
        0 <= i < rows.len() ==> (#[trigger] rows[i]) < items
}

/// The service on a row is the one selected.
pub open spec fn service_chosen(services: ListState<ServiceInfo>, row: int) -> bool {
    &&& 0 <= row < services.rows.len()
    &&& services.selected == Some(Tag::Name(services.items[services.rows[row] as int].unit@))
}

/// The entry on a row is the one selected.
pub open spec fn entry_chosen(logs: ListState<JournalEntry>, row: int) -> bool {
    &&& 0 <= row < logs.rows.len()
    &&& logs.selected == Some(Tag::Number(logs.items[logs.rows[row] as int].id))
}

/// The interface on a row is the one selected.
pub open spec fn interface_chosen(networks: ListState<NetworkInterfaceInfo>, row: int) -> bool {
    &&& 0 <= row < networks.rows.len()
    &&& networks.selected == Some(Tag::Name(networks.items[networks.rows[row] as int].name@))
}

/// The process on a row, where the row shows one.
pub open spec fn process_on(table: TableState, row: int) -> Option<ProcessInfo> {
    if 0 <= row < table.rows.len() {
        match table.rows[row] {
            ProcessRow::Live { index, .. } => if index < table.processes.len() {
                Some(table.processes[index as int])
            } else {
                None
            },
            ProcessRow::Exited { pin } => if pin < table.pinned.len() && table.pinned[pin as int].exited
                is Some {
                Some(table.pinned[pin as int].exited->0.last_seen)
            } else {
                None
            },
        }
    } else {
        None
    }
}

/// The process on a row is the one selected.
pub open spec fn process_chosen(table: TableState, row: int) -> bool {
    process_on(table, row) matches Some(process) && table.selected == Some(
        ProcessIdentity { pid: process.pid, start_time: process.start_time },
    )
}

/// Every row shows a process.
pub open spec fn every_row_shows(table: TableState) -> bool {
    table.rows.len() <= usize::MAX && forall|row: int|
        0 <= row < table.rows.len() ==> process_on(table, row) is Some
}

proof fn lemma_reaches_screen(app: AppState, action: Action)
    requires
        app.overlay is None,
        laws::held_back(action),
    ensures
        app.after(action) == app.after_unobstructed(action),
{
    reveal(AppState::after_on_overlay);
}

proof fn lemma_key_reaches_screen(app: AppState, key: KeyEvent)
    requires
        app.overlay is None,
    ensures
        event::key_action(key, app.mode()) is Some && laws::held_back(
            event::key_action(key, app.mode())->0,
        ) ==> pressed(app, key) == app.after_unobstructed(
            event::key_action(key, app.mode())->0,
        ).0,
{
    let meaning = event::key_action(key, app.mode());
    if meaning is Some && laws::held_back(meaning->0) {
        lemma_reaches_screen(app, meaning->0);
    }
}

proof fn lemma_first_row<T: list::Item>(list: ListState<T>, from: int, row: int)
    requires
        0 <= from <= row < list.rows.len() <= usize::MAX,
        forall|k: int| 0 <= k < list.rows.len() ==> (#[trigger] list.rows[k]) < list.items.len(),
        forall|k: int|
            from <= k < row ==> list.items[(#[trigger] list.rows[k]) as int].tag()
                != list.items[list.rows[row] as int].tag(),
    ensures
        list::row_from(list.items, list.rows, list.items[list.rows[row] as int].tag(), from)
            == Some(row as usize),
    decreases row - from,
{
    if from < row {
        assert(list.rows[from] < list.items.len());
        lemma_first_row(list, from + 1, row);
    }
}

proof fn lemma_chosen<T: list::Item>(list: ListState<T>, row: int)
    requires
        0 <= row < list.rows.len(),
        list.rows[row] < list.items.len(),
    ensures
        list.selected_at(row).selected == Some(list.items[list.rows[row] as int].tag()),
        list.selected_at(row).rows == list.rows,
        list.selected_at(row).items == list.items,
{
    reveal(ListState::selected_at);
}

/// The keys that move through a list move through the services.
pub proof fn lemma_keys_move_through_services(app: AppState, key: KeyEvent, row: int, target: int)
    requires
        alone(key),
        on_tab(app, Tab::Services) && moves(key) || typing_on(app, Tab::Services)
            && moves_while_typing(key),
        rows_listed(app.services.rows, app.services.items.len()),
        service_chosen(app.services, row),
        forall|k: int|
            0 <= k < row ==> app.services.items[(#[trigger] app.services.rows[k]) as int].unit@
                != app.services.items[app.services.rows[row] as int].unit@,
        key_leads(
            key,
            row,
            target,
            app.services.rows.len() as int,
            app.services.height as int,
        ),
    ensures
        service_chosen(pressed(app, key).services, target),
        pressed(app, key).services.rows == app.services.rows,
        pressed(app, key).services.items == app.services.items,
        pressed(app, key).active_tab == Tab::Services,
        pressed(app, key).overlay is None,
{
    let action = event::key_action(key, app.mode())->0;
    lemma_reaches_screen(app, action);
    reveal(AppState::after_unobstructed);
    reveal(AppState::after_on_services);
    lemma_first_row(app.services, 0, row);
    lemma_chosen(app.services, target);
}

/// The keys that move through a list move through the journal, which then follows new entries
/// no longer.
pub proof fn lemma_keys_move_through_journal(app: AppState, key: KeyEvent, row: int, target: int)
    requires
        alone(key),
        on_tab(app, Tab::Logs) && moves(key) || typing_on(app, Tab::Logs) && moves_while_typing(
            key,
        ),
        rows_listed(app.logs.rows, app.logs.items.len()),
        entry_chosen(app.logs, row),
        forall|k: int|
            0 <= k < row ==> app.logs.items[(#[trigger] app.logs.rows[k]) as int].id
                != app.logs.items[app.logs.rows[row] as int].id,
        key_leads(key, row, target, app.logs.rows.len() as int, app.logs.height as int),
    ensures
        entry_chosen(pressed(app, key).logs, target),
        !pressed(app, key).log_following,
        pressed(app, key).logs.rows == app.logs.rows,
        pressed(app, key).logs.items == app.logs.items,
        pressed(app, key).active_tab == Tab::Logs,
        pressed(app, key).overlay is None,
{
    let action = event::key_action(key, app.mode())->0;
    lemma_reaches_screen(app, action);
    reveal(AppState::after_unobstructed);
    reveal(AppState::after_on_services);
    reveal(AppState::after_on_logs);
    lemma_first_row(app.logs, 0, row);
    lemma_chosen(app.logs, target);
}

/// The keys that move through a list move through the interfaces.
pub proof fn lemma_keys_move_through_interfaces(app: AppState, key: KeyEvent, row: int, target: int)
    requires
        alone(key),
        on_tab(app, Tab::Network),
        moves(key),
        rows_listed(app.networks.rows, app.networks.items.len()),
        interface_chosen(app.networks, row),
        forall|k: int|
            0 <= k < row ==> app.networks.items[(#[trigger] app.networks.rows[k]) as int].name@
                != app.networks.items[app.networks.rows[row] as int].name@,
        key_leads(
            key,
            row,
            target,
            app.networks.rows.len() as int,
            app.networks.height as int,
        ),
    ensures
        interface_chosen(pressed(app, key).networks, target),
        pressed(app, key).networks.rows == app.networks.rows,
        pressed(app, key).networks.items == app.networks.items,
        pressed(app, key).active_tab == Tab::Network,
        pressed(app, key).overlay is None,
{
    let action = event::key_action(key, app.mode())->0;
    lemma_reaches_screen(app, action);
    reveal(AppState::after_unobstructed);
    reveal(AppState::after_on_services);
    reveal(AppState::after_on_logs);
    reveal(AppState::after_on_networks);
    lemma_first_row(app.networks, 0, row);
    lemma_chosen(app.networks, target);
}

proof fn lemma_first_process_row(table: TableState, from: int, row: int)
    requires
        0 <= from <= row < table.rows.len(),
        every_row_shows(table),
        forall|k: int|
            from <= k < row ==> (#[trigger] process_on(table, k))->0.id() != process_on(
                table,
                row,
            )->0.id(),
    ensures
        process_table::row_from(
            table.rows,
            table.processes,
            table.pinned,
            process_on(table, row)->0.id(),
            from,
        ) == Some(row as usize),
    decreases row - from,
{
    assert(process_on(table, from) is Some);
    assert(process_on(table, row) is Some);
    if from < row {
        lemma_first_process_row(table, from + 1, row);
    }
}

proof fn lemma_process_chosen(table: TableState, row: int)
    requires
        process_on(table, row) is Some,
    ensures
        process_chosen(table.selected_at(row), row),
        table.selected_at(row).rows == table.rows,
        table.selected_at(row).processes == table.processes,
        table.selected_at(row).pinned == table.pinned,
{
    reveal(TableState::selected_at);
}

/// The keys that move through a list move through the processes.
pub proof fn lemma_keys_move_through_processes(app: AppState, key: KeyEvent, row: int, target: int)
    requires
        alone(key),
        on_tab(app, Tab::Processes) && moves(key) || typing_on(app, Tab::Processes)
            && moves_while_typing(key),
        every_row_shows(app.table),
        process_chosen(app.table, row),
        forall|k: int|
            0 <= k < row ==> (#[trigger] process_on(app.table, k))->0.id() != process_on(
                app.table,
                row,
            )->0.id(),
        key_leads(key, row, target, app.table.rows.len() as int, app.table.height as int),
    ensures
        process_chosen(pressed(app, key).table, target),
        pressed(app, key).table.rows == app.table.rows,
        pressed(app, key).table.processes == app.table.processes,
        pressed(app, key).active_tab == Tab::Processes,
        pressed(app, key).overlay is None,
{
    let action = event::key_action(key, app.mode())->0;
    lemma_reaches_screen(app, action);
    reveal(AppState::after_unobstructed);
    reveal(TableState::stepped);
    lemma_first_process_row(app.table, 0, row);
    assert(process_on(app.table, target) is Some);
    lemma_process_chosen(app.table, target);
}

/// The keys 1 to 5 show the Overview, the processes, the services, the journal and the
/// interfaces, from whatever tab.
pub proof fn lemma_digits_show_tabs(app: AppState, key: KeyEvent, tab: Tab)
    requires
        alone(key),
        on_tab(app, tab),
    ensures
        key.code == KeyCode::Char('1') ==> pressed(app, key).active_tab == Tab::Overview,
        key.code == KeyCode::Char('2') ==> pressed(app, key).active_tab == Tab::Processes,
        key.code == KeyCode::Char('3') ==> pressed(app, key).active_tab == Tab::Services,
        key.code == KeyCode::Char('4') ==> pressed(app, key).active_tab == Tab::Logs,
        key.code == KeyCode::Char('5') ==> pressed(app, key).active_tab == Tab::Network,
{
    lemma_key_reaches_screen(app, key);
    reveal(AppState::after_unobstructed);
}

/// Where a tab stands in the row of tabs.
pub open spec fn place_of(tab: Tab) -> int {
    match tab {
        Tab::Overview => 0,
        Tab::Processes => 1,
        Tab::Services => 2,
        Tab::Logs => 3,
        Tab::Network => 4,
    }
}

/// Tab and the right arrow lead to the next tab of the row, shift with Tab and the left arrow to
/// the one before, round the ends.
pub proof fn lemma_tab_keys_go_round(app: AppState, key: KeyEvent, tab: Tab)
    requires
        alone(key) || with_shift(key),
        on_tab(app, tab),
    ensures
        alone(key) && (key.code == KeyCode::Tab || key.code == KeyCode::Right) ==> place_of(
            pressed(app, key).active_tab,
        ) == (place_of(tab) + 1) % 5,
        key.code == KeyCode::BackTab || with_shift(key) && key.code == KeyCode::Tab || alone(key)
            && key.code == KeyCode::Left ==> place_of(pressed(app, key).active_tab) == (place_of(
            tab,
        ) + 4) % 5,
{
    lemma_key_reaches_screen(app, key);
    reveal(AppState::after_unobstructed);
}

/// On every tab q ends the program and ? opens the help; with the help open, ? and `Esc` close
/// it, and whatever dialog is open, `Esc` closes it and q ends the program.
pub proof fn lemma_quit_and_help_keys(app: AppState, key: KeyEvent, tab: Tab)
    requires
        alone(key),
    ensures
        on_tab(app, tab) && key.code == KeyCode::Char('q') ==> pressed(app, key).should_quit,
        on_tab(app, tab) && key.code == KeyCode::Char('?') ==> pressed(app, key).overlay == Some(
            Overlay::Help,
        ),
        (app.overlay matches Some(Overlay::Help)) && (key.code == KeyCode::Char('?') || key.code
            == KeyCode::Esc) ==> pressed(app, key).overlay is None,
        app.overlay is Some && key.code == KeyCode::Char('q') ==> pressed(app, key).should_quit,
        app.overlay is Some && !(app.overlay matches Some(Overlay::About)) && key.code
            == KeyCode::Esc ==> pressed(app, key).overlay is None,
        (app.overlay matches Some(Overlay::About)) && key.code == KeyCode::Esc ==> pressed(
            app,
            key,
        ).overlay matches Some(Overlay::Menu { .. }),
{
    if app.overlay is None {
        lemma_key_reaches_screen(app, key);
    }
    reveal(AppState::after_on_overlay);
    reveal(AppState::after_unobstructed);
}

/// Control and c end the program, whatever is shown; a key that is let go does nothing.
pub proof fn lemma_interrupt_and_release(app: AppState, key: KeyEvent)
    ensures
        key.kind != KeyEventKind::Release && key.modifiers.control && (key.code == KeyCode::Char(
            'c',
        ) || key.code == KeyCode::Char('C')) ==> pressed(app, key).should_quit,
        key.kind == KeyEventKind::Release ==> pressed(app, key) == app,
{
}

/// A slash starts a search from nothing on the screen that is shown. What is typed then is added
/// to what is sought, and the key that erases takes the last character off again.
#[verifier::rlimit(40)]
pub proof fn lemma_search_keys(app: AppState, key: KeyEvent)
    requires
        alone(key),
    ensures
        on_tab(app, Tab::Processes) && key.code == KeyCode::Char('/') ==> typing_on(
            pressed(app, key),
            Tab::Processes,
        ) && pressed(app, key).table.query.len() == 0,
        on_tab(app, Tab::Services) && key.code == KeyCode::Char('/') ==> typing_on(
            pressed(app, key),
            Tab::Services,
        ) && pressed(app, key).services.query.len() == 0,
        on_tab(app, Tab::Logs) && key.code == KeyCode::Char('/') ==> typing_on(
            pressed(app, key),
            Tab::Logs,
        ) && pressed(app, key).logs.query.len() == 0,
        types_text(key) && typing_on(app, Tab::Processes) ==> pressed(app, key).table.query
            == app.table.query.push(key.code->Char_0),
        types_text(key) && typing_on(app, Tab::Services) ==> pressed(app, key).services.query
            == app.services.query.push(key.code->Char_0),
        types_text(key) && typing_on(app, Tab::Logs) ==> pressed(app, key).logs.query
            == app.logs.query.push(key.code->Char_0),
        key.code == KeyCode::Backspace && typing_on(app, Tab::Processes) && app.table.query.len()
            > 0 ==> pressed(app, key).table.query == app.table.query.drop_last(),
        key.code == KeyCode::Backspace && typing_on(app, Tab::Services)
            && app.services.query.len() > 0 ==> pressed(app, key).services.query
            == app.services.query.drop_last(),
        key.code == KeyCode::Backspace && typing_on(app, Tab::Logs) && app.logs.query.len() > 0
            ==> pressed(app, key).logs.query == app.logs.query.drop_last(),
{
    if app.overlay is None {
        lemma_key_reaches_screen(app, key);
    }
    reveal(AppState::after_unobstructed);
    reveal(AppState::after_on_services);
    reveal(AppState::after_on_logs);
    reveal(TableState::searched);
    reveal(TableState::rebuilt);
    reveal(TableState::undimmed);
    reveal(ListState::searched);
    reveal(ListState::rebuilt);
    reveal(ListState::searched_following);
}

/// Enter opens the details of what is selected, also while a search is typed, and closes the
/// search.
pub proof fn lemma_enter_opens_details(app: AppState, key: KeyEvent, place: int)
    requires
        alone(key),
        key.code == KeyCode::Enter,
    ensures
        (on_tab(app, Tab::Processes) || typing_on(app, Tab::Processes)) && 0 <= place
            < app.table.processes.len() && app.table.selected == Some(
            app.table.processes[place].id(),
        ) ==> pressed(app, key).overlay == Some(Overlay::ProcessDetail) && !pressed(
            app,
            key,
        ).process_searching && pressed(app, key).table == app.table,
        (on_tab(app, Tab::Services) || typing_on(app, Tab::Services)) && 0 <= place
            < app.services.items.len() && app.services.selected == Some(
            Tag::Name(app.services.items[place].unit@),
        ) ==> pressed(app, key).overlay == Some(Overlay::ServiceDetail) && !pressed(
            app,
            key,
        ).service_searching && pressed(app, key).services == app.services,
        (on_tab(app, Tab::Logs) || typing_on(app, Tab::Logs)) && 0 <= place
            < app.logs.items.len() && app.logs.selected == Some(
            Tag::Number(app.logs.items[place].id),
        ) ==> pressed(app, key).overlay == Some(Overlay::LogDetail) && !pressed(
            app,
            key,
        ).log_searching && pressed(app, key).logs == app.logs,
        on_tab(app, Tab::Network) && app.networks.selected is Some ==> pressed(app, key).overlay
            == Some(Overlay::NetworkDetail) && pressed(app, key).networks == app.networks,
{
    if app.overlay is None {
        lemma_key_reaches_screen(app, key);
    }
    reveal(AppState::after_unobstructed);
    reveal(AppState::after_on_services);
    reveal(AppState::after_on_logs);
    reveal(AppState::after_on_networks);
    if 0 <= place < app.table.processes.len() {
        lemma_process_is_placed(app.table.processes, app.table.processes[place].id(), place, 0);
    }
    if 0 <= place < app.services.items.len() {
        lemma_item_is_placed(app.services.items, place, 0);
    }
    if 0 <= place < app.logs.items.len() {
        lemma_item_is_placed(app.logs.items, place, 0);
    }
}

proof fn lemma_process_is_placed(
    processes: Seq<ProcessInfo>,
    identity: ProcessIdentity,
    place: int,
    from: int,
)
    requires
        0 <= from <= place < processes.len(),
        processes[place].id() == identity,
    ensures
        process_table::process_place(processes, identity, from) is Some,
    decreases place - from,
{
    if from < place {
        lemma_process_is_placed(processes, identity, place, from + 1);
    }
}

proof fn lemma_item_is_placed<T: list::Item>(items: Seq<T>, place: int, from: int)
    requires
        0 <= from <= place < items.len(),
    ensures
        list::item_place(items, items[place].tag(), from) is Some,
    decreases place - from,
{
    if from < place {
        lemma_item_is_placed(items, place, from + 1);
    }
}

/// c, m, p and n sort by the share of the processors, the memory, the PID and the name. The first
/// two start with the most, the others with the least, and the same key again turns the order
/// round.
pub proof fn lemma_sort_keys(app: AppState, key: KeyEvent)
    requires
        alone(key),
        on_tab(app, Tab::Processes),
    ensures
        ({
            let before = app.table.sort;
            let after = pressed(app, key).table.sort;
            &&& key.code == KeyCode::Char('c') ==> after.field == ProcessSortField::Cpu
                && after.descending == !(before.field == ProcessSortField::Cpu
                && before.descending)
            &&& key.code == KeyCode::Char('m') ==> after.field == ProcessSortField::Memory
                && after.descending == !(before.field == ProcessSortField::Memory
                && before.descending)
            &&& key.code == KeyCode::Char('p') ==> after.field == ProcessSortField::Pid
                && after.descending == (before.field == ProcessSortField::Pid
                && !before.descending)
            &&& key.code == KeyCode::Char('n') ==> after.field == ProcessSortField::Name
                && after.descending == (before.field == ProcessSortField::Name
                && !before.descending)
        }),
        key.code == KeyCode::Char('c') || key.code == KeyCode::Char('m') || key.code
            == KeyCode::Char('p') || key.code == KeyCode::Char('n') ==> pressed(
            app,
            key,
        ).table.processes == app.table.processes,
{
    lemma_key_reaches_screen(app, key);
    reveal(AppState::after_unobstructed);
    reveal(TableState::sorted_by);
    reveal(TableState::rebuilt);
}

/// t asks whether to end the selected process, K and shift with k whether to kill it: by its
/// own identity and name, with `Cancel` in focus, and nothing is sent yet.
pub proof fn lemma_signal_keys(app: AppState, key: KeyEvent, place: int)
    requires
        on_tab(app, Tab::Processes),
        0 <= place < app.table.processes.len() <= usize::MAX,
        app.table.selected == Some(app.table.processes[place].id()),
        forall|i: int|
            0 <= i < place ==> (#[trigger] app.table.processes[i]).id()
                != app.table.processes[place].id(),
        alone(key) && (key.code == KeyCode::Char('t') || key.code == KeyCode::Char('K'))
            || with_shift(key) && (key.code == KeyCode::Char('k') || key.code == KeyCode::Char(
            'K',
        )),
    ensures
        ({
            let process = app.table.processes[place];
            let next = pressed(app, key);
            &&& next.overlay matches Some(Overlay::ProcessSignal(asked))
                && asked.identity.pid == process.pid && asked.identity.start_time
                == process.start_time && asked.name@ == process.name@ && asked.signal == (
            if key.code == KeyCode::Char('t') {
                ProcessSignal::Term
            } else {
                ProcessSignal::Kill
            }) && asked.focused_button == SignalConfirmButton::Cancel
            &&& next.signal_request == app.signal_request
            &&& next.table == app.table
        }),
{
    lemma_key_reaches_screen(app, key);
    reveal(AppState::after_unobstructed);
    lemma_first_process(app.table.processes, app.table.processes[place].id(), place, 0);
}

proof fn lemma_first_process(
    processes: Seq<ProcessInfo>,
    identity: ProcessIdentity,
    place: int,
    from: int,
)
    requires
        0 <= from <= place < processes.len(),
        processes[place].id() == identity,
        forall|i: int| from <= i < place ==> (#[trigger] processes[i]).id() != identity,
    ensures
        process_table::process_place(processes, identity, from) == Some(place as usize),
    decreases place - from,
{
    if from < place {
        lemma_first_process(processes, identity, place, from + 1);
    }
}

/// While a signal is to be confirmed, Tab moves the focus to the other button, the left arrow and
/// h to `Cancel`, the right arrow and l to `Confirm`. What is asked about stays as it is.
pub proof fn lemma_focus_keys(app: AppState, key: KeyEvent)
    requires
        alone(key),
        app.overlay matches Some(Overlay::ProcessSignal(_)),
        key.code == KeyCode::Tab || key.code == KeyCode::BackTab || key.code == KeyCode::Left
            || key.code == KeyCode::Right || key.code == KeyCode::Char('h') || key.code
            == KeyCode::Char('l'),
    ensures
        ({
            let asked = app.overlay->0->ProcessSignal_0;
            let next = pressed(app, key);
            let focused = next.overlay->0->ProcessSignal_0;
            &&& next.overlay matches Some(Overlay::ProcessSignal(_))
            &&& focused.identity == asked.identity
            &&& focused.name == asked.name
            &&& focused.signal == asked.signal
            &&& next.signal_request == app.signal_request
            &&& key.code == KeyCode::Tab || key.code == KeyCode::BackTab
                ==> focused.focused_button != asked.focused_button
            &&& key.code == KeyCode::Left || key.code == KeyCode::Char('h')
                ==> focused.focused_button == SignalConfirmButton::Cancel
            &&& key.code == KeyCode::Right || key.code == KeyCode::Char('l')
                ==> focused.focused_button == SignalConfirmButton::Confirm
        }),
{
    reveal(AppState::after_on_overlay);
}

/// Enter does what is in focus: the signal that was asked about is handed over to be sent, or
/// none is. `Esc` hands none over. Both close the dialog.
pub proof fn lemma_deciding_keys(app: AppState, key: KeyEvent)
    requires
        alone(key),
        app.overlay matches Some(Overlay::ProcessSignal(_)),
        key.code == KeyCode::Enter || key.code == KeyCode::Esc,
    ensures
        pressed(app, key).overlay is None,
        pressed(app, key).signal_request == (if key.code == KeyCode::Enter
            && app.overlay->0->ProcessSignal_0.focused_button == SignalConfirmButton::Confirm {
            Some(app.overlay->0->ProcessSignal_0)
        } else {
            app.signal_request
        }),
{
    reveal(AppState::after_on_overlay);
}

/// Shift with p, and P, pins the selected process behind the other pinned ones, or frees it where
/// it was pinned; a ninth is not pinned.
pub proof fn lemma_pin_key(app: AppState, key: KeyEvent, place: int)
    requires
        on_tab(app, Tab::Processes),
        with_shift(key) && (key.code == KeyCode::Char('p') || key.code == KeyCode::Char('P'))
            || alone(key) && key.code == KeyCode::Char('P'),
        app.table.selected is Some,
        app.table.pinned.len() <= usize::MAX,
    ensures
        ({
            let chosen = app.table.selected->0;
            let pinned = app.table.pinned;
            let after = pressed(app, key).table.pinned;
            &&& 0 <= place < app.table.processes.len() && app.table.processes[place].id() == chosen
                && (forall|i: int|
                0 <= i < pinned.len() ==> (#[trigger] pinned[i]).identity != chosen)
                && pinned.len() < 8 ==> after.len() == pinned.len() + 1 && after.drop_last()
                == pinned && after.last().identity == chosen && after.last().exited is None
            &&& (forall|i: int|
                0 <= i < pinned.len() ==> (#[trigger] pinned[i]).identity != chosen)
                && pinned.len() >= 8 ==> after == pinned
            &&& 0 <= place < pinned.len() && pinned[place].identity == chosen && (forall|i: int|
                0 <= i < place ==> (#[trigger] pinned[i]).identity != chosen) ==> after
                == pinned.take(place) + pinned.skip(place + 1)
        }),
{
    lemma_key_reaches_screen(app, key);
    reveal(AppState::after_unobstructed);
    reveal(TableState::pin_toggled);
    reveal(TableState::rebuilt);
    let chosen = app.table.selected->0;
    let pinned = app.table.pinned;
    process_table::lemma_pin_place(pinned, chosen, 0);
    if 0 <= place < app.table.processes.len() && app.table.processes[place].id() == chosen {
        lemma_process_is_placed(app.table.processes, chosen, place, 0);
    }
    if 0 <= place < pinned.len() {
        assert(pinned.remove(place) =~= pinned.take(place) + pinned.skip(place + 1));
    }
    assert(forall|pin| #[trigger] pinned.push(pin).drop_last() =~= pinned);
}

/// An arrow with shift or alt held moves the selected pin past its neighbour, and stops at the
/// ends.
pub proof fn lemma_pin_arrows(app: AppState, key: KeyEvent, place: int)
    requires
        on_tab(app, Tab::Processes),
        key.kind != KeyEventKind::Release,
        key.modifiers.shift || key.modifiers.alt,
        key.code == KeyCode::Up || key.code == KeyCode::Down,
        0 <= place < app.table.pinned.len() <= usize::MAX,
        app.table.selected == Some(app.table.pinned[place].identity),
        forall|i: int|
            0 <= i < place ==> (#[trigger] app.table.pinned[i]).identity
                != app.table.pinned[place].identity,
    ensures
        ({
            let pinned = app.table.pinned;
            let after = pressed(app, key).table.pinned;
            let target = if key.code == KeyCode::Up {
                place - 1
            } else {
                place + 1
            };
            if 0 <= target < pinned.len() {
                &&& after.len() == pinned.len()
                &&& after[target] == pinned[place]
                &&& after[place] == pinned[target]
                &&& forall|i: int|
                    0 <= i < pinned.len() && i != place && i != target ==> #[trigger] after[i]
                        == pinned[i]
            } else {
                after == pinned
            }
        }),
{
    lemma_key_reaches_screen(app, key);
    reveal(AppState::after_unobstructed);
    reveal(TableState::pin_moved);
    reveal(TableState::rebuilt);
    process_table::lemma_pin_place(app.table.pinned, app.table.pinned[place].identity, 0);
}

/// r on the services asks for a refresh with a number that was not used before; f on the journal
/// makes it follow or no longer follow, and the space bar makes it pause or go on.
pub proof fn lemma_screen_keys(app: AppState, key: KeyEvent)
    requires
        alone(key),
    ensures
        on_tab(app, Tab::Services) && key.code == KeyCode::Char('r') && app.generation < u64::MAX
            ==> pressed(app, key).generation == app.generation + 1 && pressed(
            app,
            key,
        ).refresh_requested == Some((app.generation + 1) as u64) && pressed(
            app,
            key,
        ).refresh_pending == Some((app.generation + 1) as u64),
        on_tab(app, Tab::Logs) && key.code == KeyCode::Char('f') ==> pressed(app, key).log_following
            == !app.log_following && pressed(app, key).log_paused == app.log_paused,
        on_tab(app, Tab::Logs) && key.code == KeyCode::Char(' ') ==> pressed(app, key).log_paused
            == !app.log_paused && pressed(app, key).log_following == app.log_following,
{
    if app.overlay is None {
        lemma_key_reaches_screen(app, key);
    }
    reveal(AppState::after_unobstructed);
    reveal(AppState::after_on_services);
    reveal(AppState::after_on_logs);
}

/// Once new entries are followed again, or no longer paused, the last one shown is selected.
pub proof fn lemma_following_catches_up(app: AppState, key: KeyEvent)
    requires
        alone(key),
        on_tab(app, Tab::Logs),
        key.code == KeyCode::Char('f') && !app.log_following && !app.log_paused || key.code
            == KeyCode::Char(' ') && app.log_following && app.log_paused,
        app.logs.rows.len() > 0,
        rows_listed(app.logs.rows, app.logs.items.len()),
    ensures
        entry_chosen(pressed(app, key).logs, app.logs.rows.len() - 1),
        pressed(app, key).logs.items == app.logs.items,
        pressed(app, key).logs.rows == app.logs.rows,
{
    lemma_key_reaches_screen(app, key);
    reveal(AppState::after_unobstructed);
    reveal(AppState::after_on_services);
    reveal(AppState::after_on_logs);
    lemma_chosen(app.logs, app.logs.rows.len() - 1);
}

/// The sampling intervals that can be chosen, in thousandths of a second.
pub open spec fn interval_in_milliseconds(place: int) -> int {
    if place == 0 {
        250
    } else if place == 1 {
        500
    } else if place == 2 {
        1_000
    } else if place == 3 {
        2_000
    } else if place == 4 {
        5_000
    } else if place == 5 {
        10_000
    } else if place == 6 {
        30_000
    } else {
        60_000
    }
}

/// Plus and minus choose the next longer and the next shorter of the eight intervals, on every
/// tab, and stop at the ends. What was recorded at the old interval is dropped.
pub proof fn lemma_interval_keys(app: AppState, key: KeyEvent, tab: Tab, place: int)
    requires
        alone(key),
        on_tab(app, tab),
        0 <= place < 8,
        app.sampling_interval == interval_in_milliseconds(place) * 1_000_000,
        key.code == KeyCode::Char('+') || key.code == KeyCode::Char('-'),
    ensures
        ({
            let next = pressed(app, key);
            let target = if key.code == KeyCode::Char('+') {
                place + 1
            } else {
                place - 1
            };
            if 0 <= target < 8 {
                &&& next.sampling_interval == interval_in_milliseconds(target) * 1_000_000
                &&& next.cpu_history_interval == next.sampling_interval
                &&& next.interval_changed
                &&& next.cpu_history.len() == 0
            } else {
                next == app
            }
        }),
{
    lemma_key_reaches_screen(app, key);
    reveal(AppState::after_unobstructed);
    reveal_with_fuel(health::preset_place, 9);
}

/// In the menu, up and down choose About and Exit, and Enter does what is chosen.
pub proof fn lemma_menu_keys(app: AppState, key: KeyEvent)
    requires
        alone(key),
        app.overlay matches Some(Overlay::Menu { .. }),
    ensures
        up_key(key) ==> pressed(app, key).overlay == Some(
            Overlay::Menu { selected: MenuItem::About },
        ),
        down_key(key) ==> pressed(app, key).overlay == Some(
            Overlay::Menu { selected: MenuItem::Exit },
        ),
        key.code == KeyCode::Enter && app.overlay == Some(
            Overlay::Menu { selected: MenuItem::About },
        ) ==> pressed(app, key).overlay == Some(Overlay::About) && pressed(app, key).should_quit
            == app.should_quit,
        key.code == KeyCode::Enter && app.overlay == Some(
            Overlay::Menu { selected: MenuItem::Exit },
        ) ==> pressed(app, key).should_quit,
{
    reveal(AppState::after_on_overlay);
}

/// The application after the mouse did something.
pub open spec fn moused(app: AppState, mouse: MouseEvent, regions: UiRegions) -> AppState {
    match event::mouse_action(mouse, regions, app.hovered) {
        Some(action) => app.after(action).0,
        None => app,
    }
}

/// A cell lies in an area.
pub open spec fn lies_in(column: u16, row: u16, area: Area) -> bool {
    area.x <= column && column < area.x + area.width && area.y <= row && row < area.y
        + area.height
}

/// The first thing on the screen that lies under the mouse.
pub open spec fn lies_under(mouse: MouseEvent, regions: UiRegions, place: int) -> bool {
    &&& 0 <= place < regions.targets@.len()
    &&& lies_in(mouse.column, mouse.row, regions.targets@[place].area)
    &&& forall|i: int|
        0 <= i < place ==> !lies_in(
            mouse.column,
            mouse.row,
            (#[trigger] regions.targets@[i]).area,
        )
}

proof fn lemma_target_found(mouse: MouseEvent, regions: UiRegions, place: int, from: int)
    requires
        lies_under(mouse, regions, place),
        0 <= from <= place,
    ensures
        event::found_target(regions.targets@, from, mouse.column, mouse.row) == Some(
            regions.targets@[place].target,
        ),
    decreases place - from,
{
    if from < place {
        assert(!lies_in(mouse.column, mouse.row, regions.targets@[from].area));
        lemma_target_found(mouse, regions, place, from + 1);
    }
}

proof fn lemma_no_target_found(mouse: MouseEvent, regions: UiRegions, from: int)
    requires
        0 <= from,
        forall|i: int|
            0 <= i < regions.targets@.len() ==> !lies_in(
                mouse.column,
                mouse.row,
                (#[trigger] regions.targets@[i]).area,
            ),
    ensures
        event::found_target(regions.targets@, from, mouse.column, mouse.row) is None,
    decreases regions.targets@.len() - from,
{
    if from < regions.targets@.len() {
        assert(!lies_in(mouse.column, mouse.row, regions.targets@[from].area));
        lemma_no_target_found(mouse, regions, from + 1);
    }
}

/// A click on the title of a tab shows that tab, and one on the head of a column sorts by it, the
/// other way round where that was the column already.
pub proof fn lemma_clicks_on_titles(
    app: AppState,
    mouse: MouseEvent,
    regions: UiRegions,
    place: int,
)
    requires
        mouse.kind == MouseEventKind::Press,
        app.overlay is None,
        lies_under(mouse, regions, place),
    ensures
        regions.targets@[place].target matches MouseTarget::Tab(tab) ==> moused(
            app,
            mouse,
            regions,
        ).active_tab == tab,
        regions.targets@[place].target matches MouseTarget::ProcessSortHeader(field)
            ==> app.active_tab == Tab::Processes ==> moused(app, mouse, regions).table.sort.field
            == field && (app.table.sort.field == field ==> moused(
            app,
            mouse,
            regions,
        ).table.sort.descending == !app.table.sort.descending),
{
    lemma_target_found(mouse, regions, place, 0);
    let action = event::mouse_action(mouse, regions, app.hovered)->0;
    if laws::held_back(action) {
        lemma_reaches_screen(app, action);
    }
    reveal(AppState::after_unobstructed);
    reveal(TableState::sorted_by);
    reveal(TableState::rebuilt);
}

/// A click on the row of a process selects that process.
pub proof fn lemma_click_selects_process(
    app: AppState,
    mouse: MouseEvent,
    regions: UiRegions,
    place: int,
    row: int,
)
    requires
        mouse.kind == MouseEventKind::Press,
        app.overlay is None,
        lies_under(mouse, regions, place),
        regions.targets@[place].target is ProcessRow,
        app.active_tab == Tab::Processes,
        app.table.rows.len() <= usize::MAX,
        process_on(app.table, row) is Some,
        process_on(app.table, row)->0.id() == regions.targets@[place].target->ProcessRow_0,
    ensures
        moused(app, mouse, regions).table.selected == Some(
            regions.targets@[place].target->ProcessRow_0,
        ),
{
    lemma_target_found(mouse, regions, place, 0);
    let action = event::mouse_action(mouse, regions, app.hovered)->0;
    lemma_reaches_screen(app, action);
    reveal(AppState::after_unobstructed);
    reveal(TableState::selected_at);
    lemma_row_is_found(app.table, regions.targets@[place].target->ProcessRow_0, row, 0);
}

/// A click on the row of a service selects that service.
pub proof fn lemma_click_selects_service(
    app: AppState,
    mouse: MouseEvent,
    regions: UiRegions,
    place: int,
    row: int,
)
    requires
        mouse.kind == MouseEventKind::Press,
        app.overlay is None,
        lies_under(mouse, regions, place),
        regions.targets@[place].target is ServiceRow,
        app.active_tab == Tab::Services,
        rows_listed(app.services.rows, app.services.items.len()),
        0 <= row < app.services.rows.len(),
        app.services.items[app.services.rows[row] as int].unit@
            == regions.targets@[place].target->ServiceRow_0@,
    ensures
        moused(app, mouse, regions).services.selected == Some(
            Tag::Name(regions.targets@[place].target->ServiceRow_0@),
        ),
{
    lemma_target_found(mouse, regions, place, 0);
    let action = event::mouse_action(mouse, regions, app.hovered)->0;
    lemma_reaches_screen(app, action);
    reveal(AppState::after_unobstructed);
    reveal(AppState::after_on_services);
    reveal(ListState::selected_at);
    lemma_item_row_is_found(app.services, row, 0);
}

/// A click on the row of an entry of the journal selects that entry, and new ones are no longer
/// followed.
pub proof fn lemma_click_selects_entry(
    app: AppState,
    mouse: MouseEvent,
    regions: UiRegions,
    place: int,
    row: int,
)
    requires
        mouse.kind == MouseEventKind::Press,
        app.overlay is None,
        lies_under(mouse, regions, place),
        regions.targets@[place].target is LogRow,
        app.active_tab == Tab::Logs,
        rows_listed(app.logs.rows, app.logs.items.len()),
        0 <= row < app.logs.rows.len(),
        app.logs.items[app.logs.rows[row] as int].id == regions.targets@[place].target->LogRow_0,
    ensures
        moused(app, mouse, regions).logs.selected == Some(
            Tag::Number(regions.targets@[place].target->LogRow_0),
        ),
        !moused(app, mouse, regions).log_following,
{
    lemma_target_found(mouse, regions, place, 0);
    let action = event::mouse_action(mouse, regions, app.hovered)->0;
    lemma_reaches_screen(app, action);
    reveal(AppState::after_unobstructed);
    reveal(AppState::after_on_services);
    reveal(AppState::after_on_logs);
    reveal(ListState::selected_at);
    lemma_item_row_is_found(app.logs, row, 0);
}

/// A click on the row of an interface selects that interface.
pub proof fn lemma_click_selects_interface(
    app: AppState,
    mouse: MouseEvent,
    regions: UiRegions,
    place: int,
    row: int,
)
    requires
        mouse.kind == MouseEventKind::Press,
        app.overlay is None,
        lies_under(mouse, regions, place),
        regions.targets@[place].target is NetworkRow,
        app.active_tab == Tab::Network,
        rows_listed(app.networks.rows, app.networks.items.len()),
        0 <= row < app.networks.rows.len(),
        app.networks.items[app.networks.rows[row] as int].name@
            == regions.targets@[place].target->NetworkRow_0@,
    ensures
        moused(app, mouse, regions).networks.selected == Some(
            Tag::Name(regions.targets@[place].target->NetworkRow_0@),
        ),
{
    lemma_target_found(mouse, regions, place, 0);
    let action = event::mouse_action(mouse, regions, app.hovered)->0;
    lemma_reaches_screen(app, action);
    reveal(AppState::after_unobstructed);
    reveal(AppState::after_on_services);
    reveal(AppState::after_on_logs);
    reveal(AppState::after_on_networks);
    reveal(ListState::selected_at);
    lemma_item_row_is_found(app.networks, row, 0);
}

proof fn lemma_row_is_found(table: TableState, identity: ProcessIdentity, row: int, from: int)
    requires
        0 <= from <= row < table.rows.len() <= usize::MAX,
        process_on(table, row) is Some,
        process_on(table, row)->0.id() == identity,
    ensures
        ({
            let found = process_table::row_from(
                table.rows,
                table.processes,
                table.pinned,
                identity,
                from,
            );
            &&& found is Some
            &&& process_on(table, found->0 as int) is Some
            &&& process_on(table, found->0 as int)->0.id() == identity
        }),
    decreases row - from,
{
    if !process_table::row_shows(table.processes, table.pinned, table.rows[from], identity) {
        lemma_row_is_found(table, identity, row, from + 1);
    }
}

proof fn lemma_item_row_is_found<T: list::Item>(list: ListState<T>, row: int, from: int)
    requires
        rows_listed(list.rows, list.items.len()),
        0 <= from <= row < list.rows.len(),
    ensures
        ({
            let tag = list.items[list.rows[row] as int].tag();
            let found = list::row_from(list.items, list.rows, tag, from);
            &&& found is Some
            &&& 0 <= found->0 < list.rows.len()
            &&& list.items[list.rows[found->0 as int] as int].tag() == tag
        }),
    decreases row - from,
{
    assert(list.rows[from] < list.items.len());
    assert(list.rows[row] < list.items.len());
    if list.items[list.rows[from] as int].tag() != list.items[list.rows[row] as int].tag() {
        lemma_item_row_is_found(list, row, from + 1);
    }
}

/// A click on `Cancel` sends nothing, one on `Confirm` hands the signal over that was asked
/// about; both close the dialog.
pub proof fn lemma_clicks_on_buttons(
    app: AppState,
    mouse: MouseEvent,
    regions: UiRegions,
    place: int,
)
    requires
        mouse.kind == MouseEventKind::Press,
        app.overlay matches Some(Overlay::ProcessSignal(_)),
        lies_under(mouse, regions, place),
    ensures
        regions.targets@[place].target is ProcessSignalCancel ==> moused(
            app,
            mouse,
            regions,
        ).overlay is None && moused(app, mouse, regions).signal_request == app.signal_request,
        regions.targets@[place].target is ProcessSignalConfirm ==> moused(
            app,
            mouse,
            regions,
        ).overlay is None && moused(app, mouse, regions).signal_request == Some(
            app.overlay->0->ProcessSignal_0,
        ),
{
    lemma_target_found(mouse, regions, place, 0);
    reveal(AppState::after_on_overlay);
}

/// A click beside everything does nothing. The mouse over something is known to be over it, and
/// beside everything to be over nothing.
pub proof fn lemma_mouse_beside(app: AppState, mouse: MouseEvent, regions: UiRegions, place: int)
    ensures
        (forall|i: int|
            0 <= i < regions.targets@.len() ==> !lies_in(
                mouse.column,
                mouse.row,
                (#[trigger] regions.targets@[i]).area,
            )) ==> {
            &&& mouse.kind == MouseEventKind::Press ==> moused(app, mouse, regions) == app
            &&& mouse.kind == MouseEventKind::Moved ==> moused(app, mouse, regions).hovered is None
        },
        lies_under(mouse, regions, place) && mouse.kind == MouseEventKind::Moved ==> moused(
            app,
            mouse,
            regions,
        ).hovered is Some && one_target(
            moused(app, mouse, regions).hovered->0,
            regions.targets@[place].target,
        ),
{
    if forall|i: int|
        0 <= i < regions.targets@.len() ==> !lies_in(
            mouse.column,
            mouse.row,
            (#[trigger] regions.targets@[i]).area,
        ) {
        lemma_no_target_found(mouse, regions, 0);
    }
    if lies_under(mouse, regions, place) {
        lemma_target_found(mouse, regions, place, 0);
    }
}

/// Two things on the screen are one.
pub open spec fn one_target(left: MouseTarget, right: MouseTarget) -> bool {
    ||| left == right
    ||| left matches MouseTarget::ServiceRow(unit) && right matches MouseTarget::ServiceRow(other)
        && unit@ == other@
    ||| left matches MouseTarget::NetworkRow(name) && right matches MouseTarget::NetworkRow(other)
        && name@ == other@
}

/// The list that a tab shows.
pub open spec fn list_of(tab: Tab) -> Option<ScrollList> {
    match tab {
        Tab::Overview => None,
        Tab::Processes => Some(ScrollList::Processes),
        Tab::Services => Some(ScrollList::Services),
        Tab::Logs => Some(ScrollList::Logs),
        Tab::Network => Some(ScrollList::Network),
    }
}

/// The wheel over the list that is shown moves the selection as the arrow of its direction does.
pub proof fn lemma_wheel_moves_like_arrows(
    app: AppState,
    mouse: MouseEvent,
    regions: UiRegions,
    key: KeyEvent,
    tab: Tab,
)
    requires
        on_tab(app, tab),
        alone(key),
        regions.scrolls@.len() > 0,
        lies_in(mouse.column, mouse.row, regions.scrolls@[0].area),
        list_of(tab) == Some(regions.scrolls@[0].list),
        mouse.kind == MouseEventKind::ScrollUp && key.code == KeyCode::Up || mouse.kind
            == MouseEventKind::ScrollDown && key.code == KeyCode::Down,
    ensures
        moused(app, mouse, regions) == pressed(app, key),
{
}

} // verus!
