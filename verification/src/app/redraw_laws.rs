//! What is drawn: nothing that the user does changes the screen without being drawn, and nothing
//! that is off the screen is.
use vstd::prelude::*;

use crate::action::{Action, Tab};
use crate::app::health::Collector;
use crate::app::history;
use crate::app::list::{ListState, Tag};
use crate::app::process_table::TableState;
use crate::app::scroll::Step;
use crate::app::state;
use crate::app::state::AppState;
use crate::linux::hardware::HardwareInventory;
use crate::linux::journal::JournalBatch;
use crate::linux::network::NetworkSnapshot;
use crate::linux::process::ProcessSnapshot;
use crate::linux::service::{ServiceInfo, ServiceSnapshot};
use crate::linux::system::SystemMetrics;

verus! {

broadcast use vstd::string::group_string_axioms;

/// Two lists look the same.
pub open spec fn list_looks<T>(before: ListState<T>, after: ListState<T>) -> bool {
    &&& after.items == before.items
    &&& after.rows == before.rows
    &&& after.selected == before.selected
    &&& after.query == before.query
}

/// Two tables look the same.
pub open spec fn table_looks(before: TableState, after: TableState) -> bool {
    &&& after.processes == before.processes
    &&& after.rows == before.rows
    &&& after.selected == before.selected
    &&& after.scroll == before.scroll
    &&& after.query == before.query
    &&& after.sort == before.sort
    &&& after.pinned == before.pinned
}

/// Two states look the same on the screen, but for the line of messages.
#[verifier::opaque]
pub open spec fn looks(before: AppState, after: AppState) -> bool {
    &&& after.active_tab == before.active_tab
    &&& after.overlay == before.overlay
    &&& after.hovered == before.hovered
    &&& table_looks(before.table, after.table)
    &&& list_looks(before.services, after.services)
    &&& after.services.scroll == before.services.scroll
    &&& list_looks(before.logs, after.logs)
    &&& after.logs.scroll == before.logs.scroll
    &&& list_looks(before.networks, after.networks)
    &&& after.process_searching == before.process_searching
    &&& after.service_searching == before.service_searching
    &&& after.log_searching == before.log_searching
    &&& after.log_following == before.log_following
    &&& after.log_paused == before.log_paused
    &&& after.refresh_pending is Some == before.refresh_pending is Some
    &&& after.sampling_interval == before.sampling_interval
    &&& after.metrics == before.metrics
    &&& after.hardware == before.hardware
    &&& after.cpu_history == before.cpu_history
    &&& after.memory_history == before.memory_history
    &&& after.network_history == before.network_history
}

/// An action of the user on what is on the screen.
pub open spec fn is_input(action: Action) -> bool {
    match action {
        Action::SystemMetricsUpdated(_)
        | Action::ProcessesUpdated(_)
        | Action::ServicesUpdated(_)
        | Action::NetworkUpdated(_)
        | Action::HardwareDiscovered(_)
        | Action::LogsUpdated(_)
        | Action::Tick(_)
        | Action::ProcessViewportChanged { .. }
        | Action::ServiceViewportChanged { .. }
        | Action::LogViewportChanged { .. }
        | Action::NetworkViewportChanged { .. } => false,
        _ => true,
    }
}

proof fn lemma_unchanged(app: AppState)
    ensures
        looks(app, app),
{
    reveal(looks);
}

proof fn lemma_interface_row(app: AppState, row: int)
    requires
        !app.network_row_selected(row).1,
    ensures
        looks(app, app.network_row_selected(row).0),
{
    reveal(looks);
    reveal(ListState::selected_at);
}

proof fn lemma_interface_step(app: AppState, step: Step)
    requires
        !app.network_stepped(step).1,
    ensures
        looks(app, app.network_stepped(step).0),
{
    lemma_unchanged(app);
    if app.networks.rows.len() > 0 {
        lemma_interface_row(app, app.networks.step_target(step));
    }
}

proof fn lemma_on_networks(app: AppState, action: Action)
    requires
        !app.after_on_networks(action).1,
        app.overlay is None,
    ensures
        looks(app, app.after_on_networks(action).0),
{
    reveal(AppState::after_on_networks);
    lemma_unchanged(app);
    match action {
        Action::NetworkPrevious => lemma_interface_step(app, state::back(1)),
        Action::NetworkNext => lemma_interface_step(app, state::ahead(1)),
        Action::NetworkPreviousPage => lemma_interface_step(
            app,
            state::back(state::page(app.networks.height)),
        ),
        Action::NetworkNextPage => lemma_interface_step(
            app,
            state::ahead(state::page(app.networks.height)),
        ),
        Action::NetworkFirst => lemma_interface_row(app, 0),
        Action::NetworkLast => lemma_interface_row(
            app,
            state::last_row(app.networks.rows.len()),
        ),
        Action::SelectNetwork(name) => match app.networks.row_of(Tag::Name(name@)) {
            Some(row) => lemma_interface_row(app, row as int),
            None => {},
        },
        _ => {},
    }
}

proof fn lemma_entry_row(app: AppState, row: int)
    requires
        !app.log_row_selected(row).1,
    ensures
        looks(app, app.log_row_selected(row).0),
{
    reveal(looks);
    reveal(ListState::selected_at);
}

proof fn lemma_entry_step(app: AppState, step: Step)
    requires
        !app.log_stepped(step).1,
    ensures
        looks(app, app.log_stepped(step).0),
{
    lemma_unchanged(app);
    if app.logs.rows.len() > 0 {
        lemma_entry_row(app, app.logs.step_target(step));
    }
}

proof fn lemma_on_logs(app: AppState, action: Action)
    requires
        !app.after_on_logs(action).1,
        app.overlay is None,
    ensures
        looks(app, app.after_on_logs(action).0),
{
    reveal(AppState::after_on_logs);
    lemma_unchanged(app);
    match action {
        Action::LogPrevious => lemma_entry_step(app, state::back(1)),
        Action::LogNext => lemma_entry_step(app, state::ahead(1)),
        Action::LogPreviousPage => lemma_entry_step(
            app,
            state::back(state::page(app.logs.height)),
        ),
        Action::LogNextPage => lemma_entry_step(app, state::ahead(state::page(app.logs.height))),
        Action::LogFirst => lemma_entry_row(app, 0),
        Action::LogLast => lemma_entry_row(app, state::last_row(app.logs.rows.len())),
        Action::SelectLog(id) => match app.logs.row_of(Tag::Number(id)) {
            Some(row) => lemma_entry_row(app, row as int),
            None => {},
        },
        Action::BeginLogSearch => {},
        Action::AppendLogSearch(_) => {},
        Action::BackspaceLogSearch => {},
        Action::OpenLogDetails => {},
        Action::ToggleLogFollow => {},
        Action::ToggleLogPause => {},
        _ => lemma_on_networks(app, action),
    }
}

proof fn lemma_service_row(app: AppState, row: int)
    requires
        !app.service_row_selected(row).1,
    ensures
        looks(app, app.service_row_selected(row).0),
{
    reveal(looks);
    reveal(ListState::selected_at);
}

proof fn lemma_service_step(app: AppState, step: Step)
    requires
        !app.service_stepped(step).1,
    ensures
        looks(app, app.service_stepped(step).0),
{
    lemma_unchanged(app);
    if app.services.rows.len() > 0 {
        lemma_service_row(app, app.services.step_target(step));
    }
}

proof fn lemma_refresh(app: AppState)
    requires
        !app.refresh_asked().1,
    ensures
        looks(app, app.refresh_asked().0),
{
    reveal(looks);
}

proof fn lemma_on_services(app: AppState, action: Action)
    requires
        !app.after_on_services(action).1,
        app.overlay is None,
    ensures
        looks(app, app.after_on_services(action).0),
{
    reveal(AppState::after_on_services);
    lemma_unchanged(app);
    match action {
        Action::ServicePrevious => lemma_service_step(app, state::back(1)),
        Action::ServiceNext => lemma_service_step(app, state::ahead(1)),
        Action::ServicePreviousPage => lemma_service_step(
            app,
            state::back(state::page(app.services.height)),
        ),
        Action::ServiceNextPage => lemma_service_step(
            app,
            state::ahead(state::page(app.services.height)),
        ),
        Action::ServiceFirst => lemma_service_row(app, 0),
        Action::ServiceLast => lemma_service_row(app, state::last_row(app.services.rows.len())),
        Action::SelectService(unit) => match app.services.row_of(Tag::Name(unit@)) {
            Some(row) => lemma_service_row(app, row as int),
            None => {},
        },
        Action::BeginServiceSearch => {},
        Action::AppendServiceSearch(_) => {},
        Action::BackspaceServiceSearch => {},
        Action::OpenServiceDetails => {},
        Action::RefreshServices => lemma_refresh(app),
        _ => lemma_on_logs(app, action),
    }
}

proof fn lemma_process_row(app: AppState, row: int)
    requires
        !app.with_selection(app.table.selected_at(row)).1,
    ensures
        looks(app, app.with_selection(app.table.selected_at(row)).0),
{
    reveal(looks);
    reveal(TableState::selected_at);
}

proof fn lemma_process_step(app: AppState, step: Step)
    requires
        !app.with_selection(app.table.stepped(step)).1,
    ensures
        looks(app, app.with_selection(app.table.stepped(step)).0),
{
    reveal(looks);
    reveal(TableState::stepped);
    reveal(TableState::selected_at);
}

proof fn lemma_tab(app: AppState, tab: Tab)
    requires
        !app.tab_selected(tab).1,
        app.active_tab == Tab::Processes ==> app.table.deferred is None,
    ensures
        looks(app, app.tab_selected(tab).0),
{
    reveal(looks);
}

proof fn lemma_unobstructed(app: AppState, action: Action)
    requires
        !app.after_unobstructed(action).1,
        app.overlay is None,
        app.active_tab == Tab::Processes ==> app.table.deferred is None,
    ensures
        looks(app, app.after_unobstructed(action).0),
{
    reveal(AppState::after_unobstructed);
    lemma_unchanged(app);
    match action {
        Action::ShowHelp => {},
        Action::StepSamplingInterval(_) => {},
        Action::SelectTab(tab) => lemma_tab(app, tab),
        Action::NextTab => lemma_tab(app, app.active_tab.following()),
        Action::PreviousTab => lemma_tab(app, app.active_tab.preceding()),
        Action::ProcessPrevious => lemma_process_step(app, state::back(1)),
        Action::ProcessNext => lemma_process_step(app, state::ahead(1)),
        Action::ProcessPreviousPage => lemma_process_step(
            app,
            state::back(state::page(app.table.height)),
        ),
        Action::ProcessNextPage => lemma_process_step(
            app,
            state::ahead(state::page(app.table.height)),
        ),
        Action::ProcessFirst => lemma_process_row(app, 0),
        Action::ProcessLast => lemma_process_row(app, state::last_row(app.table.rows.len())),
        Action::SelectProcess(identity) => match app.table.row_of(identity) {
            Some(row) => lemma_process_row(app, row as int),
            None => {},
        },
        Action::BeginProcessSearch => {},
        Action::AppendProcessSearch(_) => {},
        Action::BackspaceProcessSearch => {},
        Action::OpenProcessDetails => {},
        Action::RequestProcessSignal(_) => {},
        Action::SortProcesses(_) => {},
        Action::TogglePin => {},
        Action::MoveSelectedPin(_) => {},
        Action::MovePin(_, _) => {},
        _ => lemma_on_services(app, action),
    }
}

proof fn lemma_overlay(app: AppState, action: Action)
    requires
        !app.after_on_overlay(action).1,
        app.active_tab == Tab::Processes ==> app.table.deferred is None,
    ensures
        looks(app, app.after_on_overlay(action).0),
{
    reveal(AppState::after_on_overlay);
    lemma_unchanged(app);
    match action {
        Action::CancelProcessSignal => {},
        Action::ConfirmProcessSignal => {},
        Action::ToggleProcessSignalFocus => {
            reveal(looks);
        },
        Action::FocusProcessSignal(_) => {
            reveal(looks);
        },
        Action::ExecuteFocusedProcessSignal => {},
        Action::MenuPrevious => {
            reveal(looks);
        },
        Action::MenuNext => {
            reveal(looks);
        },
        Action::ActivateSelectedMenuItem => {
            reveal(looks);
        },
        Action::ActivateMenuItem(_) => {
            reveal(looks);
        },
        _ => if app.overlay is None {
            lemma_unobstructed(app, action);
        },
    }
}

/// What the user does and is not drawn left the screen as it was.
pub proof fn lemma_what_is_not_drawn_looks_the_same(app: AppState, action: Action)
    requires
        is_input(action),
        !app.after(action).1,
        app.active_tab == Tab::Processes ==> app.table.deferred is None,
    ensures
        looks(app, app.after(action).0),
{
    match action {
        Action::Resize => {},
        Action::Quit => {
            reveal(looks);
        },
        Action::HoverMouseTarget(_) => lemma_unchanged(app),
        Action::Escape => {
            lemma_unchanged(app);
        },
        _ => lemma_overlay(app, action),
    }
}

/// What collectors find for other screens is not drawn.
pub proof fn lemma_hidden_findings_are_not_drawn(app: AppState, action: Action)
    requires
        app.after(action).1,
    ensures
        match action {
            Action::SystemMetricsUpdated(_) | Action::ProcessesUpdated(_) => app.active_tab
                == Tab::Overview || app.active_tab == Tab::Processes,
            Action::NetworkUpdated(_) => app.active_tab == Tab::Overview || app.active_tab
                == Tab::Network,
            Action::HardwareDiscovered(_) => app.active_tab == Tab::Overview,
            Action::ServicesUpdated(_) => app.active_tab == Tab::Services,
            Action::LogsUpdated(_) => app.active_tab == Tab::Logs,
            Action::ProcessViewportChanged { .. } => false,
            Action::ServiceViewportChanged { .. } => false,
            Action::LogViewportChanged { .. } => false,
            Action::NetworkViewportChanged { .. } => false,
            _ => true,
        },
{
}

/// A list is still searched and seen as the user chose.
pub open spec fn list_chosen<T>(before: ListState<T>, after: ListState<T>) -> bool {
    after.query == before.query && after.height == before.height
}

/// What the user chose is as it was.
#[verifier::opaque]
pub open spec fn chosen(before: AppState, after: AppState) -> bool {
    &&& after.active_tab == before.active_tab
    &&& after.table.query == before.table.query
    &&& after.table.sort == before.table.sort
    &&& after.table.height == before.table.height
    &&& list_chosen(before.services, after.services)
    &&& list_chosen(before.logs, after.logs)
    &&& list_chosen(before.networks, after.networks)
    &&& after.process_searching == before.process_searching
    &&& after.service_searching == before.service_searching
    &&& after.log_searching == before.log_searching
    &&& after.log_following == before.log_following
    &&& after.log_paused == before.log_paused
    &&& after.sampling_interval == before.sampling_interval
    &&& after.should_quit == before.should_quit
    &&& after.signal_request == before.signal_request
}

/// A listing of the processes changes nothing that the user chose.
#[verifier::rlimit(40)]
pub proof fn lemma_processes_leave_choices(app: AppState, snapshot: ProcessSnapshot)
    ensures
        chosen(app, app.after(Action::ProcessesUpdated(snapshot)).0),
        list_looks(app.services, app.after(Action::ProcessesUpdated(snapshot)).0.services),
        list_looks(app.logs, app.after(Action::ProcessesUpdated(snapshot)).0.logs),
        list_looks(app.networks, app.after(Action::ProcessesUpdated(snapshot)).0.networks),
{
    reveal(chosen);
    reveal(AppState::processes_kept);
    reveal(AppState::processes_shown);
    reveal(TableState::replaced);
    reveal(TableState::replaced_hidden);
    reveal(TableState::rebuilt);
}

#[verifier::rlimit(40)]
proof fn lemma_replaced_services(app: AppState, next: Seq<ServiceInfo>)
    ensures
        ({
            let after = app.services_replaced(next);
            &&& list_chosen(app.services, after.services)
            &&& after == (AppState {
                services: after.services,
                service_error: after.service_error,
                hovered: after.hovered,
                overlay: after.overlay,
                ..app
            })
        }),
{
    reveal(AppState::services_replaced);
    reveal(ListState::rebuilt);
}

proof fn lemma_services_updated(app: AppState, snapshot: ServiceSnapshot, refreshed: AppState)
    requires
        refreshed.refresh_pending is Some ==> refreshed.refresh_pending == app.refresh_pending,
        refreshed == (AppState { refresh_pending: refreshed.refresh_pending, ..app }),
        refreshed.refresh_pending is None == (app.refresh_pending is None
            || snapshot.completed_refresh_generation >= app.refresh_pending->0),
    ensures
        ({
            let after = app.services_updated(snapshot).0;
            ||| after == refreshed
            ||| after == refreshed.services_replaced(snapshot.services@)
            ||| after == (AppState { service_error: after.service_error, ..refreshed })
        }),
{
}

/// A listing of the services changes nothing that the user chose.
#[verifier::rlimit(40)]
pub proof fn lemma_services_leave_choices(app: AppState, snapshot: ServiceSnapshot)
    ensures
        chosen(app, app.after(Action::ServicesUpdated(snapshot)).0),
        table_looks(app.table, app.after(Action::ServicesUpdated(snapshot)).0.table),
        list_looks(app.logs, app.after(Action::ServicesUpdated(snapshot)).0.logs),
        list_looks(app.networks, app.after(Action::ServicesUpdated(snapshot)).0.networks),
{
    let heard = app.heard(Collector::Services);
    let completed = heard.refresh_pending is Some && snapshot.completed_refresh_generation
        >= heard.refresh_pending->0;
    let refreshed = AppState {
        refresh_pending: if completed {
            None
        } else {
            heard.refresh_pending
        },
        ..heard
    };
    lemma_services_updated(heard, snapshot, refreshed);
    lemma_replaced_services(refreshed, snapshot.services@);
    reveal(chosen);
}

/// A listing of the interfaces changes nothing that the user chose.
#[verifier::rlimit(40)]
pub proof fn lemma_interfaces_leave_choices(app: AppState, snapshot: NetworkSnapshot)
    ensures
        chosen(app, app.after(Action::NetworkUpdated(snapshot)).0),
        table_looks(app.table, app.after(Action::NetworkUpdated(snapshot)).0.table),
        list_looks(app.services, app.after(Action::NetworkUpdated(snapshot)).0.services),
        list_looks(app.logs, app.after(Action::NetworkUpdated(snapshot)).0.logs),
{
    reveal(chosen);
    reveal(AppState::networks_replaced);
}

/// New entries of the journal change nothing that the user chose.
#[verifier::rlimit(40)]
pub proof fn lemma_entries_leave_choices(app: AppState, batch: JournalBatch)
    ensures
        chosen(app, app.after(Action::LogsUpdated(batch)).0),
        table_looks(app.table, app.after(Action::LogsUpdated(batch)).0.table),
        list_looks(app.services, app.after(Action::LogsUpdated(batch)).0.services),
        list_looks(app.networks, app.after(Action::LogsUpdated(batch)).0.networks),
{
    reveal(chosen);
    reveal(ListState::appended);
}

/// A reading of the system, and the inventory, change nothing else.
pub proof fn lemma_readings_leave_choices(
    app: AppState,
    metrics: SystemMetrics,
    hardware: HardwareInventory,
)
    ensures
        chosen(app, app.after(Action::SystemMetricsUpdated(metrics)).0),
        app.after(Action::SystemMetricsUpdated(metrics)).0.table == app.table,
        app.after(Action::SystemMetricsUpdated(metrics)).0.overlay == app.overlay,
        chosen(app, app.after(Action::HardwareDiscovered(hardware)).0),
        app.after(Action::HardwareDiscovered(hardware)).0.table == app.table,
        app.after(Action::HardwareDiscovered(hardware)).0.overlay == app.overlay,
{
    reveal(chosen);
}

/// A reading of the system that is not drawn changed nothing that the Overview shows of it.
pub proof fn lemma_undrawn_reading_changes_nothing(app: AppState, metrics: SystemMetrics)
    requires
        app.active_tab == Tab::Overview,
        !app.after(Action::SystemMetricsUpdated(metrics)).1,
    ensures
        ({
            let after = app.after(Action::SystemMetricsUpdated(metrics)).0;
            &&& after.metrics == app.metrics
            &&& after.cpu_history == app.cpu_history
            &&& after.memory_history == app.memory_history
        }),
{
    reveal(history::percent_recorded);
}

/// A listing of the processes that is not drawn changed nothing that the screen shows of them.
pub proof fn lemma_undrawn_processes_change_nothing(app: AppState, snapshot: ProcessSnapshot)
    requires
        !app.after(Action::ProcessesUpdated(snapshot)).1,
    ensures
        ({
            let after = app.after(Action::ProcessesUpdated(snapshot)).0;
            &&& app.active_tab == Tab::Overview ==> after.table.summary == app.table.summary
            &&& app.active_tab == Tab::Overview || app.active_tab == Tab::Processes
                ==> after.process_error == app.process_error
            &&& app.active_tab == Tab::Processes ==> after.table == app.table && after.overlay
                == app.overlay && after.message == app.message
        }),
{
    reveal(AppState::processes_kept);
    reveal(TableState::replaced_hidden);
}

/// A listing of the interfaces that is not drawn changed nothing that the screen shows of them.
pub proof fn lemma_undrawn_interfaces_change_nothing(app: AppState, snapshot: NetworkSnapshot)
    requires
        app.active_tab == Tab::Overview || app.active_tab == Tab::Network,
        !app.after(Action::NetworkUpdated(snapshot)).1,
    ensures
        ({
            let after = app.after(Action::NetworkUpdated(snapshot)).0;
            &&& after.networks == app.networks
            &&& after.network_error == app.network_error
            &&& after.overlay == app.overlay
            &&& app.active_tab == Tab::Overview ==> after.network_history == app.network_history
        }),
{
    reveal(history::recorded);
}

/// New entries of the journal that are not drawn changed nothing that the screen shows of it.
pub proof fn lemma_undrawn_entries_change_nothing(app: AppState, batch: JournalBatch)
    requires
        app.active_tab == Tab::Logs,
        !app.after(Action::LogsUpdated(batch)).1,
    ensures
        ({
            let after = app.after(Action::LogsUpdated(batch)).0;
            &&& after.logs == app.logs
            &&& after.log_error == app.log_error
            &&& after.log_dropped == app.log_dropped
            &&& after.overlay == app.overlay
        }),
{
}

/// A listing of the services that is not drawn changed nothing that the screen shows of them.
#[verifier::rlimit(40)]
pub proof fn lemma_undrawn_services_change_nothing(app: AppState, snapshot: ServiceSnapshot)
    requires
        app.active_tab == Tab::Services,
        !app.after(Action::ServicesUpdated(snapshot)).1,
    ensures
        ({
            let after = app.after(Action::ServicesUpdated(snapshot)).0;
            &&& after.services == app.services
            &&& after.service_error == app.service_error
            &&& after.refresh_pending == app.refresh_pending
            &&& after.overlay == app.overlay
        }),
{
    let heard = app.heard(Collector::Services);
    assert(app.after(Action::ServicesUpdated(snapshot)) == heard.services_updated(snapshot));
}

} // verus!
