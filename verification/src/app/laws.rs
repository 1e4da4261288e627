//! What holds of the application as a whole.
use vstd::prelude::*;

use crate::action::{Action, IntervalStep, MouseTarget, SignalConfirmButton, Tab};
use crate::app::health;
use crate::app::health::Collector;
use crate::app::list;
use crate::app::list::ListState;
use crate::app::process_table::TableState;
use crate::app::state::{AppState, Overlay, LOG_BUFFER_CAPACITY};
use crate::linux::journal::JournalBatch;
use crate::linux::network::NetworkSnapshot;
use crate::linux::process::{ProcessSignal, ProcessSnapshot};
use crate::linux::service::ServiceSnapshot;
use crate::time::Nanos;

verus! {

/// The action is one that an open overlay holds back: navigation, searching, opening things
/// and everything else that is meant for the screen below.
pub open spec fn held_back(action: Action) -> bool {
    match action {
        Action::Resize | Action::Quit | Action::SystemMetricsUpdated(_)
        | Action::HardwareDiscovered(_) | Action::ProcessesUpdated(_) | Action::ServicesUpdated(_)
        | Action::LogsUpdated(_) | Action::NetworkUpdated(_)
        | Action::ProcessViewportChanged { .. } | Action::ServiceViewportChanged { .. }
        | Action::LogViewportChanged { .. } | Action::NetworkViewportChanged { .. }
        | Action::HoverMouseTarget(_) | Action::Tick(_) | Action::Escape
        | Action::CancelProcessSignal | Action::ConfirmProcessSignal
        | Action::ToggleProcessSignalFocus | Action::FocusProcessSignal(_)
        | Action::ExecuteFocusedProcessSignal | Action::MenuPrevious | Action::MenuNext
        | Action::ActivateSelectedMenuItem | Action::ActivateMenuItem(_) => false,
        _ => true,
    }
}

/// While an overlay is open, nothing that is meant for the screen below gets through to it.
pub proof fn lemma_overlay_holds_back(app: AppState, action: Action)
    requires
        app.overlay is Some,
        held_back(action),
    ensures
        app.after(action) == (app, false),
{
    reveal(AppState::after_on_overlay);
}

/// A signal is asked about before it is sent, with `Cancel` in focus, and it is meant for the
/// process that is selected and running.
pub proof fn lemma_cancel_is_the_default(app: AppState, signal: ProcessSignal)
    requires
        app.overlay is None,
        app.active_tab == Tab::Processes,
        app.table.selected_process() is Some,
    ensures
        ({
            let asked = app.after(Action::RequestProcessSignal(signal)).0;
            let confirmation = asked.overlay->0->ProcessSignal_0;
            &&& asked.overlay matches Some(Overlay::ProcessSignal(_))
            &&& confirmation.identity == app.table.selected_process()->0.id()
            &&& confirmation.signal == signal
            &&& confirmation.focused_button == SignalConfirmButton::Cancel
            &&& asked.signal_request == app.signal_request
            &&& asked.after(Action::ExecuteFocusedProcessSignal).0.overlay is None
            &&& asked.after(Action::ExecuteFocusedProcessSignal).0.signal_request
                == app.signal_request
        }),
{
    reveal(AppState::after_on_overlay);
    reveal(AppState::after_unobstructed);
}

/// No signal is handed over, and the application ends if it was about to.
spec fn steady(app: AppState, next: AppState) -> bool {
    next.signal_request == app.signal_request && (app.should_quit ==> next.should_quit)
}

proof fn lemma_processes_are_steady(app: AppState, processes: ProcessSnapshot)
    ensures
        steady(app, app.processes_updated(processes).0),
{
    let next = processes.processes@;
    assert(steady(app, app.processes_kept(next))) by {
        reveal(AppState::processes_kept);
    }
    assert(steady(app, app.processes_shown(next))) by {
        reveal(AppState::processes_shown);
    }
}

proof fn lemma_services_are_steady(app: AppState, services: ServiceSnapshot)
    ensures
        steady(app, app.services_updated(services).0),
        app.services_updated(services).0.refresh_pending == (if app.refresh_pending is Some
            && services.completed_refresh_generation >= app.refresh_pending->0 {
            None
        } else {
            app.refresh_pending
        }),
{
    let completed = app.refresh_pending is Some && services.completed_refresh_generation
        >= app.refresh_pending->0;
    let refreshed = AppState {
        refresh_pending: if completed {
            None
        } else {
            app.refresh_pending
        },
        ..app
    };
    assert(steady(refreshed, refreshed.services_replaced(services.services@)) && refreshed.services_replaced(
        services.services@,
    ).refresh_pending == refreshed.refresh_pending) by {
        reveal(AppState::services_replaced);
    }
}

proof fn lemma_interfaces_are_steady(app: AppState, networks: NetworkSnapshot)
    ensures
        steady(app, app.networks_updated(networks).0),
{
    let next = networks.interfaces@;
    let recorded = app.rate_recorded(next, networks.overview_rate);
    assert(steady(recorded, recorded.networks_replaced(next))) by {
        reveal(AppState::networks_replaced);
    }
}

proof fn lemma_network_screen_is_steady(app: AppState, action: Action)
    ensures
        steady(app, app.after_on_networks(action).0),
{
    reveal(AppState::after_on_networks);
}

proof fn lemma_log_screen_is_steady(app: AppState, action: Action)
    ensures
        steady(app, app.after_on_logs(action).0),
{
    reveal(AppState::after_on_logs);
    lemma_network_screen_is_steady(app, action);
}

proof fn lemma_service_screen_is_steady(app: AppState, action: Action)
    ensures
        steady(app, app.after_on_services(action).0),
{
    reveal(AppState::after_on_services);
    lemma_log_screen_is_steady(app, action);
}

proof fn lemma_screens_are_steady(app: AppState, action: Action)
    ensures
        steady(app, app.after_unobstructed(action).0),
{
    reveal(AppState::after_unobstructed);
    lemma_service_screen_is_steady(app, action);
}

proof fn lemma_escape_is_steady(app: AppState)
    ensures
        steady(app, app.escaped().0),
{
}

/// Nothing is handed over to be sent but what the user confirmed.
pub proof fn lemma_only_confirmed_signals_are_sent(app: AppState, action: Action)
    ensures
        app.after(action).0.signal_request != app.signal_request ==> {
            &&& app.overlay matches Some(Overlay::ProcessSignal(confirmation))
                && app.after(action).0.signal_request == Some(confirmation)
            &&& action is ConfirmProcessSignal || (action is ExecuteFocusedProcessSignal
                && app.overlay->0->ProcessSignal_0.focused_button == SignalConfirmButton::Confirm)
        },
{
    reveal(AppState::after_on_overlay);
    lemma_steady(app, action);
}

/// Once the application is to end, nothing keeps it.
pub proof fn lemma_quit_is_final(app: AppState, action: Action)
    requires
        app.should_quit,
    ensures
        app.after(action).0.should_quit,
{
    lemma_steady(app, action);
}

/// The action is one on an open overlay.
spec fn on_overlay(action: Action) -> bool {
    match action {
        Action::CancelProcessSignal | Action::ConfirmProcessSignal
        | Action::ToggleProcessSignalFocus | Action::FocusProcessSignal(_)
        | Action::ExecuteFocusedProcessSignal | Action::MenuPrevious | Action::MenuNext
        | Action::ActivateSelectedMenuItem | Action::ActivateMenuItem(_) => true,
        _ => false,
    }
}

proof fn lemma_dialogs_are_steady(app: AppState, action: Action)
    requires
        on_overlay(action),
    ensures
        app.should_quit ==> app.after_on_overlay(action).0.should_quit,
        !(action is ConfirmProcessSignal) && !(action is ExecuteFocusedProcessSignal) ==> steady(
            app,
            app.after_on_overlay(action).0,
        ),
{
    reveal(AppState::after_on_overlay);
}

proof fn lemma_overlay_is_steady(app: AppState, action: Action)
    ensures
        app.should_quit ==> app.after_on_overlay(action).0.should_quit,
        !(action is ConfirmProcessSignal) && !(action is ExecuteFocusedProcessSignal) ==> steady(
            app,
            app.after_on_overlay(action).0,
        ),
{
    if on_overlay(action) {
        lemma_dialogs_are_steady(app, action);
    } else {
        lemma_screens_are_steady(app, action);
        assert(app.after_on_overlay(action).0 == app || app.after_on_overlay(action).0
            == app.after_unobstructed(action).0) by {
            reveal(AppState::after_on_overlay);
        }
    }
}

proof fn lemma_steady(app: AppState, action: Action)
    ensures
        app.should_quit ==> app.after(action).0.should_quit,
        !(action is ConfirmProcessSignal) && !(action is ExecuteFocusedProcessSignal) ==> steady(
            app,
            app.after(action).0,
        ),
{
    match action {
        Action::ProcessesUpdated(snapshot) => {
            let heard = app.heard(Collector::Processes);
            lemma_processes_are_steady(heard, snapshot);
        },
        Action::ServicesUpdated(snapshot) => {
            lemma_services_are_steady(app.heard(Collector::Services), snapshot);
        },
        Action::NetworkUpdated(snapshot) => {
            lemma_interfaces_are_steady(app.heard(Collector::Network), snapshot);
        },
        Action::Escape => {
            lemma_escape_is_steady(app);
        },
        other => {
            lemma_overlay_is_steady(app, other);
        },
    }
}

/// A failed reading leaves what was last known in place.
pub proof fn lemma_failure_keeps_data(
    app: AppState,
    processes: ProcessSnapshot,
    services: ServiceSnapshot,
    networks: NetworkSnapshot,
)
    requires
        processes.error is Some,
        services.error is Some,
        networks.error is Some,
    ensures
        app.after(Action::ProcessesUpdated(processes)).0.table == app.table,
        app.after(Action::ProcessesUpdated(processes)).0.process_error == Some(
            processes.error->0@,
        ),
        app.after(Action::ServicesUpdated(services)).0.services == app.services,
        app.after(Action::ServicesUpdated(services)).0.service_error == Some(services.error->0@),
        app.after(Action::NetworkUpdated(networks)).0.networks == app.networks,
        app.after(Action::NetworkUpdated(networks)).0.network_history == app.network_history,
        app.after(Action::NetworkUpdated(networks)).0.network_error == Some(networks.error->0@),
{
}

/// A good reading clears the error of a failed one.
pub proof fn lemma_success_clears_error(
    app: AppState,
    processes: ProcessSnapshot,
    services: ServiceSnapshot,
    networks: NetworkSnapshot,
)
    requires
        processes.error is None,
        services.error is None,
        networks.error is None,
    ensures
        app.after(Action::ProcessesUpdated(processes)).0.process_error is None,
        app.after(Action::ServicesUpdated(services)).0.service_error is None,
        app.after(Action::NetworkUpdated(networks)).0.network_error is None,
{
    reveal(AppState::processes_kept);
    reveal(AppState::processes_shown);
    reveal(AppState::services_replaced);
    reveal(AppState::networks_replaced);
}

/// Another size of the terminal changes nothing but what is under the mouse.
pub proof fn lemma_resize_keeps_everything(app: AppState)
    ensures
        app.after(Action::Resize) == (AppState { hovered: None, ..app }, true),
{
}

/// Moving the mouse within a target shows nothing new.
pub proof fn lemma_hover_settles(app: AppState, target: MouseTarget)
    ensures
        ({
            let moved = app.after(Action::HoverMouseTarget(Some(target))).0;
            moved.after(Action::HoverMouseTarget(Some(target))) == (moved, false)
        }),
{
}

/// Going to the next tab and back leads to the tab one came from.
pub proof fn lemma_next_tab_and_back(app: AppState)
    requires
        app.overlay is None,
    ensures
        app.after(Action::NextTab).0.after(Action::PreviousTab).0.active_tab == app.active_tab,
        app.after(Action::PreviousTab).0.after(Action::NextTab).0.active_tab == app.active_tab,
{
    reveal(AppState::after_on_overlay);
    reveal(AppState::after_unobstructed);
}

/// Nothing is searched for on the tab that is shown.
pub open spec fn nothing_sought(app: AppState) -> bool {
    match app.active_tab {
        Tab::Processes => !app.process_searching && app.table.query.len() == 0,
        Tab::Services => !app.service_searching && app.services.query.len() == 0,
        Tab::Logs => !app.log_searching && app.logs.query.len() == 0,
        Tab::Overview | Tab::Network => true,
    }
}

/// With nothing to close and nothing searched for on the tab that is shown, `Esc` opens the main
/// menu, and closes it again.
pub proof fn lemma_escape_opens_menu(app: AppState)
    requires
        app.overlay is None,
        nothing_sought(app),
    ensures
        app.after(Action::Escape).0.overlay matches Some(Overlay::Menu { .. }),
        app.after(Action::Escape).0.after(Action::Escape).0.overlay is None,
{
}

/// With nothing to close, `Esc` ends the search of the tab that is shown and leaves those of the
/// other tabs as they are.
pub proof fn lemma_escape_ends_search(app: AppState)
    requires
        app.overlay is None,
        !nothing_sought(app),
    ensures
        app.after(Action::Escape).1,
        app.after(Action::Escape).0.overlay is None,
        app.after(Action::Escape).0.active_tab == app.active_tab,
        nothing_sought(app.after(Action::Escape).0),
        app.active_tab != Tab::Processes ==> app.after(Action::Escape).0.table == app.table,
        app.active_tab != Tab::Services ==> app.after(Action::Escape).0.services == app.services,
        app.active_tab != Tab::Logs ==> app.after(Action::Escape).0.logs == app.logs,
{
    reveal(TableState::rebuilt);
    reveal(ListState::rebuilt);
    reveal(ListState::searched);
    reveal(ListState::searched_following);
}

/// `Esc` with an overlay open closes it, or leads from About back to the menu, and leaves the
/// screen below as it is.
pub proof fn lemma_escape_closes_overlay(app: AppState)
    requires
        app.overlay is Some,
    ensures
        app.after(Action::Escape).1,
        app.after(Action::Escape).0.overlay is Some ==> (app.overlay matches Some(Overlay::About))
            && (app.after(Action::Escape).0.overlay matches Some(Overlay::Menu { .. })),
        app.after(Action::Escape).0.table == app.table,
        app.after(Action::Escape).0.services == app.services,
        app.after(Action::Escape).0.logs == app.logs,
        app.after(Action::Escape).0.networks == app.networks,
{
}

/// A refresh that was asked for is over as soon as a snapshot says that it, or a later one, was
/// served. Snapshots that were under way before do not end it.
pub proof fn lemma_refresh_ends(app: AppState, snapshot: ServiceSnapshot)
    requires
        app.refresh_pending is Some,
    ensures
        app.after(Action::ServicesUpdated(snapshot)).0.refresh_pending is None
            == (snapshot.completed_refresh_generation >= app.refresh_pending->0),
{
    lemma_services_are_steady(app.heard(Collector::Services), snapshot);
}

/// Every refresh asked for has a higher number than the one before, as long as there are any.
pub proof fn lemma_refresh_numbers_grow(app: AppState)
    requires
        app.overlay is None,
        app.active_tab == Tab::Services,
        app.generation < u64::MAX,
    ensures
        app.after(Action::RefreshServices).0.generation == app.generation + 1,
        app.after(Action::RefreshServices).0.refresh_requested == Some(
            (app.generation + 1) as u64,
        ),
        app.after(Action::RefreshServices).0.refresh_pending == Some((app.generation + 1) as u64),
{
    reveal(AppState::after_on_overlay);
    reveal(AppState::after_unobstructed);
    reveal(AppState::after_on_services);
}

/// To come to the services from another tab asks for exactly one refresh, and to choose them
/// again while they are shown asks for none.
pub proof fn lemma_entering_services_refreshes(app: AppState)
    requires
        app.overlay is None,
        app.active_tab != Tab::Services,
        app.generation < u64::MAX,
    ensures
        ({
            let entered = app.after(Action::SelectTab(Tab::Services)).0;
            let again = entered.after(Action::SelectTab(Tab::Services)).0;
            &&& entered.active_tab == Tab::Services
            &&& entered.generation == app.generation + 1
            &&& entered.refresh_requested == Some(entered.generation)
            &&& entered.refresh_pending == Some(entered.generation)
            &&& again.generation == entered.generation
            &&& again.refresh_requested == entered.refresh_requested
        }),
{
    reveal(AppState::after_on_overlay);
    reveal(AppState::after_unobstructed);
}

/// Another sampling interval never makes a collector look as if it had missed an update: what
/// was known of them is forgotten, and each is judged anew from the next tick.
pub proof fn lemma_interval_change_is_no_miss(
    app: AppState,
    step: IntervalStep,
    collector: Collector,
    now: Nanos,
)
    requires
        app.overlay is None,
        app.health.enabled(),
        health::neighbour(app.sampling_interval, step) is Some,
    ensures
        ({
            let changed = app.after(Action::StepSamplingInterval(step)).0;
            &&& changed.interval_changed
            &&& Some(changed.sampling_interval) == health::neighbour(app.sampling_interval, step)
            &&& changed.cpu_history.len() == 0
            &&& !changed.health.of(collector).stale
            &&& !changed.health.ticked(changed.active_tab, now).of(collector).stale
        }),
{
    reveal(AppState::after_on_overlay);
    reveal(AppState::after_unobstructed);
}

/// However many entries come, no more are kept than fit, and of those the newest, in order.
pub proof fn lemma_journal_is_bounded(app: AppState, batch: JournalBatch)
    requires
        app.logs.items.len() <= LOG_BUFFER_CAPACITY,
    ensures
        app.after(Action::LogsUpdated(batch)).0.logs.items.len() <= LOG_BUFFER_CAPACITY,
        app.after(Action::LogsUpdated(batch)).0.logs.items == list::newest(
            app.logs.items + batch.entries@,
            LOG_BUFFER_CAPACITY as int,
        ),
{
    reveal(ListState::appended);
    if batch.entries@.len() == 0 {
        assert(app.logs.items + batch.entries@ =~= app.logs.items);
    }
    list::lemma_newest(app.logs.items, batch.entries@, LOG_BUFFER_CAPACITY as int);
}

/// While new entries are followed, the last one shown is selected.
pub proof fn lemma_following_selects_newest(app: AppState, batch: JournalBatch)
    requires
        app.log_following,
        !app.log_paused,
        batch.entries@.len() > 0,
    ensures
        ({
            let logs = app.after(Action::LogsUpdated(batch)).0.logs;
            logs.selected == logs.nearest(logs.rows.len() as int)
        }),
{
    reveal(ListState::appended);
}

/// While new entries are not followed, the selection stays on its entry for as long as that is
/// kept and shown.
pub proof fn lemma_paused_selection_stays(app: AppState, batch: JournalBatch)
    requires
        app.log_paused || !app.log_following,
        app.logs.selected is Some,
        app.after(Action::LogsUpdated(batch)).0.logs.row_of(app.logs.selected->0) is Some,
    ensures
        app.after(Action::LogsUpdated(batch)).0.logs.selected == app.logs.selected,
{
    reveal(ListState::appended);
}

/// What was dropped is counted, up to what can be counted.
pub proof fn lemma_dropped_entries_add_up(app: AppState, batch: JournalBatch)
    ensures
        app.log_dropped + batch.dropped <= usize::MAX ==> app.after(
            Action::LogsUpdated(batch),
        ).0.log_dropped == app.log_dropped + batch.dropped,
        app.after(Action::LogsUpdated(batch)).0.log_dropped >= app.log_dropped,
{
}

} // verus!
