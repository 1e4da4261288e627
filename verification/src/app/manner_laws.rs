//! How screens, overlays and messages behave, whatever the data.
use vstd::prelude::*;

use crate::action::{Action, IntervalStep, MouseTarget, Tab};
use crate::app::health;
use crate::app::health::Collector;
use crate::app::list::Tag;
use crate::app::process_laws;
use crate::app::process_table;
use crate::app::process_table::TableState;
use crate::app::snapshot_laws;
use crate::app::state::{AppState, Overlay};
use crate::app::table_laws;
use crate::app::ProcessSignalConfirmation;
use crate::likeness;
use crate::linux::journal::JournalBatch;
use crate::linux::network::NetworkSnapshot;
use crate::linux::process::{ProcessSignal, ProcessSignalError, ProcessSnapshot};
use crate::linux::service::{ServiceInfo, ServiceSnapshot};
use crate::numerals;

verus! {

broadcast use vstd::string::group_string_axioms;

/// Another screen starts afresh: no message, no search that goes on, the mouse over nothing. What
/// was searched for, sorted by and selected stays.
#[verifier::rlimit(40)]
pub proof fn lemma_screens_start_afresh(app: AppState, tab: Tab)
    requires
        app.overlay is None,
        app.active_tab != tab,
    ensures
        app.after(Action::SelectTab(tab)).1,
        ({
            let after = app.after(Action::SelectTab(tab)).0;
            &&& after.active_tab == tab
            &&& after.overlay is None
            &&& after.message is None
            &&& !after.process_searching
            &&& !after.service_searching
            &&& !after.log_searching
            &&& after.hovered is None
            &&& after.table.query == app.table.query
            &&& after.table.sort == app.table.sort
            &&& after.table.pinned == app.table.pinned
            &&& after.services == app.services
            &&& after.logs == app.logs
            &&& after.networks == app.networks
            &&& after.logs_visited == (app.logs_visited || tab == Tab::Logs)
            &&& after.log_following == app.log_following
            &&& after.log_paused == app.log_paused
            &&& after.sampling_interval == app.sampling_interval
            &&& tab == Tab::Services ==> after.refresh_requested is Some
                && after.refresh_pending == after.refresh_requested && (app.generation < u64::MAX
                ==> after.refresh_requested->0 == app.generation + 1)
            &&& tab != Tab::Services ==> after.refresh_requested == app.refresh_requested
                && after.refresh_pending == app.refresh_pending
        }),
{
    reveal(AppState::after_on_overlay);
    reveal(AppState::after_unobstructed);
    reveal(TableState::rebuilt);
}

/// What an open overlay shows is there.
pub open spec fn has_subject(app: AppState) -> bool {
    match app.overlay {
        Some(Overlay::ProcessDetail) => app.table.selected_process() is Some,
        Some(Overlay::ServiceDetail) => app.services.selected_item() is Some,
        Some(Overlay::LogDetail) => app.logs.selected_item() is Some,
        Some(Overlay::NetworkDetail) => app.networks.selected is Some,
        Some(Overlay::ProcessSignal(confirmation)) => app.table.selected_process() matches Some(
            process,
        ) && process.id() == confirmation.identity && process.name == confirmation.name,
        _ => true,
    }
}

/// An overlay that is opened by a key or a click has something to show, and the mouse is over
/// nothing behind it.
#[verifier::rlimit(40)]
pub proof fn lemma_opened_overlay_has_a_subject(app: AppState, action: Action)
    requires
        app.overlay is None,
        action is OpenProcessDetails || action is OpenServiceDetails || action is OpenLogDetails
            || action is OpenNetworkDetails || action is RequestProcessSignal || action is ShowHelp,
        app.after(action).0.overlay is Some,
    ensures
        has_subject(app.after(action).0),
        app.after(action).0.hovered is None,
        app.after(action).1,
        action is OpenProcessDetails || action is RequestProcessSignal ==> app.active_tab
            == Tab::Processes,
        action is OpenServiceDetails ==> app.active_tab == Tab::Services,
        action is OpenLogDetails ==> app.active_tab == Tab::Logs,
        action is OpenNetworkDetails ==> app.active_tab == Tab::Network,
{
    reveal(AppState::after_on_overlay);
    reveal(AppState::after_unobstructed);
    reveal(AppState::after_on_services);
    reveal(AppState::after_on_logs);
    reveal(AppState::after_on_networks);
}

/// A question that is answered, either way, is closed with the mouse over nothing; only a yes
/// leaves a signal to be sent, the one that was asked for to the process it was asked for.
pub proof fn lemma_answers_close_the_question(
    app: AppState,
    confirmation: ProcessSignalConfirmation,
)
    requires
        app.overlay == Some(Overlay::ProcessSignal(confirmation)),
    ensures
        ({
            let no = app.after(Action::CancelProcessSignal).0;
            let yes = app.after(Action::ConfirmProcessSignal).0;
            &&& no.overlay is None
            &&& no.hovered is None
            &&& no.signal_request == app.signal_request
            &&& yes.overlay is None
            &&& yes.hovered is None
            &&& yes.signal_request == Some(confirmation)
            &&& no.table == app.table
            &&& yes.table == app.table
            &&& no.message == app.message
        }),
{
    reveal(AppState::after_on_overlay);
}

/// A failure of the journal is kept until there is another one.
pub proof fn lemma_journal_failure_is_kept(app: AppState, batch: JournalBatch)
    ensures
        batch.error is Some ==> app.after(Action::LogsUpdated(batch)).0.log_error == Some(
            batch.error->0@,
        ),
        batch.error is None ==> app.after(Action::LogsUpdated(batch)).0.log_error == app.log_error,
{
}

/// Another sampling interval starts the history of the processors anew and leaves the other
/// histories, and everything that was collected, alone.
pub proof fn lemma_interval_starts_the_history_anew(app: AppState, step: IntervalStep)
    requires
        app.overlay is None,
        app.after(Action::StepSamplingInterval(step)).1,
    ensures
        ({
            let after = app.after(Action::StepSamplingInterval(step)).0;
            &&& after.sampling_interval != app.sampling_interval
            &&& (step is Longer) == (after.sampling_interval > app.sampling_interval)
            &&& after.cpu_history_interval == after.sampling_interval
            &&& after.cpu_history.len() == 0
            &&& after.memory_history == app.memory_history
            &&& after.network_history == app.network_history
            &&& after.interval_changed
            &&& after.metrics == app.metrics
            &&& after.table == app.table
            &&& after.services == app.services
            &&& after.networks == app.networks
        }),
{
    reveal(AppState::after_on_overlay);
    reveal(AppState::after_unobstructed);
    health::lemma_preset_steps_back(app.sampling_interval, step);
}

proof fn lemma_listing_is_new(app: AppState, snapshot: ProcessSnapshot)
    requires
        app.process_error is Some || !snapshot_laws::one_listing(
            app.table.processes,
            snapshot.processes@,
        ),
    ensures
        app.process_error is Some || !likeness::all_same(
            app.table.processes,
            snapshot.processes@,
        ),
{
    if likeness::all_same(app.table.processes, snapshot.processes@) {
        snapshot_laws::lemma_same_processes(app.table.processes, snapshot.processes@);
    }
}

/// A question about a process that exits meanwhile is withdrawn, and the user is told which
/// process it was; while the process is listed the question stays.
#[verifier::rlimit(40)]
pub proof fn lemma_question_about_a_gone_process(
    app: AppState,
    snapshot: ProcessSnapshot,
    confirmation: ProcessSignalConfirmation,
)
    requires
        app.overlay == Some(Overlay::ProcessSignal(confirmation)),
        snapshot.error is None,
        snapshot.processes@.len() <= usize::MAX,
        app.process_error is Some || !snapshot_laws::one_listing(
            app.table.processes,
            snapshot.processes@,
        ),
    ensures
        ({
            let after = app.after(Action::ProcessesUpdated(snapshot)).0;
            let listed = exists|k: int|
                0 <= k < snapshot.processes@.len() && (#[trigger] snapshot.processes@[k]).id()
                    == confirmation.identity;
            &&& listed ==> after.overlay == app.overlay && after.message == app.message
            &&& !listed ==> after.overlay is None && after.message is Some && table_laws::holds(
                after.message->0,
                confirmation.name@,
            ) && table_laws::holds(
                after.message->0,
                numerals::decimal(confirmation.identity.pid as nat),
            ) && after.signal_request == app.signal_request
        }),
{
    lemma_listing_is_new(app, snapshot);
    reveal(AppState::processes_kept);
    reveal(AppState::processes_shown);
    reveal(TableState::replaced);
    reveal(TableState::replaced_hidden);
    reveal(TableState::rebuilt);
    let next = snapshot.processes@;
    process_table::lemma_process_place(next, confirmation.identity, 0);
    let after = app.after(Action::ProcessesUpdated(snapshot)).0;
    let number = numerals::decimal(confirmation.identity.pid as nat);
    let told = "Process "@ + confirmation.name@ + " ("@ + number + ") exited before signal"@;
    assert(told =~= "Process "@ + confirmation.name@ + (" ("@ + number
        + ") exited before signal"@));
    assert(told =~= ("Process "@ + confirmation.name@ + " ("@) + number
        + ") exited before signal"@);
    assert(table_laws::holds(told, confirmation.name@));
    assert(table_laws::holds(told, number));
    if process_table::process_place(next, confirmation.identity, 0) is None {
        assert(after.message == Some(told));
    }
}

/// The mouse is over nothing that a listing of the processes no longer has.
#[verifier::rlimit(40)]
pub proof fn lemma_mouse_is_over_listed_processes(
    app: AppState,
    snapshot: ProcessSnapshot,
)
    requires
        app.active_tab == Tab::Processes,
        snapshot.error is None,
        app.process_error is Some || !snapshot_laws::one_listing(
            app.table.processes,
            snapshot.processes@,
        ),
    ensures
        app.after(Action::ProcessesUpdated(snapshot)).0.hovered matches Some(
            MouseTarget::ProcessRow(identity),
        ) ==> app.after(Action::ProcessesUpdated(snapshot)).0.table.row_of(identity) is Some,
{
    lemma_listing_is_new(app, snapshot);
    reveal(AppState::processes_shown);
}

/// Details that stay open over a listing of the processes are those of the same process, which
/// is still listed.
#[verifier::rlimit(40)]
pub proof fn lemma_details_stay_on_their_process(app: AppState, snapshot: ProcessSnapshot)
    requires
        app.active_tab == Tab::Processes,
        app.overlay == Some(Overlay::ProcessDetail),
        snapshot.error is None,
        snapshot.processes@.len() <= usize::MAX,
        app.process_error is Some || !snapshot_laws::one_listing(
            app.table.processes,
            snapshot.processes@,
        ),
        app.after(Action::ProcessesUpdated(snapshot)).0.overlay is Some,
    ensures
        ({
            let after = app.after(Action::ProcessesUpdated(snapshot)).0;
            &&& app.table.selected is Some
            &&& after.table.selected == app.table.selected
            &&& after.table.selected_process() is Some
            &&& after.table.selected_process()->0.id() == app.table.selected->0
            &&& exists|k: int|
                0 <= k < snapshot.processes@.len() && (#[trigger] snapshot.processes@[k]).id()
                    == app.table.selected->0
        }),
{
    let next = snapshot.processes@;
    lemma_listing_is_new(app, snapshot);
    reveal(AppState::processes_shown);
    let table = app.table.replaced(next);
    assert(table.processes == next) by {
        reveal(TableState::replaced);
        reveal(TableState::rebuilt);
    }
    if app.table.selected is Some && table.row_of(app.table.selected->0) is Some {
        process_laws::lemma_refresh_keeps_selection(app.table, next);
        process_table::lemma_process_place(next, app.table.selected->0, 0);
    }
}

/// The mouse is over no interface that a listing no longer has.
#[verifier::rlimit(40)]
pub proof fn lemma_mouse_is_over_listed_interfaces(app: AppState, snapshot: NetworkSnapshot)
    requires
        snapshot.error is None,
        app.network_error is Some || !snapshot_laws::one_interface_listing(
            app.networks.items,
            snapshot.interfaces@,
        ),
    ensures
        app.after(Action::NetworkUpdated(snapshot)).0.hovered matches Some(
            MouseTarget::NetworkRow(name),
        ) ==> app.after(Action::NetworkUpdated(snapshot)).0.networks.row_of(Tag::Name(name@))
            is Some,
{
    if likeness::all_same(app.networks.items, snapshot.interfaces@) {
        snapshot_laws::lemma_same_interfaces(app.networks.items, snapshot.interfaces@);
    }
    reveal(AppState::networks_replaced);
}

proof fn lemma_replaced_services_under_the_mouse(app: AppState, next: Seq<ServiceInfo>)
    ensures
        app.services_replaced(next).hovered matches Some(MouseTarget::ServiceRow(unit))
            ==> app.services_replaced(next).services.row_of(Tag::Name(unit@)) is Some,
{
    reveal(AppState::services_replaced);
}

/// The mouse is over no service that a listing no longer has.
#[verifier::rlimit(40)]
pub proof fn lemma_mouse_is_over_listed_services(app: AppState, snapshot: ServiceSnapshot)
    requires
        snapshot.error is None,
        app.service_error is Some || !snapshot_laws::one_service_listing(
            app.services.items,
            snapshot.services@,
        ),
    ensures
        app.after(Action::ServicesUpdated(snapshot)).0.hovered matches Some(
            MouseTarget::ServiceRow(unit),
        ) ==> app.after(Action::ServicesUpdated(snapshot)).0.services.row_of(Tag::Name(unit@))
            is Some,
{
    if likeness::all_same(app.services.items, snapshot.services@) {
        snapshot_laws::lemma_same_services(app.services.items, snapshot.services@);
    }
    let heard = app.heard(Collector::Services);
    let completed = heard.refresh_pending is Some && snapshot.completed_refresh_generation
        >= heard.refresh_pending->0;
    let refreshed = AppState {
        refresh_pending: if completed {
            None
        } else {
            heard.refresh_pending
        },
        ..heard
    };
    lemma_replaced_services_under_the_mouse(refreshed, snapshot.services@);
    assert(app.after(Action::ServicesUpdated(snapshot)).0 == heard.services_updated(snapshot).0);
}

/// The user is told of a signal that was sent, or why it was not, with its name and the process
/// it was for.
pub proof fn lemma_outcome_is_told(
    app: AppState,
    confirmation: ProcessSignalConfirmation,
    result: Result<(), ProcessSignalError>,
)
    ensures
        ({
            let told = app.signal_finished(confirmation, result).message;
            let named = match confirmation.signal {
                ProcessSignal::Term => "SIGTERM"@,
                ProcessSignal::Kill => "SIGKILL"@,
            };
            let number = numerals::decimal(confirmation.identity.pid as nat);
            &&& told is Some
            &&& table_laws::holds(told->0, named)
            &&& result is Ok ==> told->0 == "Sent "@ + named + " to "@ + confirmation.name@
                + " ("@ + number + ")"@
            &&& result is Ok ==> table_laws::holds(told->0, number)
            &&& result == Err::<(), ProcessSignalError>(ProcessSignalError::StaleIdentity)
                ==> table_laws::holds(told->0, number)
            &&& result matches Err(ProcessSignalError::Failed(error)) ==> table_laws::holds(
                told->0,
                error@,
            )
        }),
{
    let named = confirmation.signal.name_text();
    let number = numerals::decimal(confirmation.identity.pid as nat);
    let process = confirmation.name@ + " ("@ + number + ")"@;
    let told = app.signal_finished(confirmation, result).message->0;
    let first = match result {
        Ok(()) => "Sent "@,
        Err(ProcessSignalError::StaleIdentity) => "Refused to send "@,
        Err(_) => "Failed to send "@,
    };
    let rest = match result {
        Ok(()) => " to "@ + process,
        Err(ProcessSignalError::ProcessNotFound) => ": process "@ + process + " not found"@,
        Err(ProcessSignalError::StaleIdentity) => ": PID "@ + number + " was reused"@,
        Err(ProcessSignalError::PermissionDenied) => ": permission denied for "@ + process,
        Err(ProcessSignalError::Unsupported) => ": pidfd signaling is not supported"@,
        Err(ProcessSignalError::Failed(error)) => " to "@ + process + ": "@ + error@,
    };
    assert(told =~= first + named + rest);
    match result {
        Ok(()) => {
            assert(told =~= "Sent "@ + named + " to "@ + confirmation.name@ + " ("@ + number
                + ")"@);
            assert(told =~= ("Sent "@ + named + " to "@ + confirmation.name@ + " ("@) + number
                + ")"@);
            assert(table_laws::holds(told, number));
        },
        Err(ProcessSignalError::StaleIdentity) => {
            assert(told =~= ("Refused to send "@ + named + ": PID "@) + number
                + " was reused"@);
            assert(table_laws::holds(told, number));
        },
        Err(ProcessSignalError::Failed(error)) => {
            assert(told =~= ("Failed to send "@ + named + " to "@ + process + ": "@) + error@
                + Seq::<char>::empty());
            assert(table_laws::holds(told, error@));
        },
        _ => {},
    }
}

} // verus!
