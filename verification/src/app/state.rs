//! What the application's state is made of, and what each action makes of it.
use vstd::prelude::*;

use crate::action::{
    Action, InputMode, IntervalStep, MenuItem, MouseTarget, PinMove, ProcessSortField,
    SignalConfirmButton, Tab,
};
use crate::app::health;
use crate::app::health::{Collector, CollectorPeriods, Health, DEFAULT_SAMPLING_INTERVAL};
use crate::app::history;
use crate::app::interfaces;
use crate::app::list::{ListState, Tag};
use crate::app::process_table;
use crate::app::process_table::{PinOutcome, TableState};
use crate::app::scroll::Step;
use crate::likeness;
use crate::likeness::Likeness;
use crate::linux::hardware::HardwareInventory;
use crate::linux::journal::{JournalBatch, JournalEntry};
use crate::linux::network::{NetworkInterfaceInfo, NetworkSnapshot};
use crate::linux::process;
use crate::linux::process::{
    ProcessIdentity, ProcessInfo, ProcessSignal, ProcessSignalError, ProcessSnapshot,
};
use crate::linux::service::{ServiceInfo, ServiceRefreshGeneration, ServiceSnapshot};
use crate::linux::system::SystemMetrics;
use crate::number;
use crate::number::Number;
use crate::numerals;
use crate::text;
use crate::time::Nanos;

verus! {

/// How many journal entries are kept.
pub const LOG_BUFFER_CAPACITY: usize = 2_000;

/// A signal that waits for the user's word.
#[derive(Debug, Clone, PartialEq, Eq)]
pub struct ProcessSignalConfirmation {
    pub identity: ProcessIdentity,
    pub name: String,
    pub signal: ProcessSignal,
    pub focused_button: SignalConfirmButton,
}

/// The modal layer shown above the active screen; at most one is open at a time.
#[derive(Debug, Clone, PartialEq, Eq)]
pub enum Overlay {
    /// The main menu, opened by `Esc` when there is nothing else to close.
    Menu { selected: MenuItem },
    /// Opened from the menu; `Esc` returns to the menu.
    About,
    Help,
    ProcessDetail,
    ServiceDetail,
    LogDetail,
    NetworkDetail,
    ProcessSignal(ProcessSignalConfirmation),
}

/// The application's state.
pub struct AppState {
    pub overlay: Option<Overlay>,
    pub should_quit: bool,
    pub active_tab: Tab,
    pub metrics: SystemMetrics,
    pub hardware: Option<HardwareInventory>,
    pub cpu_history: Seq<Number>,
    pub memory_history: Seq<Number>,
    pub network_history: Seq<Number>,
    pub table: TableState,
    pub process_searching: bool,
    pub process_error: Option<Seq<char>>,
    pub message: Option<Seq<char>>,
    /// A confirmed signal that is still to be sent.
    pub signal_request: Option<ProcessSignalConfirmation>,
    pub services: ListState<ServiceInfo>,
    pub service_searching: bool,
    pub service_error: Option<Seq<char>>,
    pub generation: ServiceRefreshGeneration,
    pub refresh_requested: Option<ServiceRefreshGeneration>,
    pub refresh_pending: Option<ServiceRefreshGeneration>,
    pub logs: ListState<JournalEntry>,
    pub log_searching: bool,
    pub log_following: bool,
    pub log_paused: bool,
    pub log_dropped: usize,
    pub log_error: Option<Seq<char>>,
    pub networks: ListState<NetworkInterfaceInfo>,
    pub network_error: Option<Seq<char>>,
    pub hovered: Option<MouseTarget>,
    pub health: Health,
    pub cpu_history_interval: Nanos,
    pub sampling_interval: Nanos,
    pub interval_changed: bool,
    pub logs_visited: bool,
}

impl AppState {
    /// The state at the start.
    pub open spec fn is_initial(self) -> bool {
        &&& self.overlay is None
        &&& !self.should_quit
        &&& self.active_tab == Tab::Overview
        &&& self.metrics.cpu_percent is None
        &&& self.metrics.logical_cpus@.len() == 0
        &&& self.metrics.memory is None
        &&& self.metrics.memory_percent is None
        &&& self.metrics.uptime is None
        &&& self.metrics.load_average is None
        &&& self.metrics.root_filesystem is None
        &&& self.metrics.system_identity.hostname is None
        &&& self.metrics.system_identity.kernel_release is None
        &&& self.metrics.disks@.len() == 0
        &&& self.hardware is None
        &&& self.cpu_history.len() == 0
        &&& self.memory_history.len() == 0
        &&& self.network_history.len() == 0
        &&& self.table == TableState::initial()
        &&& !self.process_searching
        &&& self.process_error is None
        &&& self.message is None
        &&& self.signal_request is None
        &&& self.services == ListState::<ServiceInfo>::initial()
        &&& !self.service_searching
        &&& self.service_error is None
        &&& self.generation == 0
        &&& self.refresh_requested is None
        &&& self.refresh_pending is None
        &&& self.logs == ListState::<JournalEntry>::initial()
        &&& !self.log_searching
        &&& self.log_following
        &&& !self.log_paused
        &&& self.log_dropped == 0
        &&& self.log_error is None
        &&& self.networks == ListState::<NetworkInterfaceInfo>::initial()
        &&& self.network_error is None
        &&& self.hovered is None
        &&& self.health == Health::initial()
        &&& self.cpu_history_interval == DEFAULT_SAMPLING_INTERVAL
        &&& self.sampling_interval == DEFAULT_SAMPLING_INTERVAL
        &&& !self.interval_changed
        &&& !self.logs_visited
    }

    /// What holds of the state between any two actions.
    pub open spec fn sound(self) -> bool {
        &&& self.table.settled()
        &&& self.active_tab == Tab::Processes ==> self.table.deferred is None
        &&& self.services.settled()
        &&& self.logs.settled()
        &&& self.logs.items.len() <= LOG_BUFFER_CAPACITY
        &&& self.networks.settled()
        &&& history::sound(self.cpu_history)
        &&& history::sound(self.memory_history)
        &&& history::sound(self.network_history)
    }

    /// What the keys mean: an open overlay comes first, then a search, then the tab.
    pub open spec fn mode(self) -> InputMode {
        match self.overlay {
            Some(Overlay::Help) => InputMode::Help,
            Some(Overlay::Menu { .. }) => InputMode::Menu,
            Some(Overlay::About) => InputMode::About,
            Some(Overlay::ProcessSignal(_)) => InputMode::ProcessSignalConfirm,
            Some(Overlay::ProcessDetail) => InputMode::ProcessDetail,
            Some(Overlay::ServiceDetail) => InputMode::ServiceDetail,
            Some(Overlay::LogDetail) => InputMode::LogDetail,
            Some(Overlay::NetworkDetail) => InputMode::NetworkDetail,
            None => if self.process_searching {
                InputMode::ProcessSearch
            } else if self.service_searching {
                InputMode::ServiceSearch
            } else if self.log_searching {
                InputMode::LogSearch
            } else {
                match self.active_tab {
                    Tab::Services => InputMode::Services,
                    Tab::Logs => InputMode::Logs,
                    Tab::Network => InputMode::Network,
                    _ => InputMode::Normal,
                }
            },
        }
    }

    /// The state without an overlay, if that is the one given.
    pub open spec fn closed(self, closing: bool) -> AppState {
        if closing {
            AppState { overlay: None, ..self }
        } else {
            self
        }
    }

    // Processes.

    /// What stays under the mouse once the table's rows changed.
    pub open spec fn hovered_process(self) -> Option<MouseTarget> {
        match self.hovered {
            Some(MouseTarget::ProcessRow(identity)) => if self.table.row_of(identity) is None {
                None
            } else {
                self.hovered
            },
            _ => self.hovered,
        }
    }

    /// The state with another table, and the mouse over nothing that is gone.
    pub open spec fn with_table(self, table: TableState) -> AppState {
        let changed = AppState { table, ..self };
        AppState { hovered: changed.hovered_process(), ..changed }
    }

    /// A signal that waits for a process that is gone is called off, and the user told.
    pub open spec fn exit_noticed(self) -> AppState {
        match self.overlay {
            Some(Overlay::ProcessSignal(confirmation)) => if process_table::process_place(
                self.table.processes,
                confirmation.identity,
                0,
            ) is None {
                AppState {
                    overlay: None,
                    message: Some(
                        "Process "@ + confirmation.name@ + " ("@ + numerals::decimal(
                            confirmation.identity.pid as nat,
                        ) + ") exited before signal"@,
                    ),
                    ..self
                }
            } else {
                self
            },
            _ => self,
        }
    }

    /// A listing taken over while the table is hidden.
    #[verifier::opaque]
    pub open spec fn processes_kept(self, next: Seq<ProcessInfo>) -> AppState {
        AppState { table: self.table.replaced_hidden(next), process_error: None, ..self }.exit_noticed()
    }

    /// A listing taken over while the table is shown: details of a process that is gone are
    /// closed, and so is what waits for it.
    #[verifier::opaque]
    pub open spec fn processes_shown(self, next: Seq<ProcessInfo>) -> AppState {
        let table = self.table.replaced(next);
        let kept = self.table.selected is Some && table.row_of(self.table.selected->0) is Some;
        let updated = AppState { process_error: None, ..self }.with_table(table).exit_noticed();
        updated.closed(
            (updated.overlay matches Some(Overlay::ProcessDetail)) && !(kept && table.selected_process()
                is Some),
        )
    }

    pub open spec fn processes_updated(self, snapshot: ProcessSnapshot) -> (AppState, bool) {
        let on_processes = self.active_tab == Tab::Processes;
        let on_overview = self.active_tab == Tab::Overview;
        let next = snapshot.processes@;
        match snapshot.error {
            Some(error) => if self.process_error == Some(error@) {
                (self, false)
            } else {
                (AppState { process_error: Some(error@), ..self }, on_processes || on_overview)
            },
            None => if self.process_error is None && likeness::all_same(
                self.table.processes,
                next,
            ) {
                (self, false)
            } else if on_processes {
                (self.processes_shown(next), true)
            } else {
                (
                    self.processes_kept(next),
                    on_overview && (self.table.summary != process::summarized(next)
                        || self.process_error is Some),
                )
            },
        }
    }

    pub open spec fn process_search_begun(self) -> (AppState, bool) {
        if self.active_tab == Tab::Processes {
            (
                AppState { process_searching: true, message: None, ..self }.with_table(
                    self.table.searched(Seq::empty()),
                ),
                true,
            )
        } else {
            (self, false)
        }
    }

    pub open spec fn process_search_extended(self, character: char) -> (AppState, bool) {
        if self.process_searching && !text::control(character) {
            (self.with_table(self.table.searched(self.table.query.push(character))), true)
        } else {
            (self, false)
        }
    }

    pub open spec fn process_search_shortened(self) -> (AppState, bool) {
        if self.process_searching && self.table.query.len() > 0 {
            (self.with_table(self.table.searched(self.table.query.drop_last())), true)
        } else {
            (self, false)
        }
    }

    /// The state with another selection in the table, and whether that shows.
    pub open spec fn with_selection(self, table: TableState) -> (AppState, bool) {
        if self.active_tab == Tab::Processes {
            (
                AppState { table, ..self },
                table.selected != self.table.selected || table.scroll != self.table.scroll,
            )
        } else {
            (self, false)
        }
    }

    pub open spec fn process_selected(self, identity: ProcessIdentity) -> (AppState, bool) {
        match self.table.row_of(identity) {
            Some(row) => self.with_selection(self.table.selected_at(row as int)),
            None => (self, false),
        }
    }

    pub open spec fn process_details_opened(self) -> (AppState, bool) {
        if self.active_tab == Tab::Processes && self.table.selected_process() is Some {
            (
                AppState {
                    process_searching: false,
                    overlay: Some(Overlay::ProcessDetail),
                    hovered: None,
                    ..self
                },
                true,
            )
        } else {
            (self, false)
        }
    }

    /// A signal to the selected process waits for the user's word, with `Cancel` in focus.
    pub open spec fn signal_requested(self, signal: ProcessSignal) -> (AppState, bool) {
        if self.active_tab == Tab::Processes && self.table.selected_process() is Some {
            let process = self.table.selected_process()->0;
            (
                AppState {
                    process_searching: false,
                    message: None,
                    overlay: Some(
                        Overlay::ProcessSignal(
                            ProcessSignalConfirmation {
                                identity: process.id(),
                                name: process.name,
                                signal,
                                focused_button: SignalConfirmButton::Cancel,
                            },
                        ),
                    ),
                    hovered: None,
                    ..self
                },
                true,
            )
        } else {
            (self, false)
        }
    }

    pub open spec fn signal_cancelled(self) -> (AppState, bool) {
        if self.overlay is Some && self.overlay->0 is ProcessSignal {
            (AppState { overlay: None, hovered: None, ..self }, true)
        } else {
            (self, false)
        }
    }

    pub open spec fn signal_focused(self, button: SignalConfirmButton) -> (AppState, bool) {
        match self.overlay {
            Some(Overlay::ProcessSignal(confirmation)) => (
                AppState {
                    overlay: Some(
                        Overlay::ProcessSignal(
                            ProcessSignalConfirmation { focused_button: button, ..confirmation },
                        ),
                    ),
                    ..self
                },
                confirmation.focused_button != button,
            ),
            _ => (self, false),
        }
    }

    pub open spec fn signal_focus_toggled(self) -> (AppState, bool) {
        match self.overlay {
            Some(Overlay::ProcessSignal(confirmation)) => self.signal_focused(
                match confirmation.focused_button {
                    SignalConfirmButton::Cancel => SignalConfirmButton::Confirm,
                    SignalConfirmButton::Confirm => SignalConfirmButton::Cancel,
                },
            ),
            _ => (self, false),
        }
    }

    /// The confirmed signal is handed over to be sent.
    pub open spec fn signal_confirmed(self) -> (AppState, bool) {
        match self.overlay {
            Some(Overlay::ProcessSignal(confirmation)) => (
                AppState {
                    overlay: None,
                    hovered: None,
                    signal_request: Some(confirmation),
                    ..self
                },
                true,
            ),
            _ => (self, false),
        }
    }

    pub open spec fn focused_signal_executed(self) -> (AppState, bool) {
        match self.overlay {
            Some(Overlay::ProcessSignal(confirmation)) => match confirmation.focused_button {
                SignalConfirmButton::Cancel => self.signal_cancelled(),
                SignalConfirmButton::Confirm => self.signal_confirmed(),
            },
            _ => (self, false),
        }
    }

    pub open spec fn pin_toggled(self) -> (AppState, bool) {
        if self.active_tab == Tab::Processes {
            match self.table.pin_toggled() {
                (table, PinOutcome::Changed) => (self.with_table(table), true),
                (table, PinOutcome::LimitReached) => (
                    AppState { message: Some("Pin limit (8) reached"@), ..self },
                    true,
                ),
                (table, PinOutcome::Nothing) => (self, false),
            }
        } else {
            (self, false)
        }
    }

    pub open spec fn pin_moved(self, identity: ProcessIdentity, direction: PinMove) -> (
        AppState,
        bool,
    ) {
        if self.active_tab == Tab::Processes && self.table.pin_target(identity, direction) is Some {
            (self.with_table(self.table.pin_moved(identity, direction)), true)
        } else {
            (self, false)
        }
    }

    pub open spec fn selected_pin_moved(self, direction: PinMove) -> (AppState, bool) {
        match self.table.selected {
            Some(identity) => self.pin_moved(identity, direction),
            None => (self, false),
        }
    }

    pub open spec fn processes_sorted(self, field: ProcessSortField) -> (AppState, bool) {
        if self.active_tab == Tab::Processes {
            (self.with_table(self.table.sorted_by(field)), true)
        } else {
            (self, false)
        }
    }

    /// What came of sending a confirmed signal, told to the user.
    pub open spec fn signal_finished(
        self,
        confirmation: ProcessSignalConfirmation,
        result: Result<(), ProcessSignalError>,
    ) -> AppState {
        AppState {
            hovered: None,
            message: Some(signal_report(confirmation, result)),
            ..self
        }
    }

    // Services.

    pub open spec fn hovered_service(self) -> Option<MouseTarget> {
        match self.hovered {
            Some(MouseTarget::ServiceRow(unit)) => if self.services.row_of(Tag::Name(unit@))
                is None {
                None
            } else {
                self.hovered
            },
            _ => self.hovered,
        }
    }

    /// The state with another list of services, and the mouse over nothing that is gone.
    pub open spec fn with_services(self, services: ListState<ServiceInfo>) -> AppState {
        let changed = AppState { services, ..self };
        AppState { hovered: changed.hovered_service(), ..changed }
    }

    /// A listing taken over: details of a service that is gone are closed.
    #[verifier::opaque]
    pub open spec fn services_replaced(self, next: Seq<ServiceInfo>) -> AppState {
        let services = ListState { items: next, ..self.services }.rebuilt().reselected(
            self.services.selected,
            self.services.current_row(),
        ).scrolled();
        let kept = self.services.selected is Some && services.row_of(self.services.selected->0)
            is Some;
        let updated = AppState { service_error: None, ..self }.with_services(services);
        updated.closed(!kept && (updated.overlay matches Some(Overlay::ServiceDetail)))
    }

    pub open spec fn services_updated(self, snapshot: ServiceSnapshot) -> (AppState, bool) {
        let visible = self.active_tab == Tab::Services;
        let completed = self.refresh_pending is Some && snapshot.completed_refresh_generation
            >= self.refresh_pending->0;
        let refreshed = AppState {
            refresh_pending: if completed {
                None
            } else {
                self.refresh_pending
            },
            ..self
        };
        let next = snapshot.services@;
        match snapshot.error {
            Some(error) => if self.service_error == Some(error@) {
                (refreshed, completed && visible)
            } else {
                (AppState { service_error: Some(error@), ..refreshed }, visible)
            },
            None => if self.service_error is None && likeness::all_same(
                self.services.items,
                next,
            ) {
                (refreshed, completed && visible)
            } else {
                (refreshed.services_replaced(next), visible)
            },
        }
    }

    pub open spec fn service_search_begun(self) -> (AppState, bool) {
        if self.active_tab == Tab::Services {
            (
                AppState { service_searching: true, ..self }.with_services(
                    self.services.searched(Seq::empty()),
                ),
                true,
            )
        } else {
            (self, false)
        }
    }

    pub open spec fn service_search_extended(self, character: char) -> (AppState, bool) {
        if self.service_searching && !text::control(character) {
            (self.with_services(self.services.searched(self.services.query.push(character))), true)
        } else {
            (self, false)
        }
    }

    pub open spec fn service_search_shortened(self) -> (AppState, bool) {
        if self.service_searching && self.services.query.len() > 0 {
            (self.with_services(self.services.searched(self.services.query.drop_last())), true)
        } else {
            (self, false)
        }
    }

    /// The selection on a row of the services, and whether that shows.
    pub open spec fn service_row_selected(self, row: int) -> (AppState, bool) {
        if self.active_tab == Tab::Services {
            let services = self.services.selected_at(row);
            (
                AppState { services, ..self },
                services.selected != self.services.selected || services.scroll
                    != self.services.scroll,
            )
        } else {
            (self, false)
        }
    }

    pub open spec fn service_stepped(self, step: Step) -> (AppState, bool) {
        if self.services.rows.len() == 0 {
            (self, false)
        } else {
            self.service_row_selected(self.services.step_target(step))
        }
    }

    pub open spec fn service_selected(self, unit: Seq<char>) -> (AppState, bool) {
        match self.services.row_of(Tag::Name(unit)) {
            Some(row) => self.service_row_selected(row as int),
            None => (self, false),
        }
    }

    pub open spec fn service_details_opened(self) -> (AppState, bool) {
        if self.active_tab == Tab::Services && self.services.selected_item() is Some {
            (
                AppState {
                    service_searching: false,
                    overlay: Some(Overlay::ServiceDetail),
                    hovered: None,
                    ..self
                },
                true,
            )
        } else {
            (self, false)
        }
    }

    /// A refresh with a number of its own is asked for.
    pub open spec fn refresh_asked(self) -> (AppState, bool) {
        if self.active_tab == Tab::Services {
            let generation: ServiceRefreshGeneration = if self.generation < u64::MAX {
                (self.generation + 1) as u64
            } else {
                u64::MAX
            };
            (
                AppState {
                    generation,
                    refresh_requested: Some(generation),
                    refresh_pending: Some(generation),
                    ..self
                },
                self.refresh_pending is None,
            )
        } else {
            (self, false)
        }
    }

    // Logs.

    pub open spec fn hovered_log(self) -> Option<MouseTarget> {
        match self.hovered {
            Some(MouseTarget::LogRow(id)) => if self.logs.row_of(Tag::Number(id)) is None {
                None
            } else {
                self.hovered
            },
            _ => self.hovered,
        }
    }

    /// New entries move the selection.
    pub open spec fn log_moves(self) -> bool {
        self.log_following && !self.log_paused
    }

    /// The state with another list of entries: details of an entry that is gone are closed, and
    /// the mouse is over nothing that is gone.
    pub open spec fn with_logs(self, logs: ListState<JournalEntry>) -> AppState {
        let kept = self.logs.selected is Some && logs.row_of(self.logs.selected->0) is Some;
        let changed = AppState { logs, ..self };
        AppState { hovered: changed.hovered_log(), ..changed }.closed(
            !self.log_moves() && !kept && (self.overlay matches Some(Overlay::LogDetail)),
        )
    }

    /// What was dropped counted, and what went wrong noted.
    pub open spec fn log_trouble_noted(self, dropped: usize, error: Option<Seq<char>>) -> AppState {
        AppState {
            log_dropped: if self.log_dropped + dropped <= usize::MAX {
                (self.log_dropped + dropped) as usize
            } else {
                usize::MAX
            },
            log_error: if error is Some {
                error
            } else {
                self.log_error
            },
            ..self
        }
    }

    pub open spec fn logs_updated(self, batch: JournalBatch) -> (AppState, bool) {
        let visible = self.active_tab == Tab::Logs;
        let counted = self.log_trouble_noted(batch.dropped, text::optional_view(batch.error));
        let changed = batch.dropped > 0 || (batch.error is Some && self.log_error != Some(
            batch.error->0@,
        ));
        if batch.entries@.len() == 0 {
            (counted, changed && visible)
        } else {
            (
                counted.with_logs(
                    self.logs.appended(
                        batch.entries@,
                        LOG_BUFFER_CAPACITY as int,
                        self.log_moves(),
                    ),
                ),
                visible,
            )
        }
    }

    pub open spec fn log_search_begun(self) -> (AppState, bool) {
        if self.active_tab == Tab::Logs {
            (
                AppState { log_searching: true, ..self }.with_logs(
                    self.logs.searched_following(Seq::empty(), self.log_moves()),
                ),
                true,
            )
        } else {
            (self, false)
        }
    }

    pub open spec fn log_search_extended(self, character: char) -> (AppState, bool) {
        if self.log_searching && !text::control(character) {
            (
                self.with_logs(
                    self.logs.searched_following(
                        self.logs.query.push(character),
                        self.log_moves(),
                    ),
                ),
                true,
            )
        } else {
            (self, false)
        }
    }

    pub open spec fn log_search_shortened(self) -> (AppState, bool) {
        if self.log_searching && self.logs.query.len() > 0 {
            (
                self.with_logs(
                    self.logs.searched_following(
                        self.logs.query.drop_last(),
                        self.log_moves(),
                    ),
                ),
                true,
            )
        } else {
            (self, false)
        }
    }

    /// The selection on a row of the entries. It then no longer follows new ones.
    pub open spec fn log_row_selected(self, row: int) -> (AppState, bool) {
        if self.active_tab == Tab::Logs {
            let logs = self.logs.selected_at(row);
            (
                AppState { logs, log_following: false, ..self },
                self.log_following || logs.selected != self.logs.selected || logs.scroll
                    != self.logs.scroll,
            )
        } else {
            (self, false)
        }
    }

    pub open spec fn log_stepped(self, step: Step) -> (AppState, bool) {
        if self.logs.rows.len() == 0 {
            (self, false)
        } else {
            self.log_row_selected(self.logs.step_target(step))
        }
    }

    pub open spec fn log_selected(self, id: u64) -> (AppState, bool) {
        match self.logs.row_of(Tag::Number(id)) {
            Some(row) => self.log_row_selected(row as int),
            None => (self, false),
        }
    }

    pub open spec fn log_details_opened(self) -> (AppState, bool) {
        if self.active_tab == Tab::Logs && self.logs.selected_item() is Some {
            (
                AppState {
                    log_searching: false,
                    overlay: Some(Overlay::LogDetail),
                    hovered: None,
                    ..self
                },
                true,
            )
        } else {
            (self, false)
        }
    }

    /// The last entry selected, if new entries move the selection now.
    pub open spec fn caught_up(self) -> AppState {
        if self.log_moves() {
            AppState {
                logs: self.logs.selected_at(
                    if self.logs.rows.len() > 0 {
                        self.logs.rows.len() - 1
                    } else {
                        0
                    },
                ),
                ..self
            }
        } else {
            self
        }
    }

    pub open spec fn log_follow_toggled(self) -> (AppState, bool) {
        if self.active_tab == Tab::Logs {
            (AppState { log_following: !self.log_following, ..self }.caught_up(), true)
        } else {
            (self, false)
        }
    }

    pub open spec fn log_pause_toggled(self) -> (AppState, bool) {
        if self.active_tab == Tab::Logs {
            (AppState { log_paused: !self.log_paused, ..self }.caught_up(), true)
        } else {
            (self, false)
        }
    }

    // Network.

    pub open spec fn hovered_network(self) -> Option<MouseTarget> {
        match self.hovered {
            Some(MouseTarget::NetworkRow(name)) => if self.networks.row_of(Tag::Name(name@))
                is None {
                None
            } else {
                self.hovered
            },
            _ => self.hovered,
        }
    }

    /// There is a total of the Overview's rates to record.
    pub open spec fn rate_counts(
        self,
        next: Seq<NetworkInterfaceInfo>,
        total: Option<Number>,
    ) -> bool {
        total is Some && interfaces::overview_rates(next, self.hardware, next.len() as int).len()
            > 0
    }

    pub open spec fn rate_recorded(
        self,
        next: Seq<NetworkInterfaceInfo>,
        total: Option<Number>,
    ) -> AppState {
        AppState {
            network_history: if self.rate_counts(next, total) {
                history::recorded(self.network_history, total->0)
            } else {
                self.network_history
            },
            ..self
        }
    }

    /// A listing taken over: details of an interface that is gone are closed.
    #[verifier::opaque]
    pub open spec fn networks_replaced(self, next: Seq<NetworkInterfaceInfo>) -> AppState {
        let networks = ListState { items: next, ..self.networks }.refiltered().reselected(
            self.networks.selected,
            self.networks.current_row(),
        ).scrolled();
        let kept = self.networks.selected is Some && networks.row_of(self.networks.selected->0)
            is Some;
        let updated = AppState { networks, network_error: None, ..self };
        AppState { hovered: updated.hovered_network(), ..updated }.closed(
            !kept && (self.overlay matches Some(Overlay::NetworkDetail)),
        )
    }

    pub open spec fn networks_updated(self, snapshot: NetworkSnapshot) -> (AppState, bool) {
        let visible = self.active_tab == Tab::Overview || self.active_tab == Tab::Network;
        let next = snapshot.interfaces@;
        match snapshot.error {
            Some(error) => if self.network_error == Some(error@) {
                (self, false)
            } else {
                (AppState { network_error: Some(error@), ..self }, visible)
            },
            None => {
                let recorded = self.rate_recorded(next, snapshot.overview_rate);
                if self.network_error is None && likeness::all_same(self.networks.items, next) {
                    (
                        recorded,
                        self.rate_counts(next, snapshot.overview_rate) && history::recordable(
                            snapshot.overview_rate->0,
                        ) && self.active_tab == Tab::Overview,
                    )
                } else {
                    (recorded.networks_replaced(next), visible)
                }
            },
        }
    }

    /// The selection on a row of the interfaces.
    pub open spec fn network_row_selected(self, row: int) -> (AppState, bool) {
        if self.active_tab == Tab::Network {
            let networks = self.networks.selected_at(row);
            (AppState { networks, ..self }, networks.selected != self.networks.selected)
        } else {
            (self, false)
        }
    }

    pub open spec fn network_stepped(self, step: Step) -> (AppState, bool) {
        if self.networks.rows.len() == 0 {
            (self, false)
        } else {
            self.network_row_selected(self.networks.step_target(step))
        }
    }

    pub open spec fn network_selected(self, name: Seq<char>) -> (AppState, bool) {
        match self.networks.row_of(Tag::Name(name)) {
            Some(row) => self.network_row_selected(row as int),
            None => (self, false),
        }
    }

    pub open spec fn network_details_opened(self) -> (AppState, bool) {
        if self.active_tab == Tab::Network && self.networks.selected is Some {
            (
                AppState { overlay: Some(Overlay::NetworkDetail), hovered: None, ..self },
                !(self.overlay matches Some(Overlay::NetworkDetail)),
            )
        } else {
            (self, false)
        }
    }

    // Everything else.

    pub open spec fn metrics_updated(self, metrics: SystemMetrics) -> (AppState, bool) {
        let process_metrics_changed = !number::optional_equals(
            self.metrics.cpu_percent,
            metrics.cpu_percent,
        ) || !likeness::same_option(self.metrics.memory, metrics.memory);
        let memory_percent = if metrics.memory is Some {
            metrics.memory_percent
        } else {
            None
        };
        let history_changed = percent_counts(metrics.cpu_percent) || percent_counts(
            memory_percent,
        );
        let metrics_changed = !self.metrics.same(metrics);
        (
            self.percents_recorded(metrics.cpu_percent, memory_percent).with_metrics(
                metrics,
                metrics_changed,
            ),
            match self.active_tab {
                Tab::Overview => metrics_changed || history_changed,
                Tab::Processes => process_metrics_changed,
                _ => false,
            },
        )
    }

    pub open spec fn percents_recorded(self, cpu: Option<Number>, memory: Option<Number>) -> AppState {
        AppState {
            cpu_history: match cpu {
                Some(percent) => history::percent_recorded(self.cpu_history, percent),
                None => self.cpu_history,
            },
            memory_history: match memory {
                Some(percent) => history::percent_recorded(self.memory_history, percent),
                None => self.memory_history,
            },
            ..self
        }
    }

    pub open spec fn with_metrics(self, metrics: SystemMetrics, changed: bool) -> AppState {
        AppState {
            metrics: if changed {
                metrics
            } else {
                self.metrics
            },
            ..self
        }
    }

    pub open spec fn hardware_discovered(self, hardware: HardwareInventory) -> (AppState, bool) {
        if self.hardware is Some && self.hardware->0.same(hardware) {
            (self, false)
        } else {
            (AppState { hardware: Some(hardware), ..self }, self.active_tab == Tab::Overview)
        }
    }

    pub open spec fn heard(self, collector: Collector) -> AppState {
        AppState { health: self.health.heard(collector), ..self }
    }

    /// Exited pins that have been shown long enough are dropped.
    pub open spec fn pins_expired(self, now: Nanos) -> AppState {
        let table = self.table.expired(now);
        if table.pinned.len() != self.table.pinned.len() {
            self.with_table(table)
        } else {
            AppState { table, ..self }
        }
    }

    pub open spec fn ticked(self, now: Nanos) -> (AppState, bool) {
        (
            AppState { health: self.health.ticked(self.active_tab, now), ..self }.pins_expired(now),
            self.health.tick_shows(self.active_tab, now) || (self.table.expired(now).pinned.len()
                != self.table.pinned.len() && self.active_tab == Tab::Processes),
        )
    }

    pub open spec fn hover_moved(self, target: Option<MouseTarget>) -> (AppState, bool) {
        if likeness::same_option(self.hovered, target) {
            (self, false)
        } else {
            (AppState { hovered: target, ..self }, true)
        }
    }

    /// The neighbouring preset chosen: collectors are judged anew, and the history starts anew,
    /// since samples taken at another interval would make its scale wrong.
    pub open spec fn interval_stepped(self, step: IntervalStep) -> (AppState, bool) {
        match health::neighbour(self.sampling_interval, step) {
            None => (self, false),
            Some(interval) => (
                AppState {
                    health: if self.health.enabled() {
                        self.health.timed(CollectorPeriods::of_interval(interval)).restarted()
                    } else {
                        self.health
                    },
                    sampling_interval: interval,
                    cpu_history_interval: interval,
                    cpu_history: Seq::empty(),
                    interval_changed: true,
                    ..self
                },
                true,
            ),
        }
    }

    /// Another tab shown: a search on the last one ends, and rows that were left out are made.
    pub open spec fn tab_shown(self, tab: Tab) -> AppState {
        AppState {
            active_tab: tab,
            message: None,
            process_searching: false,
            service_searching: false,
            log_searching: false,
            hovered: None,
            table: if tab == Tab::Processes && self.table.deferred is Some {
                self.table.rebuilt()
            } else {
                self.table
            },
            logs_visited: self.logs_visited || tab == Tab::Logs,
            ..self
        }
    }

    /// Another tab chosen. Entering the services asks for their current state.
    pub open spec fn tab_selected(self, tab: Tab) -> (AppState, bool) {
        (
            if tab == Tab::Services && self.active_tab != Tab::Services {
                self.tab_shown(tab).refresh_asked().0
            } else {
                self.tab_shown(tab)
            },
            self.active_tab != tab || self.process_searching || self.service_searching
                || self.log_searching || self.hovered is Some,
        )
    }

    /// The overlay is closed (About goes back to the menu), else the tab's search cleared, else
    /// the main menu opened.
    pub open spec fn escaped(self) -> (AppState, bool) {
        match self.overlay {
            Some(Overlay::ProcessSignal(_)) => self.signal_cancelled(),
            Some(Overlay::About) => (
                AppState {
                    overlay: Some(Overlay::Menu { selected: MenuItem::About }),
                    ..self
                },
                true,
            ),
            Some(_) => (AppState { overlay: None, ..self }, true),
            None => if self.active_tab == Tab::Processes && (self.process_searching
                || self.table.query.len() > 0) {
                (
                    AppState { process_searching: false, ..self }.with_table(
                        TableState { query: Seq::empty(), ..self.table }.rebuilt(),
                    ),
                    true,
                )
            } else if self.active_tab == Tab::Services && (self.service_searching
                || self.services.query.len() > 0) {
                (
                    AppState { service_searching: false, ..self }.with_services(
                        self.services.searched(Seq::empty()),
                    ),
                    true,
                )
            } else if self.active_tab == Tab::Logs && (self.log_searching || self.logs.query.len()
                > 0) {
                (
                    AppState { log_searching: false, ..self }.with_logs(
                        self.logs.searched_following(Seq::empty(), self.log_moves()),
                    ),
                    true,
                )
            } else {
                (
                    AppState {
                        overlay: Some(Overlay::Menu { selected: MenuItem::About }),
                        hovered: None,
                        ..self
                    },
                    true,
                )
            },
        }
    }

    pub open spec fn menu_item_chosen(self, item: MenuItem) -> (AppState, bool) {
        match self.overlay {
            Some(Overlay::Menu { selected }) => (
                AppState { overlay: Some(Overlay::Menu { selected: item }), ..self },
                selected != item,
            ),
            _ => (self, false),
        }
    }

    pub open spec fn menu_item_activated(self, item: MenuItem) -> (AppState, bool) {
        if self.overlay is Some && self.overlay->0 is Menu {
            match item {
                MenuItem::About => (
                    AppState { overlay: Some(Overlay::About), hovered: None, ..self },
                    true,
                ),
                MenuItem::Exit => (AppState { should_quit: true, ..self }, false),
            }
        } else {
            (self, false)
        }
    }

    pub open spec fn selected_menu_item_activated(self) -> (AppState, bool) {
        match self.overlay {
            Some(Overlay::Menu { selected }) => self.menu_item_activated(selected),
            _ => (self, false),
        }
    }

    /// What an action makes of the state, and whether what is shown may have changed.
    pub open spec fn after(self, action: Action) -> (AppState, bool) {
        match action {
            Action::Resize => (AppState { hovered: None, ..self }, true),
            Action::Quit => (AppState { should_quit: true, ..self }, false),
            Action::SystemMetricsUpdated(metrics) => self.heard(Collector::Metrics).metrics_updated(
                metrics,
            ),
            Action::HardwareDiscovered(hardware) => self.hardware_discovered(hardware),
            Action::ProcessesUpdated(snapshot) => self.heard(
                Collector::Processes,
            ).processes_updated(snapshot),
            Action::ServicesUpdated(snapshot) => self.heard(Collector::Services).services_updated(
                snapshot,
            ),
            Action::LogsUpdated(batch) => self.logs_updated(batch),
            Action::NetworkUpdated(snapshot) => self.heard(Collector::Network).networks_updated(
                snapshot,
            ),
            Action::ProcessViewportChanged { start, height } => (
                AppState { table: self.table.viewed(start, height), ..self },
                false,
            ),
            Action::ServiceViewportChanged { start, height } => (
                AppState { services: self.services.viewed(start, height), ..self },
                false,
            ),
            Action::LogViewportChanged { start, height } => (
                AppState { logs: self.logs.viewed(start, height), ..self },
                false,
            ),
            Action::NetworkViewportChanged { start, height } => (
                AppState { networks: self.networks.viewed(start, height), ..self },
                false,
            ),
            Action::HoverMouseTarget(target) => self.hover_moved(target),
            Action::Tick(now) => self.ticked(now),
            Action::Escape => self.escaped(),
            other => self.after_on_overlay(other),
        }
    }

    /// What the actions on an open overlay do, and whatever it holds back if none is open.
    #[verifier::opaque]
    pub open spec fn after_on_overlay(self, action: Action) -> (AppState, bool) {
        match action {
            Action::CancelProcessSignal => self.signal_cancelled(),
            Action::ConfirmProcessSignal => self.signal_confirmed(),
            Action::ToggleProcessSignalFocus => self.signal_focus_toggled(),
            Action::FocusProcessSignal(button) => self.signal_focused(button),
            Action::ExecuteFocusedProcessSignal => self.focused_signal_executed(),
            Action::MenuPrevious => self.menu_item_chosen(MenuItem::About),
            Action::MenuNext => self.menu_item_chosen(MenuItem::Exit),
            Action::ActivateSelectedMenuItem => self.selected_menu_item_activated(),
            Action::ActivateMenuItem(item) => self.menu_item_activated(item),
            other => if self.overlay is Some {
                (self, false)
            } else {
                self.after_unobstructed(other)
            },
        }
    }

    /// What the actions do that an open overlay holds back.
    #[verifier::opaque]
    pub open spec fn after_unobstructed(self, action: Action) -> (AppState, bool) {
        match action {
            Action::ShowHelp => (
                AppState { overlay: Some(Overlay::Help), hovered: None, ..self },
                true,
            ),
            Action::StepSamplingInterval(step) => self.interval_stepped(step),
            Action::SelectTab(tab) => self.tab_selected(tab),
            Action::NextTab => self.tab_selected(self.active_tab.following()),
            Action::PreviousTab => self.tab_selected(self.active_tab.preceding()),
            Action::ProcessPrevious => self.with_selection(self.table.stepped(back(1))),
            Action::ProcessNext => self.with_selection(self.table.stepped(ahead(1))),
            Action::ProcessPreviousPage => self.with_selection(
                self.table.stepped(back(page(self.table.height))),
            ),
            Action::ProcessNextPage => self.with_selection(
                self.table.stepped(ahead(page(self.table.height))),
            ),
            Action::ProcessFirst => self.with_selection(self.table.selected_at(0)),
            Action::ProcessLast => self.with_selection(
                self.table.selected_at(last_row(self.table.rows.len())),
            ),
            Action::SelectProcess(identity) => self.process_selected(identity),
            Action::BeginProcessSearch => self.process_search_begun(),
            Action::AppendProcessSearch(character) => self.process_search_extended(character),
            Action::BackspaceProcessSearch => self.process_search_shortened(),
            Action::OpenProcessDetails => self.process_details_opened(),
            Action::RequestProcessSignal(signal) => self.signal_requested(signal),
            Action::SortProcesses(field) => self.processes_sorted(field),
            Action::TogglePin => self.pin_toggled(),
            Action::MoveSelectedPin(direction) => self.selected_pin_moved(direction),
            Action::MovePin(identity, direction) => self.pin_moved(identity, direction),
            other => self.after_on_services(other),
        }
    }

    /// What the actions on the services do.
    #[verifier::opaque]
    pub open spec fn after_on_services(self, action: Action) -> (AppState, bool) {
        match action {
            Action::ServicePrevious => self.service_stepped(back(1)),
            Action::ServiceNext => self.service_stepped(ahead(1)),
            Action::ServicePreviousPage => self.service_stepped(back(page(self.services.height))),
            Action::ServiceNextPage => self.service_stepped(ahead(page(self.services.height))),
            Action::ServiceFirst => self.service_row_selected(0),
            Action::ServiceLast => self.service_row_selected(last_row(self.services.rows.len())),
            Action::SelectService(unit) => self.service_selected(unit@),
            Action::BeginServiceSearch => self.service_search_begun(),
            Action::AppendServiceSearch(character) => self.service_search_extended(character),
            Action::BackspaceServiceSearch => self.service_search_shortened(),
            Action::OpenServiceDetails => self.service_details_opened(),
            Action::RefreshServices => self.refresh_asked(),
            other => self.after_on_logs(other),
        }
    }

    /// What the actions on the journal do.
    #[verifier::opaque]
    pub open spec fn after_on_logs(self, action: Action) -> (AppState, bool) {
        match action {
            Action::LogPrevious => self.log_stepped(back(1)),
            Action::LogNext => self.log_stepped(ahead(1)),
            Action::LogPreviousPage => self.log_stepped(back(page(self.logs.height))),
            Action::LogNextPage => self.log_stepped(ahead(page(self.logs.height))),
            Action::LogFirst => self.log_row_selected(0),
            Action::LogLast => self.log_row_selected(last_row(self.logs.rows.len())),
            Action::SelectLog(id) => self.log_selected(id),
            Action::BeginLogSearch => self.log_search_begun(),
            Action::AppendLogSearch(character) => self.log_search_extended(character),
            Action::BackspaceLogSearch => self.log_search_shortened(),
            Action::OpenLogDetails => self.log_details_opened(),
            Action::ToggleLogFollow => self.log_follow_toggled(),
            Action::ToggleLogPause => self.log_pause_toggled(),
            other => self.after_on_networks(other),
        }
    }

    /// What the actions on the interfaces do.
    #[verifier::opaque]
    pub open spec fn after_on_networks(self, action: Action) -> (AppState, bool) {
        match action {
            Action::NetworkPrevious => self.network_stepped(back(1)),
            Action::NetworkNext => self.network_stepped(ahead(1)),
            Action::NetworkPreviousPage => self.network_stepped(back(page(self.networks.height))),
            Action::NetworkNextPage => self.network_stepped(ahead(page(self.networks.height))),
            Action::NetworkFirst => self.network_row_selected(0),
            Action::NetworkLast => self.network_row_selected(last_row(self.networks.rows.len())),
            Action::SelectNetwork(name) => self.network_selected(name@),
            Action::OpenNetworkDetails => self.network_details_opened(),
            _ => (self, false),
        }
    }
}

/// A percentage goes into a history.
pub open spec fn percent_counts(percent: Option<Number>) -> bool {
    percent is Some && percent->0.finite()
}

pub open spec fn back(rows: usize) -> Step {
    Step { forward: false, rows }
}

pub open spec fn ahead(rows: usize) -> Step {
    Step { forward: true, rows }
}

/// How far a page goes: as many rows as are in view, and at least one.
pub open spec fn page(height: usize) -> usize {
    if height == 0 {
        1
    } else {
        height
    }
}

/// The last of a number of rows; the first where there are none.
pub open spec fn last_row(rows: nat) -> int {
    if rows > 0 {
        rows - 1
    } else {
        0
    }
}

/// What the user is told of a signal that was sent, or was not.
pub open spec fn signal_report(
    confirmation: ProcessSignalConfirmation,
    result: Result<(), ProcessSignalError>,
) -> Seq<char> {
    let signal = confirmation.signal.name_text();
    let pid = numerals::decimal(confirmation.identity.pid as nat);
    let process = confirmation.name@ + " ("@ + pid + ")"@;
    match result {
        Ok(()) => "Sent "@ + signal + " to "@ + process,
        Err(ProcessSignalError::ProcessNotFound) => "Failed to send "@ + signal + ": process "@
            + process + " not found"@,
        Err(ProcessSignalError::StaleIdentity) => "Refused to send "@ + signal + ": PID "@ + pid
            + " was reused"@,
        Err(ProcessSignalError::PermissionDenied) => "Failed to send "@ + signal
            + ": permission denied for "@ + process,
        Err(ProcessSignalError::Unsupported) => "Failed to send "@ + signal
            + ": pidfd signaling is not supported"@,
        Err(ProcessSignalError::Failed(error)) => "Failed to send "@ + signal + " to "@ + process
            + ": "@ + error@,
    }
}

} // verus!
