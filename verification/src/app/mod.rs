//! The application's state and what every action does to it.
use vstd::prelude::*;

pub mod course_laws;
pub mod health;
pub mod history;
pub mod interfaces;
pub mod items;
pub mod laws;
pub mod list;
pub mod logs;
pub mod manner_laws;
pub mod network;
pub mod overview_laws;
pub mod process_laws;
pub mod process_order;
pub mod process_table;
pub mod processes;
pub mod redraw_laws;
pub mod screens;
pub mod scroll;
pub mod services;
pub mod snapshot_laws;
pub mod state;
pub mod table_laws;

use crate::action::{Action, IntervalStep, MenuItem, MouseTarget, PinMove, Tab};
use crate::app::health::{
    step_preset, Collector, CollectorPeriods, Health, DEFAULT_SAMPLING_INTERVAL,
};
use crate::app::history::MetricHistory;
use crate::app::list::List;
use crate::app::process_table::ProcessTable;
use crate::app::scroll::Step;
use crate::app::state::{AppState, Overlay, ProcessSignalConfirmation};
use crate::likeness::{equal_option, Likeness};
use crate::linux::hardware::HardwareInventory;
use crate::linux::journal::JournalEntry;
use crate::linux::network::NetworkInterfaceInfo;
use crate::linux::process::ProcessIdentity;
use crate::linux::service::{ServiceInfo, ServiceRefreshGeneration};
use crate::linux::system::SystemMetrics;
use crate::number::{same_optional, Number};
use crate::text;
use crate::time::Nanos;

verus! {

broadcast use vstd::string::group_string_axioms;

/// The application.
#[derive(Debug)]
pub struct App {
    overlay: Option<Overlay>,
    should_quit: bool,
    active_tab: Tab,
    system_metrics: SystemMetrics,
    hardware: Option<HardwareInventory>,
    aggregate_cpu_history: MetricHistory,
    memory_history: MetricHistory,
    /// Combined rates of the interfaces that the Overview counts.
    network_history: MetricHistory,
    table: ProcessTable,
    process_searching: bool,
    process_error: Option<String>,
    process_action_message: Option<String>,
    signal_request: Option<ProcessSignalConfirmation>,
    services: List<ServiceInfo>,
    service_searching: bool,
    service_error: Option<String>,
    service_refresh_generation: ServiceRefreshGeneration,
    service_refresh_requested: Option<ServiceRefreshGeneration>,
    pending_service_refresh_generation: Option<ServiceRefreshGeneration>,
    logs: List<JournalEntry>,
    log_searching: bool,
    log_following: bool,
    log_paused: bool,
    log_dropped: usize,
    log_error: Option<String>,
    networks: List<NetworkInterfaceInfo>,
    network_error: Option<String>,
    hovered: Option<MouseTarget>,
    health: Health,
    cpu_history_interval: Nanos,
    sampling_interval: Nanos,
    sampling_interval_changed: bool,
    logs_visited: bool,
}

impl View for App {
    type V = AppState;

    closed spec fn view(&self) -> AppState {
        self.model()
    }
}

impl App {
    #[verifier::opaque]
    spec fn model(&self) -> AppState {
        AppState {
            overlay: self.overlay,
            should_quit: self.should_quit,
            active_tab: self.active_tab,
            metrics: self.system_metrics,
            hardware: self.hardware,
            cpu_history: self.aggregate_cpu_history@,
            memory_history: self.memory_history@,
            network_history: self.network_history@,
            table: self.table@,
            process_searching: self.process_searching,
            process_error: text::optional_view(self.process_error),
            message: text::optional_view(self.process_action_message),
            signal_request: self.signal_request,
            services: self.services@,
            service_searching: self.service_searching,
            service_error: text::optional_view(self.service_error),
            generation: self.service_refresh_generation,
            refresh_requested: self.service_refresh_requested,
            refresh_pending: self.pending_service_refresh_generation,
            logs: self.logs@,
            log_searching: self.log_searching,
            log_following: self.log_following,
            log_paused: self.log_paused,
            log_dropped: self.log_dropped,
            log_error: text::optional_view(self.log_error),
            networks: self.networks@,
            network_error: text::optional_view(self.network_error),
            hovered: self.hovered,
            health: self.health,
            cpu_history_interval: self.cpu_history_interval,
            sampling_interval: self.sampling_interval,
            interval_changed: self.sampling_interval_changed,
            logs_visited: self.logs_visited,
        }
    }

    /// The application is as it is between any two actions.
    #[verifier::opaque]
    pub closed spec fn wf(&self) -> bool {
        self.model().sound() && self.table.wf()
    }
}

impl Default for App {
    fn default() -> (app: App)
        ensures
            app.wf(),
            app@.is_initial(),
    {
        proof {
            reveal(App::model);
            reveal(App::wf);
        }
        App {
            overlay: None,
            should_quit: false,
            active_tab: Tab::Overview,
            system_metrics: SystemMetrics::default(),
            hardware: None,
            aggregate_cpu_history: MetricHistory::default(),
            memory_history: MetricHistory::default(),
            network_history: MetricHistory::default(),
            table: ProcessTable::new(),
            process_searching: false,
            process_error: None,
            process_action_message: None,
            signal_request: None,
            services: List::new(),
            service_searching: false,
            service_error: None,
            service_refresh_generation: 0,
            service_refresh_requested: None,
            pending_service_refresh_generation: None,
            logs: List::new(),
            log_searching: false,
            log_following: true,
            log_paused: false,
            log_dropped: 0,
            log_error: None,
            networks: List::new(),
            network_error: None,
            hovered: None,
            health: Health::new(),
            cpu_history_interval: DEFAULT_SAMPLING_INTERVAL,
            sampling_interval: DEFAULT_SAMPLING_INTERVAL,
            sampling_interval_changed: false,
            logs_visited: false,
        }
    }
}

impl App {
    fn record_cpu_percent(&mut self, percent: Number) -> (recorded: bool)
        requires
            old(self).wf(),
        ensures
            final(self)@ == (AppState {
                cpu_history: history::percent_recorded(old(self)@.cpu_history, percent),
                ..old(self)@
            }),
            recorded == percent.finite(),
            final(self).wf(),
    {
        proof {
            reveal(App::model);
            reveal(App::wf);
        }
        self.aggregate_cpu_history.push_percent(percent)
    }

    fn record_memory_percent(&mut self, percent: Number) -> (recorded: bool)
        requires
            old(self).wf(),
        ensures
            final(self)@ == (AppState {
                memory_history: history::percent_recorded(old(self)@.memory_history, percent),
                ..old(self)@
            }),
            recorded == percent.finite(),
            final(self).wf(),
    {
        proof {
            reveal(App::model);
            reveal(App::wf);
        }
        self.memory_history.push_percent(percent)
    }

    /// Adds the percentages of a reading to their histories.
    fn record_percents(&mut self, cpu: Option<Number>, memory: Option<Number>) -> (recorded: bool)
        requires
            old(self).wf(),
        ensures
            final(self)@ == old(self)@.percents_recorded(cpu, memory),
            recorded == (state::percent_counts(cpu) || state::percent_counts(memory)),
            final(self).wf(),
    {
        let cpu_recorded = match cpu {
            Some(percent) => self.record_cpu_percent(percent),
            None => false,
        };
        let memory_recorded = match memory {
            Some(percent) => self.record_memory_percent(percent),
            None => false,
        };
        cpu_recorded || memory_recorded
    }

    fn update_system_metrics(&mut self, metrics: SystemMetrics) -> (redraw: bool)
        requires
            old(self).wf(),
        ensures
            final(self)@ == old(self)@.metrics_updated(metrics).0,
            redraw == old(self)@.metrics_updated(metrics).1,
            final(self).wf(),
    {
        let previous = self.system_metrics();
        let process_metrics_changed = !same_optional(
            previous.cpu_percent,
            metrics.cpu_percent,
        ) || !equal_option(&previous.memory, &metrics.memory);
        let metrics_changed = !previous.equals(&metrics);
        let memory_percent = match metrics.memory {
            Some(_) => metrics.memory_percent,
            None => None,
        };
        let history_changed = self.record_percents(metrics.cpu_percent, memory_percent);
        self.keep_metrics(metrics, metrics_changed);
        match self.active_tab() {
            Tab::Overview => metrics_changed || history_changed,
            Tab::Processes => process_metrics_changed,
            _ => false,
        }
    }

    fn keep_metrics(&mut self, metrics: SystemMetrics, changed: bool)
        requires
            old(self).wf(),
        ensures
            final(self)@ == old(self)@.with_metrics(metrics, changed),
            final(self).wf(),
    {
        proof {
            reveal(App::model);
            reveal(App::wf);
        }
        if changed {
            self.system_metrics = metrics;
        }
    }

    fn discover_hardware(&mut self, hardware: HardwareInventory) -> (redraw: bool)
        requires
            old(self).wf(),
        ensures
            final(self)@ == old(self)@.hardware_discovered(hardware).0,
            redraw == old(self)@.hardware_discovered(hardware).1,
            final(self).wf(),
    {
        proof {
            reveal(App::model);
            reveal(App::wf);
        }
        let known = match &self.hardware {
            Some(previous) => previous.equals(&hardware),
            None => false,
        };
        if known {
            false
        } else {
            self.hardware = Some(hardware);
            self.active_tab == Tab::Overview
        }
    }

    fn record_collector_update(&mut self, collector: Collector)
        requires
            old(self).wf(),
        ensures
            final(self)@ == old(self)@.heard(collector),
            final(self).wf(),
    {
        proof {
            reveal(App::model);
            reveal(App::wf);
        }
        self.health.record(collector);
    }

    fn hover(&mut self, target: Option<MouseTarget>) -> (redraw: bool)
        requires
            old(self).wf(),
        ensures
            final(self)@ == old(self)@.hover_moved(target).0,
            redraw == old(self)@.hover_moved(target).1,
            final(self).wf(),
    {
        proof {
            reveal(App::model);
            reveal(App::wf);
        }
        if equal_option(&self.hovered, &target) {
            false
        } else {
            self.hovered = target;
            true
        }
    }

    /// Checks for collectors that fell behind.
    fn check_collector_staleness(&mut self, now: Nanos) -> (redraw: bool)
        requires
            old(self).wf(),
        ensures
            final(self)@ == (AppState {
                health: old(self)@.health.ticked(old(self)@.active_tab, now),
                ..old(self)@
            }),
            redraw == old(self)@.health.tick_shows(old(self)@.active_tab, now),
            final(self).wf(),
    {
        proof {
            reveal(App::model);
            reveal(App::wf);
        }
        self.health.tick(self.active_tab, now)
    }

    /// Checks for collectors that fell behind and for pins that have been shown long enough.
    fn tick(&mut self, now: Nanos) -> (redraw: bool)
        requires
            old(self).wf(),
        ensures
            final(self)@ == old(self)@.ticked(now).0,
            redraw == old(self)@.ticked(now).1,
            final(self).wf(),
    {
        let staleness_changed = self.check_collector_staleness(now);
        let dropped = self.expire_exited_pins(now);
        staleness_changed || (dropped && self.active_tab() == Tab::Processes)
    }

    fn step_sampling_interval(&mut self, step: IntervalStep) -> (redraw: bool)
        requires
            old(self).wf(),
        ensures
            final(self)@ == old(self)@.interval_stepped(step).0,
            redraw == old(self)@.interval_stepped(step).1,
            final(self).wf(),
    {
        proof {
            reveal(App::model);
            reveal(App::wf);
        }
        match step_preset(self.sampling_interval, step) {
            Some(interval) => {
                if self.health.is_enabled() {
                    self.health.apply_periods(CollectorPeriods::for_sampling_interval(interval));
                    self.health.restart();
                }
                self.sampling_interval = interval;
                self.cpu_history_interval = interval;
                self.aggregate_cpu_history.clear();
                self.sampling_interval_changed = true;
                true
            },
            None => false,
        }
    }

    fn show_tab(&mut self, tab: Tab) -> (changed: bool)
        requires
            old(self).wf(),
        ensures
            final(self)@ == old(self)@.tab_shown(tab),
            changed == old(self)@.tab_selected(tab).1,
            final(self).wf(),
    {
        proof {
            reveal(App::model);
            reveal(App::wf);
        }
        let changed = self.active_tab != tab || self.process_searching || self.service_searching
            || self.log_searching || self.hovered.is_some();
        if tab == Tab::Processes {
            self.table.show();
        }
        self.active_tab = tab;
        self.process_action_message = None;
        self.process_searching = false;
        self.service_searching = false;
        self.log_searching = false;
        self.hovered = None;
        self.logs_visited = self.logs_visited || tab == Tab::Logs;
        changed
    }

    fn select_tab(&mut self, tab: Tab) -> (redraw: bool)
        requires
            old(self).wf(),
        ensures
            final(self)@ == old(self)@.tab_selected(tab).0,
            redraw == old(self)@.tab_selected(tab).1,
            final(self).wf(),
    {
        let entering_services = tab == Tab::Services && self.active_tab() != Tab::Services;
        let changed = self.show_tab(tab);
        if entering_services {
            // The collector was paused while hidden; fetch the current state now.
            self.request_service_refresh();
        }
        changed
    }

    fn set_menu(&mut self, selected: MenuItem)
        requires
            old(self).wf(),
        ensures
            final(self)@ == (AppState {
                overlay: Some(Overlay::Menu { selected }),
                ..old(self)@
            }),
            final(self).wf(),
    {
        proof {
            reveal(App::model);
            reveal(App::wf);
        }
        self.overlay = Some(Overlay::Menu { selected });
    }

    fn open_menu(&mut self)
        requires
            old(self).wf(),
        ensures
            final(self)@ == (AppState {
                overlay: Some(Overlay::Menu { selected: MenuItem::About }),
                hovered: None,
                ..old(self)@
            }),
            final(self).wf(),
    {
        proof {
            reveal(App::model);
            reveal(App::wf);
        }
        self.overlay = Some(Overlay::Menu { selected: MenuItem::About });
        self.hovered = None;
    }

    fn close_overlay(&mut self)
        requires
            old(self).wf(),
        ensures
            final(self)@ == (AppState { overlay: None, ..old(self)@ }),
            final(self).wf(),
    {
        proof {
            reveal(App::model);
            reveal(App::wf);
        }
        self.overlay = None;
    }

    fn stop_service_search(&mut self)
        requires
            old(self).wf(),
        ensures
            final(self)@ == (AppState { service_searching: false, ..old(self)@ }),
            final(self).wf(),
    {
        proof {
            reveal(App::model);
            reveal(App::wf);
        }
        self.service_searching = false;
    }

    fn stop_log_search(&mut self)
        requires
            old(self).wf(),
        ensures
            final(self)@ == (AppState { log_searching: false, ..old(self)@ }),
            final(self).wf(),
    {
        proof {
            reveal(App::model);
            reveal(App::wf);
        }
        self.log_searching = false;
    }

    /// The overlay that is open.
    fn overlay(&self) -> (overlay: &Option<Overlay>)
        ensures
            *overlay == self@.overlay,
    {
        proof {
            reveal(App::model);
            reveal(App::wf);
        }
        &self.overlay
    }

    fn overlay_open(&self) -> (open: bool)
        ensures
            open == (self@.overlay is Some),
    {
        proof {
            reveal(App::model);
            reveal(App::wf);
        }
        self.overlay.is_some()
    }

    /// Closes the overlay, else clears the tab's search, else opens the main menu.
    fn escape(&mut self) -> (redraw: bool)
        requires
            old(self).wf(),
        ensures
            final(self)@ == old(self)@.escaped().0,
            redraw == old(self)@.escaped().1,
            final(self).wf(),
    {
        if matches!(self.overlay(), Some(Overlay::ProcessSignal(_))) {
            self.cancel_process_signal()
        } else if matches!(self.overlay(), Some(Overlay::About)) {
            self.set_menu(MenuItem::About);
            true
        } else if self.overlay_open() {
            self.close_overlay();
            true
        } else {
            self.escape_screen()
        }
    }

    fn escape_screen(&mut self) -> (redraw: bool)
        requires
            old(self).wf(),
            old(self)@.overlay is None,
        ensures
            final(self)@ == old(self)@.escaped().0,
            redraw == old(self)@.escaped().1,
            final(self).wf(),
    {
        let tab = self.active_tab();
        if tab == Tab::Processes && (self.process_searching()
            || !self.process_search_query().is_empty()) {
            self.clear_process_search();
        } else if tab == Tab::Services && (self.service_searching()
            || !self.service_search_query().is_empty()) {
            self.stop_service_search();
            let query = String::new();
            assert(query@ =~= Seq::empty());
            self.search_services(query);
        } else if tab == Tab::Logs && (self.log_searching()
            || !self.log_search_query().is_empty()) {
            self.stop_log_search();
            let query = String::new();
            assert(query@ =~= Seq::empty());
            self.search_logs(query);
        } else {
            self.open_menu();
        }
        true
    }

    fn choose_menu_item(&mut self, item: MenuItem) -> (redraw: bool)
        requires
            old(self).wf(),
        ensures
            final(self)@ == old(self)@.menu_item_chosen(item).0,
            redraw == old(self)@.menu_item_chosen(item).1,
            final(self).wf(),
    {
        match self.menu_selection() {
            Some(selected) => {
                self.set_menu(item);
                selected != item
            },
            None => false,
        }
    }

    fn open_about(&mut self)
        requires
            old(self).wf(),
        ensures
            final(self)@ == (AppState {
                overlay: Some(Overlay::About),
                hovered: None,
                ..old(self)@
            }),
            final(self).wf(),
    {
        proof {
            reveal(App::model);
            reveal(App::wf);
        }
        self.overlay = Some(Overlay::About);
        self.hovered = None;
    }

    fn activate_menu_item(&mut self, item: MenuItem) -> (redraw: bool)
        requires
            old(self).wf(),
        ensures
            final(self)@ == old(self)@.menu_item_activated(item).0,
            redraw == old(self)@.menu_item_activated(item).1,
            final(self).wf(),
    {
        if self.menu_selection().is_none() {
            return false;
        }
        match item {
            MenuItem::About => {
                self.open_about();
                true
            },
            // Not destructive: leaving needs no confirmation.
            MenuItem::Exit => self.quit(),
        }
    }

    /// The highlighted item while the main menu is open.
    pub fn menu_selection(&self) -> (selected: Option<MenuItem>)
        ensures
            selected == (match self@.overlay {
                Some(Overlay::Menu { selected }) => Some(selected),
                _ => None,
            }),
    {
        proof {
            reveal(App::model);
            reveal(App::wf);
        }
        match &self.overlay {
            Some(Overlay::Menu { selected }) => Some(*selected),
            _ => None,
        }
    }
}

fn back(rows: usize) -> (step: Step)
    ensures
        step == state::back(rows),
{
    Step { forward: false, rows }
}

fn ahead(rows: usize) -> (step: Step)
    ensures
        step == state::ahead(rows),
{
    Step { forward: true, rows }
}

/// As many rows as are in view, and at least one.
fn page(height: usize) -> (rows: usize)
    ensures
        rows == state::page(height),
{
    if height == 0 {
        1
    } else {
        height
    }
}

fn last_row(rows: usize) -> (row: usize)
    ensures
        row == state::last_row(rows as nat),
{
    if rows > 0 {
        rows - 1
    } else {
        0
    }
}

impl App {
    fn resize(&mut self) -> (redraw: bool)
        requires
            old(self).wf(),
        ensures
            (final(self)@, redraw) == (AppState { hovered: None, ..old(self)@ }, true),
            final(self).wf(),
    {
        proof {
            reveal(App::model);
            reveal(App::wf);
        }
        self.hovered = None;
        true
    }

    fn quit(&mut self) -> (redraw: bool)
        requires
            old(self).wf(),
        ensures
            (final(self)@, redraw) == (AppState { should_quit: true, ..old(self)@ }, false),
            final(self).wf(),
    {
        proof {
            reveal(App::model);
            reveal(App::wf);
        }
        self.should_quit = true;
        false
    }

    fn show_help(&mut self) -> (redraw: bool)
        requires
            old(self).wf(),
        ensures
            final(self)@ == (AppState {
                overlay: Some(Overlay::Help),
                hovered: None,
                ..old(self)@
            }),
            redraw,
            final(self).wf(),
    {
        proof {
            reveal(App::model);
            reveal(App::wf);
        }
        self.overlay = Some(Overlay::Help);
        self.hovered = None;
        true
    }

    fn view_processes(&mut self, start: usize, height: usize) -> (redraw: bool)
        requires
            old(self).wf(),
        ensures
            final(self)@ == (AppState {
                table: old(self)@.table.viewed(start, height),
                ..old(self)@
            }),
            !redraw,
            final(self).wf(),
    {
        proof {
            reveal(App::model);
            reveal(App::wf);
        }
        self.table.set_viewport(start, height);
        false
    }

    fn view_services(&mut self, start: usize, height: usize) -> (redraw: bool)
        requires
            old(self).wf(),
        ensures
            final(self)@ == (AppState {
                services: old(self)@.services.viewed(start, height),
                ..old(self)@
            }),
            !redraw,
            final(self).wf(),
    {
        proof {
            reveal(App::model);
            reveal(App::wf);
        }
        self.services.set_viewport(start, height);
        false
    }

    fn view_logs(&mut self, start: usize, height: usize) -> (redraw: bool)
        requires
            old(self).wf(),
        ensures
            final(self)@ == (AppState {
                logs: old(self)@.logs.viewed(start, height),
                ..old(self)@
            }),
            !redraw,
            final(self).wf(),
    {
        proof {
            reveal(App::model);
            reveal(App::wf);
        }
        self.logs.set_viewport(start, height);
        false
    }

    fn view_networks(&mut self, start: usize, height: usize) -> (redraw: bool)
        requires
            old(self).wf(),
        ensures
            final(self)@ == (AppState {
                networks: old(self)@.networks.viewed(start, height),
                ..old(self)@
            }),
            !redraw,
            final(self).wf(),
    {
        proof {
            reveal(App::model);
            reveal(App::wf);
        }
        self.networks.set_viewport(start, height);
        false
    }

    fn activate_selected_menu_item(&mut self) -> (redraw: bool)
        requires
            old(self).wf(),
        ensures
            (final(self)@, redraw) == old(self)@.selected_menu_item_activated(),
            final(self).wf(),
    {
        match self.menu_selection() {
            Some(item) => self.activate_menu_item(item),
            None => false,
        }
    }

    fn move_selected_pin(&mut self, direction: PinMove) -> (redraw: bool)
        requires
            old(self).wf(),
        ensures
            (final(self)@, redraw) == old(self)@.selected_pin_moved(direction),
            final(self).wf(),
    {
        match self.selected_process_identity() {
            Some(identity) => self.move_pin(identity, direction),
            None => false,
        }
    }

    /// Applies an action and reports whether the rendered UI may have changed.
    pub fn update(&mut self, action: Action) -> (redraw: bool)
        requires
            old(self).wf(),
        ensures
            final(self)@ == old(self)@.after(action).0,
            redraw == old(self)@.after(action).1,
            final(self).wf(),
    {
        match action {
            // Terminal geometry is global state and must bypass every modal guard below.
            Action::Resize => self.resize(),
            Action::Quit => self.quit(),
            Action::SystemMetricsUpdated(metrics) => {
                self.record_collector_update(Collector::Metrics);
                self.update_system_metrics(metrics)
            },
            Action::HardwareDiscovered(hardware) => self.discover_hardware(hardware),
            Action::ProcessesUpdated(snapshot) => {
                self.record_collector_update(Collector::Processes);
                self.update_processes(snapshot)
            },
            Action::ServicesUpdated(snapshot) => {
                self.record_collector_update(Collector::Services);
                self.update_services(snapshot)
            },
            Action::LogsUpdated(batch) => self.update_logs(batch),
            Action::NetworkUpdated(snapshot) => {
                self.record_collector_update(Collector::Network);
                self.update_networks(snapshot)
            },
            Action::ProcessViewportChanged { start, height } => self.view_processes(start, height),
            Action::ServiceViewportChanged { start, height } => self.view_services(start, height),
            Action::LogViewportChanged { start, height } => self.view_logs(start, height),
            Action::NetworkViewportChanged { start, height } => self.view_networks(start, height),
            Action::HoverMouseTarget(target) => self.hover(target),
            // Staleness is global state, so it is checked even while a modal is open.
            Action::Tick(now) => self.tick(now),
            Action::Escape => self.escape(),
            other => self.update_on_overlay(other),
        }
    }

    /// Applies an action on an open overlay, or one that it holds back if none is open.
    fn update_on_overlay(&mut self, action: Action) -> (redraw: bool)
        requires
            old(self).wf(),
        ensures
            final(self)@ == old(self)@.after_on_overlay(action).0,
            redraw == old(self)@.after_on_overlay(action).1,
            final(self).wf(),
    {
        proof {
            reveal(AppState::after_on_overlay);
        }
        match action {
            Action::CancelProcessSignal => self.cancel_process_signal(),
            Action::ConfirmProcessSignal => self.confirm_process_signal(),
            Action::ToggleProcessSignalFocus => self.toggle_process_signal_focus(),
            Action::FocusProcessSignal(button) => self.focus_process_signal(button),
            Action::ExecuteFocusedProcessSignal => self.execute_focused_process_signal(),
            Action::MenuPrevious => self.choose_menu_item(MenuItem::About),
            Action::MenuNext => self.choose_menu_item(MenuItem::Exit),
            Action::ActivateSelectedMenuItem => self.activate_selected_menu_item(),
            Action::ActivateMenuItem(item) => self.activate_menu_item(item),
            other => {
                if self.overlay_open() {
                    false
                } else {
                    self.update_unobstructed(other)
                }
            },
        }
    }

    /// Applies an action that an open overlay would hold back.
    fn update_unobstructed(&mut self, action: Action) -> (redraw: bool)
        requires
            old(self).wf(),
        ensures
            final(self)@ == old(self)@.after_unobstructed(action).0,
            redraw == old(self)@.after_unobstructed(action).1,
            final(self).wf(),
    {
        proof {
            reveal(AppState::after_unobstructed);
        }
        match action {
            Action::ShowHelp => self.show_help(),
            Action::StepSamplingInterval(step) => self.step_sampling_interval(step),
            Action::SelectTab(tab) => self.select_tab(tab),
            Action::NextTab => self.select_tab(self.active_tab().next()),
            Action::PreviousTab => self.select_tab(self.active_tab().previous()),
            Action::ProcessPrevious => self.move_process_selection(back(1)),
            Action::ProcessNext => self.move_process_selection(ahead(1)),
            Action::ProcessPreviousPage => self.move_process_selection(
                back(self.process_page()),
            ),
            Action::ProcessNextPage => self.move_process_selection(
                ahead(self.process_page()),
            ),
            Action::ProcessFirst => self.select_process_index(0),
            Action::ProcessLast => self.select_process_index(self.last_process_row()),
            Action::SelectProcess(identity) => self.select_process(identity),
            Action::BeginProcessSearch => self.begin_process_search(),
            Action::AppendProcessSearch(character) => self.append_process_search(character),
            Action::BackspaceProcessSearch => self.backspace_process_search(),
            Action::OpenProcessDetails => self.open_process_details(),
            Action::RequestProcessSignal(signal) => self.request_process_signal(signal),
            Action::SortProcesses(field) => self.sort_processes(field),
            Action::TogglePin => self.toggle_selected_pin(),
            Action::MoveSelectedPin(direction) => self.move_selected_pin(direction),
            Action::MovePin(identity, direction) => self.move_pin(identity, direction),
            other => self.update_on_services(other),
        }
    }

    /// Applies an action on the services.
    fn update_on_services(&mut self, action: Action) -> (redraw: bool)
        requires
            old(self).wf(),
        ensures
            final(self)@ == old(self)@.after_on_services(action).0,
            redraw == old(self)@.after_on_services(action).1,
            final(self).wf(),
    {
        proof {
            reveal(AppState::after_on_services);
        }
        match action {
            Action::ServicePrevious => self.move_service_selection(back(1)),
            Action::ServiceNext => self.move_service_selection(ahead(1)),
            Action::ServicePreviousPage => self.move_service_selection(
                back(self.service_page()),
            ),
            Action::ServiceNextPage => self.move_service_selection(
                ahead(self.service_page()),
            ),
            Action::ServiceFirst => self.select_service_index(0),
            Action::ServiceLast => self.select_service_index(self.last_service_row()),
            Action::SelectService(unit) => self.select_service(unit),
            Action::BeginServiceSearch => self.begin_service_search(),
            Action::AppendServiceSearch(character) => self.append_service_search(character),
            Action::BackspaceServiceSearch => self.backspace_service_search(),
            Action::OpenServiceDetails => self.open_service_details(),
            Action::RefreshServices => self.request_service_refresh(),
            other => self.update_on_logs(other),
        }
    }

    /// Applies an action on the journal.
    fn update_on_logs(&mut self, action: Action) -> (redraw: bool)
        requires
            old(self).wf(),
        ensures
            final(self)@ == old(self)@.after_on_logs(action).0,
            redraw == old(self)@.after_on_logs(action).1,
            final(self).wf(),
    {
        proof {
            reveal(AppState::after_on_logs);
        }
        match action {
            Action::LogPrevious => self.move_log_selection(back(1)),
            Action::LogNext => self.move_log_selection(ahead(1)),
            Action::LogPreviousPage => self.move_log_selection(back(self.log_page())),
            Action::LogNextPage => self.move_log_selection(ahead(self.log_page())),
            Action::LogFirst => self.select_log_index(0),
            Action::LogLast => self.select_log_index(self.last_log_row()),
            Action::SelectLog(id) => self.select_log(id),
            Action::BeginLogSearch => self.begin_log_search(),
            Action::AppendLogSearch(character) => self.append_log_search(character),
            Action::BackspaceLogSearch => self.backspace_log_search(),
            Action::OpenLogDetails => self.open_log_details(),
            Action::ToggleLogFollow => self.toggle_log_follow(),
            Action::ToggleLogPause => self.toggle_log_pause(),
            other => self.update_on_networks(other),
        }
    }

    /// Applies an action on the interfaces.
    fn update_on_networks(&mut self, action: Action) -> (redraw: bool)
        requires
            old(self).wf(),
        ensures
            final(self)@ == old(self)@.after_on_networks(action).0,
            redraw == old(self)@.after_on_networks(action).1,
            final(self).wf(),
    {
        proof {
            reveal(AppState::after_on_networks);
        }
        match action {
            Action::NetworkPrevious => self.move_network_selection(back(1)),
            Action::NetworkNext => self.move_network_selection(ahead(1)),
            Action::NetworkPreviousPage => self.move_network_selection(
                back(self.network_page()),
            ),
            Action::NetworkNextPage => self.move_network_selection(
                ahead(self.network_page()),
            ),
            Action::NetworkFirst => self.select_network_index(0),
            Action::NetworkLast => self.select_network_index(self.last_network_row()),
            Action::SelectNetwork(name) => self.select_network(name.as_str()),
            Action::OpenNetworkDetails => self.open_network_details(),
            _ => false,
        }
    }

    fn process_page(&self) -> (rows: usize)
        ensures
            rows == state::page(self@.table.height),
    {
        proof {
            reveal(App::model);
            reveal(App::wf);
        }
        page(self.table.height())
    }

    fn service_page(&self) -> (rows: usize)
        ensures
            rows == state::page(self@.services.height),
    {
        proof {
            reveal(App::model);
            reveal(App::wf);
        }
        page(self.services.height())
    }

    fn log_page(&self) -> (rows: usize)
        ensures
            rows == state::page(self@.logs.height),
    {
        proof {
            reveal(App::model);
            reveal(App::wf);
        }
        page(self.logs.height())
    }

    fn network_page(&self) -> (rows: usize)
        ensures
            rows == state::page(self@.networks.height),
    {
        proof {
            reveal(App::model);
            reveal(App::wf);
        }
        page(self.networks.height())
    }

    fn last_process_row(&self) -> (row: usize)
        ensures
            row == state::last_row(self@.table.rows.len()),
    {
        proof {
            reveal(App::model);
            reveal(App::wf);
        }
        last_row(self.table.row_count())
    }

    fn last_service_row(&self) -> (row: usize)
        ensures
            row == state::last_row(self@.services.rows.len()),
    {
        proof {
            reveal(App::model);
            reveal(App::wf);
        }
        last_row(self.services.row_count())
    }

    fn last_log_row(&self) -> (row: usize)
        ensures
            row == state::last_row(self@.logs.rows.len()),
    {
        proof {
            reveal(App::model);
            reveal(App::wf);
        }
        last_row(self.logs.row_count())
    }

    fn last_network_row(&self) -> (row: usize)
        ensures
            row == state::last_row(self@.networks.rows.len()),
    {
        proof {
            reveal(App::model);
            reveal(App::wf);
        }
        last_row(self.networks.row_count())
    }

    // What the screens show.

    pub fn active_tab(&self) -> (tab: Tab)
        ensures
            tab == self@.active_tab,
    {
        proof {
            reveal(App::model);
            reveal(App::wf);
        }
        self.active_tab
    }

    pub fn system_metrics(&self) -> (metrics: &SystemMetrics)
        ensures
            *metrics == self@.metrics,
    {
        proof {
            reveal(App::model);
            reveal(App::wf);
        }
        &self.system_metrics
    }

    pub fn process_searching(&self) -> (searching: bool)
        ensures
            searching == self@.process_searching,
    {
        proof {
            reveal(App::model);
            reveal(App::wf);
        }
        self.process_searching
    }

    pub fn process_search_query(&self) -> (query: &str)
        ensures
            query@ == self@.table.query,
    {
        proof {
            reveal(App::model);
            reveal(App::wf);
        }
        self.table.query()
    }

    pub fn service_searching(&self) -> (searching: bool)
        ensures
            searching == self@.service_searching,
    {
        proof {
            reveal(App::model);
            reveal(App::wf);
        }
        self.service_searching
    }

    pub fn service_search_query(&self) -> (query: &str)
        ensures
            query@ == self@.services.query,
    {
        proof {
            reveal(App::model);
            reveal(App::wf);
        }
        self.services.query()
    }

    pub fn log_searching(&self) -> (searching: bool)
        ensures
            searching == self@.log_searching,
    {
        proof {
            reveal(App::model);
            reveal(App::wf);
        }
        self.log_searching
    }

    pub fn log_search_query(&self) -> (query: &str)
        ensures
            query@ == self@.logs.query,
    {
        proof {
            reveal(App::model);
            reveal(App::wf);
        }
        self.logs.query()
    }

    /// The selected row's identity, also when it is an exited pinned process.
    pub fn selected_process_identity(&self) -> (identity: Option<ProcessIdentity>)
        ensures
            identity == self@.table.selected,
    {
        proof {
            reveal(App::model);
            reveal(App::wf);
        }
        self.table.selected_identity()
    }
}

} // verus!
