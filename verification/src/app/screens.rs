//! What the screens show.
use vstd::prelude::*;

use crate::action::{InputMode, MouseTarget, ProcessSort, Tab};
use crate::app::App;
use crate::app::health;
use crate::app::health::{preset_label, Collector, CollectorPeriods};
use crate::app::history::MetricHistory;
use crate::app::process_table;
use crate::app::process_table::{ProcessRow, ProcessRowView};
use crate::app::state::{AppState, Overlay, ProcessSignalConfirmation};
use crate::linux::hardware::HardwareInventory;
use crate::linux::journal::JournalEntry;
use crate::linux::network::NetworkInterfaceInfo;
use crate::linux::process::{ProcessInfo, ProcessSummary};
use crate::linux::service::ServiceInfo;
use crate::time::Nanos;

verus! {

impl App {
    /// Services are only collected while their tab is visible.
    pub fn services_visible(&self) -> (visible: bool)
        ensures
            visible == (self@.active_tab == Tab::Services),
    {
        proof {
            reveal(App::model);
        }
        self.active_tab == Tab::Services
    }

    /// Whether the journal stream is needed yet; it starts on the first visit to the logs.
    pub fn logs_visited(&self) -> (visited: bool)
        ensures
            visited == self@.logs_visited,
    {
        proof {
            reveal(App::model);
        }
        self.logs_visited
    }

    pub fn should_quit(&self) -> (quit: bool)
        ensures
            quit == self@.should_quit,
    {
        proof {
            reveal(App::model);
        }
        self.should_quit
    }

    pub fn help_visible(&self) -> (visible: bool)
        ensures
            visible == (self@.overlay matches Some(Overlay::Help)),
    {
        proof {
            reveal(App::model);
        }
        matches!(self.overlay, Some(Overlay::Help))
    }

    pub fn about_visible(&self) -> (visible: bool)
        ensures
            visible == (self@.overlay matches Some(Overlay::About)),
    {
        proof {
            reveal(App::model);
        }
        matches!(self.overlay, Some(Overlay::About))
    }

    pub fn aggregate_cpu_history(&self) -> (history: &MetricHistory)
        ensures
            history@ == self@.cpu_history,
    {
        proof {
            reveal(App::model);
        }
        &self.aggregate_cpu_history
    }

    pub fn memory_history(&self) -> (history: &MetricHistory)
        ensures
            history@ == self@.memory_history,
    {
        proof {
            reveal(App::model);
        }
        &self.memory_history
    }

    pub fn network_history(&self) -> (history: &MetricHistory)
        ensures
            history@ == self@.network_history,
    {
        proof {
            reveal(App::model);
        }
        &self.network_history
    }

    pub fn hardware(&self) -> (hardware: Option<&HardwareInventory>)
        ensures
            match hardware {
                Some(hardware) => self@.hardware == Some(*hardware),
                None => self@.hardware is None,
            },
    {
        proof {
            reveal(App::model);
        }
        self.hardware.as_ref()
    }

    pub fn hovered(&self) -> (target: Option<&MouseTarget>)
        ensures
            match target {
                Some(target) => self@.hovered == Some(*target),
                None => self@.hovered is None,
            },
    {
        proof {
            reveal(App::model);
        }
        self.hovered.as_ref()
    }

    pub fn input_mode(&self) -> (mode: InputMode)
        ensures
            mode == self@.mode(),
    {
        proof {
            reveal(App::model);
        }
        match &self.overlay {
            Some(Overlay::Help) => InputMode::Help,
            Some(Overlay::Menu { .. }) => InputMode::Menu,
            Some(Overlay::About) => InputMode::About,
            Some(Overlay::ProcessSignal(_)) => InputMode::ProcessSignalConfirm,
            Some(Overlay::ProcessDetail) => InputMode::ProcessDetail,
            Some(Overlay::ServiceDetail) => InputMode::ServiceDetail,
            Some(Overlay::LogDetail) => InputMode::LogDetail,
            Some(Overlay::NetworkDetail) => InputMode::NetworkDetail,
            None => if self.process_searching {
                InputMode::ProcessSearch
            } else if self.service_searching {
                InputMode::ServiceSearch
            } else if self.log_searching {
                InputMode::LogSearch
            } else {
                match self.active_tab {
                    Tab::Services => InputMode::Services,
                    Tab::Logs => InputMode::Logs,
                    Tab::Network => InputMode::Network,
                    _ => InputMode::Normal,
                }
            },
        }
    }

    /// Rows in the Processes table, including pinned rows.
    pub fn process_count(&self) -> (count: usize)
        ensures
            count == self@.table.rows.len(),
    {
        proof {
            reveal(App::model);
        }
        self.table.row_count()
    }

    /// Live processes the table lists as matches (not dimmed, not exited).
    pub fn listed_process_count(&self) -> (count: usize)
        ensures
            count == process_table::listed_count(self@.table.rows, self@.table.rows.len() as int),
    {
        proof {
            reveal(App::model);
        }
        self.table.listed_count()
    }

    /// Leading rows that belong to the pinned section.
    pub fn pinned_row_count(&self) -> (count: usize)
        ensures
            count == self@.table.first_unpinned(0),
    {
        proof {
            reveal(App::model);
        }
        self.table.pinned_count()
    }

    pub fn process_summary(&self) -> (summary: ProcessSummary)
        ensures
            summary == self@.table.summary,
    {
        proof {
            reveal(App::model);
        }
        self.table.summary()
    }

    /// The process shown at `index`; for an exited pinned row, as last seen.
    pub fn process_at(&self, index: usize) -> (process: Option<&ProcessInfo>)
        ensures
            match process {
                Some(process) => self@.table.process_at(index as int) == Some(*process),
                None => self@.table.process_at(index as int) is None,
            },
    {
        proof {
            reveal(App::model);
        }
        self.table.process_at(index)
    }

    pub fn process_row_at(&self, index: usize) -> (view: Option<ProcessRowView<'_>>)
        ensures
            view is Some == (self@.table.process_at(index as int) is Some),
            view matches Some(view) ==> {
                let row = self@.table.rows[index as int];
                &&& self@.table.process_at(index as int) == Some(*view.process)
                &&& view.pinned == self@.table.row_is_pinned(row)
                &&& view.dimmed == (row matches ProcessRow::Live { dimmed, .. } && dimmed)
                &&& view.exited == (row is Exited)
            },
    {
        proof {
            reveal(App::model);
        }
        self.table.row_at(index)
    }

    /// The selected process if it is still running.
    pub fn selected_process(&self) -> (process: Option<&ProcessInfo>)
        ensures
            match process {
                Some(process) => self@.table.selected_process() == Some(*process),
                None => self@.table.selected_process() is None,
            },
    {
        proof {
            reveal(App::model);
        }
        self.table.selected_process()
    }

    pub fn selected_process_index(&self) -> (row: Option<usize>)
        ensures
            row == self@.table.selected_row(),
    {
        proof {
            reveal(App::model);
        }
        self.table.selected_index()
    }

    pub fn process_scroll(&self) -> (scroll: usize)
        ensures
            scroll == self@.table.scroll,
    {
        proof {
            reveal(App::model);
        }
        self.table.scroll()
    }

    pub fn process_detail_visible(&self) -> (visible: bool)
        ensures
            visible == (self@.overlay matches Some(Overlay::ProcessDetail)),
    {
        proof {
            reveal(App::model);
        }
        matches!(self.overlay, Some(Overlay::ProcessDetail))
    }

    pub fn process_sort(&self) -> (sort: ProcessSort)
        ensures
            sort == self@.table.sort,
    {
        proof {
            reveal(App::model);
        }
        self.table.sort()
    }

    pub fn process_error(&self) -> (error: Option<&String>)
        ensures
            match error {
                Some(text) => self@.process_error == Some(text@),
                None => self@.process_error is None,
            },
    {
        proof {
            reveal(App::model);
        }
        self.process_error.as_ref()
    }

    pub fn process_action_message(&self) -> (message: Option<&String>)
        ensures
            match message {
                Some(text) => self@.message == Some(text@),
                None => self@.message is None,
            },
    {
        proof {
            reveal(App::model);
        }
        self.process_action_message.as_ref()
    }

    pub fn process_signal_confirmation(&self) -> (confirmation: Option<&ProcessSignalConfirmation>)
        ensures
            match self@.overlay {
                Some(Overlay::ProcessSignal(waiting)) => confirmation is Some && *confirmation->0
                    == waiting,
                _ => confirmation is None,
            },
    {
        proof {
            reveal(App::model);
        }
        match &self.overlay {
            Some(Overlay::ProcessSignal(confirmation)) => Some(confirmation),
            _ => None,
        }
    }

    pub fn service_count(&self) -> (count: usize)
        ensures
            count == self@.services.rows.len(),
    {
        proof {
            reveal(App::model);
        }
        self.services.row_count()
    }

    pub fn service_at(&self, index: usize) -> (item: Option<&ServiceInfo>)
        ensures
            match item {
                Some(item) => self@.services.at(index as int) == Some(*item),
                None => self@.services.at(index as int) is None,
            },
    {
        proof {
            reveal(App::model);
        }
        self.services.at(index)
    }

    pub fn selected_service(&self) -> (item: Option<&ServiceInfo>)
        ensures
            match item {
                Some(item) => self@.services.selected_item() == Some(*item),
                None => self@.services.selected_item() is None,
            },
    {
        proof {
            reveal(App::model);
        }
        self.services.selected_item()
    }

    pub fn selected_service_index(&self) -> (row: Option<usize>)
        ensures
            row == self@.services.selected_row(),
    {
        proof {
            reveal(App::model);
        }
        self.services.selected_row()
    }

    pub fn service_scroll(&self) -> (scroll: usize)
        ensures
            scroll == self@.services.scroll,
    {
        proof {
            reveal(App::model);
        }
        self.services.scroll()
    }

    pub fn service_detail_visible(&self) -> (visible: bool)
        ensures
            visible == (self@.overlay matches Some(Overlay::ServiceDetail)),
    {
        proof {
            reveal(App::model);
        }
        matches!(self.overlay, Some(Overlay::ServiceDetail))
    }

    pub fn service_error(&self) -> (error: Option<&String>)
        ensures
            match error {
                Some(text) => self@.service_error == Some(text@),
                None => self@.service_error is None,
            },
    {
        proof {
            reveal(App::model);
        }
        self.service_error.as_ref()
    }

    pub fn service_refreshing(&self) -> (refreshing: bool)
        ensures
            refreshing == (self@.refresh_pending is Some),
    {
        proof {
            reveal(App::model);
        }
        self.pending_service_refresh_generation.is_some()
    }

    pub fn log_count(&self) -> (count: usize)
        ensures
            count == self@.logs.rows.len(),
    {
        proof {
            reveal(App::model);
        }
        self.logs.row_count()
    }

    pub fn log_at(&self, index: usize) -> (item: Option<&JournalEntry>)
        ensures
            match item {
                Some(item) => self@.logs.at(index as int) == Some(*item),
                None => self@.logs.at(index as int) is None,
            },
    {
        proof {
            reveal(App::model);
        }
        self.logs.at(index)
    }

    pub fn selected_log(&self) -> (item: Option<&JournalEntry>)
        ensures
            match item {
                Some(item) => self@.logs.selected_item() == Some(*item),
                None => self@.logs.selected_item() is None,
            },
    {
        proof {
            reveal(App::model);
        }
        self.logs.selected_item()
    }

    pub fn selected_log_index(&self) -> (row: Option<usize>)
        ensures
            row == self@.logs.selected_row(),
    {
        proof {
            reveal(App::model);
        }
        self.logs.selected_row()
    }

    pub fn log_scroll(&self) -> (scroll: usize)
        ensures
            scroll == self@.logs.scroll,
    {
        proof {
            reveal(App::model);
        }
        self.logs.scroll()
    }

    pub fn log_detail_visible(&self) -> (visible: bool)
        ensures
            visible == (self@.overlay matches Some(Overlay::LogDetail)),
    {
        proof {
            reveal(App::model);
        }
        matches!(self.overlay, Some(Overlay::LogDetail))
    }

    pub fn log_error(&self) -> (error: Option<&String>)
        ensures
            match error {
                Some(text) => self@.log_error == Some(text@),
                None => self@.log_error is None,
            },
    {
        proof {
            reveal(App::model);
        }
        self.log_error.as_ref()
    }

    pub fn log_following(&self) -> (following: bool)
        ensures
            following == self@.log_following,
    {
        proof {
            reveal(App::model);
        }
        self.log_following
    }

    pub fn log_paused(&self) -> (paused: bool)
        ensures
            paused == self@.log_paused,
    {
        proof {
            reveal(App::model);
        }
        self.log_paused
    }

    pub fn log_dropped(&self) -> (dropped: usize)
        ensures
            dropped == self@.log_dropped,
    {
        proof {
            reveal(App::model);
        }
        self.log_dropped
    }

    pub fn network_count(&self) -> (count: usize)
        ensures
            count == self@.networks.rows.len(),
    {
        proof {
            reveal(App::model);
        }
        self.networks.row_count()
    }

    pub fn network_at(&self, index: usize) -> (item: Option<&NetworkInterfaceInfo>)
        ensures
            match item {
                Some(item) => self@.networks.at(index as int) == Some(*item),
                None => self@.networks.at(index as int) is None,
            },
    {
        proof {
            reveal(App::model);
        }
        self.networks.at(index)
    }

    pub fn selected_network(&self) -> (item: Option<&NetworkInterfaceInfo>)
        ensures
            match item {
                Some(item) => self@.networks.selected_item() == Some(*item),
                None => self@.networks.selected_item() is None,
            },
    {
        proof {
            reveal(App::model);
        }
        self.networks.selected_item()
    }

    pub fn selected_network_index(&self) -> (row: Option<usize>)
        ensures
            row == self@.networks.selected_row(),
    {
        proof {
            reveal(App::model);
        }
        self.networks.selected_row()
    }

    pub fn network_scroll(&self) -> (scroll: usize)
        ensures
            scroll == self@.networks.scroll,
    {
        proof {
            reveal(App::model);
        }
        self.networks.scroll()
    }

    pub fn network_detail_visible(&self) -> (visible: bool)
        ensures
            visible == (self@.overlay matches Some(Overlay::NetworkDetail)),
    {
        proof {
            reveal(App::model);
        }
        matches!(self.overlay, Some(Overlay::NetworkDetail))
    }

    pub fn network_error(&self) -> (error: Option<&String>)
        ensures
            match error {
                Some(text) => self@.network_error == Some(text@),
                None => self@.network_error is None,
            },
    {
        proof {
            reveal(App::model);
        }
        self.network_error.as_ref()
    }

    pub fn networks(&self) -> (interfaces: &Vec<NetworkInterfaceInfo>)
        ensures
            interfaces@ == self@.networks.items,
    {
        proof {
            reveal(App::model);
        }
        self.networks.items()
    }

    /// Enables stale markers: a collector is stale after three missed periods. Services also
    /// allow for a full listing timeout before being flagged.
    pub fn with_collector_periods(self, periods: CollectorPeriods) -> (app: App)
        requires
            self.wf(),
        ensures
            app@ == (AppState {
                health: self@.health.timed(periods),
                sampling_interval: periods.metrics,
                cpu_history_interval: periods.metrics,
                ..self@
            }),
            app.wf(),
    {
        proof {
            reveal(App::model);
            reveal(App::wf);
        }
        let mut app = self;
        app.health.apply_periods(periods);
        app.sampling_interval = periods.metrics;
        app.cpu_history_interval = periods.metrics;
        app
    }

    /// New collector periods after the interval changed, for the running collectors. They are
    /// handed out once.
    pub fn take_sampling_interval_change(&mut self) -> (periods: Option<CollectorPeriods>)
        requires
            old(self).wf(),
        ensures
            periods == (if old(self)@.interval_changed {
                Some(CollectorPeriods::of_interval(old(self)@.sampling_interval))
            } else {
                None
            }),
            final(self)@ == (AppState { interval_changed: false, ..old(self)@ }),
            final(self).wf(),
    {
        proof {
            reveal(App::model);
            reveal(App::wf);
        }
        if self.sampling_interval_changed {
            self.sampling_interval_changed = false;
            Some(CollectorPeriods::for_sampling_interval(self.sampling_interval))
        } else {
            None
        }
    }

    /// Label of the current sampling interval, e.g. `1s`.
    pub fn sampling_interval_label(&self) -> (label: &'static str)
        ensures
            label@ == health::interval_label(self@.sampling_interval),
    {
        proof {
            reveal(App::model);
        }
        preset_label(self.sampling_interval)
    }

    /// Time between aggregate CPU history samples.
    pub fn cpu_history_interval(&self) -> (interval: Nanos)
        ensures
            interval == self@.cpu_history_interval,
    {
        proof {
            reveal(App::model);
        }
        self.cpu_history_interval
    }

    /// Stale collectors whose data is shown on the active tab.
    pub fn stale_collectors(&self) -> (collectors: Vec<Collector>)
        ensures
            collectors@ == self@.health.stale_on(self@.active_tab),
    {
        proof {
            reveal(App::model);
        }
        self.health.stale_collectors(self.active_tab)
    }
}

} // verus!
