//! What the user, the terminal and the collectors can ask of the application.
use vstd::prelude::*;

use crate::app::process_table::ProcessRow;
use crate::likeness::Likeness;
use crate::linux::hardware::HardwareInventory;
use crate::linux::journal::JournalBatch;
use crate::linux::network::NetworkSnapshot;
use crate::linux::process::{ProcessIdentity, ProcessSignal, ProcessSnapshot};
use crate::linux::service::ServiceSnapshot;
use crate::linux::system::SystemMetrics;
use crate::text::same_text;
use crate::time::Nanos;

verus! {

broadcast use vstd::string::group_string_axioms;

#[derive(Debug, Clone, PartialEq)]
pub enum Action {
    Quit,
    SelectTab(Tab),
    NextTab,
    PreviousTab,
    ShowHelp,
    Escape,
    MenuPrevious,
    MenuNext,
    ActivateSelectedMenuItem,
    ActivateMenuItem(MenuItem),
    StepSamplingInterval(IntervalStep),
    SystemMetricsUpdated(SystemMetrics),
    HardwareDiscovered(HardwareInventory),
    ProcessesUpdated(ProcessSnapshot),
    ProcessPrevious,
    ProcessNext,
    ProcessPreviousPage,
    ProcessNextPage,
    ProcessFirst,
    ProcessLast,
    SelectProcess(ProcessIdentity),
    BeginProcessSearch,
    AppendProcessSearch(char),
    BackspaceProcessSearch,
    OpenProcessDetails,
    RequestProcessSignal(ProcessSignal),
    CancelProcessSignal,
    ConfirmProcessSignal,
    ToggleProcessSignalFocus,
    FocusProcessSignal(SignalConfirmButton),
    ExecuteFocusedProcessSignal,
    SortProcesses(ProcessSortField),
    /// Pin or unpin the selected process.
    TogglePin,
    MoveSelectedPin(PinMove),
    MovePin(ProcessIdentity, PinMove),
    ServicesUpdated(ServiceSnapshot),
    ServicePrevious,
    ServiceNext,
    ServicePreviousPage,
    ServiceNextPage,
    ServiceFirst,
    ServiceLast,
    SelectService(String),
    BeginServiceSearch,
    AppendServiceSearch(char),
    BackspaceServiceSearch,
    OpenServiceDetails,
    RefreshServices,
    LogsUpdated(JournalBatch),
    LogPrevious,
    LogNext,
    LogPreviousPage,
    LogNextPage,
    LogFirst,
    LogLast,
    SelectLog(u64),
    BeginLogSearch,
    AppendLogSearch(char),
    BackspaceLogSearch,
    OpenLogDetails,
    ToggleLogFollow,
    ToggleLogPause,
    NetworkUpdated(NetworkSnapshot),
    NetworkPrevious,
    NetworkNext,
    NetworkPreviousPage,
    NetworkNextPage,
    NetworkFirst,
    NetworkLast,
    SelectNetwork(String),
    OpenNetworkDetails,
    HoverMouseTarget(Option<MouseTarget>),
    ProcessViewportChanged {
        start: usize,
        height: usize,
    },
    ServiceViewportChanged {
        start: usize,
        height: usize,
    },
    LogViewportChanged {
        start: usize,
        height: usize,
    },
    NetworkViewportChanged {
        start: usize,
        height: usize,
    },
    Resize,
    Tick(Nanos),
}

/// What lies under the mouse.
#[derive(Debug, Clone, PartialEq, Eq)]
pub enum MouseTarget {
    Tab(Tab),
    ProcessRow(ProcessIdentity),
    ProcessSortHeader(ProcessSortField),
    ProcessSignalCancel,
    ProcessSignalConfirm,
    ServiceRow(String),
    LogRow(u64),
    NetworkRow(String),
}

impl MouseTarget {
    pub fn duplicate(&self) -> (copy: MouseTarget)
        ensures
            copy == *self,
    {
        match self {
            MouseTarget::Tab(tab) => MouseTarget::Tab(*tab),
            MouseTarget::ProcessRow(identity) => MouseTarget::ProcessRow(*identity),
            MouseTarget::ProcessSortHeader(field) => MouseTarget::ProcessSortHeader(*field),
            MouseTarget::ProcessSignalCancel => MouseTarget::ProcessSignalCancel,
            MouseTarget::ProcessSignalConfirm => MouseTarget::ProcessSignalConfirm,
            MouseTarget::ServiceRow(unit) => MouseTarget::ServiceRow(unit.clone()),
            MouseTarget::LogRow(id) => MouseTarget::LogRow(*id),
            MouseTarget::NetworkRow(name) => MouseTarget::NetworkRow(name.clone()),
        }
    }
}

impl Likeness for MouseTarget {
    /// Two targets are the same place.
    open spec fn same(self, other: MouseTarget) -> bool {
        match (self, other) {
            (MouseTarget::Tab(left), MouseTarget::Tab(right)) => left == right,
            (MouseTarget::ProcessRow(left), MouseTarget::ProcessRow(right)) => left == right,
            (MouseTarget::ProcessSortHeader(left), MouseTarget::ProcessSortHeader(right)) => left
                == right,
            (MouseTarget::ProcessSignalCancel, MouseTarget::ProcessSignalCancel) => true,
            (MouseTarget::ProcessSignalConfirm, MouseTarget::ProcessSignalConfirm) => true,
            (MouseTarget::ServiceRow(left), MouseTarget::ServiceRow(right)) => left@ == right@,
            (MouseTarget::LogRow(left), MouseTarget::LogRow(right)) => left == right,
            (MouseTarget::NetworkRow(left), MouseTarget::NetworkRow(right)) => left@ == right@,
            _ => false,
        }
    }

    fn equals(&self, other: &MouseTarget) -> (same: bool) {
        match (self, other) {
            (MouseTarget::Tab(left), MouseTarget::Tab(right)) => *left == *right,
            (MouseTarget::ProcessRow(left), MouseTarget::ProcessRow(right)) => *left == *right,
            (MouseTarget::ProcessSortHeader(left), MouseTarget::ProcessSortHeader(right)) => *left
                == *right,
            (MouseTarget::ProcessSignalCancel, MouseTarget::ProcessSignalCancel) => true,
            (MouseTarget::ProcessSignalConfirm, MouseTarget::ProcessSignalConfirm) => true,
            (MouseTarget::ServiceRow(left), MouseTarget::ServiceRow(right)) => same_text(
                left.as_str(),
                right.as_str(),
            ),
            (MouseTarget::LogRow(left), MouseTarget::LogRow(right)) => *left == *right,
            (MouseTarget::NetworkRow(left), MouseTarget::NetworkRow(right)) => same_text(
                left.as_str(),
                right.as_str(),
            ),
            _ => false,
        }
    }
}

/// An entry of the main menu.
#[derive(Debug, Clone, Copy, PartialEq, Eq, Structural)]
pub enum MenuItem {
    About,
    Exit,
}

/// Direction in which a pinned process moves within the pinned section.
#[derive(Debug, Clone, Copy, PartialEq, Eq, Structural)]
pub enum PinMove {
    Up,
    Down,
}

/// Direction of a `+`/`-` step through the sampling presets.
#[derive(Debug, Clone, Copy, PartialEq, Eq, Structural)]
pub enum IntervalStep {
    Longer,
    Shorter,
}

#[derive(Debug, Clone, Copy, PartialEq, Eq, Structural)]
pub enum SignalConfirmButton {
    Cancel,
    Confirm,
}

impl Default for SignalConfirmButton {
    /// Nothing is sent unless the user asks for it.
    fn default() -> (button: SignalConfirmButton)
        ensures
            button == SignalConfirmButton::Cancel,
    {
        SignalConfirmButton::Cancel
    }
}

#[derive(Debug, Clone, Copy, PartialEq, Eq, Structural)]
pub enum ProcessSortField {
    Cpu,
    Memory,
    Pid,
    Name,
}

impl ProcessSortField {
    pub fn as_str(self) -> (text: &'static str)
        ensures
            text@ == (match self {
                ProcessSortField::Cpu => "CPU"@,
                ProcessSortField::Memory => "MEM"@,
                ProcessSortField::Pid => "PID"@,
                ProcessSortField::Name => "NAME"@,
            }),
    {
        match self {
            ProcessSortField::Cpu => "CPU",
            ProcessSortField::Memory => "MEM",
            ProcessSortField::Pid => "PID",
            ProcessSortField::Name => "NAME",
        }
    }
}

#[derive(Debug, Clone, Copy, PartialEq, Eq, Structural)]
pub struct ProcessSort {
    pub field: ProcessSortField,
    pub descending: bool,
}

impl Default for ProcessSort {
    fn default() -> (sort: ProcessSort)
        ensures
            sort == (ProcessSort { field: ProcessSortField::Cpu, descending: true }),
    {
        ProcessSort { field: ProcessSortField::Cpu, descending: true }
    }
}

impl ProcessSort {
    /// The direction that a field is sorted in when it is first chosen: what uses the most
    /// comes first, numbers and names count up.
    pub open spec fn initial(field: ProcessSortField) -> ProcessSort {
        ProcessSort {
            field,
            descending: field == ProcessSortField::Cpu || field == ProcessSortField::Memory,
        }
    }

    pub fn for_field(field: ProcessSortField) -> (sort: ProcessSort)
        ensures
            sort == ProcessSort::initial(field),
    {
        ProcessSort {
            field,
            descending: matches!(field, ProcessSortField::Cpu | ProcessSortField::Memory),
        }
    }
}

/// What the keys mean at the moment.
#[derive(Debug, Clone, Copy, PartialEq, Eq, Structural)]
pub enum InputMode {
    Normal,
    ProcessSearch,
    ProcessDetail,
    ProcessSignalConfirm,
    Services,
    ServiceSearch,
    ServiceDetail,
    Logs,
    LogSearch,
    LogDetail,
    Network,
    NetworkDetail,
    Help,
    Menu,
    About,
}

impl Default for InputMode {
    fn default() -> (mode: InputMode)
        ensures
            mode == InputMode::Normal,
    {
        InputMode::Normal
    }
}

#[derive(Debug, Clone, Copy, PartialEq, Eq, Structural)]
pub enum Tab {
    Overview,
    Processes,
    Services,
    Logs,
    Network,
}

impl Tab {
    pub const ALL: [Tab; 5] = [
        Tab::Overview,
        Tab::Processes,
        Tab::Services,
        Tab::Logs,
        Tab::Network,
    ];

    /// The place of a tab in the bar, from the left.
    pub open spec fn place(self) -> int {
        match self {
            Tab::Overview => 0,
            Tab::Processes => 1,
            Tab::Services => 2,
            Tab::Logs => 3,
            Tab::Network => 4,
        }
    }

    pub fn label(self) -> (label: &'static str)
        ensures
            label@ == (match self {
                Tab::Overview => "Overview"@,
                Tab::Processes => "Processes"@,
                Tab::Services => "Services"@,
                Tab::Logs => "Logs"@,
                Tab::Network => "Network"@,
            }),
    {
        match self {
            Tab::Overview => "Overview",
            Tab::Processes => "Processes",
            Tab::Services => "Services",
            Tab::Logs => "Logs",
            Tab::Network => "Network",
        }
    }

    /// Compact label used when the full labels cannot fit with separation.
    pub fn short_label(self) -> (label: &'static str)
        ensures
            label@ == (match self {
                Tab::Overview => "Ovr"@,
                Tab::Processes => "Proc"@,
                Tab::Services => "Svc"@,
                Tab::Logs => "Logs"@,
                Tab::Network => "Net"@,
            }),
    {
        match self {
            Tab::Overview => "Ovr",
            Tab::Processes => "Proc",
            Tab::Services => "Svc",
            Tab::Logs => "Logs",
            Tab::Network => "Net",
        }
    }

    /// The tab to the right; the first one behind the last.
    pub open spec fn following(self) -> Tab {
        match self {
            Tab::Overview => Tab::Processes,
            Tab::Processes => Tab::Services,
            Tab::Services => Tab::Logs,
            Tab::Logs => Tab::Network,
            Tab::Network => Tab::Overview,
        }
    }

    /// The tab to the left; the last one before the first.
    pub open spec fn preceding(self) -> Tab {
        match self {
            Tab::Overview => Tab::Network,
            Tab::Processes => Tab::Overview,
            Tab::Services => Tab::Processes,
            Tab::Logs => Tab::Services,
            Tab::Network => Tab::Logs,
        }
    }

    pub fn next(self) -> (tab: Tab)
        ensures
            tab == self.following(),
            tab.place() == (self.place() + 1) % 5,
    {
        match self {
            Tab::Overview => Tab::Processes,
            Tab::Processes => Tab::Services,
            Tab::Services => Tab::Logs,
            Tab::Logs => Tab::Network,
            Tab::Network => Tab::Overview,
        }
    }

    pub fn previous(self) -> (tab: Tab)
        ensures
            tab == self.preceding(),
            tab.place() == (self.place() + 4) % 5,
    {
        match self {
            Tab::Overview => Tab::Network,
            Tab::Processes => Tab::Overview,
            Tab::Services => Tab::Processes,
            Tab::Logs => Tab::Services,
            Tab::Network => Tab::Logs,
        }
    }
}

/// One step to the right and one to the left lead back to where one was.
pub proof fn lemma_tabs_step_back(tab: Tab)
    ensures
        tab.following().preceding() == tab,
        tab.preceding().following() == tab,
{
}

/// Five steps in one direction go round once.
pub proof fn lemma_tabs_wrap(tab: Tab)
    ensures
        tab.following().following().following().following().following() == tab,
        tab.preceding().preceding().preceding().preceding().preceding() == tab,
{
}

} // verus!
