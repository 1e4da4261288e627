//! Processes: what is known of each, signals, and reading `/proc/<pid>`.
use vstd::prelude::*;

use crate::likeness::Likeness;
use crate::number;
use crate::number::{same_optional, Number};
use crate::text;
use crate::text::{copy_optional_text, same_optional_text, same_text};

verus! {

broadcast use vstd::string::group_string_axioms;

#[derive(Debug, Clone, PartialEq)]
pub struct ProcessInfo {
    pub pid: u32,
    pub name: String,
    pub cpu_percent: Option<Number>,
    pub memory_bytes: u64,
    pub command: Option<String>,
    pub state: String,
    pub parent_pid: u32,
    pub state_code: char,
    pub start_time: u64,
}

/// A process told apart from any later one that gets the same PID.
#[derive(Debug, Clone, Copy, PartialEq, Eq, Hash, Structural)]
pub struct ProcessIdentity {
    pub pid: u32,
    pub start_time: u64,
}

impl ProcessInfo {
    pub open spec fn id(self) -> ProcessIdentity {
        ProcessIdentity { pid: self.pid, start_time: self.start_time }
    }

    pub fn identity(&self) -> (identity: ProcessIdentity)
        ensures
            identity == self.id(),
    {
        ProcessIdentity { pid: self.pid, start_time: self.start_time }
    }

    pub fn duplicate(&self) -> (copy: ProcessInfo)
        ensures
            copy == *self,
    {
        ProcessInfo {
            pid: self.pid,
            name: self.name.clone(),
            cpu_percent: self.cpu_percent,
            memory_bytes: self.memory_bytes,
            command: copy_optional_text(&self.command),
            state: self.state.clone(),
            parent_pid: self.parent_pid,
            state_code: self.state_code,
            start_time: self.start_time,
        }
    }
}

impl Likeness for ProcessInfo {
    /// Two readings say the same of a process.
    open spec fn same(self, other: ProcessInfo) -> bool {
        &&& self.pid == other.pid
        &&& self.name@ == other.name@
        &&& number::optional_equals(self.cpu_percent, other.cpu_percent)
        &&& self.memory_bytes == other.memory_bytes
        &&& text::optional_view(self.command) == text::optional_view(other.command)
        &&& self.state@ == other.state@
        &&& self.parent_pid == other.parent_pid
        &&& self.state_code == other.state_code
        &&& self.start_time == other.start_time
    }

    fn equals(&self, other: &ProcessInfo) -> (same: bool) {
        self.pid == other.pid && self.memory_bytes == other.memory_bytes && self.parent_pid
            == other.parent_pid && self.state_code == other.state_code && self.start_time
            == other.start_time && same_optional(self.cpu_percent, other.cpu_percent) && same_text(
            self.name.as_str(),
            other.name.as_str(),
        ) && same_text(self.state.as_str(), other.state.as_str()) && same_optional_text(
            &self.command,
            &other.command,
        )
    }
}

#[derive(Debug, Clone, Copy, PartialEq, Eq, Structural)]
pub enum ProcessSignal {
    Term,
    Kill,
}

impl ProcessSignal {
    pub fn name(self) -> (name: &'static str)
        ensures
            name@ == self.name_text(),
    {
        match self {
            ProcessSignal::Term => "SIGTERM",
            ProcessSignal::Kill => "SIGKILL",
        }
    }

    pub open spec fn name_text(self) -> Seq<char> {
        match self {
            ProcessSignal::Term => "SIGTERM"@,
            ProcessSignal::Kill => "SIGKILL"@,
        }
    }

    /// The name with the signal's number.
    pub fn as_str(self) -> (text: &'static str)
        ensures
            text@ == (match self {
                ProcessSignal::Term => "SIGTERM (15)"@,
                ProcessSignal::Kill => "SIGKILL (9)"@,
            }),
    {
        match self {
            ProcessSignal::Term => "SIGTERM (15)",
            ProcessSignal::Kill => "SIGKILL (9)",
        }
    }
}

/// Why a signal was not delivered.
#[derive(Debug, Clone, PartialEq, Eq)]
pub enum ProcessSignalError {
    ProcessNotFound,
    StaleIdentity,
    PermissionDenied,
    Unsupported,
    Failed(String),
}

#[derive(Debug, Clone, PartialEq)]
pub struct ProcessSnapshot {
    pub processes: Vec<ProcessInfo>,
    pub error: Option<String>,
}

impl Default for ProcessSnapshot {
    fn default() -> (empty: ProcessSnapshot)
        ensures
            empty.processes@.len() == 0,
            empty.error is None,
    {
        ProcessSnapshot {
            processes: Vec::new(),
            error: None,
        }
    }
}

#[derive(Debug, Clone, Copy, PartialEq, Eq, Structural)]
pub struct ProcessSummary {
    pub total: usize,
    pub running: usize,
    pub zombies: usize,
}

impl Default for ProcessSummary {
    fn default() -> (summary: ProcessSummary)
        ensures
            summary == (ProcessSummary { total: 0, running: 0, zombies: 0 }),
    {
        ProcessSummary { total: 0, running: 0, zombies: 0 }
    }
}

/// How many of the processes are in the state `code`.
pub open spec fn count_in_state(processes: Seq<ProcessInfo>, code: char) -> nat
    decreases processes.len(),
{
    if processes.len() == 0 {
        0
    } else {
        count_in_state(processes.drop_last(), code) + if processes.last().state_code == code {
            1nat
        } else {
            0nat
        }
    }
}

/// The counts shown for a listing.
pub open spec fn summarized(processes: Seq<ProcessInfo>) -> ProcessSummary {
    ProcessSummary {
        total: processes.len() as usize,
        running: count_in_state(processes, 'R') as usize,
        zombies: count_in_state(processes, 'Z') as usize,
    }
}

fn count_state(processes: &Vec<ProcessInfo>, code: char) -> (count: usize)
    ensures
        count == count_in_state(processes@, code),
{
    let mut count: usize = 0;
    let mut i: usize = 0;
    assert(processes@.take(0) =~= Seq::empty());
    while i < processes.len()
        invariant
            count <= i <= processes@.len(),
            count == count_in_state(processes@.take(i as int), code),
        decreases processes@.len() - i,
    {
        assert(processes@.take(i + 1).drop_last() =~= processes@.take(i as int));
        if processes[i].state_code == code {
            count += 1;
        }
        i += 1;
    }
    assert(processes@.take(i as int) =~= processes@);
    count
}

impl ProcessSnapshot {
    pub fn summary(&self) -> (summary: ProcessSummary)
        ensures
            summary == summarized(self.processes@),
            summary.total == self.processes@.len(),
            summary.running == count_in_state(self.processes@, 'R'),
            summary.zombies == count_in_state(self.processes@, 'Z'),
    {
        ProcessSummary {
            total: self.processes.len(),
            running: count_state(&self.processes, 'R'),
            zombies: count_state(&self.processes, 'Z'),
        }
    }
}

} // verus!
