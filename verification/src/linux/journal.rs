//! The system journal.
use vstd::prelude::*;

verus! {

broadcast use vstd::string::group_string_axioms;

#[derive(Debug, Clone, PartialEq, Eq)]
pub struct JournalEntry {
    pub id: u64,
    pub timestamp_micros: Option<u64>,
    pub source: String,
    pub priority: Option<u8>,
    pub message: String,
}

#[derive(Debug, Clone, PartialEq, Eq)]
pub struct JournalBatch {
    pub entries: Vec<JournalEntry>,
    pub dropped: usize,
    pub error: Option<String>,
}

impl Default for JournalBatch {
    fn default() -> (empty: JournalBatch)
        ensures
            empty.entries@.len() == 0,
            empty.dropped == 0,
            empty.error is None,
    {
        JournalBatch {
            entries: Vec::new(),
            dropped: 0,
            error: None,
        }
    }
}

/// The name of a severity.
pub open spec fn priority_name(priority: Option<u8>) -> Seq<char> {
    match priority {
        Some(0) => "emerg"@,
        Some(1) => "alert"@,
        Some(2) => "crit"@,
        Some(3) => "error"@,
        Some(4) => "warn"@,
        Some(5) => "notice"@,
        Some(6) => "info"@,
        Some(7) => "debug"@,
        _ => "-"@,
    }
}

pub fn priority_label(priority: Option<u8>) -> (label: &'static str)
    ensures
        label@ == priority_name(priority),
{
    match priority {
        Some(0) => "emerg",
        Some(1) => "alert",
        Some(2) => "crit",
        Some(3) => "error",
        Some(4) => "warn",
        Some(5) => "notice",
        Some(6) => "info",
        Some(7) => "debug",
        _ => "-",
    }
}

impl JournalEntry {
    pub fn priority_label(&self) -> (label: &'static str)
        ensures
            label@ == priority_name(self.priority),
    {
        priority_label(self.priority)
    }
}

} // verus!
