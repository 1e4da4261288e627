//! The Processes screen.
use vstd::prelude::*;

use crate::action::{MouseTarget, PinMove, ProcessSortField, SignalConfirmButton, Tab};
use crate::app::App;
use crate::app::process_table::{PinOutcome, TableState};
use crate::app::scroll::Step;
use crate::app::state;
use crate::app::state::{AppState, Overlay, ProcessSignalConfirmation};
use crate::likeness;
use crate::linux::process;
use crate::linux::process::{
    ProcessIdentity, ProcessInfo, ProcessSignal, ProcessSignalError, ProcessSnapshot,
    ProcessSummary,
};
use crate::numerals;
use crate::numerals::to_decimal;
use crate::text::{is_control, same_text};
use crate::time::Nanos;

verus! {


impl App {
    /// Takes the mouse off a row that is gone.
    fn reconcile_hovered_process(&mut self)
        ensures
            final(self)@ == (AppState { hovered: old(self)@.hovered_process(), ..old(self)@ }),
            final(self).table == old(self).table,
            old(self).wf() ==> final(self).wf(),
    {
        proof {
            reveal(App::model);
            reveal(App::wf);
        }
        let gone = match &self.hovered {
            Some(MouseTarget::ProcessRow(identity)) => self.table.row_position(*identity).is_none(),
            _ => false,
        };
        if gone {
            self.hovered = None;
        }
    }

    fn process_error_known(&self, error: &String) -> (known: bool)
        ensures
            known == (self@.process_error == Some(error@)),
    {
        proof {
            reveal(App::model);
        }
        match &self.process_error {
            Some(previous) => same_text(previous.as_str(), error.as_str()),
            None => false,
        }
    }

    fn note_process_error(&mut self, error: String)
        requires
            old(self).wf(),
        ensures
            final(self)@ == (AppState { process_error: Some(error@), ..old(self)@ }),
            final(self).wf(),
    {
        proof {
            reveal(App::model);
            reveal(App::wf);
        }
        self.process_error = Some(error);
    }

    /// A listing says nothing new, and there is no error to clear.
    fn process_listing_known(&self, processes: &Vec<ProcessInfo>) -> (known: bool)
        ensures
            known == (self@.process_error is None && likeness::all_same(self@.table.processes, processes@)),
    {
        proof {
            reveal(App::model);
        }
        self.process_error.is_none() && self.table.lists_the_same(processes)
    }

    /// A listing changes what the Overview shows of the processes.
    fn overview_changes(&self, summary: ProcessSummary) -> (changes: bool)
        ensures
            changes == (self@.active_tab == Tab::Overview && (self@.table.summary != summary
                || self@.process_error is Some)),
    {
        proof {
            reveal(App::model);
        }
        self.active_tab == Tab::Overview && (self.table.summary() != summary
            || self.process_error.is_some())
    }

    pub(super) fn update_processes(&mut self, snapshot: ProcessSnapshot) -> (redraw: bool)
        requires
            old(self).wf(),
        ensures
            final(self)@ == old(self)@.processes_updated(snapshot).0,
            redraw == old(self)@.processes_updated(snapshot).1,
            final(self).wf(),
    {
        let tab = self.active_tab();
        let summary = snapshot.summary();
        let processes = snapshot.processes;
        if let Some(error) = snapshot.error {
            if self.process_error_known(&error) {
                return false;
            }
            self.note_process_error(error);
            return matches!(tab, Tab::Processes | Tab::Overview);
        }
        if self.process_listing_known(&processes) {
            return false;
        }
        if tab == Tab::Processes {
            self.show_processes(processes, summary);
            true
        } else {
            let redraw = self.overview_changes(summary);
            self.keep_processes(processes, summary);
            redraw
        }
    }

    /// Takes over a listing while the table is hidden.
    fn keep_processes(&mut self, processes: Vec<ProcessInfo>, summary: ProcessSummary)
        requires
            old(self).wf(),
            old(self)@.active_tab != Tab::Processes,
            summary == process::summarized(processes@),
        ensures
            final(self)@ == old(self)@.processes_kept(processes@),
            final(self).wf(),
    {
        proof {
            reveal(App::model);
            reveal(App::wf);
        }
        proof {
            reveal(AppState::processes_kept);
        }
        self.table.replace_hidden(processes, summary);
        self.process_error = None;
        self.close_confirmation_for_exited_process();
    }

    /// Takes over a listing while the table is shown.
    fn show_processes(&mut self, processes: Vec<ProcessInfo>, summary: ProcessSummary)
        requires
            old(self).wf(),
            summary == process::summarized(processes@),
        ensures
            final(self)@ == old(self)@.processes_shown(processes@),
            final(self).wf(),
    {
        proof {
            reveal(App::model);
            reveal(App::wf);
        }
        proof {
            reveal(AppState::processes_shown);
        }
        let kept = self.replace_table(processes, summary);
        self.close_confirmation_for_exited_process();
        let stays = kept && self.table.selected_process().is_some();
        self.close_process_detail(stays);
    }

    /// Puts a listing into the table. Returns whether the selection is still listed.
    fn replace_table(&mut self, processes: Vec<ProcessInfo>, summary: ProcessSummary) -> (kept: bool)
        requires
            old(self).wf(),
            summary == process::summarized(processes@),
        ensures
            final(self)@ == (AppState { process_error: None, ..old(self)@ }).with_table(
                old(self)@.table.replaced(processes@),
            ),
            kept == (old(self)@.table.selected is Some && final(self)@.table.row_of(
                old(self)@.table.selected->0,
            ) is Some),
            final(self).wf(),
    {
        proof {
            reveal(App::model);
            reveal(App::wf);
        }
        let kept = self.table.replace(processes, summary);
        self.process_error = None;
        self.reconcile_hovered_process();
        kept
    }

    /// Closes the details of a process that is gone.
    fn close_process_detail(&mut self, stays: bool)
        ensures
            final(self)@ == old(self)@.closed(
                (old(self)@.overlay matches Some(Overlay::ProcessDetail)) && !stays,
            ),
            final(self).table == old(self).table,
            old(self).wf() ==> final(self).wf(),
    {
        proof {
            reveal(App::model);
            reveal(App::wf);
        }
        if !stays && matches!(self.overlay, Some(Overlay::ProcessDetail)) {
            self.overlay = None;
        }
    }

    /// Calls a signal off whose process is gone.
    fn close_confirmation_for_exited_process(&mut self)
        ensures
            final(self)@ == old(self)@.exit_noticed(),
            final(self).table == old(self).table,
            old(self).wf() ==> final(self).wf(),
    {
        proof {
            reveal(App::model);
            reveal(App::wf);
        }
        let message = match &self.overlay {
            Some(Overlay::ProcessSignal(confirmation)) => {
                if self.table.lists(confirmation.identity) {
                    return ;
                }
                let mut message = String::from_str("Process ");
                message.append(confirmation.name.as_str());
                message.append(" (");
                message.append(to_decimal(confirmation.identity.pid as u64).as_str());
                message.append(") exited before signal");
                message
            },
            _ => {
                return ;
            },
        };
        self.overlay = None;
        self.process_action_message = Some(message);
    }

    /// Searches the table for another query.
    fn search_processes(&mut self, query: String)
        requires
            old(self).wf(),
        ensures
            final(self)@ == old(self)@.with_table(old(self)@.table.searched(query@)),
            final(self).wf(),
    {
        proof {
            reveal(App::model);
            reveal(App::wf);
        }
        self.table.search(query);
        self.reconcile_hovered_process();
    }

    pub(super) fn begin_process_search(&mut self) -> (redraw: bool)
        requires
            old(self).wf(),
        ensures
            (final(self)@, redraw) == old(self)@.process_search_begun(),
            final(self).wf(),
    {
        proof {
            reveal(App::model);
            reveal(App::wf);
        }
        if self.active_tab == Tab::Processes {
            self.process_searching = true;
            self.process_action_message = None;
            let query = String::new();
            assert(query@ =~= Seq::empty());
            self.search_processes(query);
            true
        } else {
            false
        }
    }

    pub(super) fn append_process_search(&mut self, character: char) -> (redraw: bool)
        requires
            old(self).wf(),
        ensures
            (final(self)@, redraw) == old(self)@.process_search_extended(character),
            final(self).wf(),
    {
        proof {
            reveal(App::model);
            reveal(App::wf);
        }
        if self.process_searching && !is_control(character) {
            let mut query = String::from_str(self.table.query());
            query.push(character);
            self.search_processes(query);
            true
        } else {
            false
        }
    }

    pub(super) fn backspace_process_search(&mut self) -> (redraw: bool)
        requires
            old(self).wf(),
        ensures
            (final(self)@, redraw) == old(self)@.process_search_shortened(),
            final(self).wf(),
    {
        proof {
            reveal(App::model);
            reveal(App::wf);
        }
        if !self.process_searching {
            return false;
        }
        let mut query = String::from_str(self.table.query());
        match query.pop() {
            Some(_) => {
                self.search_processes(query);
                true
            },
            None => false,
        }
    }

    /// Lists every process again.
    pub(super) fn clear_process_search(&mut self)
        requires
            old(self).wf(),
        ensures
            final(self)@ == (AppState { process_searching: false, ..old(self)@ }).with_table(
                (TableState { query: Seq::empty(), ..old(self)@.table }).rebuilt(),
            ),
            final(self).wf(),
    {
        proof {
            reveal(App::model);
            reveal(App::wf);
        }
        self.process_searching = false;
        self.table.clear_search();
        self.reconcile_hovered_process();
    }

    pub(super) fn move_process_selection(&mut self, step: Step) -> (redraw: bool)
        requires
            old(self).wf(),
        ensures
            (final(self)@, redraw) == old(self)@.with_selection(old(self)@.table.stepped(step)),
            final(self).wf(),
    {
        proof {
            reveal(App::model);
            reveal(App::wf);
        }
        if self.active_tab == Tab::Processes {
            self.table.step_selection(step)
        } else {
            false
        }
    }

    pub(super) fn select_process_index(&mut self, index: usize) -> (redraw: bool)
        requires
            old(self).wf(),
        ensures
            (final(self)@, redraw) == old(self)@.with_selection(
                old(self)@.table.selected_at(index as int),
            ),
            final(self).wf(),
    {
        proof {
            reveal(App::model);
            reveal(App::wf);
        }
        if self.active_tab == Tab::Processes {
            self.table.select_index(index)
        } else {
            false
        }
    }

    pub(super) fn select_process(&mut self, identity: ProcessIdentity) -> (redraw: bool)
        requires
            old(self).wf(),
        ensures
            (final(self)@, redraw) == old(self)@.process_selected(identity),
            final(self).wf(),
    {
        proof {
            reveal(App::model);
            reveal(App::wf);
        }
        match self.table.row_position(identity) {
            Some(row) => self.select_process_index(row),
            None => false,
        }
    }

    pub(super) fn open_process_details(&mut self) -> (redraw: bool)
        requires
            old(self).wf(),
        ensures
            (final(self)@, redraw) == old(self)@.process_details_opened(),
            final(self).wf(),
    {
        proof {
            reveal(App::model);
            reveal(App::wf);
        }
        if self.active_tab == Tab::Processes && self.table.selected_process().is_some() {
            self.process_searching = false;
            self.overlay = Some(Overlay::ProcessDetail);
            self.hovered = None;
            true
        } else {
            false
        }
    }

    pub(super) fn request_process_signal(&mut self, signal: ProcessSignal) -> (redraw: bool)
        requires
            old(self).wf(),
        ensures
            (final(self)@, redraw) == old(self)@.signal_requested(signal),
            final(self).wf(),
    {
        proof {
            reveal(App::model);
            reveal(App::wf);
        }
        if self.active_tab != Tab::Processes {
            return false;
        }
        let confirmation = match self.table.selected_process() {
            Some(process) => ProcessSignalConfirmation {
                identity: process.identity(),
                name: process.name.clone(),
                signal,
                focused_button: SignalConfirmButton::Cancel,
            },
            None => {
                return false;
            },
        };
        self.process_searching = false;
        self.process_action_message = None;
        self.overlay = Some(Overlay::ProcessSignal(confirmation));
        self.hovered = None;
        true
    }

    /// Removes and returns the signal confirmation, leaving any other overlay open.
    fn take_process_signal_confirmation(&mut self) -> (taken: Option<ProcessSignalConfirmation>)
        ensures
            final(self)@ == (AppState {
                overlay: if taken is Some {
                    None
                } else {
                    old(self)@.overlay
                },
                ..old(self)@
            }),
            match old(self)@.overlay {
                Some(Overlay::ProcessSignal(confirmation)) => taken == Some(confirmation),
                _ => taken is None,
            },
            final(self).table == old(self).table,
            old(self).wf() ==> final(self).wf(),
    {
        proof {
            reveal(App::model);
            reveal(App::wf);
        }
        match self.overlay.take() {
            Some(Overlay::ProcessSignal(confirmation)) => Some(confirmation),
            other => {
                self.overlay = other;
                None
            },
        }
    }

    pub(super) fn cancel_process_signal(&mut self) -> (redraw: bool)
        requires
            old(self).wf(),
        ensures
            (final(self)@, redraw) == old(self)@.signal_cancelled(),
            final(self).wf(),
    {
        proof {
            reveal(App::model);
            reveal(App::wf);
        }
        if self.take_process_signal_confirmation().is_some() {
            self.hovered = None;
            true
        } else {
            false
        }
    }

    pub(super) fn focus_process_signal(&mut self, button: SignalConfirmButton) -> (redraw: bool)
        requires
            old(self).wf(),
        ensures
            (final(self)@, redraw) == old(self)@.signal_focused(button),
            final(self).wf(),
    {
        proof {
            reveal(App::model);
            reveal(App::wf);
        }
        match self.take_process_signal_confirmation() {
            Some(confirmation) => {
                let changed = confirmation.focused_button != button;
                self.overlay = Some(
                    Overlay::ProcessSignal(
                        ProcessSignalConfirmation {
                            identity: confirmation.identity,
                            name: confirmation.name,
                            signal: confirmation.signal,
                            focused_button: button,
                        },
                    ),
                );
                changed
            },
            None => false,
        }
    }

    pub(super) fn toggle_process_signal_focus(&mut self) -> (redraw: bool)
        requires
            old(self).wf(),
        ensures
            (final(self)@, redraw) == old(self)@.signal_focus_toggled(),
            final(self).wf(),
    {
        proof {
            reveal(App::model);
            reveal(App::wf);
        }
        let button = match &self.overlay {
            Some(Overlay::ProcessSignal(confirmation)) => match confirmation.focused_button {
                SignalConfirmButton::Cancel => SignalConfirmButton::Confirm,
                SignalConfirmButton::Confirm => SignalConfirmButton::Cancel,
            },
            _ => {
                return false;
            },
        };
        self.focus_process_signal(button)
    }

    /// Hands the confirmed signal over to be sent.
    pub(super) fn confirm_process_signal(&mut self) -> (redraw: bool)
        requires
            old(self).wf(),
        ensures
            (final(self)@, redraw) == old(self)@.signal_confirmed(),
            final(self).wf(),
    {
        proof {
            reveal(App::model);
            reveal(App::wf);
        }
        match self.take_process_signal_confirmation() {
            Some(confirmation) => {
                self.hovered = None;
                self.signal_request = Some(confirmation);
                true
            },
            None => false,
        }
    }

    pub(super) fn execute_focused_process_signal(&mut self) -> (redraw: bool)
        requires
            old(self).wf(),
        ensures
            (final(self)@, redraw) == old(self)@.focused_signal_executed(),
            final(self).wf(),
    {
        proof {
            reveal(App::model);
            reveal(App::wf);
        }
        let button = match &self.overlay {
            Some(Overlay::ProcessSignal(confirmation)) => confirmation.focused_button,
            _ => {
                return false;
            },
        };
        match button {
            SignalConfirmButton::Cancel => self.cancel_process_signal(),
            SignalConfirmButton::Confirm => self.confirm_process_signal(),
        }
    }

    /// The confirmed signal that is to be sent now. It is handed out once.
    pub fn take_signal_request(&mut self) -> (request: Option<ProcessSignalConfirmation>)
        requires
            old(self).wf(),
        ensures
            request == old(self)@.signal_request,
            final(self)@ == (AppState { signal_request: None, ..old(self)@ }),
            final(self).wf(),
    {
        proof {
            reveal(App::model);
            reveal(App::wf);
        }
        self.signal_request.take()
    }

    /// Tells the user what came of a signal.
    pub fn finish_process_signal(
        &mut self,
        confirmation: ProcessSignalConfirmation,
        result: Result<(), ProcessSignalError>,
    ) -> (redraw: bool)
        requires
            old(self).wf(),
        ensures
            final(self)@ == old(self)@.signal_finished(confirmation, result),
            redraw,
            final(self).wf(),
    {
        proof {
            reveal(App::model);
            reveal(App::wf);
        }
        self.hovered = None;
        self.process_action_message = Some(describe_signal(&confirmation, result));
        true
    }

    pub(super) fn sort_processes(&mut self, field: ProcessSortField) -> (redraw: bool)
        requires
            old(self).wf(),
        ensures
            (final(self)@, redraw) == old(self)@.processes_sorted(field),
            final(self).wf(),
    {
        proof {
            reveal(App::model);
            reveal(App::wf);
        }
        if self.active_tab == Tab::Processes {
            self.table.sort_by(field);
            self.reconcile_hovered_process();
            true
        } else {
            false
        }
    }

    pub(super) fn toggle_selected_pin(&mut self) -> (redraw: bool)
        requires
            old(self).wf(),
        ensures
            (final(self)@, redraw) == old(self)@.pin_toggled(),
            final(self).wf(),
    {
        proof {
            reveal(App::model);
            reveal(App::wf);
        }
        if self.active_tab != Tab::Processes {
            return false;
        }
        match self.table.toggle_pin() {
            PinOutcome::Changed => {
                self.reconcile_hovered_process();
                true
            },
            PinOutcome::LimitReached => {
                self.process_action_message = Some(String::from_str("Pin limit (8) reached"));
                true
            },
            PinOutcome::Nothing => false,
        }
    }

    /// Drops exited pins that have been shown long enough. Returns whether any was.
    pub(super) fn expire_exited_pins(&mut self, now: Nanos) -> (dropped: bool)
        requires
            old(self).wf(),
        ensures
            final(self)@ == old(self)@.pins_expired(now),
            dropped == (old(self)@.table.expired(now).pinned.len() != old(
                self)@.table.pinned.len()),
            final(self).wf(),
    {
        proof {
            reveal(App::model);
            reveal(App::wf);
        }
        let dropped = self.table.expire_exited_pins(now);
        assert(self@ == (AppState { table: old(self)@.table.expired(now), ..old(self)@ }));
        if dropped {
            self.reconcile_hovered_process();
        }
        dropped
    }

    /// Moves a pinned process one place within the pinned section.
    pub(super) fn move_pin(&mut self, identity: ProcessIdentity, direction: PinMove) -> (redraw:
        bool)
        requires
            old(self).wf(),
        ensures
            (final(self)@, redraw) == old(self)@.pin_moved(identity, direction),
            final(self).wf(),
    {
        proof {
            reveal(App::model);
            reveal(App::wf);
        }
        if self.active_tab == Tab::Processes && self.table.move_pin(identity, direction) {
            self.reconcile_hovered_process();
            true
        } else {
            false
        }
    }
}

/// The process that a signal is for, as the user reads it.
fn describe_process(confirmation: &ProcessSignalConfirmation) -> (text: String)
    ensures
        text@ == confirmation.name@ + " ("@ + numerals::decimal(confirmation.identity.pid as nat)
            + ")"@,
{
    let mut text = confirmation.name.clone();
    text.append(" (");
    text.append(to_decimal(confirmation.identity.pid as u64).as_str());
    text.append(")");
    text
}

fn describe_signal(
    confirmation: &ProcessSignalConfirmation,
    result: Result<(), ProcessSignalError>,
) -> (text: String)
    ensures
        text@ == state::signal_report(*confirmation, result),
{
    let signal = confirmation.signal.name();
    let process = describe_process(confirmation);
    let mut text = String::from_str(
        match result {
            Ok(()) => "Sent ",
            Err(ProcessSignalError::StaleIdentity) => "Refused to send ",
            _ => "Failed to send ",
        },
    );
    text.append(signal);
    match result {
        Ok(()) => {
            text.append(" to ");
            text.append(process.as_str());
        },
        Err(ProcessSignalError::ProcessNotFound) => {
            text.append(": process ");
            text.append(process.as_str());
            text.append(" not found");
        },
        Err(ProcessSignalError::StaleIdentity) => {
            text.append(": PID ");
            text.append(to_decimal(confirmation.identity.pid as u64).as_str());
            text.append(" was reused");
        },
        Err(ProcessSignalError::PermissionDenied) => {
            text.append(": permission denied for ");
            text.append(process.as_str());
        },
        Err(ProcessSignalError::Unsupported) => {
            text.append(": pidfd signaling is not supported");
        },
        Err(ProcessSignalError::Failed(error)) => {
            text.append(" to ");
            text.append(process.as_str());
            text.append(": ");
            text.append(error.as_str());
        },
    }
    text
}

} // verus!
