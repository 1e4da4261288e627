//! The Logs screen.
use vstd::prelude::*;

use crate::action::{MouseTarget, Tab};
use crate::app::App;
use crate::app::list::Key;
use crate::app::scroll::Step;
use crate::app::state::{AppState, Overlay, LOG_BUFFER_CAPACITY};
use crate::linux::journal::{JournalBatch, JournalEntry};
use crate::text;
use crate::text::{is_control, same_text};

verus! {

impl App {
    /// Takes the mouse off a row that is gone.
    fn reconcile_hovered_log(&mut self)
        ensures
            final(self)@ == (AppState { hovered: old(self)@.hovered_log(), ..old(self)@ }),
            old(self).wf() ==> final(self).wf(),
    {
        proof {
            reveal(App::model);
            reveal(App::wf);
        }
        let gone = match &self.hovered {
            Some(MouseTarget::LogRow(id)) => self.logs.row_of(&Key::Number(*id)).is_none(),
            _ => false,
        };
        if gone {
            self.hovered = None;
        }
    }

    fn log_moves(&self) -> (moves: bool)
        ensures
            moves == self@.log_moves(),
    {
        proof {
            reveal(App::model);
            reveal(App::wf);
        }
        self.log_following && !self.log_paused
    }

    /// Closes the details of an entry that is gone and takes the mouse off its row.
    fn follow_up_logs(&mut self, lost: bool)
        ensures
            final(self)@ == (AppState { hovered: old(self)@.hovered_log(), ..old(self)@ }).closed(
                lost && (old(self)@.overlay matches Some(Overlay::LogDetail)),
            ),
            old(self).wf() ==> final(self).wf(),
    {
        proof {
            reveal(App::model);
            reveal(App::wf);
        }
        if lost && matches!(self.overlay, Some(Overlay::LogDetail)) {
            self.overlay = None;
        }
        self.reconcile_hovered_log();
    }

    /// Adds entries, the oldest making room.
    fn append_logs(&mut self, entries: Vec<JournalEntry>)
        requires
            old(self).wf(),
        ensures
            final(self)@ == old(self)@.with_logs(
                old(self)@.logs.appended(
                    entries@,
                    LOG_BUFFER_CAPACITY as int,
                    old(self)@.log_moves(),
                ),
            ),
            final(self).wf(),
    {
        proof {
            reveal(App::model);
            reveal(App::wf);
        }
        let follow = self.log_moves();
        let lost = self.logs.append(entries, LOG_BUFFER_CAPACITY, follow);
        self.follow_up_logs(lost);
    }

    /// Counts what was dropped and notes what went wrong.
    fn note_log_trouble(&mut self, dropped: usize, error: Option<String>) -> (changed: bool)
        requires
            old(self).wf(),
        ensures
            final(self)@ == old(self)@.log_trouble_noted(dropped, text::optional_view(error)),
            changed == (dropped > 0 || (error is Some && old(self)@.log_error != Some(
                error->0@,
            ))),
            final(self).wf(),
    {
        proof {
            reveal(App::model);
            reveal(App::wf);
        }
        let mut changed = false;
        if dropped > 0 {
            self.log_dropped = self.log_dropped.saturating_add(dropped);
            changed = true;
        }
        if let Some(error) = error {
            let known = match &self.log_error {
                Some(previous) => same_text(previous.as_str(), error.as_str()),
                None => false,
            };
            if !known {
                self.log_error = Some(error);
                changed = true;
            }
        }
        changed
    }

    pub(super) fn update_logs(&mut self, batch: JournalBatch) -> (redraw: bool)
        requires
            old(self).wf(),
        ensures
            final(self)@ == old(self)@.logs_updated(batch).0,
            redraw == old(self)@.logs_updated(batch).1,
            final(self).wf(),
    {
        proof {
            reveal(App::model);
            reveal(App::wf);
        }
        let visible = self.active_tab == Tab::Logs;
        let entries = batch.entries;
        let changed = self.note_log_trouble(batch.dropped, batch.error);
        if entries.len() == 0 {
            return changed && visible;
        }
        self.append_logs(entries);
        visible
    }

    /// Searches the entries for another query.
    pub(super) fn search_logs(&mut self, query: String)
        requires
            old(self).wf(),
        ensures
            final(self)@ == old(self)@.with_logs(
                old(self)@.logs.searched_following(query@, old(self)@.log_moves()),
            ),
            final(self).wf(),
    {
        proof {
            reveal(App::model);
            reveal(App::wf);
        }
        let follow = self.log_moves();
        let lost = self.logs.search_following(query, follow);
        self.follow_up_logs(lost);
    }

    pub(super) fn begin_log_search(&mut self) -> (redraw: bool)
        requires
            old(self).wf(),
        ensures
            (final(self)@, redraw) == old(self)@.log_search_begun(),
            final(self).wf(),
    {
        proof {
            reveal(App::model);
            reveal(App::wf);
        }
        if self.active_tab == Tab::Logs {
            self.log_searching = true;
            let query = String::new();
            assert(query@ =~= Seq::empty());
            self.search_logs(query);
            true
        } else {
            false
        }
    }

    pub(super) fn append_log_search(&mut self, character: char) -> (redraw: bool)
        requires
            old(self).wf(),
        ensures
            (final(self)@, redraw) == old(self)@.log_search_extended(character),
            final(self).wf(),
    {
        proof {
            reveal(App::model);
            reveal(App::wf);
        }
        if self.log_searching && !is_control(character) {
            let mut query = String::from_str(self.logs.query());
            query.push(character);
            self.search_logs(query);
            true
        } else {
            false
        }
    }

    pub(super) fn backspace_log_search(&mut self) -> (redraw: bool)
        requires
            old(self).wf(),
        ensures
            (final(self)@, redraw) == old(self)@.log_search_shortened(),
            final(self).wf(),
    {
        proof {
            reveal(App::model);
            reveal(App::wf);
        }
        if !self.log_searching {
            return false;
        }
        let mut query = String::from_str(self.logs.query());
        match query.pop() {
            Some(_) => {
                self.search_logs(query);
                true
            },
            None => false,
        }
    }

    pub(super) fn select_log_index(&mut self, index: usize) -> (redraw: bool)
        requires
            old(self).wf(),
        ensures
            (final(self)@, redraw) == old(self)@.log_row_selected(index as int),
            final(self).wf(),
    {
        proof {
            reveal(App::model);
            reveal(App::wf);
        }
        if self.active_tab != Tab::Logs {
            return false;
        }
        let was_following = self.log_following;
        self.log_following = false;
        let changed = self.logs.select_row(index);
        changed || was_following
    }

    pub(super) fn move_log_selection(&mut self, step: Step) -> (redraw: bool)
        requires
            old(self).wf(),
        ensures
            (final(self)@, redraw) == old(self)@.log_stepped(step),
            final(self).wf(),
    {
        proof {
            reveal(App::model);
            reveal(App::wf);
        }
        if self.logs.row_count() == 0 {
            return false;
        }
        let row: usize = self.logs.step_target(step);
        self.select_log_index(row)
    }

    pub(super) fn select_log(&mut self, id: u64) -> (redraw: bool)
        requires
            old(self).wf(),
        ensures
            (final(self)@, redraw) == old(self)@.log_selected(id),
            final(self).wf(),
    {
        proof {
            reveal(App::model);
            reveal(App::wf);
        }
        match self.logs.row_of(&Key::Number(id)) {
            Some(row) => self.select_log_index(row),
            None => false,
        }
    }

    pub(super) fn open_log_details(&mut self) -> (redraw: bool)
        requires
            old(self).wf(),
        ensures
            (final(self)@, redraw) == old(self)@.log_details_opened(),
            final(self).wf(),
    {
        proof {
            reveal(App::model);
            reveal(App::wf);
        }
        if self.active_tab == Tab::Logs && self.logs.selected_item().is_some() {
            self.log_searching = false;
            self.overlay = Some(Overlay::LogDetail);
            self.hovered = None;
            true
        } else {
            false
        }
    }

    /// Selects the last entry, if new entries move the selection now.
    fn catch_up(&mut self)
        requires
            old(self).wf(),
        ensures
            final(self)@ == old(self)@.caught_up(),
            final(self).wf(),
    {
        proof {
            reveal(App::model);
            reveal(App::wf);
        }
        if self.log_moves() {
            let rows: usize = self.logs.row_count();
            let last: usize = if rows > 0 {
                rows - 1
            } else {
                0
            };
            self.logs.select_row(last);
        }
    }

    pub(super) fn toggle_log_follow(&mut self) -> (redraw: bool)
        requires
            old(self).wf(),
        ensures
            (final(self)@, redraw) == old(self)@.log_follow_toggled(),
            final(self).wf(),
    {
        proof {
            reveal(App::model);
            reveal(App::wf);
        }
        if self.active_tab != Tab::Logs {
            return false;
        }
        self.log_following = !self.log_following;
        self.catch_up();
        true
    }

    pub(super) fn toggle_log_pause(&mut self) -> (redraw: bool)
        requires
            old(self).wf(),
        ensures
            (final(self)@, redraw) == old(self)@.log_pause_toggled(),
            final(self).wf(),
    {
        proof {
            reveal(App::model);
            reveal(App::wf);
        }
        if self.active_tab != Tab::Logs {
            return false;
        }
        self.log_paused = !self.log_paused;
        self.catch_up();
        true
    }
}

} // verus!
