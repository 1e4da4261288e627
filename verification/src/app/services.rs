//! The Services screen.
use vstd::prelude::*;

use crate::action::{MouseTarget, Tab};
use crate::app::App;
use crate::app::list::Key;
use crate::app::scroll::Step;
use crate::app::state::{AppState, Overlay};
use crate::likeness;
use crate::likeness::all_equal;
use crate::linux::service::{ServiceInfo, ServiceRefreshGeneration, ServiceSnapshot};
use crate::text::{is_control, same_text};

verus! {

impl App {
    /// Takes the mouse off a row that is gone.
    fn reconcile_hovered_service(&mut self)
        ensures
            final(self)@ == (AppState { hovered: old(self)@.hovered_service(), ..old(self)@ }),
            old(self).wf() ==> final(self).wf(),
    {
        proof {
            reveal(App::model);
            reveal(App::wf);
        }
        let gone = match &self.hovered {
            Some(MouseTarget::ServiceRow(unit)) => self.services.row_of(
                &Key::Name(unit.clone()),
            ).is_none(),
            _ => false,
        };
        if gone {
            self.hovered = None;
        }
    }

    /// Notes that the refresh that was asked for is done.
    fn complete_refresh(&mut self, completed: ServiceRefreshGeneration) -> (done: bool)
        requires
            old(self).wf(),
        ensures
            done == (old(self)@.refresh_pending is Some && completed >= old(
                self)@.refresh_pending->0),
            final(self)@ == (AppState {
                refresh_pending: if done {
                    None
                } else {
                    old(self)@.refresh_pending
                },
                ..old(self)@
            }),
            final(self).wf(),
    {
        proof {
            reveal(App::model);
            reveal(App::wf);
        }
        match self.pending_service_refresh_generation {
            Some(pending) => if completed >= pending {
                self.pending_service_refresh_generation = None;
                true
            } else {
                false
            },
            None => false,
        }
    }

    /// Takes over a listing.
    fn replace_services(&mut self, services: Vec<ServiceInfo>)
        requires
            old(self).wf(),
        ensures
            final(self)@ == old(self)@.services_replaced(services@),
            final(self).wf(),
    {
        proof {
            reveal(App::model);
            reveal(App::wf);
        }
        proof {
            reveal(AppState::services_replaced);
        }
        let kept = self.services.replace_and_rebuild(services);
        self.service_error = None;
        self.reconcile_hovered_service();
        self.close_service_detail(kept);
    }

    fn close_service_detail(&mut self, stays: bool)
        ensures
            final(self)@ == old(self)@.closed(
                !stays && (old(self)@.overlay matches Some(Overlay::ServiceDetail)),
            ),
            old(self).wf() ==> final(self).wf(),
    {
        proof {
            reveal(App::model);
            reveal(App::wf);
        }
        if !stays && matches!(self.overlay, Some(Overlay::ServiceDetail)) {
            self.overlay = None;
        }
    }

    fn service_error_known(&self, error: &String) -> (known: bool)
        ensures
            known == (self@.service_error == Some(error@)),
    {
        proof {
            reveal(App::model);
        }
        match &self.service_error {
            Some(previous) => same_text(previous.as_str(), error.as_str()),
            None => false,
        }
    }

    fn note_service_error(&mut self, error: String)
        requires
            old(self).wf(),
        ensures
            final(self)@ == (AppState { service_error: Some(error@), ..old(self)@ }),
            final(self).wf(),
    {
        proof {
            reveal(App::model);
            reveal(App::wf);
        }
        self.service_error = Some(error);
    }

    /// A listing says nothing new, and there is no error to clear.
    fn service_listing_known(&self, services: &Vec<ServiceInfo>) -> (known: bool)
        ensures
            known == (self@.service_error is None && likeness::all_same(self@.services.items, services@)),
    {
        proof {
            reveal(App::model);
        }
        self.service_error.is_none() && all_equal(self.services.items(), services)
    }

    pub(super) fn update_services(&mut self, snapshot: ServiceSnapshot) -> (redraw: bool)
        requires
            old(self).wf(),
        ensures
            final(self)@ == old(self)@.services_updated(snapshot).0,
            redraw == old(self)@.services_updated(snapshot).1,
            final(self).wf(),
    {
        let visible = self.active_tab() == Tab::Services;
        let done = self.complete_refresh(snapshot.completed_refresh_generation);
        let services = snapshot.services;
        if let Some(error) = snapshot.error {
            if self.service_error_known(&error) {
                return done && visible;
            }
            self.note_service_error(error);
            return visible;
        }
        if self.service_listing_known(&services) {
            return done && visible;
        }
        self.replace_services(services);
        visible
    }

    /// Searches the services for another query.
    pub(super) fn search_services(&mut self, query: String)
        requires
            old(self).wf(),
        ensures
            final(self)@ == old(self)@.with_services(old(self)@.services.searched(query@)),
            final(self).wf(),
    {
        proof {
            reveal(App::model);
            reveal(App::wf);
        }
        self.services.search(query);
        self.reconcile_hovered_service();
    }

    pub(super) fn begin_service_search(&mut self) -> (redraw: bool)
        requires
            old(self).wf(),
        ensures
            (final(self)@, redraw) == old(self)@.service_search_begun(),
            final(self).wf(),
    {
        proof {
            reveal(App::model);
            reveal(App::wf);
        }
        if self.active_tab == Tab::Services {
            self.service_searching = true;
            let query = String::new();
            assert(query@ =~= Seq::empty());
            self.search_services(query);
            true
        } else {
            false
        }
    }

    pub(super) fn append_service_search(&mut self, character: char) -> (redraw: bool)
        requires
            old(self).wf(),
        ensures
            (final(self)@, redraw) == old(self)@.service_search_extended(character),
            final(self).wf(),
    {
        proof {
            reveal(App::model);
            reveal(App::wf);
        }
        if self.service_searching && !is_control(character) {
            let mut query = String::from_str(self.services.query());
            query.push(character);
            self.search_services(query);
            true
        } else {
            false
        }
    }

    pub(super) fn backspace_service_search(&mut self) -> (redraw: bool)
        requires
            old(self).wf(),
        ensures
            (final(self)@, redraw) == old(self)@.service_search_shortened(),
            final(self).wf(),
    {
        proof {
            reveal(App::model);
            reveal(App::wf);
        }
        if !self.service_searching {
            return false;
        }
        let mut query = String::from_str(self.services.query());
        match query.pop() {
            Some(_) => {
                self.search_services(query);
                true
            },
            None => false,
        }
    }

    pub(super) fn select_service_index(&mut self, index: usize) -> (redraw: bool)
        requires
            old(self).wf(),
        ensures
            (final(self)@, redraw) == old(self)@.service_row_selected(index as int),
            final(self).wf(),
    {
        proof {
            reveal(App::model);
            reveal(App::wf);
        }
        if self.active_tab == Tab::Services {
            self.services.select_row(index)
        } else {
            false
        }
    }

    pub(super) fn move_service_selection(&mut self, step: Step) -> (redraw: bool)
        requires
            old(self).wf(),
        ensures
            (final(self)@, redraw) == old(self)@.service_stepped(step),
            final(self).wf(),
    {
        proof {
            reveal(App::model);
            reveal(App::wf);
        }
        if self.services.row_count() == 0 {
            return false;
        }
        let row: usize = self.services.step_target(step);
        self.select_service_index(row)
    }

    pub(super) fn select_service(&mut self, unit: String) -> (redraw: bool)
        requires
            old(self).wf(),
        ensures
            (final(self)@, redraw) == old(self)@.service_selected(unit@),
            final(self).wf(),
    {
        proof {
            reveal(App::model);
            reveal(App::wf);
        }
        match self.services.row_of(&Key::Name(unit)) {
            Some(row) => self.select_service_index(row),
            None => false,
        }
    }

    pub(super) fn open_service_details(&mut self) -> (redraw: bool)
        requires
            old(self).wf(),
        ensures
            (final(self)@, redraw) == old(self)@.service_details_opened(),
            final(self).wf(),
    {
        proof {
            reveal(App::model);
            reveal(App::wf);
        }
        if self.active_tab == Tab::Services && self.services.selected_item().is_some() {
            self.service_searching = false;
            self.overlay = Some(Overlay::ServiceDetail);
            self.hovered = None;
            true
        } else {
            false
        }
    }

    pub(super) fn request_service_refresh(&mut self) -> (redraw: bool)
        requires
            old(self).wf(),
        ensures
            (final(self)@, redraw) == old(self)@.refresh_asked(),
            final(self).wf(),
    {
        proof {
            reveal(App::model);
            reveal(App::wf);
        }
        if self.active_tab != Tab::Services {
            return false;
        }
        let generation: ServiceRefreshGeneration = self.service_refresh_generation.saturating_add(
            1,
        );
        let changed = self.pending_service_refresh_generation.is_none();
        self.service_refresh_generation = generation;
        self.service_refresh_requested = Some(generation);
        self.pending_service_refresh_generation = Some(generation);
        changed
    }

    /// The refresh that is to be asked for now. It is handed out once.
    pub fn take_service_refresh_request(&mut self) -> (request: Option<ServiceRefreshGeneration>)
        requires
            old(self).wf(),
        ensures
            request == old(self)@.refresh_requested,
            final(self)@ == (AppState { refresh_requested: None, ..old(self)@ }),
            final(self).wf(),
    {
        proof {
            reveal(App::model);
            reveal(App::wf);
        }
        self.service_refresh_requested.take()
    }
}

} // verus!
