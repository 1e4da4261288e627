//! The Network screen.
use vstd::prelude::*;

use crate::action::{MouseTarget, Tab};
use crate::app::App;
use crate::app::history;
use crate::app::interfaces;
use crate::app::interfaces::list_overview_rates;
use crate::app::list::Key;
use crate::app::scroll::Step;
use crate::app::state::{AppState, Overlay};
use crate::likeness;
use crate::likeness::all_equal;
use crate::linux::network::{NetworkInterfaceInfo, NetworkSnapshot};
use crate::number::Number;
use crate::text::same_text;

verus! {

impl App {
    /// Takes the mouse off a row that is gone.
    fn reconcile_hovered_network(&mut self)
        ensures
            final(self)@ == (AppState { hovered: old(self)@.hovered_network(), ..old(self)@ }),
            old(self).wf() ==> final(self).wf(),
    {
        proof {
            reveal(App::model);
            reveal(App::wf);
        }
        let gone = match &self.hovered {
            Some(MouseTarget::NetworkRow(name)) => self.networks.row_of(
                &Key::Name(name.clone()),
            ).is_none(),
            _ => false,
        };
        if gone {
            self.hovered = None;
        }
    }

    /// The rates that make up the Overview's total.
    pub fn overview_rates(&self, interfaces: &Vec<NetworkInterfaceInfo>) -> (rates: Vec<Number>)
        ensures
            rates@ == interfaces::overview_rates(
                interfaces@,
                self@.hardware,
                interfaces@.len() as int,
            ),
    {
        proof {
            reveal(App::model);
            reveal(App::wf);
        }
        list_overview_rates(interfaces, &self.hardware)
    }

    /// Records the total of the Overview's rates. There is nothing to record while no interface
    /// has a rate yet.
    fn record_network_sample(
        &mut self,
        interfaces: &Vec<NetworkInterfaceInfo>,
        total: Option<Number>,
    ) -> (recorded: bool)
        requires
            old(self).wf(),
        ensures
            final(self)@ == old(self)@.rate_recorded(interfaces@, total),
            recorded == (old(self)@.rate_counts(interfaces@, total) && history::recordable(total->0)),
            final(self).wf(),
    {
        proof {
            reveal(App::model);
            reveal(App::wf);
        }
        let rates: Vec<Number> = self.overview_rates(interfaces);
        match total {
            Some(total) => rates.len() > 0 && self.network_history.push(total),
            None => false,
        }
    }

    fn close_network_detail(&mut self, stays: bool)
        ensures
            final(self)@ == old(self)@.closed(
                !stays && (old(self)@.overlay matches Some(Overlay::NetworkDetail)),
            ),
            old(self).wf() ==> final(self).wf(),
    {
        proof {
            reveal(App::model);
            reveal(App::wf);
        }
        if !stays && matches!(self.overlay, Some(Overlay::NetworkDetail)) {
            self.overlay = None;
        }
    }

    /// Takes over a listing.
    fn replace_networks(&mut self, interfaces: Vec<NetworkInterfaceInfo>)
        requires
            old(self).wf(),
        ensures
            final(self)@ == old(self)@.networks_replaced(interfaces@),
            final(self).wf(),
    {
        proof {
            reveal(App::model);
            reveal(App::wf);
        }
        proof {
            reveal(AppState::networks_replaced);
        }
        let kept = self.networks.replace(interfaces);
        self.network_error = None;
        self.reconcile_hovered_network();
        self.close_network_detail(kept);
    }

    fn network_error_known(&self, error: &String) -> (known: bool)
        ensures
            known == (self@.network_error == Some(error@)),
    {
        proof {
            reveal(App::model);
        }
        match &self.network_error {
            Some(previous) => same_text(previous.as_str(), error.as_str()),
            None => false,
        }
    }

    fn note_network_error(&mut self, error: String)
        requires
            old(self).wf(),
        ensures
            final(self)@ == (AppState { network_error: Some(error@), ..old(self)@ }),
            final(self).wf(),
    {
        proof {
            reveal(App::model);
            reveal(App::wf);
        }
        self.network_error = Some(error);
    }

    /// A listing says nothing new, and there is no error to clear.
    fn network_listing_known(&self, interfaces: &Vec<NetworkInterfaceInfo>) -> (known: bool)
        ensures
            known == (self@.network_error is None && likeness::all_same(self@.networks.items, interfaces@)),
    {
        proof {
            reveal(App::model);
        }
        self.network_error.is_none() && all_equal(self.networks.items(), interfaces)
    }

    pub(super) fn update_networks(&mut self, snapshot: NetworkSnapshot) -> (redraw: bool)
        requires
            old(self).wf(),
        ensures
            final(self)@ == old(self)@.networks_updated(snapshot).0,
            redraw == old(self)@.networks_updated(snapshot).1,
            final(self).wf(),
    {
        let tab = self.active_tab();
        let visible = matches!(tab, Tab::Overview | Tab::Network);
        let interfaces = snapshot.interfaces;
        if let Some(error) = snapshot.error {
            if self.network_error_known(&error) {
                return false;
            }
            self.note_network_error(error);
            return visible;
        }
        // One sample per snapshot, even an unchanged one, keeps the history's time axis even.
        let recorded = self.record_network_sample(&interfaces, snapshot.overview_rate);
        if self.network_listing_known(&interfaces) {
            return recorded && tab == Tab::Overview;
        }
        self.replace_networks(interfaces);
        visible
    }

    pub(super) fn select_network_index(&mut self, index: usize) -> (redraw: bool)
        requires
            old(self).wf(),
        ensures
            (final(self)@, redraw) == old(self)@.network_row_selected(index as int),
            final(self).wf(),
    {
        proof {
            reveal(App::model);
            reveal(App::wf);
        }
        if self.active_tab != Tab::Network {
            return false;
        }
        self.networks.select_row_changing(index)
    }

    pub(super) fn move_network_selection(&mut self, step: Step) -> (redraw: bool)
        requires
            old(self).wf(),
        ensures
            (final(self)@, redraw) == old(self)@.network_stepped(step),
            final(self).wf(),
    {
        proof {
            reveal(App::model);
            reveal(App::wf);
        }
        if self.networks.row_count() == 0 {
            return false;
        }
        let row: usize = self.networks.step_target(step);
        self.select_network_index(row)
    }

    /// Selects an interface by its name.
    pub fn select_network(&mut self, name: &str) -> (redraw: bool)
        requires
            old(self).wf(),
        ensures
            (final(self)@, redraw) == old(self)@.network_selected(name@),
            final(self).wf(),
    {
        proof {
            reveal(App::model);
            reveal(App::wf);
        }
        match self.networks.row_of(&Key::Name(String::from_str(name))) {
            Some(row) => self.select_network_index(row),
            None => false,
        }
    }

    pub(super) fn open_network_details(&mut self) -> (redraw: bool)
        requires
            old(self).wf(),
        ensures
            (final(self)@, redraw) == old(self)@.network_details_opened(),
            final(self).wf(),
    {
        proof {
            reveal(App::model);
            reveal(App::wf);
        }
        if self.active_tab == Tab::Network && self.networks.selected_key().is_some() {
            let changed = !matches!(self.overlay, Some(Overlay::NetworkDetail));
            self.overlay = Some(Overlay::NetworkDetail);
            self.hovered = None;
            changed
        } else {
            false
        }
    }
}

} // verus!
