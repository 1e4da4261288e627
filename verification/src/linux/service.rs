//! Services: their states, and refreshing them on request.
use vstd::prelude::*;

use crate::likeness::Likeness;
use crate::text::same_text;
use crate::time::Nanos;

verus! {

broadcast use vstd::string::group_string_axioms;

/// Numbers refresh requests; a later request has a higher number.
pub type ServiceRefreshGeneration = u64;

/// Upper bound for one `systemctl` listing; a hung call must not wedge the collector.
pub const SYSTEMCTL_TIMEOUT: Nanos = 10_000_000_000;

#[derive(Debug, Clone, PartialEq, Eq)]
pub struct ServiceInfo {
    pub unit: String,
    pub load_state: String,
    pub active_state: String,
    pub sub_state: String,
    pub description: String,
}

#[derive(Debug, Clone, PartialEq, Eq)]
pub struct ServiceSnapshot {
    pub services: Vec<ServiceInfo>,
    pub error: Option<String>,
    pub completed_refresh_generation: ServiceRefreshGeneration,
}

impl Default for ServiceSnapshot {
    fn default() -> (empty: ServiceSnapshot)
        ensures
            empty.services@.len() == 0,
            empty.error is None,
            empty.completed_refresh_generation == 0,
    {
        ServiceSnapshot {
            services: Vec::new(),
            error: None,
            completed_refresh_generation: 0,
        }
    }
}

impl Likeness for ServiceInfo {
    open spec fn same(self, other: ServiceInfo) -> bool {
        &&& self.unit@ == other.unit@
        &&& self.load_state@ == other.load_state@
        &&& self.active_state@ == other.active_state@
        &&& self.sub_state@ == other.sub_state@
        &&& self.description@ == other.description@
    }

    fn equals(&self, other: &ServiceInfo) -> (same: bool) {
        same_text(self.unit.as_str(), other.unit.as_str()) && same_text(
            self.load_state.as_str(),
            other.load_state.as_str(),
        ) && same_text(self.active_state.as_str(), other.active_state.as_str()) && same_text(
            self.sub_state.as_str(),
            other.sub_state.as_str(),
        ) && same_text(self.description.as_str(), other.description.as_str())
    }
}

} // verus!
