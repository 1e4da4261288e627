//! Network interfaces.
use vstd::prelude::*;

use crate::likeness;
use crate::likeness::{all_equal, equal_option, Likeness};
use crate::number;
use crate::number::{same_optional, Number};
use crate::text;
use crate::text::{same_optional_text, same_text, to_lowercase, trim};

verus! {

broadcast use vstd::string::group_string_axioms;

#[derive(Debug, Clone, Copy, PartialEq, Eq, Structural)]
pub enum OperState {
    Up,
    Down,
    Dormant,
    Testing,
    LowerLayerDown,
    NotPresent,
    Unknown,
}

impl OperState {
    /// The state in capital letters.
    pub fn as_str(self) -> (text: &'static str)
        ensures
            text@ == self.label(),
    {
        match self {
            OperState::Up => "UP",
            OperState::Down => "DOWN",
            OperState::Dormant => "DORMANT",
            OperState::Testing => "TESTING",
            OperState::LowerLayerDown => "LOWER_DOWN",
            OperState::NotPresent => "NOT_PRESENT",
            OperState::Unknown => "UNKNOWN",
        }
    }

    pub open spec fn label(self) -> Seq<char> {
        match self {
            OperState::Up => "UP"@,
            OperState::Down => "DOWN"@,
            OperState::Dormant => "DORMANT"@,
            OperState::Testing => "TESTING"@,
            OperState::LowerLayerDown => "LOWER_DOWN"@,
            OperState::NotPresent => "NOT_PRESENT"@,
            OperState::Unknown => "UNKNOWN"@,
        }
    }

    /// The state that a word in small letters names.
    pub open spec fn named(word: Seq<char>) -> OperState {
        if word == "up"@ {
            OperState::Up
        } else if word == "down"@ {
            OperState::Down
        } else if word == "dormant"@ {
            OperState::Dormant
        } else if word == "testing"@ {
            OperState::Testing
        } else if word == "lowerlayerdown"@ {
            OperState::LowerLayerDown
        } else if word == "notpresent"@ {
            OperState::NotPresent
        } else {
            OperState::Unknown
        }
    }

    /// The state that a word in small letters names. Any other word names none that is known.
    pub fn from_word(word: &str) -> (state: OperState)
        ensures
            state == OperState::named(word@),
    {
        if same_text(word, "up") {
            OperState::Up
        } else if same_text(word, "down") {
            OperState::Down
        } else if same_text(word, "dormant") {
            OperState::Dormant
        } else if same_text(word, "testing") {
            OperState::Testing
        } else if same_text(word, "lowerlayerdown") {
            OperState::LowerLayerDown
        } else if same_text(word, "notpresent") {
            OperState::NotPresent
        } else {
            OperState::Unknown
        }
    }

    /// The state that the kernel names, in whatever letters and with space around it.
    pub fn from_sys(value: &str) -> (state: OperState)
        ensures
            state == OperState::named(text::lowercase(text::trimmed(value@))),
    {
        OperState::from_word(to_lowercase(trim(value).as_str()).as_str())
    }
}

impl Default for OperState {
    fn default() -> (state: OperState)
        ensures
            state == OperState::Unknown,
    {
        OperState::Unknown
    }
}

#[derive(Debug, Clone, PartialEq)]
pub struct NetworkInterfaceInfo {
    pub name: String,
    pub operstate: OperState,
    pub mac_address: Option<String>,
    pub mtu: Option<u32>,
    /// Each address as its 32 bits, the first octet highest.
    pub ipv4_addresses: Vec<u32>,
    /// Each address as its 128 bits, the first octet highest.
    pub ipv6_addresses: Vec<u128>,
    pub rx_bytes: u64,
    pub tx_bytes: u64,
    pub rx_packets: u64,
    pub tx_packets: u64,
    pub rx_errors: u64,
    pub tx_errors: u64,
    pub rx_dropped: u64,
    pub tx_dropped: u64,
    pub rx_rate_bytes_per_sec: Option<Number>,
    pub tx_rate_bytes_per_sec: Option<Number>,
}

#[derive(Debug, Clone, PartialEq)]
pub struct NetworkSnapshot {
    pub interfaces: Vec<NetworkInterfaceInfo>,
    /// The sum of the rates that the Overview counts, where there are any.
    pub overview_rate: Option<Number>,
    pub error: Option<String>,
}

impl Default for NetworkSnapshot {
    fn default() -> (empty: NetworkSnapshot)
        ensures
            empty.interfaces@.len() == 0,
            empty.overview_rate is None,
            empty.error is None,
    {
        NetworkSnapshot {
            interfaces: Vec::new(),
            overview_rate: None,
            error: None,
        }
    }
}

impl Likeness for NetworkInterfaceInfo {
    /// Two readings say the same of an interface.
    open spec fn same(self, other: NetworkInterfaceInfo) -> bool {
        &&& self.name@ == other.name@
        &&& self.operstate == other.operstate
        &&& text::optional_view(self.mac_address) == text::optional_view(other.mac_address)
        &&& likeness::same_option(self.mtu, other.mtu)
        &&& likeness::all_same(self.ipv4_addresses@, other.ipv4_addresses@)
        &&& likeness::all_same(self.ipv6_addresses@, other.ipv6_addresses@)
        &&& self.rx_bytes == other.rx_bytes
        &&& self.tx_bytes == other.tx_bytes
        &&& self.rx_packets == other.rx_packets
        &&& self.tx_packets == other.tx_packets
        &&& self.rx_errors == other.rx_errors
        &&& self.tx_errors == other.tx_errors
        &&& self.rx_dropped == other.rx_dropped
        &&& self.tx_dropped == other.tx_dropped
        &&& number::optional_equals(self.rx_rate_bytes_per_sec, other.rx_rate_bytes_per_sec)
        &&& number::optional_equals(self.tx_rate_bytes_per_sec, other.tx_rate_bytes_per_sec)
    }

    fn equals(&self, other: &NetworkInterfaceInfo) -> (same: bool) {
        same_text(self.name.as_str(), other.name.as_str()) && self.operstate == other.operstate
            && same_optional_text(&self.mac_address, &other.mac_address) && equal_option(
            &self.mtu,
            &other.mtu,
        ) && all_equal(&self.ipv4_addresses, &other.ipv4_addresses) && all_equal(
            &self.ipv6_addresses,
            &other.ipv6_addresses,
        ) && self.rx_bytes == other.rx_bytes && self.tx_bytes == other.tx_bytes && self.rx_packets
            == other.rx_packets && self.tx_packets == other.tx_packets && self.rx_errors
            == other.rx_errors && self.tx_errors == other.tx_errors && self.rx_dropped
            == other.rx_dropped && self.tx_dropped == other.tx_dropped && same_optional(
            self.rx_rate_bytes_per_sec,
            other.rx_rate_bytes_per_sec,
        ) && same_optional(self.tx_rate_bytes_per_sec, other.tx_rate_bytes_per_sec)
    }
}

} // verus!
