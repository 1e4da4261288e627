//! Which network interfaces the Overview counts.
use vstd::prelude::*;

use crate::linux::hardware::{HardwareInventory, NetworkDevice};
use crate::linux::network::NetworkInterfaceInfo;
use crate::number::Number;
use crate::text;
use crate::text::{same_text, starts_with};

verus! {

broadcast use vstd::string::group_string_axioms;

/// One of the devices has the interface.
pub open spec fn device_has(devices: Seq<NetworkDevice>, name: Seq<char>) -> bool {
    exists|i: int| 0 <= i < devices.len() && (#[trigger] devices[i]).interface_name@ == name
}

/// The interface is in the hardware inventory.
pub open spec fn physical(name: Seq<char>, inventory: Option<HardwareInventory>) -> bool {
    inventory is Some && device_has(inventory->0.network_devices@, name)
}

fn has_device(devices: &Vec<NetworkDevice>, name: &str) -> (found: bool)
    ensures
        found == device_has(devices@, name@),
{
    let mut i: usize = 0;
    while i < devices.len()
        invariant
            i <= devices@.len(),
            forall|j: int| 0 <= j < i ==> (#[trigger] devices@[j]).interface_name@ != name@,
        decreases devices@.len() - i,
    {
        if same_text(devices[i].interface_name.as_str(), name) {
            assert(devices@[i as int].interface_name@ == name@);
            return true;
        }
        i += 1;
    }
    false
}

/// Whether `name` is a physical interface in the hardware inventory.
pub fn is_physical_interface(name: &str, inventory: Option<&HardwareInventory>) -> (result: bool)
    ensures
        result == (inventory is Some && device_has(inventory->0.network_devices@, name@)),
{
    match inventory {
        Some(inventory) => has_device(&inventory.network_devices, name),
        None => false,
    }
}

/// The names of loopback, container, bridge, VPN and tunnel devices begin with one of these.
pub const VIRTUAL_PREFIXES: [&'static str; 21] = [
    "docker",
    "veth",
    "br-",
    "virbr",
    "cni",
    "flannel",
    "cali",
    "kube",
    "vboxnet",
    "vmnet",
    "tun",
    "tap",
    "wg",
    "tailscale",
    "sit",
    "ip6tnl",
    "gre",
    "gretap",
    "erspan",
    "geneve",
    "vxlan",
];

/// The name marks a virtual interface.
pub open spec fn virtual_name(name: Seq<char>) -> bool {
    name == "lo"@ || exists|i: int|
        0 <= i < 21 && text::occurs_at(name, (#[trigger] VIRTUAL_PREFIXES[i])@, 0)
}

pub fn is_virtual_interface_name(name: &str) -> (result: bool)
    ensures
        result == virtual_name(name@),
{
    if same_text(name, "lo") {
        return true;
    }
    let mut i: usize = 0;
    while i < 21
        invariant
            i <= 21,
            forall|j: int|
                0 <= j < i ==> !text::occurs_at(name@, (#[trigger] VIRTUAL_PREFIXES[j])@, 0),
        decreases 21 - i,
    {
        if starts_with(name, VIRTUAL_PREFIXES[i]) {
            assert(text::occurs_at(name@, VIRTUAL_PREFIXES[i as int]@, 0));
            return true;
        }
        i += 1;
    }
    false
}

/// The Overview counts an interface: a physical one, or one whose name does not mark it as
/// virtual. The traffic of others would be counted twice.
pub open spec fn counted(name: Seq<char>, inventory: Option<HardwareInventory>) -> bool {
    physical(name, inventory) || !virtual_name(name)
}

pub fn is_overview_interface(name: &str, inventory: Option<&HardwareInventory>) -> (result: bool)
    ensures
        result == ((inventory is Some && device_has(inventory->0.network_devices@, name@))
            || !virtual_name(name@)),
{
    is_physical_interface(name, inventory) || !is_virtual_interface_name(name)
}

/// The rates known of an interface.
pub open spec fn interface_rates(interface: NetworkInterfaceInfo) -> Seq<Number> {
    (match interface.rx_rate_bytes_per_sec {
        Some(rate) => seq![rate],
        None => Seq::empty(),
    }) + (match interface.tx_rate_bytes_per_sec {
        Some(rate) => seq![rate],
        None => Seq::empty(),
    })
}

/// The rates known of those among the first `count` interfaces that the Overview counts.
pub open spec fn overview_rates(
    interfaces: Seq<NetworkInterfaceInfo>,
    inventory: Option<HardwareInventory>,
    count: int,
) -> Seq<Number>
    decreases count,
{
    if count <= 0 {
        Seq::empty()
    } else {
        let rates = overview_rates(interfaces, inventory, count - 1);
        if counted(interfaces[count - 1].name@, inventory) {
            rates + interface_rates(interfaces[count - 1])
        } else {
            rates
        }
    }
}

/// The rates that make up the Overview's total, receiving before sending, in the order of the
/// interfaces.
pub fn list_overview_rates(
    interfaces: &Vec<NetworkInterfaceInfo>,
    inventory: &Option<HardwareInventory>,
) -> (rates: Vec<Number>)
    ensures
        rates@ == overview_rates(interfaces@, *inventory, interfaces@.len() as int),
{
    let mut rates: Vec<Number> = Vec::new();
    let mut i: usize = 0;
    while i < interfaces.len()
        invariant
            i <= interfaces@.len(),
            rates@ == overview_rates(interfaces@, *inventory, i as int),
        decreases interfaces@.len() - i,
    {
        let interface = &interfaces[i];
        if is_overview_interface(interface.name.as_str(), inventory.as_ref()) {
            let ghost before = rates@;
            match interface.rx_rate_bytes_per_sec {
                Some(rate) => {
                    rates.push(rate);
                },
                None => {},
            }
            match interface.tx_rate_bytes_per_sec {
                Some(rate) => {
                    rates.push(rate);
                },
                None => {},
            }
            assert(rates@ =~= before + interface_rates(*interface));
        }
        i += 1;
    }
    rates
}

} // verus!
