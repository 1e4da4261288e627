//! What the Overview counts, in terms of the names and rates of interfaces.
use vstd::prelude::*;

use crate::app::interfaces;
use crate::linux::hardware::HardwareInventory;
use crate::linux::network::NetworkInterfaceInfo;
use crate::number::Number;
use crate::text;
use crate::text_laws;

verus! {

broadcast use vstd::string::group_string_axioms;

/// The rates that the Overview adds up for a listing.
pub open spec fn rates_of(
    listing: Seq<NetworkInterfaceInfo>,
    inventory: Option<HardwareInventory>,
) -> Seq<Number> {
    interfaces::overview_rates(listing, inventory, listing.len() as int)
}

proof fn lemma_rates_of_first(
    left: Seq<NetworkInterfaceInfo>,
    right: Seq<NetworkInterfaceInfo>,
    inventory: Option<HardwareInventory>,
    count: int,
)
    requires
        0 <= count <= left.len(),
        count <= right.len(),
        forall|i: int| 0 <= i < count ==> #[trigger] left[i] == right[i],
    ensures
        interfaces::overview_rates(left, inventory, count) == interfaces::overview_rates(
            right,
            inventory,
            count,
        ),
    decreases count,
{
    if count > 0 {
        lemma_rates_of_first(left, right, inventory, count - 1);
        assert(left[count - 1] == right[count - 1]);
    }
}

proof fn lemma_rates_of_last(
    listing: Seq<NetworkInterfaceInfo>,
    inventory: Option<HardwareInventory>,
)
    requires
        listing.len() > 0,
    ensures
        rates_of(listing, inventory) == rates_of(listing.drop_last(), inventory) + (
        if interfaces::counted(listing.last().name@, inventory) {
            interfaces::interface_rates(listing.last())
        } else {
            Seq::empty()
        }),
{
    let count = listing.len() as int;
    lemma_rates_of_first(listing, listing.drop_last(), inventory, count - 1);
    assert(rates_of(listing, inventory) =~= rates_of(listing.drop_last(), inventory) + (
    if interfaces::counted(listing.last().name@, inventory) {
        interfaces::interface_rates(listing.last())
    } else {
        Seq::empty()
    }));
}

/// A listing that goes on adds the rates of what it goes on with: receiving and sending of every
/// interface that counts, and nothing of one that does not.
pub proof fn lemma_each_interface_adds_its_rates(
    listing: Seq<NetworkInterfaceInfo>,
    next: NetworkInterfaceInfo,
    inventory: Option<HardwareInventory>,
    received: Number,
    sent: Number,
)
    requires
        next.rx_rate_bytes_per_sec == Some(received),
        next.tx_rate_bytes_per_sec == Some(sent),
    ensures
        interfaces::counted(next.name@, inventory) ==> rates_of(listing.push(next), inventory)
            == rates_of(listing, inventory) + seq![received, sent],
        !interfaces::counted(next.name@, inventory) ==> rates_of(listing.push(next), inventory)
            == rates_of(listing, inventory),
{
    let longer = listing.push(next);
    lemma_rates_of_last(longer, inventory);
    assert(longer.drop_last() =~= listing);
    if interfaces::counted(next.name@, inventory) {
        assert(rates_of(longer, inventory) =~= rates_of(listing, inventory) + seq![received, sent]);
    } else {
        assert(rates_of(longer, inventory) =~= rates_of(listing, inventory));
    }
}

/// An interface without rates adds none.
pub proof fn lemma_unmeasured_interface_adds_nothing(
    listing: Seq<NetworkInterfaceInfo>,
    next: NetworkInterfaceInfo,
    inventory: Option<HardwareInventory>,
)
    requires
        next.rx_rate_bytes_per_sec is None,
        next.tx_rate_bytes_per_sec is None,
    ensures
        rates_of(listing.push(next), inventory) == rates_of(listing, inventory),
{
    let longer = listing.push(next);
    lemma_rates_of_last(longer, inventory);
    assert(longer.drop_last() =~= listing);
    assert(rates_of(longer, inventory) =~= rates_of(listing, inventory));
}

/// The interface of a card in the inventory counts, whatever it is called.
pub proof fn lemma_cards_count(name: Seq<char>, inventory: HardwareInventory, card: int)
    requires
        0 <= card < inventory.network_devices@.len(),
        inventory.network_devices@[card].interface_name@ == name,
    ensures
        interfaces::counted(name, Some(inventory)),
{
}

/// The name is that of no card in the inventory.
pub open spec fn no_card(name: Seq<char>, inventory: Option<HardwareInventory>) -> bool {
    inventory is Some ==> forall|i: int|
        0 <= i < inventory->0.network_devices@.len() ==> (
        #[trigger] inventory->0.network_devices@[i]).interface_name@ != name
}

/// The loopback interface does not count, nor do those of containers, bridges, virtual machines
/// and tunnels, unless they are in the inventory.
pub proof fn lemma_virtual_interfaces_do_not_count(
    suffix: Seq<char>,
    inventory: Option<HardwareInventory>,
)
    ensures
        no_card("lo"@, inventory) ==> !interfaces::counted("lo"@, inventory),
        no_card("docker"@ + suffix, inventory) ==> !interfaces::counted(
            "docker"@ + suffix,
            inventory,
        ),
        no_card("veth"@ + suffix, inventory) ==> !interfaces::counted("veth"@ + suffix, inventory),
        no_card("br-"@ + suffix, inventory) ==> !interfaces::counted("br-"@ + suffix, inventory),
        no_card("virbr"@ + suffix, inventory) ==> !interfaces::counted(
            "virbr"@ + suffix,
            inventory,
        ),
        no_card("tun"@ + suffix, inventory) ==> !interfaces::counted("tun"@ + suffix, inventory),
        no_card("tap"@ + suffix, inventory) ==> !interfaces::counted("tap"@ + suffix, inventory),
        no_card("wg"@ + suffix, inventory) ==> !interfaces::counted("wg"@ + suffix, inventory),
        no_card("tailscale"@ + suffix, inventory) ==> !interfaces::counted(
            "tailscale"@ + suffix,
            inventory,
        ),
{
    lemma_marked("docker"@, suffix, 0);
    lemma_marked("veth"@, suffix, 1);
    lemma_marked("br-"@, suffix, 2);
    lemma_marked("virbr"@, suffix, 3);
    lemma_marked("tun"@, suffix, 10);
    lemma_marked("tap"@, suffix, 11);
    lemma_marked("wg"@, suffix, 12);
    lemma_marked("tailscale"@, suffix, 13);
}

proof fn lemma_marked(prefix: Seq<char>, suffix: Seq<char>, place: int)
    requires
        0 <= place < 21,
        interfaces::VIRTUAL_PREFIXES[place]@ == prefix,
    ensures
        interfaces::virtual_name(prefix + suffix),
{
    text_laws::lemma_prefix_is_taken_off(prefix + suffix, prefix, suffix);
    assert(text::occurs_at(prefix + suffix, interfaces::VIRTUAL_PREFIXES[place]@, 0));
}

/// An interface whose name begins with an `e`, as those of wired networks do, or with `wl`, as
/// those of wireless ones do, counts with or without an inventory, as long as it is not named
/// after a tunnel.
pub proof fn lemma_usual_interfaces_count(rest: Seq<char>, inventory: Option<HardwareInventory>)
    ensures
        interfaces::counted("en"@ + rest, inventory),
        interfaces::counted("eth"@ + rest, inventory),
        interfaces::counted("wl"@ + rest, inventory),
{
    reveal_strlit("en");
    reveal_strlit("eth");
    reveal_strlit("wl");
    lemma_unmarked("en"@ + rest);
    lemma_unmarked("eth"@ + rest);
    lemma_unmarked("wl"@ + rest);
}

proof fn lemma_unmarked(name: Seq<char>)
    requires
        name.len() >= 2,
        name[0] == 'e' && name[1] != 'r' || name[0] == 'w' && name[1] != 'g',
    ensures
        !interfaces::virtual_name(name),
{
    reveal_strlit("lo");
    reveal_strlit("docker");
    reveal_strlit("veth");
    reveal_strlit("br-");
    reveal_strlit("virbr");
    reveal_strlit("cni");
    reveal_strlit("flannel");
    reveal_strlit("cali");
    reveal_strlit("kube");
    reveal_strlit("vboxnet");
    reveal_strlit("vmnet");
    reveal_strlit("tun");
    reveal_strlit("tap");
    reveal_strlit("wg");
    reveal_strlit("tailscale");
    reveal_strlit("sit");
    reveal_strlit("ip6tnl");
    reveal_strlit("gre");
    reveal_strlit("gretap");
    reveal_strlit("erspan");
    reveal_strlit("geneve");
    reveal_strlit("vxlan");
    assert forall|i: int| 0 <= i < 21 implies !text::occurs_at(
        name,
        (#[trigger] interfaces::VIRTUAL_PREFIXES[i])@,
        0,
    ) by {
        let prefix = interfaces::VIRTUAL_PREFIXES[i]@;
        if text::occurs_at(name, prefix, 0) {
            assert(name.subrange(0, prefix.len() as int)[0] == name[0]);
            assert(name.subrange(0, prefix.len() as int)[1] == name[1]);
        }
    }
}

} // verus!
