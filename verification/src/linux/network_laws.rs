//! Which interfaces and addresses a listing shows, and in which order.
use vstd::prelude::*;

use crate::app::table_laws;
use crate::linux::network::OperState;
use crate::linux::network_sampler;
use crate::linux::network_sampler::{InterfaceAddress, LoopbackLast, RawNetDevRow};
use crate::order;
use crate::order::Order;

verus! {

broadcast use vstd::string::group_string_axioms;

/// An interface shows an address of 32 bits exactly if the address is one of its own.
pub proof fn lemma_own_addresses_are_shown(
    addresses: Seq<InterfaceAddress>,
    count: nat,
    name: Seq<char>,
    bits: u32,
)
    requires
        count <= addresses.len(),
    ensures
        network_sampler::addresses_v4(addresses, count, name).contains(bits) == exists|i: int|
            0 <= i < count && (#[trigger] addresses[i]) is V4 && addresses[i]->V4_name@ == name
                && addresses[i]->V4_bits == bits,
    decreases count,
{
    let shown = network_sampler::addresses_v4(addresses, count, name);
    if count > 0 {
        lemma_own_addresses_are_shown(addresses, (count - 1) as nat, name, bits);
        let before = network_sampler::addresses_v4(addresses, (count - 1) as nat, name);
        let last = addresses[count - 1];
        if before.contains(bits) {
            let k = choose|k: int| 0 <= k < before.len() && before[k] == bits;
            assert(shown[k] == bits);
            let i = choose|i: int|
                0 <= i < count - 1 && (#[trigger] addresses[i]) is V4 && addresses[i]->V4_name@
                    == name && addresses[i]->V4_bits == bits;
            assert(addresses[i] is V4);
        } else if last is V4 && last->V4_name@ == name && last->V4_bits == bits {
            assert(shown == before.push(bits));
            assert(shown[before.len() as int] == bits);
        } else {
            if shown.contains(bits) {
                let k = choose|k: int| 0 <= k < shown.len() && shown[k] == bits;
                if k < before.len() {
                    assert(before[k] == bits);
                }
            }
        }
    }
}

/// An interface shows an address of 128 bits exactly if the address is one of its own.
pub proof fn lemma_own_long_addresses_are_shown(
    addresses: Seq<InterfaceAddress>,
    count: nat,
    name: Seq<char>,
    bits: u128,
)
    requires
        count <= addresses.len(),
    ensures
        network_sampler::addresses_v6(addresses, count, name).contains(bits) == exists|i: int|
            0 <= i < count && (#[trigger] addresses[i]) is V6 && addresses[i]->V6_name@ == name
                && addresses[i]->V6_bits == bits,
    decreases count,
{
    let shown = network_sampler::addresses_v6(addresses, count, name);
    if count > 0 {
        lemma_own_long_addresses_are_shown(addresses, (count - 1) as nat, name, bits);
        let before = network_sampler::addresses_v6(addresses, (count - 1) as nat, name);
        let last = addresses[count - 1];
        if before.contains(bits) {
            let k = choose|k: int| 0 <= k < before.len() && before[k] == bits;
            assert(shown[k] == bits);
            let i = choose|i: int|
                0 <= i < count - 1 && (#[trigger] addresses[i]) is V6 && addresses[i]->V6_name@
                    == name && addresses[i]->V6_bits == bits;
            assert(addresses[i] is V6);
        } else if last is V6 && last->V6_name@ == name && last->V6_bits == bits {
            assert(shown == before.push(bits));
            assert(shown[before.len() as int] == bits);
        } else {
            if shown.contains(bits) {
                let k = choose|k: int| 0 <= k < shown.len() && shown[k] == bits;
                if k < before.len() {
                    assert(before[k] == bits);
                }
            }
        }
    }
}

/// Of two interfaces in a listing, neither of them the loopback interface, the first comes first
/// in the alphabet.
pub proof fn lemma_interfaces_are_in_alphabetical_order(
    rows: Seq<RawNetDevRow>,
    entries: Seq<String>,
    i: int,
    j: int,
)
    requires
        0 <= i < j < network_sampler::listed_names(rows, entries).len(),
        network_sampler::listed_names(rows, entries)[i]@ != "lo"@,
        network_sampler::listed_names(rows, entries)[j]@ != "lo"@,
    ensures
        table_laws::alphabetical(
            network_sampler::listed_names(rows, entries)[i]@,
            network_sampler::listed_names(rows, entries)[j]@,
        ),
{
    let names = network_sampler::with_entries(
        network_sampler::row_names(rows),
        entries,
        entries.len(),
    );
    let listed = network_sampler::listed_names(rows, entries);
    LoopbackLast.lawful();
    order::lemma_arranged_sorts(network_sampler::interface_order(), names);
    assert(network_sampler::interface_order()(listed[i], listed[j]));
    table_laws::lemma_texts_are_in_alphabetical_order(listed[i]@, listed[j]@);
}

proof fn lemma_entries_add_names(
    names: Seq<String>,
    entries: Seq<String>,
    count: nat,
    name: Seq<char>,
)
    requires
        count <= entries.len(),
    ensures
        network_sampler::lists_name(
            network_sampler::with_entries(names, entries, count),
            name,
        ) == (network_sampler::lists_name(names, name) || exists|i: int|
            0 <= i < count && (#[trigger] entries[i])@ == name),
    decreases count,
{
    if count > 0 {
        lemma_entries_add_names(names, entries, (count - 1) as nat, name);
        let before = network_sampler::with_entries(names, entries, (count - 1) as nat);
        let after = network_sampler::with_entries(names, entries, count);
        if network_sampler::lists_name(before, name) {
            let k = choose|k: int| 0 <= k < before.len() && (#[trigger] before[k])@ == name;
            assert(after[k]@ == name);
        }
        if network_sampler::lists_name(after, name) && !network_sampler::lists_name(
            before,
            name,
        ) {
            let k = choose|k: int| 0 <= k < after.len() && (#[trigger] after[k])@ == name;
            if k < before.len() {
                assert(before[k]@ == name);
            } else {
                assert(entries[count - 1]@ == name);
            }
        }
        if exists|i: int| 0 <= i < count && (#[trigger] entries[i])@ == name {
            let i = choose|i: int| 0 <= i < count && (#[trigger] entries[i])@ == name;
            if i == count - 1 && !network_sampler::lists_name(before, name) {
                assert(after[before.len() as int]@ == name);
            }
        }
    }
}

/// A listing shows an interface exactly if it has counters or a directory.
pub proof fn lemma_every_interface_is_listed(
    rows: Seq<RawNetDevRow>,
    entries: Seq<String>,
    name: Seq<char>,
)
    ensures
        (exists|i: int|
            0 <= i < network_sampler::listed_names(rows, entries).len() && (
            #[trigger] network_sampler::listed_names(rows, entries)[i])@ == name) == ((exists|i:
            int| 0 <= i < rows.len() && (#[trigger] rows[i]).name@ == name) || (exists|i: int|
            0 <= i < entries.len() && (#[trigger] entries[i])@ == name)),
{
    let first = network_sampler::row_names(rows);
    let names = network_sampler::with_entries(first, entries, entries.len());
    let listed = network_sampler::listed_names(rows, entries);
    lemma_entries_add_names(first, entries, entries.len(), name);
    if exists|i: int| 0 <= i < rows.len() && (#[trigger] rows[i]).name@ == name {
        let i = choose|i: int| 0 <= i < rows.len() && (#[trigger] rows[i]).name@ == name;
        assert(first[i]@ == name);
    }
    if network_sampler::lists_name(first, name) {
        let i = choose|i: int| 0 <= i < first.len() && (#[trigger] first[i])@ == name;
        assert(rows[i].name@ == name);
    }
    if network_sampler::lists_name(names, name) {
        let i = choose|i: int| 0 <= i < names.len() && (#[trigger] names[i])@ == name;
        assert(names.contains(names[i]));
        order::lemma_arranged_has(network_sampler::interface_order(), names, names[i]);
        let k = choose|k: int| 0 <= k < listed.len() && listed[k] == names[i];
        assert(listed[k]@ == name);
    }
    if exists|i: int| 0 <= i < listed.len() && (#[trigger] listed[i])@ == name {
        let i = choose|i: int| 0 <= i < listed.len() && (#[trigger] listed[i])@ == name;
        order::lemma_arranged_from(network_sampler::interface_order(), names, i);
        let k = choose|k: int| 0 <= k < names.len() && names[k] == listed[i];
        assert(names[k]@ == name);
    }
}

/// Two states of interfaces that the system names differently are shown differently, and a name
/// that is not known is shown as such.
pub proof fn lemma_states_are_told_apart(left: Seq<char>, right: Seq<char>)
    requires
        OperState::named(left).label() == OperState::named(right).label(),
        OperState::named(left) != OperState::Unknown,
    ensures
        left == right,
{
    reveal_strlit("UP");
    reveal_strlit("DOWN");
    reveal_strlit("DORMANT");
    reveal_strlit("TESTING");
    reveal_strlit("LOWER_DOWN");
    reveal_strlit("NOT_PRESENT");
    reveal_strlit("UNKNOWN");
    assert("UP"@.len() == 2 && "DOWN"@.len() == 4 && "DORMANT"@.len() == 7 && "TESTING"@.len() == 7
        && "LOWER_DOWN"@.len() == 10 && "NOT_PRESENT"@.len() == 11 && "UNKNOWN"@.len() == 7);
    assert("DORMANT"@[0] == 'D' && "TESTING"@[0] == 'T' && "UNKNOWN"@[0] == 'U');
}

/// The states that the system names are shown under their names.
pub proof fn lemma_states_are_named()
    ensures
        OperState::named("up"@).label() == "UP"@,
        OperState::named("down"@).label() == "DOWN"@,
        OperState::named("dormant"@).label() == "DORMANT"@,
        OperState::named("testing"@).label() == "TESTING"@,
        OperState::named("lowerlayerdown"@).label() == "LOWER_DOWN"@,
        OperState::named("notpresent"@).label() == "NOT_PRESENT"@,
{
    reveal_strlit("up");
    reveal_strlit("down");
    reveal_strlit("dormant");
    reveal_strlit("testing");
    reveal_strlit("lowerlayerdown");
    reveal_strlit("notpresent");
    assert("up"@.len() == 2 && "down"@.len() == 4 && "dormant"@.len() == 7 && "testing"@.len() == 7
        && "lowerlayerdown"@.len() == 14 && "notpresent"@.len() == 10);
    assert("dormant"@[0] == 'd' && "testing"@[0] == 't');
}

} // verus!
