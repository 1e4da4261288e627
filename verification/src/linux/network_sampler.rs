//! Sampling all network interfaces, one listing after the other.
use vstd::prelude::*;

use crate::linux::network::{NetworkInterfaceInfo, OperState};
use crate::linux::rate;
use crate::linux::rate::{find_sample, CounterSample, NamedCounters, NamedSample, Rate};
use crate::number::Number;
use crate::numerals;
use crate::numerals::{parse_u32, parse_u64};
use crate::order;
use crate::order::{arrange, chars_leq, Order};
use crate::text;
use crate::text::{characters, same_text, split_lines, split_once, split_words, trim};
use crate::time::Nanos;

verus! {

broadcast use vstd::string::group_string_axioms;

/// The counters of one interface.
#[derive(Debug, Clone, PartialEq, Eq)]
pub struct RawNetDevRow {
    pub name: String,
    pub rx_bytes: u64,
    pub rx_packets: u64,
    pub rx_errors: u64,
    pub rx_dropped: u64,
    pub tx_bytes: u64,
    pub tx_packets: u64,
    pub tx_errors: u64,
    pub tx_dropped: u64,
}

/// The numbers among the first `count` words.
pub open spec fn numbers_among(words: Seq<Seq<char>>, count: nat) -> Seq<u64>
    decreases count,
{
    if count == 0 {
        Seq::empty()
    } else {
        match numerals::unsigned(words[count - 1], u64::MAX as int) {
            Some(number) => numbers_among(words, (count - 1) as nat).push(number as u64),
            None => numbers_among(words, (count - 1) as nat),
        }
    }
}

/// All numbers behind the colon of a line.
pub open spec fn counters_in(text: Seq<char>) -> Seq<u64> {
    numbers_among(text::words(text), text::words(text).len())
}

/// A line has the counters of an interface: a name, a colon and at least sixteen numbers.
pub open spec fn counts_interface(line: Seq<char>) -> bool {
    text::halves(line, ':') matches Some((name, counters)) && text::trimmed(name).len() > 0 && counters_in(
        counters,
    ).len() >= 16
}

impl RawNetDevRow {
    /// The counters are those in a line.
    pub open spec fn counted_in(self, line: Seq<char>) -> bool {
        &&& counts_interface(line)
        &&& text::halves(line, ':') matches Some((name, counters)) && {
            let numbers = counters_in(counters);
            &&& self.name@ == text::trimmed(name)
            &&& self.rx_bytes == numbers[0]
            &&& self.rx_packets == numbers[1]
            &&& self.rx_errors == numbers[2]
            &&& self.rx_dropped == numbers[3]
            &&& self.tx_bytes == numbers[8]
            &&& self.tx_packets == numbers[9]
            &&& self.tx_errors == numbers[10]
            &&& self.tx_dropped == numbers[11]
        }
    }
}

/// The lines among the first `count` that have the counters of an interface.
pub open spec fn interface_lines(lines: Seq<Seq<char>>, count: nat) -> Seq<Seq<char>>
    decreases count,
{
    if count == 0 {
        Seq::empty()
    } else if counts_interface(lines[count - 1]) {
        interface_lines(lines, (count - 1) as nat).push(lines[count - 1])
    } else {
        interface_lines(lines, (count - 1) as nat)
    }
}

/// The rows are those that a text has lines for, in their order.
pub open spec fn rows_of(rows: Seq<RawNetDevRow>, contents: Seq<char>) -> bool {
    let kept = interface_lines(text::lines(contents), text::lines(contents).len());
    &&& rows.len() == kept.len()
    &&& forall|i: int| 0 <= i < rows.len() ==> (#[trigger] rows[i]).counted_in(kept[i])
}

fn read_counters(text: &str) -> (numbers: Vec<u64>)
    ensures
        numbers@ == counters_in(text@),
{
    let parts = split_words(text);
    let mut numbers: Vec<u64> = Vec::new();
    let mut i: usize = 0;
    while i < parts.len()
        invariant
            i <= parts@.len(),
            text::views(parts@) == text::words(text@),
            numbers@ == numbers_among(text::words(text@), i as nat),
        decreases parts@.len() - i,
    {
        assert(text::views(parts@)[i as int] == parts@[i as int]@);
        match parse_u64(parts[i].as_str()) {
            Some(number) => {
                numbers.push(number);
            },
            None => {},
        }
        i += 1;
    }
    numbers
}

fn parse_row(line: &str) -> (row: Option<RawNetDevRow>)
    ensures
        match row {
            Some(row) => row.counted_in(line@),
            None => !counts_interface(line@),
        },
{
    match split_once(line, ':') {
        Some((name, counters)) => {
            let name = trim(name.as_str());
            if name.as_str().is_empty() {
                return None;
            }
            let numbers = read_counters(counters.as_str());
            if numbers.len() < 16 {
                return None;
            }
            Some(
                RawNetDevRow {
                    name,
                    rx_bytes: numbers[0],
                    rx_packets: numbers[1],
                    rx_errors: numbers[2],
                    rx_dropped: numbers[3],
                    tx_bytes: numbers[8],
                    tx_packets: numbers[9],
                    tx_errors: numbers[10],
                    tx_dropped: numbers[11],
                },
            )
        },
        None => None,
    }
}

/// The counters of all interfaces.
pub fn parse_proc_net_dev(contents: &str) -> (rows: Vec<RawNetDevRow>)
    ensures
        rows_of(rows@, contents@),
{
    let lines = split_lines(contents);
    let ghost all = text::views(lines@);
    let mut rows: Vec<RawNetDevRow> = Vec::new();
    let mut i: usize = 0;
    while i < lines.len()
        invariant
            i <= lines@.len(),
            all == text::views(lines@),
            rows@.len() == interface_lines(all, i as nat).len(),
            forall|j: int|
                0 <= j < rows@.len() ==> (#[trigger] rows@[j]).counted_in(
                    interface_lines(all, i as nat)[j],
                ),
        decreases lines@.len() - i,
    {
        assert(all[i as int] == lines@[i as int]@);
        match parse_row(lines[i].as_str()) {
            Some(row) => {
                rows.push(row);
            },
            None => {},
        }
        i += 1;
    }
    rows
}

/// The address of hardware, where it has one: not empty, and not all zeros.
pub open spec fn hardware_address(contents: Option<Seq<char>>) -> Option<Seq<char>> {
    match contents {
        Some(contents) => {
            let address = text::trimmed(contents);
            if address.len() == 0 || address == "00:00:00:00:00:00"@ {
                None
            } else {
                Some(address)
            }
        },
        None => None,
    }
}

/// The largest packet that an interface takes.
pub open spec fn packet_size(contents: Option<Seq<char>>) -> Option<u32> {
    match contents {
        Some(contents) => match numerals::unsigned(text::trimmed(contents), u32::MAX as int) {
            Some(size) => Some(size as u32),
            None => None,
        },
        None => None,
    }
}

/// What a file says of the state of an interface.
pub open spec fn link_state(contents: Option<Seq<char>>) -> OperState {
    match contents {
        Some(contents) => OperState::named(text::lowercase(text::trimmed(contents))),
        None => OperState::Unknown,
    }
}

/// The files that describe an interface, as far as they could be read.
pub struct InterfaceFiles {
    pub operstate: Option<String>,
    pub address: Option<String>,
    pub mtu: Option<String>,
}

fn read_operstate(contents: &Option<String>) -> (state: OperState)
    ensures
        state == link_state(text::optional_view(*contents)),
{
    match contents {
        Some(contents) => OperState::from_sys(contents.as_str()),
        None => OperState::Unknown,
    }
}

pub fn read_mac_address(contents: &Option<String>) -> (address: Option<String>)
    ensures
        text::optional_view(address) == hardware_address(text::optional_view(*contents)),
{
    match contents {
        Some(contents) => {
            let address = trim(contents.as_str());
            if address.as_str().is_empty() || same_text(address.as_str(), "00:00:00:00:00:00") {
                None
            } else {
                Some(address)
            }
        },
        None => None,
    }
}

pub fn read_mtu(contents: &Option<String>) -> (size: Option<u32>)
    ensures
        size == packet_size(text::optional_view(*contents)),
{
    match contents {
        Some(contents) => parse_u32(trim(contents.as_str()).as_str()),
        None => None,
    }
}

/// An address of an interface.
#[derive(Debug, Clone, PartialEq, Eq)]
pub enum InterfaceAddress {
    /// The 32 bits of an address, the first octet highest.
    V4 { name: String, bits: u32 },
    /// The 128 bits of an address, the first octet highest.
    V6 { name: String, bits: u128 },
}

/// The first addresses of 32 bits that an interface has, each once, among the first `count`.
pub open spec fn addresses_v4(addresses: Seq<InterfaceAddress>, count: nat, name: Seq<char>) -> Seq<
    u32,
>
    decreases count,
{
    if count == 0 {
        Seq::empty()
    } else {
        let before = addresses_v4(addresses, (count - 1) as nat, name);
        match addresses[count - 1] {
            InterfaceAddress::V4 { name: owner, bits } => if owner@ == name && !before.contains(
                bits,
            ) {
                before.push(bits)
            } else {
                before
            },
            _ => before,
        }
    }
}

/// The first addresses of 128 bits that an interface has, each once, among the first `count`.
pub open spec fn addresses_v6(addresses: Seq<InterfaceAddress>, count: nat, name: Seq<char>) -> Seq<
    u128,
>
    decreases count,
{
    if count == 0 {
        Seq::empty()
    } else {
        let before = addresses_v6(addresses, (count - 1) as nat, name);
        match addresses[count - 1] {
            InterfaceAddress::V6 { name: owner, bits } => if owner@ == name && !before.contains(
                bits,
            ) {
                before.push(bits)
            } else {
                before
            },
            _ => before,
        }
    }
}

fn has_v4(list: &Vec<u32>, bits: u32) -> (found: bool)
    ensures
        found == list@.contains(bits),
{
    let mut i: usize = 0;
    while i < list.len()
        invariant
            i <= list@.len(),
            forall|j: int| 0 <= j < i ==> list@[j] != bits,
        decreases list@.len() - i,
    {
        if list[i] == bits {
            assert(list@[i as int] == bits);
            return true;
        }
        i += 1;
    }
    false
}

fn has_v6(list: &Vec<u128>, bits: u128) -> (found: bool)
    ensures
        found == list@.contains(bits),
{
    let mut i: usize = 0;
    while i < list.len()
        invariant
            i <= list@.len(),
            forall|j: int| 0 <= j < i ==> list@[j] != bits,
        decreases list@.len() - i,
    {
        if list[i] == bits {
            assert(list@[i as int] == bits);
            return true;
        }
        i += 1;
    }
    false
}

/// The addresses of an interface.
pub fn addresses_of(addresses: &Vec<InterfaceAddress>, name: &str) -> (lists: (Vec<u32>, Vec<u128>))
    ensures
        lists.0@ == addresses_v4(addresses@, addresses@.len(), name@),
        lists.1@ == addresses_v6(addresses@, addresses@.len(), name@),
{
    let mut v4: Vec<u32> = Vec::new();
    let mut v6: Vec<u128> = Vec::new();
    let mut i: usize = 0;
    while i < addresses.len()
        invariant
            i <= addresses@.len(),
            v4@ == addresses_v4(addresses@, i as nat, name@),
            v6@ == addresses_v6(addresses@, i as nat, name@),
        decreases addresses@.len() - i,
    {
        match &addresses[i] {
            InterfaceAddress::V4 { name: owner, bits } => {
                if same_text(owner.as_str(), name) && !has_v4(&v4, *bits) {
                    v4.push(*bits);
                }
            },
            InterfaceAddress::V6 { name: owner, bits } => {
                if same_text(owner.as_str(), name) && !has_v6(&v6, *bits) {
                    v6.push(*bits);
                }
            },
        }
        i += 1;
    }
    (v4, v6)
}

/// No address is listed twice.
pub proof fn lemma_addresses_are_distinct(
    addresses: Seq<InterfaceAddress>,
    count: nat,
    name: Seq<char>,
)
    ensures
        addresses_v4(addresses, count, name).no_duplicates(),
        addresses_v6(addresses, count, name).no_duplicates(),
    decreases count,
{
    if count > 0 {
        lemma_addresses_are_distinct(addresses, (count - 1) as nat, name);
    }
}

/// A name is among some.
pub open spec fn lists_name(names: Seq<String>, name: Seq<char>) -> bool {
    exists|i: int| 0 <= i < names.len() && (#[trigger] names[i])@ == name
}

fn has_name(names: &Vec<String>, name: &str) -> (found: bool)
    ensures
        found == lists_name(names@, name@),
{
    let mut i: usize = 0;
    while i < names.len()
        invariant
            i <= names@.len(),
            forall|j: int| 0 <= j < i ==> (#[trigger] names@[j])@ != name@,
        decreases names@.len() - i,
    {
        if same_text(names[i].as_str(), name) {
            assert(names@[i as int]@ == name@);
            return true;
        }
        i += 1;
    }
    false
}

/// The names of rows.
pub open spec fn row_names(rows: Seq<RawNetDevRow>) -> Seq<String> {
    Seq::new(rows.len(), |i: int| rows[i].name)
}

/// Names with those of the first `count` directory entries that are not among them.
pub open spec fn with_entries(names: Seq<String>, entries: Seq<String>, count: nat) -> Seq<String>
    decreases count,
{
    if count == 0 {
        names
    } else {
        let before = with_entries(names, entries, (count - 1) as nat);
        if lists_name(before, entries[count - 1]@) {
            before
        } else {
            before.push(entries[count - 1])
        }
    }
}

/// In the order in which interfaces are listed, the first name may stand before the second:
/// the loopback interface comes last, and otherwise the alphabet decides.
pub open spec fn listing_leq(left: Seq<char>, right: Seq<char>) -> bool {
    if (left == "lo"@) == (right == "lo"@) {
        order::text_leq(left, right)
    } else {
        left != "lo"@
    }
}

pub open spec fn interface_order() -> spec_fn(String, String) -> bool {
    |left: String, right: String| listing_leq(left@, right@)
}

/// The order in which interfaces are listed.
pub struct LoopbackLast;

impl Order<String> for LoopbackLast {
    open spec fn fits(&self, item: String) -> bool {
        true
    }

    open spec fn leq(&self) -> spec_fn(String, String) -> bool {
        interface_order()
    }

    proof fn lawful(&self) {
        let leq = interface_order();
        assert forall|left: String, right: String| #[trigger]
            leq(left, right) || leq(right, left) by {
            order::lemma_text_order(left@, left@, right@);
        }
        assert forall|left: String, middle: String, right: String| #[trigger]
            leq(left, middle) && #[trigger] leq(middle, right) implies leq(left, right) by {
            order::lemma_text_order(left@, middle@, right@);
        }
    }

    fn may_precede(&self, left: &String, right: &String) -> (result: bool) {
        let left_last: bool = same_text(left.as_str(), "lo");
        let right_last: bool = same_text(right.as_str(), "lo");
        if left_last == right_last {
            chars_leq(&characters(left.as_str()), &characters(right.as_str()))
        } else {
            right_last
        }
    }
}

/// All interfaces by name: those with counters and those with a directory.
pub open spec fn listed_names(rows: Seq<RawNetDevRow>, entries: Seq<String>) -> Seq<String> {
    order::arranged(interface_order(), with_entries(row_names(rows), entries, entries.len()))
}

fn list_names(rows: &Vec<RawNetDevRow>, entries: &Vec<String>) -> (names: Vec<String>)
    ensures
        names@ == listed_names(rows@, entries@),
{
    let mut names: Vec<String> = Vec::new();
    let mut i: usize = 0;
    while i < rows.len()
        invariant
            i <= rows@.len(),
            names@ == row_names(rows@).take(i as int),
        decreases rows@.len() - i,
    {
        names.push(rows[i].name.clone());
        assert(row_names(rows@).take(i + 1) =~= row_names(rows@).take(i as int).push(
            rows@[i as int].name,
        ));
        i += 1;
    }
    assert(row_names(rows@).take(i as int) =~= row_names(rows@));
    let mut j: usize = 0;
    while j < entries.len()
        invariant
            j <= entries@.len(),
            names@ == with_entries(row_names(rows@), entries@, j as nat),
        decreases entries@.len() - j,
    {
        if !has_name(&names, entries[j].as_str()) {
            names.push(entries[j].clone());
        }
        j += 1;
    }
    arrange(&LoopbackLast, names)
}

/// The first row from `from` on with a name.
pub open spec fn row_named(rows: Seq<RawNetDevRow>, from: int, name: Seq<char>) -> Option<RawNetDevRow>
    decreases rows.len() - from,
{
    if from >= rows.len() {
        None
    } else if rows[from].name@ == name {
        Some(rows[from])
    } else {
        row_named(rows, from + 1, name)
    }
}

fn find_row(rows: &Vec<RawNetDevRow>, name: &str) -> (at: Option<usize>)
    ensures
        match at {
            Some(at) => at < rows@.len() && row_named(rows@, 0, name@) == Some(rows@[at as int]),
            None => row_named(rows@, 0, name@) is None,
        },
{
    let mut i: usize = 0;
    while i < rows.len()
        invariant
            i <= rows@.len(),
            row_named(rows@, 0, name@) == row_named(rows@, i as int, name@),
        decreases rows@.len() - i,
    {
        if same_text(rows[i].name.as_str(), name) {
            return Some(i);
        }
        i += 1;
    }
    None
}

/// An interface in a listing, with the rates of its two byte counters since the one before.
#[derive(Debug, Clone, PartialEq)]
pub struct InterfaceReading {
    /// What is known of the interface, its rates left out.
    pub info: NetworkInterfaceInfo,
    /// How fast it received and sent.
    pub rates: Option<(Rate, Rate)>,
}

impl InterfaceReading {
    /// The interface as it is shown, with its rates in bytes per second.
    pub fn into_info(self, rx_rate: Option<Number>, tx_rate: Option<Number>) -> (info:
        NetworkInterfaceInfo)
        ensures
            info == (NetworkInterfaceInfo {
                rx_rate_bytes_per_sec: rx_rate,
                tx_rate_bytes_per_sec: tx_rate,
                ..self.info
            }),
    {
        let mut info = self.info;
        info.rx_rate_bytes_per_sec = rx_rate;
        info.tx_rate_bytes_per_sec = tx_rate;
        info
    }
}

/// The counters of a row, which are all zero where there is none.
pub open spec fn counters_shown(info: NetworkInterfaceInfo, row: Option<RawNetDevRow>) -> bool {
    match row {
        Some(row) => {
            &&& info.rx_bytes == row.rx_bytes
            &&& info.tx_bytes == row.tx_bytes
            &&& info.rx_packets == row.rx_packets
            &&& info.tx_packets == row.tx_packets
            &&& info.rx_errors == row.rx_errors
            &&& info.tx_errors == row.tx_errors
            &&& info.rx_dropped == row.rx_dropped
            &&& info.tx_dropped == row.tx_dropped
        },
        None => {
            &&& info.rx_bytes == 0
            &&& info.tx_bytes == 0
            &&& info.rx_packets == 0
            &&& info.tx_packets == 0
            &&& info.rx_errors == 0
            &&& info.tx_errors == 0
            &&& info.rx_dropped == 0
            &&& info.tx_dropped == 0
        },
    }
}

/// The byte counters of a row at a moment.
pub open spec fn row_sample(row: RawNetDevRow, now: Nanos) -> CounterSample {
    CounterSample { first: row.rx_bytes, second: row.tx_bytes, at: now }
}

/// What a listing is made from.
pub struct ListingFacts {
    pub names: Seq<String>,
    pub rows: Seq<RawNetDevRow>,
    pub addresses: Seq<InterfaceAddress>,
    pub previous: Seq<NamedCounters>,
    pub now: Nanos,
}

impl ListingFacts {
    /// An interface that is listed under a name for the first time has the addresses.
    pub open spec fn first_under_name(self, i: int) -> bool {
        forall|j: int| 0 <= j < i ==> (#[trigger] self.names[j])@ != self.names[i]@
    }

    /// A reading is that of the interface at position `i`, whose files hold `files`.
    pub open spec fn shows(self, reading: InterfaceReading, files: InterfaceFiles, i: int) -> bool {
        let name = self.names[i]@;
        let row = row_named(self.rows, 0, name);
        &&& reading.info.name@ == name
        &&& reading.info.operstate == link_state(text::optional_view(files.operstate))
        &&& text::optional_view(reading.info.mac_address) == hardware_address(
            text::optional_view(files.address),
        )
        &&& reading.info.mtu == packet_size(text::optional_view(files.mtu))
        &&& counters_shown(reading.info, row)
        &&& reading.info.ipv4_addresses@ == if self.first_under_name(i) {
            addresses_v4(self.addresses, self.addresses.len(), name)
        } else {
            Seq::empty()
        }
        &&& reading.info.ipv6_addresses@ == if self.first_under_name(i) {
            addresses_v6(self.addresses, self.addresses.len(), name)
        } else {
            Seq::empty()
        }
        &&& reading.info.rx_rate_bytes_per_sec is None
        &&& reading.info.tx_rate_bytes_per_sec is None
        &&& reading.rates == (match row {
            Some(row) => rate::rates_between(
                rate::known_sample(self.previous, 0, name),
                row_sample(row, self.now),
            ),
            None => None,
        })
    }

    /// The byte counters of the first `count` interfaces that have any. One that only has a
    /// directory leaves none behind, so that no later rate starts from it.
    pub open spec fn samples(self, count: nat) -> Seq<NamedCounters>
        decreases count,
    {
        if count == 0 {
            Seq::empty()
        } else {
            let before = self.samples((count - 1) as nat);
            let name = self.names[count - 1]@;
            match row_named(self.rows, 0, name) {
                Some(row) => before.push(
                    NamedCounters { name, sample: row_sample(row, self.now) },
                ),
                None => before,
            }
        }
    }
}

/// Lists interfaces again and again.
pub struct NetworkSampler {
    previous: Vec<NamedSample>,
}

impl View for NetworkSampler {
    type V = Seq<NamedCounters>;

    closed spec fn view(&self) -> Seq<NamedCounters> {
        rate::named_views(self.previous@)
    }
}

impl Default for NetworkSampler {
    fn default() -> (sampler: NetworkSampler)
        ensures
            sampler@ == Seq::<NamedCounters>::empty(),
    {
        let sampler = NetworkSampler { previous: Vec::new() };
        assert(sampler@ =~= Seq::<NamedCounters>::empty());
        sampler
    }
}

/// A name is among the first `count`.
fn is_listed_before(names: &Vec<String>, count: usize) -> (found: bool)
    requires
        count < names@.len(),
    ensures
        found == exists|j: int| 0 <= j < count && (#[trigger] names@[j])@ == names@[count as int]@,
{
    let mut i: usize = 0;
    while i < count
        invariant
            i <= count < names@.len(),
            forall|j: int| 0 <= j < i ==> (#[trigger] names@[j])@ != names@[count as int]@,
        decreases count - i,
    {
        if same_text(names[i].as_str(), names[count].as_str()) {
            assert(names@[i as int]@ == names@[count as int]@);
            return true;
        }
        i += 1;
    }
    false
}

/// What is known of an interface by its row and its files.
fn describe(
    name: String,
    row: Option<&RawNetDevRow>,
    files: &InterfaceFiles,
    addresses: (Vec<u32>, Vec<u128>),
) -> (info: NetworkInterfaceInfo)
    ensures
        info.name == name,
        info.operstate == link_state(text::optional_view(files.operstate)),
        text::optional_view(info.mac_address) == hardware_address(text::optional_view(files.address)),
        info.mtu == packet_size(text::optional_view(files.mtu)),
        counters_shown(
            info,
            match row {
                Some(row) => Some(*row),
                None => None,
            },
        ),
        info.ipv4_addresses == addresses.0,
        info.ipv6_addresses == addresses.1,
        info.rx_rate_bytes_per_sec is None,
        info.tx_rate_bytes_per_sec is None,
{
    let mut info = NetworkInterfaceInfo {
        name,
        operstate: read_operstate(&files.operstate),
        mac_address: read_mac_address(&files.address),
        mtu: read_mtu(&files.mtu),
        ipv4_addresses: addresses.0,
        ipv6_addresses: addresses.1,
        rx_bytes: 0,
        tx_bytes: 0,
        rx_packets: 0,
        tx_packets: 0,
        rx_errors: 0,
        tx_errors: 0,
        rx_dropped: 0,
        tx_dropped: 0,
        rx_rate_bytes_per_sec: None,
        tx_rate_bytes_per_sec: None,
    };
    match row {
        Some(row) => {
            info.rx_bytes = row.rx_bytes;
            info.tx_bytes = row.tx_bytes;
            info.rx_packets = row.rx_packets;
            info.tx_packets = row.tx_packets;
            info.rx_errors = row.rx_errors;
            info.tx_errors = row.tx_errors;
            info.rx_dropped = row.rx_dropped;
            info.tx_dropped = row.tx_dropped;
        },
        None => {},
    }
    info
}

/// The message for counters that could not be read.
pub open spec fn read_failure(path: Seq<char>, error: Seq<char>) -> Seq<char> {
    "Failed to read "@ + path + ": "@ + error
}

/// All interfaces, or why they could not be listed.
#[derive(Debug, Clone, PartialEq)]
pub struct NetworkListing {
    pub interfaces: Vec<InterfaceReading>,
    pub error: Option<String>,
}

impl NetworkSampler {
    /// Lists all interfaces at `now`: those in `contents`, the counters read from the file at
    /// `path`, and those with an entry in the directory of interfaces. `read_files` reads the
    /// files in the directory of an interface. Where the counters could not be read nothing is
    /// listed and nothing is remembered, so that no later rate spans the gap.
    pub fn collect_at<F>(
        &mut self,
        now: Nanos,
        path: &str,
        contents: Result<String, String>,
        entries: &Vec<String>,
        addresses: &Vec<InterfaceAddress>,
        read_files: F,
    ) -> (listing: NetworkListing) where F: Fn(&str) -> InterfaceFiles
        requires
            contents matches Ok(contents) ==> forall|rows: Seq<RawNetDevRow>|
                #[trigger] rows_of(rows, contents@) ==> files_readable(
                    listed_names(rows, entries@),
                    read_files,
                ),
        ensures
            match contents {
                Ok(contents) => exists|rows: Seq<RawNetDevRow>, files: Seq<InterfaceFiles>|
                    {
                        &&& rows_of(rows, contents@)
                        &&& listed(
                            listing,
                            ListingFacts {
                                names: listed_names(rows, entries@),
                                rows,
                                addresses: addresses@,
                                previous: old(self)@,
                                now,
                            },
                            files,
                            final(self)@,
                        )
                        &&& #[trigger] files_read(listed_names(rows, entries@), files, read_files)
                    },
                Err(error) => {
                    &&& listing.interfaces@.len() == 0
                    &&& text::optional_view(listing.error) == Some(read_failure(path@, error@))
                    &&& final(self)@ == Seq::<NamedCounters>::empty()
                },
            },
    {
        let contents = match contents {
            Ok(contents) => contents,
            Err(error) => {
                self.previous = Vec::new();
                assert(self@ =~= Seq::<NamedCounters>::empty());
                let mut message = String::from_str("Failed to read ");
                message.append(path);
                message.append(": ");
                message.append(error.as_str());
                return NetworkListing { interfaces: Vec::new(), error: Some(message) };
            },
        };
        let rows = parse_proc_net_dev(contents.as_str());
        let names = list_names(&rows, entries);
        let ghost facts = ListingFacts {
            names: names@,
            rows: rows@,
            addresses: addresses@,
            previous: self@,
            now,
        };
        let ghost mut files_seen: Seq<InterfaceFiles> = Seq::empty();
        let mut next: Vec<NamedSample> = Vec::new();
        let mut interfaces: Vec<InterfaceReading> = Vec::new();
        let mut i: usize = 0;
        assert(rate::named_views(next@) =~= Seq::empty());
        while i < names.len()
            invariant
                i <= names@.len(),
                self@ == old(self)@,
                self.previous@ == old(self).previous@,
                facts == (ListingFacts {
                    names: names@,
                    rows: rows@,
                    addresses: addresses@,
                    previous: self@,
                    now,
                }),
                files_readable(names@, read_files),
                files_seen.len() == i,
                files_read(names@, files_seen, read_files),
                interfaces@.len() == i,
                forall|j: int|
                    0 <= j < i ==> facts.shows(#[trigger] interfaces@[j], files_seen[j], j),
                rate::named_views(next@) == facts.samples(i as nat),
            decreases names@.len() - i,
        {
            let name = names[i].as_str();
            let at = find_row(&rows, name);
            let files = read_files(name);
            let lists = if is_listed_before(&names, i) {
                (Vec::new(), Vec::new())
            } else {
                addresses_of(addresses, name)
            };
            let ghost before = next@;
            let ghost earlier = interfaces@;
            let (info, rates) = match at {
                Some(at) => {
                    let row = &rows[at];
                    let sample = CounterSample::new(row.rx_bytes, row.tx_bytes, now);
                    let rates = sample.rates_since(find_sample(&self.previous, name));
                    next.push(NamedSample { name: names[i].clone(), sample });
                    assert(rate::named_views(next@) =~= rate::named_views(before).push(
                        NamedCounters { name: name@, sample },
                    ));
                    (describe(names[i].clone(), Some(row), &files, lists), rates)
                },
                None => (describe(names[i].clone(), None, &files, lists), None),
            };
            let reading = InterfaceReading { info, rates };
            proof {
                assert(facts.shows(reading, files, i as int));
                let longer = files_seen.push(files);
                assert forall|j: int| #![trigger longer[j]] 0 <= j < longer.len() implies file_read(
                    names@[j]@,
                    longer[j],
                    read_files,
                ) by {
                    if j < i {
                        assert(longer[j] == files_seen[j]);
                    }
                }
                files_seen = longer;
            }
            interfaces.push(reading);
            i += 1;
        }
        self.previous = next;
        let listing = NetworkListing { interfaces, error: None };
        proof {
            assert(listed(listing, facts, files_seen, self@));
            assert(files_read(listed_names(rows@, entries@), files_seen, read_files));
        }
        listing
    }
}

/// The files of every interface listed can be read by `read_files`. Those of no other are read.
pub open spec fn files_readable<F>(names: Seq<String>, read_files: F) -> bool where
    F: Fn(&str) -> InterfaceFiles,
 {
    forall|i: int, name: &str|
        #![trigger names[i], read_files.requires((name,))]
        0 <= i < names.len() && name@ == names[i]@ ==> read_files.requires((name,))
}

/// The files came out of `read_files`.
pub open spec fn files_read<F>(names: Seq<String>, files: Seq<InterfaceFiles>, read_files: F) -> bool where
    F: Fn(&str) -> InterfaceFiles,
 {
    forall|i: int|
        #![trigger files[i]]
        0 <= i < files.len() ==> file_read(names[i]@, files[i], read_files)
}

/// The files of one interface came out of `read_files`.
pub open spec fn file_read<F>(text: Seq<char>, files: InterfaceFiles, read_files: F) -> bool where
    F: Fn(&str) -> InterfaceFiles,
 {
    exists|name: &str| name@ == text && #[trigger] read_files.ensures((name,), files)
}

/// A listing shows every interface there is, and leaves the byte counters behind.
pub open spec fn listed(
    listing: NetworkListing,
    facts: ListingFacts,
    files: Seq<InterfaceFiles>,
    after: Seq<NamedCounters>,
) -> bool {
    &&& listing.error is None
    &&& files.len() == facts.names.len()
    &&& listing.interfaces@.len() == facts.names.len()
    &&& forall|i: int|
        0 <= i < facts.names.len() ==> facts.shows(
            #[trigger] listing.interfaces@[i],
            files[i],
            i,
        )
    &&& after == facts.samples(facts.names.len())
}

/// Byte counters are left behind under the names of interfaces in the listing that have some,
/// and under no others: neither an interface that is gone nor one that only has a directory is
/// measured from later.
pub proof fn lemma_only_counters_are_measured_from(facts: ListingFacts, count: nat, name: Seq<char>)
    requires
        count <= facts.names.len(),
        row_named(facts.rows, 0, name) is None || !lists_name(facts.names, name),
    ensures
        rate::known_sample(facts.samples(count), 0, name) is None,
{
    lemma_samples_are_of_rows(facts, count);
    let samples = facts.samples(count);
    assert forall|i: int| 0 <= i < samples.len() implies (#[trigger] samples[i]).name != name by {
        if samples[i].name == name {
            assert(row_named(facts.rows, 0, samples[i].name) is Some);
            assert(lists_name(facts.names, samples[i].name));
        }
    }
    rate::lemma_unknown(samples, 0, name);
}

/// No rate spans a gap: an interface that had no counters in the listing before has no rates in
/// the next one.
pub proof fn lemma_no_rate_spans_a_gap(
    earlier: NetworkListing,
    earlier_facts: ListingFacts,
    earlier_files: Seq<InterfaceFiles>,
    later: NetworkListing,
    later_facts: ListingFacts,
    later_files: Seq<InterfaceFiles>,
    after: Seq<NamedCounters>,
    i: int,
)
    requires
        listed(earlier, earlier_facts, earlier_files, later_facts.previous),
        listed(later, later_facts, later_files, after),
        0 <= i < later.interfaces@.len(),
        row_named(earlier_facts.rows, 0, later.interfaces@[i].info.name@) is None || !lists_name(
            earlier_facts.names,
            later.interfaces@[i].info.name@,
        ),
    ensures
        later.interfaces@[i].rates is None,
{
    assert(later_facts.shows(later.interfaces@[i], later_files[i], i));
    lemma_only_counters_are_measured_from(
        earlier_facts,
        earlier_facts.names.len(),
        later.interfaces@[i].info.name@,
    );
}

/// A listing that follows one that failed, or that is the first, has no rates.
pub proof fn lemma_first_listing_has_no_rates(
    listing: NetworkListing,
    facts: ListingFacts,
    files: Seq<InterfaceFiles>,
    after: Seq<NamedCounters>,
    i: int,
)
    requires
        listed(listing, facts, files, after),
        facts.previous.len() == 0,
        0 <= i < listing.interfaces@.len(),
    ensures
        listing.interfaces@[i].rates is None,
{
    assert(facts.shows(listing.interfaces@[i], files[i], i));
    rate::lemma_unknown(facts.previous, 0, facts.names[i]@);
}

proof fn lemma_samples_are_of_rows(facts: ListingFacts, count: nat)
    requires
        count <= facts.names.len(),
    ensures
        forall|i: int|
            0 <= i < facts.samples(count).len() ==> row_named(
                facts.rows,
                0,
                (#[trigger] facts.samples(count)[i]).name,
            ) is Some && lists_name(facts.names, facts.samples(count)[i].name),
    decreases count,
{
    if count > 0 {
        lemma_samples_are_of_rows(facts, (count - 1) as nat);
        let before = facts.samples((count - 1) as nat);
        let name = facts.names[count - 1]@;
        assert(lists_name(facts.names, name));
        assert forall|i: int| 0 <= i < facts.samples(count).len() implies row_named(
            facts.rows,
            0,
            (#[trigger] facts.samples(count)[i]).name,
        ) is Some && lists_name(facts.names, facts.samples(count)[i].name) by {
            if i < before.len() {
                assert(facts.samples(count)[i] == before[i]);
            }
        }
    }
}

/// The loopback interface is listed behind all others.
pub proof fn lemma_loopback_is_last(rows: Seq<RawNetDevRow>, entries: Seq<String>, i: int, j: int)
    requires
        0 <= i < j < listed_names(rows, entries).len(),
        listed_names(rows, entries)[i]@ == "lo"@,
    ensures
        listed_names(rows, entries)[j]@ == "lo"@,
{
    let names = with_entries(row_names(rows), entries, entries.len());
    LoopbackLast.lawful();
    order::lemma_arranged_sorts(interface_order(), names);
    assert(interface_order()(listed_names(rows, entries)[i], listed_names(rows, entries)[j]));
}

} // verus!
