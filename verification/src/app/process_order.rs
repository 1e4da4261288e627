//! Which processes a query finds, and how they are sorted.
use vstd::prelude::*;

use crate::action::{ProcessSort, ProcessSortField};
use crate::linux::process::ProcessInfo;
use crate::number::Number;
use crate::numerals;
use crate::numerals::to_decimal;
use crate::order;
use crate::order::{chars_leq, Order, Standing};
use crate::text;
use crate::text::{characters, contains_chars, to_lowercase};

verus! {

broadcast use vstd::string::group_string_axioms;

/// What the name and the command of a process are searched and sorted by.
#[derive(Debug)]
pub struct ProcessKeys {
    name: Vec<char>,
    command: Option<Vec<char>>,
}

impl ProcessKeys {
    /// The keys are those of `process`.
    pub closed spec fn of(self, process: ProcessInfo) -> bool {
        &&& self.name@ == text::lowercase(process.name@)
        &&& match (self.command, process.command) {
            (Some(key), Some(command)) => key@ == text::lowercase(command@),
            (None, None) => true,
            _ => false,
        }
    }

    pub(crate) fn new(process: &ProcessInfo) -> (keys: ProcessKeys)
        ensures
            keys.of(*process),
    {
        ProcessKeys {
            name: characters(to_lowercase(process.name.as_str()).as_str()),
            command: match &process.command {
                Some(command) => Some(characters(to_lowercase(command.as_str()).as_str())),
                None => None,
            },
        }
    }
}

/// A query is part of a name, of a command or of a PID. The empty query is part of each.
pub open spec fn keys_hold(
    name: Seq<char>,
    command: Option<Seq<char>>,
    pid: u32,
    query: Seq<char>,
) -> bool {
    ||| query.len() == 0
    ||| text::contains(name, query)
    ||| text::contains(numerals::decimal(pid as nat), query)
    ||| (command is Some && text::contains(command->0, query))
}

/// What an optional row of characters stands for.
pub open spec fn optional_chars(chars: Option<Vec<char>>) -> Option<Seq<char>> {
    match chars {
        Some(chars) => Some(chars@),
        None => None,
    }
}

/// Whether a query is part of a name, of a command or of a PID.
pub fn keys_match(
    name: &Vec<char>,
    command: &Option<Vec<char>>,
    pid: u32,
    query: &Vec<char>,
) -> (found: bool)
    ensures
        found == keys_hold(name@, optional_chars(*command), pid, query@),
{
    query.len() == 0 || contains_chars(name, query) || contains_chars(
        &characters(to_decimal(pid as u64).as_str()),
        query,
    ) || (match command {
        Some(command) => contains_chars(command, query),
        None => false,
    })
}

/// A process is found by a query, itself in lower case: the query is part of its name or of
/// its command, whatever their case, or of its PID. The empty query finds every process.
pub open spec fn found_by(process: ProcessInfo, query: Seq<char>) -> bool {
    keys_hold(
        text::lowercase(process.name@),
        match process.command {
            Some(command) => Some(text::lowercase(command@)),
            None => None,
        },
        process.pid,
        query,
    )
}

pub(crate) fn process_matches(process: &ProcessInfo, keys: &ProcessKeys, query: &Vec<char>) -> (found: bool)
    requires
        keys.of(*process),
    ensures
        found == found_by(*process, query@),
{
    keys_match(&keys.name, &keys.command, process.pid, query)
}

pub open spec fn turned(order: Standing, descending: bool) -> Standing {
    if !descending {
        order
    } else {
        match order {
            Standing::Before => Standing::After,
            Standing::Level => Standing::Level,
            Standing::After => Standing::Before,
        }
    }
}

fn ordered(order: Standing, descending: bool) -> (result: Standing)
    ensures
        result == turned(order, descending),
{
    if !descending {
        order
    } else {
        match order {
            Standing::Before => Standing::After,
            Standing::Level => Standing::Level,
            Standing::After => Standing::Before,
        }
    }
}

/// How two processor shares compare. One that is not known yet comes last either way.
pub open spec fn share_order(left: Option<Number>, right: Option<Number>, descending: bool) -> Standing {
    match (left, right) {
        (Some(left), Some(right)) => turned(order::standing(left.rank(), right.rank()), descending),
        (Some(_), None) => Standing::Before,
        (None, Some(_)) => Standing::After,
        (None, None) => Standing::Level,
    }
}

fn compare_optional_cpu(left: Option<Number>, right: Option<Number>, descending: bool) -> (order:
    Standing)
    ensures
        order == share_order(left, right, descending),
{
    match (left, right) {
        (Some(left), Some(right)) => ordered(
            if !right.ranks_up_to(left) {
                Standing::Before
            } else if left.ranks_up_to(right) {
                Standing::Level
            } else {
                Standing::After
            },
            descending,
        ),
        (Some(_), None) => Standing::Before,
        (None, Some(_)) => Standing::After,
        (None, None) => Standing::Level,
    }
}

/// How two processes compare by the chosen column.
pub open spec fn column_order(left: ProcessInfo, right: ProcessInfo, sort: ProcessSort) -> Standing {
    match sort.field {
        ProcessSortField::Cpu => share_order(left.cpu_percent, right.cpu_percent, sort.descending),
        ProcessSortField::Memory => turned(
            order::standing(left.memory_bytes as int, right.memory_bytes as int),
            sort.descending,
        ),
        ProcessSortField::Pid => turned(order::standing(left.pid as int, right.pid as int), sort.descending),
        ProcessSortField::Name => turned(
            order::text_standing(text::lowercase(left.name@), text::lowercase(right.name@)),
            sort.descending,
        ),
    }
}

/// How two processes stand to each other in the table: by the chosen column, then by PID.
pub open spec fn table_order(left: ProcessInfo, right: ProcessInfo, sort: ProcessSort) -> Standing {
    match column_order(left, right, sort) {
        Standing::Level => order::standing(left.pid as int, right.pid as int),
        decided => decided,
    }
}

fn compare_numbers(left: u64, right: u64) -> (order: Standing)
    ensures
        order == order::standing(left as int, right as int),
{
    if left < right {
        Standing::Before
    } else if left == right {
        Standing::Level
    } else {
        Standing::After
    }
}

fn compare_processes(
    left: &ProcessInfo,
    left_keys: &ProcessKeys,
    right: &ProcessInfo,
    right_keys: &ProcessKeys,
    sort: ProcessSort,
) -> (order: Standing)
    requires
        left_keys.of(*left),
        right_keys.of(*right),
    ensures
        order == table_order(*left, *right, sort),
{
    let order = match sort.field {
        ProcessSortField::Cpu => compare_optional_cpu(
            left.cpu_percent,
            right.cpu_percent,
            sort.descending,
        ),
        ProcessSortField::Memory => ordered(
            compare_numbers(left.memory_bytes, right.memory_bytes),
            sort.descending,
        ),
        ProcessSortField::Pid => ordered(
            compare_numbers(left.pid as u64, right.pid as u64),
            sort.descending,
        ),
        ProcessSortField::Name => ordered(
            if !chars_leq(&right_keys.name, &left_keys.name) {
                Standing::Before
            } else if chars_leq(&left_keys.name, &right_keys.name) {
                Standing::Level
            } else {
                Standing::After
            },
            sort.descending,
        ),
    };
    match order {
        Standing::Level => compare_numbers(left.pid as u64, right.pid as u64),
        decided => decided,
    }
}

/// The order of the processes of a listing, given by their places in it.
pub open spec fn listing_order(processes: Seq<ProcessInfo>, sort: ProcessSort) -> spec_fn(
    usize,
    usize,
) -> bool {
    |left: usize, right: usize|
        table_order(processes[left as int], processes[right as int], sort) != Standing::After
}

/// The processes of a listing in the order of the table.
pub struct ByColumn<'a> {
    pub processes: &'a Vec<ProcessInfo>,
    pub keys: &'a Vec<ProcessKeys>,
    pub sort: ProcessSort,
}

/// Every process has its keys.
pub open spec fn keyed(processes: Seq<ProcessInfo>, keys: Seq<ProcessKeys>) -> bool {
    processes.len() == keys.len() && forall|i: int|
        0 <= i < keys.len() ==> (#[trigger] keys[i]).of(processes[i])
}

proof fn lemma_table_order(
    left: ProcessInfo,
    middle: ProcessInfo,
    right: ProcessInfo,
    sort: ProcessSort,
)
    ensures
        table_order(left, right, sort) != Standing::After || table_order(right, left, sort)
            != Standing::After,
        table_order(left, middle, sort) != Standing::After && table_order(middle, right, sort)
            != Standing::After ==> table_order(left, right, sort) != Standing::After,
{
    let l = text::lowercase(left.name@);
    let m = text::lowercase(middle.name@);
    let r = text::lowercase(right.name@);
    order::lemma_text_order(l, m, r);
    order::lemma_text_order(r, m, l);
    order::lemma_text_order(l, r, m);
    order::lemma_text_order(m, l, r);
    order::lemma_text_order(m, r, l);
    order::lemma_text_order(r, l, m);
}

/// The order of the table arranges any listing.
pub proof fn lemma_listing_order(processes: Seq<ProcessInfo>, sort: ProcessSort)
    ensures
        order::preorder(listing_order(processes, sort)),
{
    let leq = listing_order(processes, sort);
    assert forall|left: usize, right: usize| #[trigger]
        leq(left, right) || leq(right, left) by {
        let l = processes[left as int];
        lemma_table_order(l, l, processes[right as int], sort);
    }
    assert forall|left: usize, middle: usize, right: usize| #[trigger]
        leq(left, middle) && #[trigger] leq(middle, right) implies leq(left, right) by {
        lemma_table_order(
            processes[left as int],
            processes[middle as int],
            processes[right as int],
            sort,
        );
    }
}

impl<'a> Order<usize> for ByColumn<'a> {
    open spec fn fits(&self, item: usize) -> bool {
        item < self.processes@.len() && keyed(self.processes@, self.keys@)
    }

    open spec fn leq(&self) -> spec_fn(usize, usize) -> bool {
        listing_order(self.processes@, self.sort)
    }

    proof fn lawful(&self) {
        lemma_listing_order(self.processes@, self.sort);
    }

    fn may_precede(&self, left: &usize, right: &usize) -> (result: bool) {
        let order = compare_processes(
            &self.processes[*left],
            &self.keys[*left],
            &self.processes[*right],
            &self.keys[*right],
            self.sort,
        );
        order != Standing::After
    }
}

} // verus!
