//! Processor times, of all processors together and of each.
use vstd::prelude::*;

use crate::linux::stat;
use crate::linux::system::LogicalCpuId;
use crate::numerals;
use crate::numerals::{checked_total, parse_all, parse_u32};
use crate::table;
use crate::table::{find, put};
use crate::text;
use crate::text::{same_text, split_lines, split_words, strip_prefix};

verus! {

broadcast use vstd::string::group_string_axioms;

#[derive(Debug, Clone, Copy, PartialEq, Eq, Structural)]
pub struct CpuTimes {
    pub idle: u64,
    pub total: u64,
}

/// The times that a line of them counts: at least the first four, each a number, and together
/// no more than can be counted. Waiting for a device counts as idle.
pub open spec fn times_in(fields: Seq<Seq<char>>) -> Option<CpuTimes> {
    match numerals::all_unsigned(stat::time_fields(fields)) {
        Some(values) => if values.len() < 4 || numerals::total(values) > u64::MAX {
            None
        } else {
            Some(
                CpuTimes {
                    idle: (values[3] + if values.len() > 4 {
                        values[4] as int
                    } else {
                        0
                    }) as u64,
                    total: numerals::total(values) as u64,
                },
            )
        },
        None => None,
    }
}

/// Two neighbours add up to no more than everything.
proof fn lemma_pair_within_total(values: Seq<u64>, at: int)
    requires
        0 <= at,
        at + 1 < values.len(),
    ensures
        values[at] + values[at + 1] <= numerals::total(values),
{
    numerals::lemma_total_grows(values, at + 2);
    numerals::lemma_total_grows(values, at);
    let longer = values.take(at + 2);
    let middle = values.take(at + 1);
    assert(longer.drop_last() =~= middle);
    assert(middle.drop_last() =~= values.take(at));
    assert(numerals::total(longer) == numerals::total(middle) + values[at + 1]);
    assert(numerals::total(middle) == numerals::total(values.take(at)) + values[at]);
}

proof fn lemma_one_within_total(values: Seq<u64>, at: int)
    requires
        0 <= at < values.len(),
    ensures
        values[at] <= numerals::total(values),
{
    numerals::lemma_total_grows(values, at + 1);
    numerals::lemma_total_grows(values, at);
    assert(values.take(at + 1).drop_last() =~= values.take(at));
}

/// The idle time is part of all time.
pub proof fn lemma_idle_within_total(fields: Seq<Seq<char>>)
    ensures
        times_in(fields) matches Some(times) ==> times.idle <= times.total,
{
    match numerals::all_unsigned(stat::time_fields(fields)) {
        Some(values) => {
            if values.len() > 4 {
                lemma_pair_within_total(values, 3);
            } else if values.len() == 4 {
                lemma_one_within_total(values, 3);
            }
        },
        None => {},
    }
}

/// The times in the fields of a line, the first of which is its label.
pub fn parse_cpu_times(fields: &Vec<String>) -> (times: Option<CpuTimes>)
    requires
        fields@.len() > 0,
    ensures
        times == times_in(text::views(fields@)),
{
    let end: usize = if fields.len() < 9 {
        fields.len()
    } else {
        9
    };
    let values = match parse_all(fields, 1, end) {
        Some(values) => values,
        None => {
            return None;
        },
    };
    if values.len() < 4 {
        return None;
    }
    match checked_total(&values) {
        Some(sum) => {
            proof {
                if values@.len() > 4 {
                    lemma_pair_within_total(values@, 3);
                }
            }
            let waiting: u64 = if values.len() > 4 {
                values[4]
            } else {
                0
            };
            Some(CpuTimes { idle: values[3] + waiting, total: sum })
        },
        None => None,
    }
}

/// The processor that a label names.
pub open spec fn processor_label(label: Seq<char>) -> Option<u32> {
    match text::without_prefix(label, "cpu"@) {
        Some(rest) => match numerals::unsigned(rest, u32::MAX as int) {
            Some(index) => Some(index as u32),
            None => None,
        },
        None => None,
    }
}

/// The times of all processors together: those of the last line labelled so among the first
/// `count`.
pub open spec fn aggregate_times(lines: Seq<Seq<char>>, count: nat) -> Option<CpuTimes>
    decreases count,
{
    if count == 0 {
        None
    } else {
        let fields = text::words(lines[count - 1]);
        if fields.len() > 0 && fields[0] == "cpu"@ {
            times_in(fields)
        } else {
            aggregate_times(lines, (count - 1) as nat)
        }
    }
}

/// The times of one processor: those of the last line about it, among the first `count`, that
/// counts any.
pub open spec fn processor_times(lines: Seq<Seq<char>>, count: nat, index: u32) -> Option<CpuTimes>
    decreases count,
{
    if count == 0 {
        None
    } else {
        let fields = text::words(lines[count - 1]);
        if fields.len() > 0 && fields[0] != "cpu"@ && processor_label(fields[0]) == Some(index)
            && times_in(fields) is Some {
            times_in(fields)
        } else {
            processor_times(lines, (count - 1) as nat, index)
        }
    }
}

/// The times of all processors at one moment.
#[derive(Debug, Clone, PartialEq, Eq)]
pub struct CpuSample {
    pub aggregate: CpuTimes,
    /// By the number of the processor, ascending.
    pub logical: Vec<(u32, CpuTimes)>,
}

impl CpuSample {
    /// The times are those that the lines count.
    pub open spec fn counted_in(self, lines: Seq<Seq<char>>) -> bool {
        &&& aggregate_times(lines, lines.len()) == Some(self.aggregate)
        &&& table::ascending(self.logical@)
        &&& forall|index: u32| #[trigger]
            table::lookup(self.logical@, index) == processor_times(lines, lines.len(), index)
    }
}

fn read_processor_label(label: &str) -> (index: Option<u32>)
    ensures
        index == processor_label(label@),
{
    match strip_prefix(label, "cpu") {
        Some(rest) => {
            proof {
                numerals::lemma_unsigned_range(rest@, u32::MAX as int);
            }
            parse_u32(rest.as_str())
        },
        None => None,
    }
}

/// The processor times that a file of them counts. There are none without a last line for all
/// processors that is complete.
pub fn parse_cpu_sample(contents: &str) -> (sample: Option<CpuSample>)
    ensures
        match sample {
            Some(sample) => sample.counted_in(text::lines(contents@)),
            None => aggregate_times(text::lines(contents@), text::lines(contents@).len()) is None,
        },
{
    let lines = split_lines(contents);
    let ghost all = text::views(lines@);
    let mut aggregate: Option<CpuTimes> = None;
    let mut logical: Vec<(u32, CpuTimes)> = Vec::new();
    let mut i: usize = 0;
    while i < lines.len()
        invariant
            i <= lines@.len(),
            all == text::views(lines@),
            aggregate == aggregate_times(all, i as nat),
            table::ascending(logical@),
            forall|index: u32| #[trigger]
                table::lookup(logical@, index) == processor_times(all, i as nat, index),
        decreases lines@.len() - i,
    {
        assert(all[i as int] == lines@[i as int]@);
        let fields = split_words(lines[i].as_str());
        if fields.len() > 0 {
            assert(text::views(fields@)[0] == fields@[0]@);
            if same_text(fields[0].as_str(), "cpu") {
                aggregate = parse_cpu_times(&fields);
            } else {
                match read_processor_label(fields[0].as_str()) {
                    Some(index) => match parse_cpu_times(&fields) {
                        Some(times) => {
                            put(&mut logical, index, times);
                        },
                        None => {},
                    },
                    None => {},
                }
            }
        }
        i += 1;
    }
    match aggregate {
        Some(aggregate) => Some(CpuSample { aggregate, logical }),
        None => None,
    }
}

/// Time spent working out of all time.
#[derive(Debug, Clone, Copy, PartialEq, Eq, Structural)]
pub struct Utilization {
    pub busy: u64,
    pub total: u64,
}

/// The utilization between two readings: none where no time passed, where a counter ran
/// backwards, or where more idle time passed than time.
pub open spec fn utilization(previous: CpuTimes, current: CpuTimes) -> Option<Utilization> {
    let total = current.total - previous.total;
    let idle = current.idle - previous.idle;
    if total <= 0 || idle < 0 || idle > total {
        None
    } else {
        Some(Utilization { busy: (total - idle) as u64, total: total as u64 })
    }
}

pub fn cpu_utilization(previous: CpuTimes, current: CpuTimes) -> (result: Option<Utilization>)
    ensures
        result == utilization(previous, current),
{
    let total_delta: u64 = match current.total.checked_sub(previous.total) {
        Some(delta) => delta,
        None => {
            return None;
        },
    };
    let idle_delta: u64 = match current.idle.checked_sub(previous.idle) {
        Some(delta) => delta,
        None => {
            return None;
        },
    };
    if total_delta == 0 || idle_delta > total_delta {
        return None;
    }
    Some(Utilization { busy: total_delta - idle_delta, total: total_delta })
}

/// A utilization is a share of time that did pass: between nothing and all of it.
pub proof fn lemma_utilization_is_a_share(previous: CpuTimes, current: CpuTimes)
    ensures
        utilization(previous, current) matches Some(share) ==> share.total > 0 && share.busy
            <= share.total,
{
}

/// The utilization of one processor.
#[derive(Debug, Clone, Copy, PartialEq, Eq, Structural)]
pub struct LogicalCpuShare {
    pub id: LogicalCpuId,
    pub utilization: Option<Utilization>,
}

/// The utilization of one processor since an earlier sample, where that has the processor.
pub open spec fn share_since(previous: Option<CpuSample>, index: u32, times: CpuTimes) -> Option<
    Utilization,
> {
    match previous {
        Some(previous) => match table::lookup(previous.logical@, index) {
            Some(before) => utilization(before, times),
            None => None,
        },
        None => None,
    }
}

/// The utilization of all processors together and of each, by number, since an earlier sample.
pub fn cpu_metrics(previous: Option<&CpuSample>, current: &CpuSample) -> (metrics: (
    Option<Utilization>,
    Vec<LogicalCpuShare>,
))
    requires
        previous matches Some(previous) ==> table::ascending(previous.logical@),
    ensures
        metrics.0 == (match previous {
            Some(previous) => utilization(previous.aggregate, current.aggregate),
            None => None,
        }),
        metrics.1@.len() == current.logical@.len(),
        forall|i: int|
            0 <= i < metrics.1@.len() ==> (#[trigger] metrics.1@[i]) == (LogicalCpuShare {
                id: LogicalCpuId(current.logical@[i].0),
                utilization: share_since(
                    match previous {
                        Some(previous) => Some(*previous),
                        None => None,
                    },
                    current.logical@[i].0,
                    current.logical@[i].1,
                ),
            }),
{
    let aggregate = match previous {
        Some(previous) => cpu_utilization(previous.aggregate, current.aggregate),
        None => None,
    };
    let mut shares: Vec<LogicalCpuShare> = Vec::new();
    let mut i: usize = 0;
    while i < current.logical.len()
        invariant
            i <= current.logical@.len(),
            previous matches Some(previous) ==> table::ascending(previous.logical@),
            shares@.len() == i,
            forall|j: int|
                0 <= j < i ==> (#[trigger] shares@[j]) == (LogicalCpuShare {
                    id: LogicalCpuId(current.logical@[j].0),
                    utilization: share_since(
                        match previous {
                            Some(previous) => Some(*previous),
                            None => None,
                        },
                        current.logical@[j].0,
                        current.logical@[j].1,
                    ),
                }),
        decreases current.logical@.len() - i,
    {
        let (index, times) = current.logical[i];
        let utilization = match previous {
            Some(previous) => {
                let at: usize = find(&previous.logical, index);
                if at < previous.logical.len() && previous.logical[at].0 == index {
                    cpu_utilization(previous.logical[at].1, times)
                } else {
                    None
                }
            },
            None => None,
        };
        shares.push(LogicalCpuShare { id: LogicalCpuId(index), utilization });
        i += 1;
    }
    (aggregate, shares)
}

} // verus!
