//! Rates of counters that only grow.
use vstd::prelude::*;

use crate::text::same_text;
use crate::time::{saturating_since, Nanos};

verus! {

broadcast use vstd::string::group_string_axioms;

/// Samples closer together than this give unreliable rates and report none.
pub const MIN_RATE_INTERVAL: Nanos = 1_000_000;

/// How far a counter got in a span of time.
#[derive(Debug, Clone, Copy, PartialEq, Eq, Structural)]
pub struct Rate {
    pub delta: u64,
    pub elapsed: Nanos,
}

/// Two counters read at the same time.
#[derive(Debug, Clone, Copy, PartialEq, Eq, Structural)]
pub struct CounterSample {
    pub first: u64,
    pub second: u64,
    pub at: Nanos,
}

/// The rate of one counter between two points in time. A counter that went backwards was reset
/// or ran over, and stands still for that once.
pub open spec fn rate_between(before: u64, after: u64, elapsed: Nanos) -> Rate {
    Rate {
        delta: if after >= before {
            (after - before) as u64
        } else {
            0
        },
        elapsed,
    }
}

/// The time that passed between two samples.
pub open spec fn elapsed_between(before: Nanos, after: Nanos) -> Nanos {
    if after >= before {
        (after - before) as u64
    } else {
        0
    }
}

/// The rates of both counters since an earlier sample: none without one, and none where the
/// samples are less than a millisecond apart.
pub open spec fn rates_between(previous: Option<CounterSample>, current: CounterSample) -> Option<
    (Rate, Rate),
> {
    match previous {
        Some(previous) => {
            let elapsed = elapsed_between(previous.at, current.at);
            if elapsed < MIN_RATE_INTERVAL {
                None
            } else {
                Some(
                    (
                        rate_between(previous.first, current.first, elapsed),
                        rate_between(previous.second, current.second, elapsed),
                    ),
                )
            }
        },
        None => None,
    }
}

fn rate(before: u64, after: u64, elapsed: Nanos) -> (rate: Rate)
    ensures
        rate == rate_between(before, after, elapsed),
{
    Rate {
        delta: if after >= before {
            after - before
        } else {
            0
        },
        elapsed,
    }
}

impl CounterSample {
    pub fn new(first: u64, second: u64, at: Nanos) -> (sample: CounterSample)
        ensures
            sample == (CounterSample { first, second, at }),
    {
        CounterSample { first, second, at }
    }

    /// The rates since `previous`.
    pub fn rates_since(&self, previous: Option<CounterSample>) -> (rates: Option<(Rate, Rate)>)
        ensures
            rates == rates_between(previous, *self),
    {
        match previous {
            Some(previous) => {
                let elapsed: Nanos = saturating_since(self.at, previous.at);
                if elapsed < MIN_RATE_INTERVAL {
                    return None;
                }
                Some(
                    (
                        rate(previous.first, self.first, elapsed),
                        rate(previous.second, self.second, elapsed),
                    ),
                )
            },
            None => None,
        }
    }
}

/// A rate is never taken over less than a millisecond, so nothing is ever divided by zero.
pub proof fn lemma_rates_span_time(previous: Option<CounterSample>, current: CounterSample)
    ensures
        rates_between(previous, current) matches Some((first, second)) ==> first.elapsed
            >= MIN_RATE_INTERVAL && second.elapsed >= MIN_RATE_INTERVAL,
{
}

/// A device with its counters at a moment.
#[derive(Debug, Clone, PartialEq, Eq)]
pub struct NamedSample {
    pub name: String,
    pub sample: CounterSample,
}

/// A name with counters at a moment.
pub struct NamedCounters {
    pub name: Seq<char>,
    pub sample: CounterSample,
}

impl View for NamedSample {
    type V = NamedCounters;

    open spec fn view(&self) -> NamedCounters {
        NamedCounters { name: self.name@, sample: self.sample }
    }
}

pub open spec fn named_views(devices: Seq<NamedSample>) -> Seq<NamedCounters> {
    Seq::new(devices.len(), |i: int| devices[i]@)
}

/// The counters of the first device from `from` on with a name.
pub open spec fn known_sample(devices: Seq<NamedCounters>, from: int, name: Seq<char>) -> Option<
    CounterSample,
>
    decreases devices.len() - from,
{
    if from >= devices.len() {
        None
    } else if devices[from].name == name {
        Some(devices[from].sample)
    } else {
        known_sample(devices, from + 1, name)
    }
}

pub fn find_sample(devices: &Vec<NamedSample>, name: &str) -> (sample: Option<CounterSample>)
    ensures
        sample == known_sample(named_views(devices@), 0, name@),
{
    let mut i: usize = 0;
    while i < devices.len()
        invariant
            i <= devices@.len(),
            known_sample(named_views(devices@), 0, name@) == known_sample(
                named_views(devices@),
                i as int,
                name@,
            ),
        decreases devices@.len() - i,
    {
        if same_text(devices[i].name.as_str(), name) {
            return Some(devices[i].sample);
        }
        i += 1;
    }
    None
}

/// Nothing is found under a name that no device has.
pub proof fn lemma_unknown(devices: Seq<NamedCounters>, from: int, name: Seq<char>)
    requires
        0 <= from,
        forall|i: int| 0 <= i < devices.len() ==> (#[trigger] devices[i]).name != name,
    ensures
        known_sample(devices, from, name) is None,
    decreases devices.len() - from,
{
    if from < devices.len() {
        lemma_unknown(devices, from + 1, name);
    }
}

/// Something is found under a name that a device has.
pub proof fn lemma_known(devices: Seq<NamedCounters>, from: int, at: int, name: Seq<char>)
    requires
        0 <= from <= at < devices.len(),
        devices[at].name == name,
    ensures
        known_sample(devices, from, name) is Some,
    decreases at - from,
{
    if from < at && devices[from].name != name {
        lemma_known(devices, from + 1, at, name);
    }
}

} // verus!
