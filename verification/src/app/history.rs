//! The recent past of a metric.
use vstd::prelude::*;

use crate::number::Number;

verus! {

/// How many samples a history keeps.
pub const METRIC_HISTORY_CAPACITY: usize = 60;

/// A value that a history records: finite and not below zero.
pub open spec fn recordable(value: Number) -> bool {
    value.finite() && !value.below_zero()
}

/// Samples with one more at the end, the oldest dropped where there were too many.
#[verifier::opaque]
pub open spec fn recorded(samples: Seq<Number>, value: Number) -> Seq<Number> {
    if !recordable(value) {
        samples
    } else if samples.len() == METRIC_HISTORY_CAPACITY {
        samples.skip(1).push(value)
    } else {
        samples.push(value)
    }
}

/// Samples with a percentage added, kept within its bounds. What is not finite is left out.
#[verifier::opaque]
pub open spec fn percent_recorded(samples: Seq<Number>, percent: Number) -> Seq<Number> {
    if percent.finite() {
        recorded(samples, percent.as_percent())
    } else {
        samples
    }
}

/// What holds of the samples of a history.
#[verifier::opaque]
pub open spec fn sound(samples: Seq<Number>) -> bool {
    samples.len() <= METRIC_HISTORY_CAPACITY && forall|i: int|
        0 <= i < samples.len() ==> recordable(#[trigger] samples[i])
}

/// The last samples of one metric, one per sampling interval.
#[derive(Debug)]
pub struct MetricHistory {
    samples: Vec<Number>,
}

impl View for MetricHistory {
    type V = Seq<Number>;

    closed spec fn view(&self) -> Seq<Number> {
        self.samples@
    }
}

impl Default for MetricHistory {
    fn default() -> (history: MetricHistory)
        ensures
            history@ == Seq::<Number>::empty(),
            sound(history@),
    {
        proof {
            reveal(sound);
        }
        MetricHistory { samples: Vec::with_capacity(METRIC_HISTORY_CAPACITY) }
    }
}

impl MetricHistory {
    /// Records a sample; non-finite or negative values are rejected.
    pub fn push(&mut self, value: Number) -> (taken: bool)
        requires
            sound(old(self)@),
        ensures
            final(self)@ == recorded(old(self)@, value),
            taken == recordable(value),
            sound(final(self)@),
    {
        proof {
            reveal(recorded);
            reveal(sound);
        }
        if !value.is_finite() || value.is_below_zero() {
            return false;
        }
        if self.samples.len() == METRIC_HISTORY_CAPACITY {
            self.samples.remove(0);
            assert(self.samples@ =~= old(self)@.skip(1));
        }
        self.samples.push(value);
        true
    }

    pub fn push_percent(&mut self, percent: Number) -> (taken: bool)
        requires
            sound(old(self)@),
        ensures
            final(self)@ == percent_recorded(old(self)@, percent),
            taken == percent.finite(),
            sound(final(self)@),
    {
        proof {
            reveal(percent_recorded);
        }
        percent.is_finite() && self.push(percent.clamp_percent())
    }

    pub fn clear(&mut self)
        ensures
            final(self)@ == Seq::<Number>::empty(),
            sound(final(self)@),
    {
        proof {
            reveal(sound);
        }
        self.samples.clear();
    }

    /// Number of samples kept at most; the history covers that many sampling intervals.
    pub fn capacity(&self) -> (capacity: usize)
        ensures
            capacity == METRIC_HISTORY_CAPACITY,
    {
        METRIC_HISTORY_CAPACITY
    }

    /// The samples, the oldest first.
    pub fn samples(&self) -> (samples: &Vec<Number>)
        ensures
            samples@ == self@,
    {
        &self.samples
    }
}

/// A history never holds more than its capacity, and what is recorded becomes its last sample.
pub proof fn lemma_history_is_bounded(samples: Seq<Number>, value: Number)
    requires
        sound(samples),
    ensures
        sound(recorded(samples, value)),
        recordable(value) ==> recorded(samples, value).last() == value,
        sound(percent_recorded(samples, value)),
        value.finite() ==> percent_recorded(samples, value).last() == value.as_percent(),
{
    reveal(recorded);
    reveal(percent_recorded);
    reveal(sound);
    if value.finite() {
        crate::number::lemma_percent_is_bounded(value);
    }
}

} // verus!
