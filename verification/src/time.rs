//! Points in time and spans between them, in nanoseconds.
use vstd::prelude::*;

verus! {

/// Nanoseconds: a span, or a point on a clock that never runs backwards.
pub type Nanos = u64;

pub const MILLISECOND: Nanos = 1_000_000;

pub const SECOND: Nanos = 1_000_000_000;

/// The span from `earlier` to `later`, or nothing where `later` comes first.
pub fn saturating_since(later: Nanos, earlier: Nanos) -> (span: Nanos)
    ensures
        span == if later >= earlier { later - earlier } else { 0 },
{
    if later >= earlier {
        later - earlier
    } else {
        0
    }
}

/// `span` taken `times` times, capped at the longest span there is.
pub fn saturating_times(span: Nanos, times: Nanos) -> (product: Nanos)
    ensures
        product == if span * times <= Nanos::MAX { span * times } else { Nanos::MAX as int },
{
    match span.checked_mul(times) {
        Some(product) => product,
        None => Nanos::MAX,
    }
}

} // verus!
