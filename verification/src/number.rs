//! Measured values: binary floating point numbers of 64 bits, held by their bits.
use vstd::prelude::*;

verus! {

/// The bit that a negative sign sets.
pub const SIGN: u64 = 0x8000_0000_0000_0000;

/// The bits of infinity. What lies above, the sign left out, is not a number.
pub const INFINITY: u64 = 0x7ff0_0000_0000_0000;

/// The bits of one hundred.
pub const HUNDRED: u64 = 0x4059_0000_0000_0000;

/// A floating point number. Nothing is computed with it here: it is told finite or not, put in
/// order, compared and kept within bounds, all of which its bits decide.
#[derive(Debug, Clone, Copy, PartialEq, Eq, Structural)]
pub struct Number {
    pub bits: u64,
}

impl Number {
    /// The sign bit is set.
    pub open spec fn negative(self) -> bool {
        self.bits >= SIGN
    }

    /// The bits without the sign. They grow with the distance from zero.
    pub open spec fn magnitude(self) -> int {
        if self.negative() {
            self.bits - SIGN
        } else {
            self.bits as int
        }
    }

    /// Neither infinite nor not a number.
    pub open spec fn finite(self) -> bool {
        self.magnitude() < INFINITY
    }

    pub open spec fn nan(self) -> bool {
        self.magnitude() > INFINITY
    }

    /// Less than zero. The zero with a sign is not.
    pub open spec fn below_zero(self) -> bool {
        self.negative() && 0 < self.magnitude() <= INFINITY
    }

    /// Equal as numbers: the two zeros are, what is not a number equals nothing.
    pub open spec fn equals(self, other: Number) -> bool {
        !self.nan() && !other.nan() && (self.bits == other.bits || self.magnitude() == 0
            && other.magnitude() == 0)
    }

    /// The place in the total order that runs from the negative values that are not numbers
    /// over negative infinity, the negative numbers, the two zeros and the positive numbers to
    /// infinity and the positive values that are not numbers.
    pub open spec fn rank(self) -> int {
        if self.negative() {
            -1 - self.magnitude()
        } else {
            self.magnitude()
        }
    }

    /// The nearest value from zero to one hundred.
    pub open spec fn as_percent(self) -> Number {
        if self.below_zero() {
            Number { bits: 0 }
        } else if !self.negative() && self.bits > HUNDRED {
            Number { bits: HUNDRED }
        } else {
            self
        }
    }

    fn get_magnitude(self) -> (magnitude: u64)
        ensures
            magnitude == self.magnitude(),
    {
        if self.bits >= SIGN {
            self.bits - SIGN
        } else {
            self.bits
        }
    }

    pub fn is_finite(self) -> (finite: bool)
        ensures
            finite == self.finite(),
    {
        self.get_magnitude() < INFINITY
    }

    pub fn is_below_zero(self) -> (below: bool)
        ensures
            below == self.below_zero(),
    {
        let magnitude: u64 = self.get_magnitude();
        self.bits >= SIGN && 0 < magnitude && magnitude <= INFINITY
    }

    /// Whether two values are equal as numbers.
    pub fn same(self, other: Number) -> (same: bool)
        ensures
            same == self.equals(other),
    {
        let left: u64 = self.get_magnitude();
        let right: u64 = other.get_magnitude();
        left <= INFINITY && right <= INFINITY && (self.bits == other.bits || left == 0 && right
            == 0)
    }

    /// Whether this value comes before the other, or is it, in the total order.
    pub fn ranks_up_to(self, other: Number) -> (result: bool)
        ensures
            result == (self.rank() <= other.rank()),
    {
        if self.bits >= SIGN {
            other.bits < SIGN || self.bits >= other.bits
        } else {
            other.bits < SIGN && self.bits <= other.bits
        }
    }

    /// A finite value kept within zero and one hundred.
    pub fn clamp_percent(self) -> (clamped: Number)
        requires
            self.finite(),
        ensures
            clamped == self.as_percent(),
            clamped.finite(),
            !clamped.below_zero(),
    {
        if self.is_below_zero() {
            Number { bits: 0 }
        } else if self.bits < SIGN && self.bits > HUNDRED {
            Number { bits: HUNDRED }
        } else {
            self
        }
    }
}

/// Two optional values are both missing or equal as numbers.
pub open spec fn optional_equals(left: Option<Number>, right: Option<Number>) -> bool {
    match (left, right) {
        (Some(left), Some(right)) => left.equals(right),
        (None, None) => true,
        _ => false,
    }
}

pub fn same_optional(left: Option<Number>, right: Option<Number>) -> (same: bool)
    ensures
        same == optional_equals(left, right),
{
    match (left, right) {
        (Some(left), Some(right)) => left.same(right),
        (None, None) => true,
        _ => false,
    }
}

/// No two values share a place in the total order.
pub proof fn lemma_rank_is_unique(left: Number, right: Number)
    requires
        left.rank() == right.rank(),
    ensures
        left == right,
{
}

/// A percentage lies within its bounds, and one that did is kept.
pub proof fn lemma_percent_is_bounded(value: Number)
    requires
        value.finite(),
    ensures
        value.as_percent().finite(),
        !value.as_percent().below_zero(),
        value.as_percent().rank() <= HUNDRED,
        !value.below_zero() && value.rank() <= HUNDRED ==> value.as_percent() == value,
        value.as_percent().as_percent() == value.as_percent(),
{
}

} // verus!
