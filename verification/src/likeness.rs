//! Telling whether two readings show the same.
use vstd::prelude::*;

verus! {

/// Things of which two can show the same.
pub trait Likeness: Sized {
    spec fn same(self, other: Self) -> bool;

    fn equals(&self, other: &Self) -> (same: bool)
        ensures
            same == self.same(*other),
    ;
}

impl Likeness for u32 {
    open spec fn same(self, other: u32) -> bool {
        self == other
    }

    fn equals(&self, other: &u32) -> (same: bool) {
        *self == *other
    }
}

impl Likeness for u64 {
    open spec fn same(self, other: u64) -> bool {
        self == other
    }

    fn equals(&self, other: &u64) -> (same: bool) {
        *self == *other
    }
}

impl Likeness for u128 {
    open spec fn same(self, other: u128) -> bool {
        self == other
    }

    fn equals(&self, other: &u128) -> (same: bool) {
        *self == *other
    }
}

/// Both are missing, or both are there and show the same.
pub open spec fn same_option<T: Likeness>(left: Option<T>, right: Option<T>) -> bool {
    match (left, right) {
        (Some(left), Some(right)) => left.same(right),
        (None, None) => true,
        _ => false,
    }
}

pub fn equal_option<T: Likeness>(left: &Option<T>, right: &Option<T>) -> (same: bool)
    ensures
        same == same_option(*left, *right),
{
    match (left, right) {
        (Some(left), Some(right)) => left.equals(right),
        (None, None) => true,
        _ => false,
    }
}

/// Two rows are equally long and show the same at every place.
pub open spec fn all_same<T: Likeness>(left: Seq<T>, right: Seq<T>) -> bool {
    left.len() == right.len() && forall|i: int|
        0 <= i < left.len() ==> (#[trigger] left[i]).same(right[i])
}

pub fn all_equal<T: Likeness>(left: &Vec<T>, right: &Vec<T>) -> (same: bool)
    ensures
        same == all_same(left@, right@),
{
    if left.len() != right.len() {
        return false;
    }
    let mut i: usize = 0;
    while i < left.len()
        invariant
            i <= left@.len() == right@.len(),
            forall|j: int| 0 <= j < i ==> (#[trigger] left@[j]).same(right@[j]),
        decreases left@.len() - i,
    {
        if !left[i].equals(&right[i]) {
            assert(!left@[i as int].same(right@[i as int]));
            return false;
        }
        i += 1;
    }
    true
}

} // verus!
