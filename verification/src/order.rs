//! Putting things in order.
use vstd::prelude::*;

use crate::text::characters;

verus! {

/// How one thing stands to another in an order.
#[derive(Debug, Clone, Copy, PartialEq, Eq, Structural)]
pub enum Standing {
    Before,
    Level,
    After,
}

/// How two numbers stand to each other.
pub open spec fn standing(left: int, right: int) -> Standing {
    if left < right {
        Standing::Before
    } else if left == right {
        Standing::Level
    } else {
        Standing::After
    }
}

/// For any two items one may stand before the other, and what may stand before an item may
/// stand before all that the item may stand before.
pub open spec fn preorder<T>(leq: spec_fn(T, T) -> bool) -> bool {
    &&& forall|left: T, right: T| #[trigger] leq(left, right) || leq(right, left)
    &&& forall|left: T, middle: T, right: T| #[trigger]
        leq(left, middle) && #[trigger] leq(middle, right) ==> leq(left, right)
}

/// A way to arrange items: for any two of them one may stand before the other.
pub trait Order<T> {
    /// The items that this order can compare.
    spec fn fits(&self, item: T) -> bool;

    /// The first item may stand before the second.
    spec fn leq(&self) -> spec_fn(T, T) -> bool;

    proof fn lawful(&self)
        ensures
            preorder(self.leq()),
    ;

    fn may_precede(&self, left: &T, right: &T) -> (result: bool)
        requires
            self.fits(*left),
            self.fits(*right),
        ensures
            result == self.leq()(*left, *right),
    ;
}

/// Every item may stand before all that follow it.
pub open spec fn sorted<T>(leq: spec_fn(T, T) -> bool, items: Seq<T>) -> bool {
    forall|i: int, j: int|
        #![trigger items[i], items[j]]
        0 <= i <= j < items.len() ==> leq(items[i], items[j])
}

pub open spec fn all_fit<T, O: Order<T>>(order: &O, items: Seq<T>) -> bool {
    forall|i: int| 0 <= i < items.len() ==> order.fits(#[trigger] items[i])
}

/// Where `item` goes in a sorted row, counted from `from`: behind all that may stand before it.
pub open spec fn slot<T>(leq: spec_fn(T, T) -> bool, row: Seq<T>, item: T, from: int) -> int
    decreases row.len() - from,
{
    if from >= row.len() || !leq(row[from], item) {
        from
    } else {
        slot(leq, row, item, from + 1)
    }
}

/// The items in order. Of two that may stand either way the one that came first stays first.
pub open spec fn arranged<T>(leq: spec_fn(T, T) -> bool, items: Seq<T>) -> Seq<T>
    decreases items.len(),
{
    if items.len() == 0 {
        items
    } else {
        let row = arranged(leq, items.drop_last());
        row.insert(slot(leq, row, items.last(), 0), items.last())
    }
}

proof fn lemma_slot<T>(leq: spec_fn(T, T) -> bool, row: Seq<T>, item: T, from: int)
    requires
        0 <= from <= row.len(),
    ensures
        from <= slot(leq, row, item, from) <= row.len(),
        forall|i: int| from <= i < slot(leq, row, item, from) ==> leq(#[trigger] row[i], item),
        slot(leq, row, item, from) < row.len() ==> !leq(row[slot(leq, row, item, from)], item),
    decreases row.len() - from,
{
    if from < row.len() && leq(row[from], item) {
        lemma_slot(leq, row, item, from + 1);
    }
}

proof fn lemma_slot_is<T>(leq: spec_fn(T, T) -> bool, row: Seq<T>, item: T, from: int, at: int)
    requires
        0 <= from <= at <= row.len(),
        forall|i: int| from <= i < at ==> leq(#[trigger] row[i], item),
        at < row.len() ==> !leq(row[at], item),
    ensures
        slot(leq, row, item, from) == at,
    decreases at - from,
{
    if from < at {
        assert(leq(row[from], item));
        lemma_slot_is(leq, row, item, from + 1, at);
    }
}

/// Arranging items neither adds nor drops any.
pub proof fn lemma_arranged_keeps<T>(leq: spec_fn(T, T) -> bool, items: Seq<T>)
    ensures
        arranged(leq, items).len() == items.len(),
        arranged(leq, items).to_multiset() == items.to_multiset(),
    decreases items.len(),
{
    broadcast use vstd::seq_lib::group_to_multiset_ensures;

    if items.len() > 0 {
        let rest = items.drop_last();
        let item = items.last();
        lemma_arranged_keeps(leq, rest);
        let row = arranged(leq, rest);
        let at = slot(leq, row, item, 0);
        lemma_slot(leq, row, item, 0);
        assert(items =~= rest.push(item));
        row.insert_ensures(at, item);
        vstd::seq_lib::to_multiset_insert(row, at, item);
    }
}

/// Arranging items sorts them.
pub proof fn lemma_arranged_sorts<T>(leq: spec_fn(T, T) -> bool, items: Seq<T>)
    requires
        preorder(leq),
    ensures
        sorted(leq, arranged(leq, items)),
    decreases items.len(),
{
    if items.len() > 0 {
        let item = items.last();
        lemma_arranged_sorts(leq, items.drop_last());
        let row = arranged(leq, items.drop_last());
        let at = slot(leq, row, item, 0);
        lemma_slot(leq, row, item, 0);
        let longer = row.insert(at, item);
        assert forall|i: int, j: int|
            #![trigger longer[i], longer[j]]
            0 <= i <= j < longer.len() implies leq(longer[i], longer[j]) by {
            lemma_inserted(leq, row, item, i, j);
        }
    }
}

proof fn lemma_inserted<T>(leq: spec_fn(T, T) -> bool, row: Seq<T>, item: T, i: int, j: int)
    requires
        preorder(leq),
        sorted(leq, row),
        0 <= i <= j <= row.len(),
    ensures
        ({
            let longer = row.insert(slot(leq, row, item, 0), item);
            leq(longer[i], longer[j])
        }),
{
    let at = slot(leq, row, item, 0);
    lemma_slot(leq, row, item, 0);
    let longer = row.insert(at, item);
    if i == at && j == at {
        assert(leq(item, item) || leq(item, item));
    } else if i == at {
        assert(longer[j] == row[j - 1]);
        assert(leq(row[at], item) || leq(item, row[at]));
        assert(leq(row[at], row[j - 1]));
    } else if j == at {
        assert(longer[i] == row[i]);
    } else {
        let left = if i < at { i } else { i - 1 };
        let right = if j < at { j } else { j - 1 };
        assert(longer[i] == row[left] && longer[j] == row[right]);
    }
}

/// What comes out of arranging items was among them.
pub proof fn lemma_arranged_from<T>(leq: spec_fn(T, T) -> bool, items: Seq<T>, i: int)
    requires
        0 <= i < arranged(leq, items).len(),
    ensures
        items.contains(arranged(leq, items)[i]),
{
    broadcast use vstd::seq_lib::group_to_multiset_ensures;

    lemma_arranged_keeps(leq, items);
    let row = arranged(leq, items);
    assert(row.contains(row[i]));
    assert(row.to_multiset().count(row[i]) > 0);
    assert(items.to_multiset().count(row[i]) > 0);
}

/// What went into arranging items comes out.
pub proof fn lemma_arranged_has<T>(leq: spec_fn(T, T) -> bool, items: Seq<T>, item: T)
    requires
        items.contains(item),
    ensures
        arranged(leq, items).contains(item),
{
    broadcast use vstd::seq_lib::group_to_multiset_ensures;

    lemma_arranged_keeps(leq, items);
    assert(items.to_multiset().count(item) > 0);
    assert(arranged(leq, items).to_multiset().count(item) > 0);
}

/// Where `item` goes in a sorted row.
fn find_slot<T, O: Order<T>>(order: &O, row: &Vec<T>, item: &T) -> (at: usize)
    requires
        sorted(order.leq(), row@),
        all_fit(order, row@),
        order.fits(*item),
    ensures
        at == slot(order.leq(), row@, *item, 0),
        at <= row@.len(),
{
    proof {
        order.lawful();
    }
    let mut low: usize = 0;
    let mut high: usize = row.len();
    while low < high
        invariant
            low <= high <= row@.len(),
            preorder(order.leq()),
            sorted(order.leq(), row@),
            all_fit(order, row@),
            order.fits(*item),
            forall|i: int| 0 <= i < low ==> order.leq()(#[trigger] row@[i], *item),
            high < row@.len() ==> !order.leq()(row@[high as int], *item),
        decreases high - low,
    {
        let middle: usize = low + (high - low) / 2;
        if order.may_precede(&row[middle], item) {
            proof {
                assert forall|i: int| 0 <= i < middle + 1 implies order.leq()(
                    #[trigger] row@[i],
                    *item,
                ) by {
                    assert(order.leq()(row@[i], row@[middle as int]));
                }
            }
            low = middle + 1;
        } else {
            high = middle;
        }
    }
    proof {
        lemma_slot_is(order.leq(), row@, *item, 0, low as int);
    }
    low
}

/// The items in order, equal ones as they came.
pub fn arrange<T, O: Order<T>>(order: &O, items: Vec<T>) -> (row: Vec<T>)
    requires
        all_fit(order, items@),
    ensures
        row@ == arranged(order.leq(), items@),
{
    let mut row: Vec<T> = Vec::new();
    let ghost all = items@;
    assert(all.take(0) =~= Seq::empty());
    for item in it: items
        invariant
            it.seq() == all,
            all_fit(order, all),
            row@ == arranged(order.leq(), all.take(it.index())),
    {
        let ghost done = all.take(it.index());
        proof {
            order.lawful();
            lemma_arranged_sorts(order.leq(), done);
            assert forall|i: int| 0 <= i < row@.len() implies order.fits(#[trigger] row@[i]) by {
                lemma_arranged_from(order.leq(), done, i);
                let j = choose|j: int| 0 <= j < done.len() && done[j] == row@[i];
                assert(done[j] == all[j]);
            }
            assert(order.fits(all[it.index()]));
            let next = all.take(it.index() + 1);
            assert(next.drop_last() =~= done);
            assert(next.last() == item);
        }
        let at: usize = find_slot(order, &row, &item);
        row.insert(at, item);
    }
    assert(all.take(all.len() as int) =~= all);
    row
}

/// From position `from` on, `left` comes before `right` or is it, by the codes of their
/// characters.
pub open spec fn text_leq_from(left: Seq<char>, right: Seq<char>, from: int) -> bool
    decreases left.len() - from,
{
    if from >= left.len() {
        true
    } else if from >= right.len() {
        false
    } else if left[from] != right[from] {
        left[from] < right[from]
    } else {
        text_leq_from(left, right, from + 1)
    }
}

/// The order of texts by the codes of their characters.
pub open spec fn text_leq(left: Seq<char>, right: Seq<char>) -> bool {
    text_leq_from(left, right, 0)
}

proof fn lemma_text_total_from(left: Seq<char>, right: Seq<char>, from: int)
    requires
        0 <= from,
    ensures
        text_leq_from(left, right, from) || text_leq_from(right, left, from),
    decreases left.len() - from,
{
    if from < left.len() && from < right.len() && left[from] == right[from] {
        lemma_text_total_from(left, right, from + 1);
    }
}

proof fn lemma_text_transitive_from(left: Seq<char>, middle: Seq<char>, right: Seq<char>, from: int)
    requires
        0 <= from,
        text_leq_from(left, middle, from),
        text_leq_from(middle, right, from),
    ensures
        text_leq_from(left, right, from),
    decreases left.len() - from,
{
    if from < left.len() && from < middle.len() && from < right.len() && left[from]
        == middle[from] && middle[from] == right[from] {
        lemma_text_transitive_from(left, middle, right, from + 1);
    }
}

proof fn lemma_text_antisymmetric_from(left: Seq<char>, right: Seq<char>, from: int)
    requires
        0 <= from <= left.len(),
        from <= right.len(),
        left.take(from) == right.take(from),
        text_leq_from(left, right, from),
        text_leq_from(right, left, from),
    ensures
        left == right,
    decreases left.len() - from,
{
    if from < left.len() && from < right.len() {
        assert(left.take(from + 1) =~= left.take(from).push(left[from]));
        assert(right.take(from + 1) =~= right.take(from).push(right[from]));
        lemma_text_antisymmetric_from(left, right, from + 1);
    } else {
        assert(left.take(from) =~= left);
        assert(right.take(from) =~= right);
    }
}

/// The order of texts is total, transitive and tells any two texts apart.
pub proof fn lemma_text_order(left: Seq<char>, middle: Seq<char>, right: Seq<char>)
    ensures
        text_leq(left, right) || text_leq(right, left),
        text_leq(left, middle) && text_leq(middle, right) ==> text_leq(left, right),
        text_leq(left, right) && text_leq(right, left) ==> left == right,
{
    lemma_text_total_from(left, right, 0);
    if text_leq(left, middle) && text_leq(middle, right) {
        lemma_text_transitive_from(left, middle, right, 0);
    }
    if text_leq(left, right) && text_leq(right, left) {
        assert(left.take(0) =~= right.take(0));
        lemma_text_antisymmetric_from(left, right, 0);
    }
}

/// Whether `left` comes before `right`, or is it.
pub fn chars_leq(left: &Vec<char>, right: &Vec<char>) -> (result: bool)
    ensures
        result == text_leq(left@, right@),
{
    let mut i: usize = 0;
    while i < left.len()
        invariant
            i <= left@.len(),
            text_leq(left@, right@) == text_leq_from(left@, right@, i as int),
        decreases left@.len() - i,
    {
        if i >= right.len() {
            return false;
        }
        if left[i] != right[i] {
            return left[i] < right[i];
        }
        i += 1;
    }
    true
}

/// How two texts stand to each other.
pub open spec fn text_standing(left: Seq<char>, right: Seq<char>) -> Standing {
    if !text_leq(right, left) {
        Standing::Before
    } else if text_leq(left, right) {
        Standing::Level
    } else {
        Standing::After
    }
}

/// The order of strings by the codes of their characters.
pub open spec fn string_order() -> spec_fn(String, String) -> bool {
    |left: String, right: String| text_leq(left@, right@)
}

pub struct ByText;

impl Order<String> for ByText {
    open spec fn fits(&self, item: String) -> bool {
        true
    }

    open spec fn leq(&self) -> spec_fn(String, String) -> bool {
        string_order()
    }

    proof fn lawful(&self) {
        let leq = string_order();
        assert forall|left: String, right: String| #[trigger]
            leq(left, right) || leq(right, left) by {
            lemma_text_order(left@, left@, right@);
        }
        assert forall|left: String, middle: String, right: String| #[trigger]
            leq(left, middle) && #[trigger] leq(middle, right) implies leq(left, right) by {
            lemma_text_order(left@, middle@, right@);
        }
    }

    fn may_precede(&self, left: &String, right: &String) -> (result: bool) {
        chars_leq(&characters(left.as_str()), &characters(right.as_str()))
    }
}

} // verus!
