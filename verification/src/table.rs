//! Values by number, in ascending order of the numbers.
use vstd::prelude::*;

verus! {

/// The numbers ascend, so that none occurs twice.
pub open spec fn ascending<V>(entries: Seq<(u32, V)>) -> bool {
    forall|i: int, j: int|
        0 <= i < j < entries.len() ==> (#[trigger] entries[i]).0 < (#[trigger] entries[j]).0
}

/// The value that stands under a number.
pub open spec fn lookup<V>(entries: Seq<(u32, V)>, key: u32) -> Option<V>
    decreases entries.len(),
{
    if entries.len() == 0 {
        None
    } else if entries.last().0 == key {
        Some(entries.last().1)
    } else {
        lookup(entries.drop_last(), key)
    }
}

/// A value is found under its number, and nothing under a number that does not occur.
pub proof fn lemma_lookup<V>(entries: Seq<(u32, V)>, key: u32)
    requires
        ascending(entries),
    ensures
        forall|i: int|
            0 <= i < entries.len() && (#[trigger] entries[i]).0 == key ==> lookup(entries, key)
                == Some(entries[i].1),
        lookup(entries, key) is Some ==> exists|i: int|
            0 <= i < entries.len() && (#[trigger] entries[i]).0 == key,
    decreases entries.len(),
{
    if entries.len() > 0 {
        let shorter = entries.drop_last();
        let last = entries.len() - 1;
        lemma_shorter(entries);
        lemma_lookup(shorter, key);
        if entries[last].0 != key && lookup(shorter, key) is Some {
            let i = choose|i: int| 0 <= i < shorter.len() && (#[trigger] shorter[i]).0 == key;
            assert(entries[i].0 == key);
        }
        assert forall|i: int| 0 <= i < entries.len() && (#[trigger] entries[i]).0 == key implies lookup(
            entries,
            key,
        ) == Some(entries[i].1) by {
            if i < last {
                assert(entries[i].0 < entries[last].0);
                assert(shorter[i] == entries[i]);
            }
        }
    }
}

/// Two tables that find the same under every number are the same.
pub proof fn lemma_tables_agree<V>(left: Seq<(u32, V)>, right: Seq<(u32, V)>)
    requires
        ascending(left),
        ascending(right),
        forall|key: u32| lookup(left, key) == lookup(right, key),
    ensures
        left == right,
    decreases left.len() + right.len(),
{
    if left.len() == 0 && right.len() == 0 {
        assert(left =~= right);
    } else if left.len() == 0 {
        lemma_lookup(right, right[0].0);
        assert(right[0].0 == right[0].0);
        assert(lookup(left, right[0].0) is None);
    } else if right.len() == 0 {
        lemma_lookup(left, left[0].0);
        assert(lookup(right, left[0].0) is None);
    } else {
        let last = left.last().0;
        let other = right.last().0;
        lemma_lookup(left, last);
        lemma_lookup(right, last);
        lemma_lookup(left, other);
        lemma_lookup(right, other);
        assert(left[left.len() - 1].0 == last);
        assert(right[right.len() - 1].0 == other);
        let i = choose|i: int| 0 <= i < right.len() && (#[trigger] right[i]).0 == last;
        let j = choose|j: int| 0 <= j < left.len() && (#[trigger] left[j]).0 == other;
        assert(right[i].0 == last && left[j].0 == other);
        assert(last == other) by {
            if i < right.len() - 1 {
                assert(right[i].0 < right[right.len() - 1].0);
            }
            if j < left.len() - 1 {
                assert(left[j].0 < left[left.len() - 1].0);
            }
        }
        let a = left.drop_last();
        let b = right.drop_last();
        lemma_shorter(left);
        lemma_shorter(right);
        assert forall|key: u32| lookup(a, key) == lookup(b, key) by {
            assert(lookup(left, key) == lookup(right, key));
            if key == last {
                lemma_lookup(a, key);
                lemma_lookup(b, key);
                if lookup(a, key) is Some {
                    let k = choose|k: int| 0 <= k < a.len() && (#[trigger] a[k]).0 == key;
                    assert(left[k].0 < left[left.len() - 1].0);
                }
                if lookup(b, key) is Some {
                    let k = choose|k: int| 0 <= k < b.len() && (#[trigger] b[k]).0 == key;
                    assert(right[k].0 < right[right.len() - 1].0);
                }
            }
        }
        lemma_tables_agree(a, b);
        assert(left =~= a.push(left.last()));
        assert(right =~= b.push(right.last()));
    }
}

proof fn lemma_shorter<V>(entries: Seq<(u32, V)>)
    requires
        ascending(entries),
        entries.len() > 0,
    ensures
        ascending(entries.drop_last()),
{
    let shorter = entries.drop_last();
    assert forall|i: int, j: int| 0 <= i < j < shorter.len() implies (#[trigger] shorter[i]).0
        < (#[trigger] shorter[j]).0 by {
        assert(shorter[i] == entries[i] && shorter[j] == entries[j]);
    }
}

/// Where a number stands, or where it would have to stand.
pub fn find<V>(entries: &Vec<(u32, V)>, key: u32) -> (at: usize)
    requires
        ascending(entries@),
    ensures
        at <= entries@.len(),
        forall|i: int| 0 <= i < at ==> (#[trigger] entries@[i]).0 < key,
        forall|i: int| at <= i < entries@.len() ==> (#[trigger] entries@[i]).0 >= key,
        lookup(entries@, key) == (if at < entries@.len() && entries@[at as int].0 == key {
            Some(entries@[at as int].1)
        } else {
            None
        }),
{
    let mut at: usize = 0;
    while at < entries.len() && entries[at].0 < key
        invariant
            at <= entries@.len(),
            forall|i: int| 0 <= i < at ==> (#[trigger] entries@[i]).0 < key,
        decreases entries@.len() - at,
    {
        at += 1;
    }
    proof {
        if at < entries@.len() {
            assert forall|i: int| at <= i < entries@.len() implies (#[trigger] entries@[i]).0
                >= key by {
                if i > at {
                    assert(entries@[at as int].0 < entries@[i].0);
                }
            }
        }
        lemma_lookup(entries@, key);
    }
    at
}

/// Puts a value under a number, in place of the one that stands there.
pub fn put<V>(entries: &mut Vec<(u32, V)>, key: u32, value: V)
    requires
        ascending(old(entries)@),
    ensures
        ascending(final(entries)@),
        forall|other: u32|
            lookup(final(entries)@, other) == if other == key {
                Some(value)
            } else {
                lookup(old(entries)@, other)
            },
{
    let ghost before = entries@;
    let at: usize = find(entries, key);
    if at < entries.len() && entries[at].0 == key {
        entries.set(at, (key, value));
    } else {
        entries.insert(at, (key, value));
    }
    proof {
        lemma_put(before, entries@, at as int, key, value);
    }
}

proof fn lemma_put<V>(before: Seq<(u32, V)>, after: Seq<(u32, V)>, at: int, key: u32, value: V)
    requires
        ascending(before),
        0 <= at <= before.len(),
        forall|i: int| 0 <= i < at ==> (#[trigger] before[i]).0 < key,
        forall|i: int| at <= i < before.len() ==> (#[trigger] before[i]).0 >= key,
        after == if at < before.len() && before[at].0 == key {
            before.update(at, (key, value))
        } else {
            before.insert(at, (key, value))
        },
    ensures
        ascending(after),
        forall|other: u32|
            lookup(after, other) == if other == key {
                Some(value)
            } else {
                lookup(before, other)
            },
{
    let replaced = at < before.len() && before[at].0 == key;
    assert forall|i: int, j: int| 0 <= i < j < after.len() implies (#[trigger] after[i]).0 < (
    #[trigger] after[j]).0 by {
        if replaced {
            assert(before[i].0 < before[j].0);
        } else {
            let left = if i < at {
                i
            } else {
                i - 1
            };
            let right = if j < at {
                j
            } else {
                j - 1
            };
            if i != at && j != at {
                assert(before[left].0 < before[right].0);
            } else if i == at {
                assert(after[j] == before[right]);
                assert(before[right].0 >= key);
                if before[right].0 == key {
                    if right > at {
                        assert(before[at].0 < before[right].0);
                    }
                }
            } else {
                assert(after[i] == before[left]);
            }
        }
    }
    assert forall|other: u32|
        lookup(after, other) == if other == key {
            Some(value)
        } else {
            lookup(before, other)
        } by {
        lemma_lookup(before, other);
        lemma_lookup(after, other);
        if other == key {
            assert(after[at].0 == key);
        } else {
            if lookup(before, other) is Some {
                let i = choose|i: int| 0 <= i < before.len() && (#[trigger] before[i]).0 == other;
                let moved = if replaced || i < at {
                    i
                } else {
                    i + 1
                };
                assert(after[moved] == before[i]);
            }
            if lookup(after, other) is Some {
                let i = choose|i: int| 0 <= i < after.len() && (#[trigger] after[i]).0 == other;
                let moved = if replaced || i < at {
                    i
                } else {
                    i - 1
                };
                assert(before[moved] == after[i]);
            }
        }
    }
}

} // verus!
