//! A place for the latest snapshot only.
use vstd::prelude::*;

verus! {

/// Holds the latest snapshot that was published and not taken yet.
#[derive(Debug, Clone, PartialEq, Eq)]
pub struct LatestSlot<T> {
    pub pending: Option<T>,
    pub receiver_alive: bool,
}

impl<T> LatestSlot<T> {
    pub open spec fn empty() -> LatestSlot<T> {
        LatestSlot { pending: None, receiver_alive: true }
    }

    pub fn new() -> (slot: LatestSlot<T>)
        ensures
            slot == LatestSlot::<T>::empty(),
    {
        LatestSlot { pending: None, receiver_alive: true }
    }

    /// The slot once a snapshot was published.
    pub open spec fn published(self, value: T) -> LatestSlot<T> {
        if self.receiver_alive {
            LatestSlot { pending: Some(value), ..self }
        } else {
            self
        }
    }

    /// Publishes a snapshot in place of the one that was not taken yet. Tells whether anyone is
    /// left to take it.
    pub fn publish(&mut self, value: T) -> (taken: bool)
        ensures
            taken == old(self).receiver_alive,
            *final(self) == old(self).published(value),
    {
        if !self.receiver_alive {
            return false;
        }
        self.pending = Some(value);
        true
    }

    /// The slot once the snapshot in it was taken.
    pub open spec fn emptied(self) -> LatestSlot<T> {
        LatestSlot { pending: None, ..self }
    }

    /// Takes the latest snapshot.
    pub fn take_latest(&mut self) -> (snapshot: Option<T>)
        ensures
            snapshot == old(self).pending,
            *final(self) == old(self).emptied(),
    {
        self.pending.take()
    }

    /// The slot once nobody takes snapshots any more.
    pub open spec fn closed(self) -> LatestSlot<T> {
        LatestSlot { pending: None, receiver_alive: false }
    }

    /// The receiver is gone, and with it what was pending. Nothing is taken from now on.
    pub fn close(&mut self)
        ensures
            *final(self) == old(self).closed(),
    {
        self.pending = None;
        self.receiver_alive = false;
    }
}

/// Of any two snapshots the later one is found, and it is found once.
pub proof fn lemma_latest_replaces<T>(slot: LatestSlot<T>, earlier: T, later: T)
    requires
        slot.receiver_alive,
    ensures
        slot.published(earlier).published(later).pending == Some(later),
        slot.published(later).emptied().pending is None,
        slot.published(later).emptied().receiver_alive,
{
}

/// Once the receiver is gone nothing is kept any more.
pub proof fn lemma_closed_keeps_nothing<T>(slot: LatestSlot<T>, value: T)
    ensures
        slot.closed().published(value) == slot.closed(),
        slot.closed().pending is None,
{
}

} // verus!
