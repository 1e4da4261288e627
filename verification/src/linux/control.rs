//! Stopping, pausing and waking the background collectors.
use vstd::prelude::*;

use crate::time::{Nanos, SECOND};

verus! {

/// Numbers refresh requests; a later request has a higher number.
pub type RefreshGeneration = u64;

/// Why a waiting collector goes on.
#[derive(Debug, Clone, Copy, PartialEq, Eq, Structural)]
pub enum CollectorWake {
    Refresh(RefreshGeneration),
    Stop,
    Timeout,
}

/// What a waiting collector does next.
#[derive(Debug, Clone, Copy, PartialEq, Eq, Structural)]
pub enum WaitStep {
    /// It goes on.
    Wake(CollectorWake),
    /// It sleeps until it is notified.
    Sleep,
    /// It sleeps until it is notified, but no longer than this.
    SleepFor(Nanos),
}

/// When a wait is over at the latest.
#[derive(Debug, Clone, Copy, PartialEq, Eq, Structural)]
pub enum Deadline {
    At(Nanos),
    /// One sampling period after this moment. A period that is changed meanwhile counts.
    PeriodAfter(Nanos),
}

/// What a collector and its owner tell each other.
#[derive(Debug, Clone, PartialEq, Eq, Structural)]
pub struct CollectorControl {
    pub pending_refresh_generation: Option<RefreshGeneration>,
    pub stop: bool,
    pub paused: bool,
    /// Time between the end of one collection and the start of the next.
    pub period: Nanos,
}

impl Default for CollectorControl {
    fn default() -> (control: CollectorControl)
        ensures
            control == (CollectorControl {
                pending_refresh_generation: None,
                stop: false,
                paused: false,
                period: SECOND,
            }),
    {
        CollectorControl::new(SECOND, false)
    }
}

/// The moment so long after another, or the last moment there is.
pub open spec fn moment_after(start: Nanos, span: Nanos) -> Nanos {
    if start + span <= Nanos::MAX {
        (start + span) as u64
    } else {
        Nanos::MAX
    }
}

impl CollectorControl {
    pub fn new(period: Nanos, paused: bool) -> (control: CollectorControl)
        ensures
            control == (CollectorControl {
                pending_refresh_generation: None,
                stop: false,
                paused,
                period,
            }),
    {
        CollectorControl { pending_refresh_generation: None, stop: false, paused, period }
    }

    /// Changes the sampling period, and tells whether a waiting collector has to be notified.
    pub fn set_period(&mut self, period: Nanos) -> (notify: bool)
        ensures
            *final(self) == (CollectorControl { period, ..*old(self) }),
            notify == (old(self).period != period),
    {
        if self.period == period {
            return false;
        }
        self.period = period;
        true
    }

    /// Pauses the collector or lets it go on, and tells whether it has to be notified.
    pub fn set_paused(&mut self, paused: bool) -> (notify: bool)
        ensures
            *final(self) == (CollectorControl { paused, ..*old(self) }),
            notify == (old(self).paused != paused),
    {
        if self.paused == paused {
            return false;
        }
        self.paused = paused;
        true
    }

    /// What is pending once `generation` is requested: of several requests the latest.
    pub open spec fn coalesced(self, generation: RefreshGeneration) -> RefreshGeneration {
        match self.pending_refresh_generation {
            Some(pending) => if pending > generation {
                pending
            } else {
                generation
            },
            None => generation,
        }
    }

    /// The collector once a refresh was requested. One that is stopped takes no requests.
    pub open spec fn requested(self, generation: RefreshGeneration) -> CollectorControl {
        if self.stop {
            self
        } else {
            CollectorControl {
                pending_refresh_generation: Some(self.coalesced(generation)),
                ..self
            }
        }
    }

    /// Asks for a refresh, and tells whether the collector has to be notified. One that is
    /// stopped takes no requests.
    pub fn request_refresh(&mut self, generation: RefreshGeneration) -> (notify: bool)
        ensures
            *final(self) == old(self).requested(generation),
            notify == !old(self).stop,
    {
        if self.stop {
            return false;
        }
        self.pending_refresh_generation = Some(
            match self.pending_refresh_generation {
                Some(pending) => if pending > generation {
                    pending
                } else {
                    generation
                },
                None => generation,
            },
        );
        true
    }

    /// Stops the collector for good.
    pub fn stop(&mut self)
        ensures
            *final(self) == (CollectorControl { stop: true, ..*old(self) }),
    {
        self.stop = true;
    }

    /// The moment at which a wait is over at the latest.
    pub open spec fn ends(self, deadline: Deadline) -> Nanos {
        match deadline {
            Deadline::At(moment) => moment,
            Deadline::PeriodAfter(start) => moment_after(start, self.period),
        }
    }

    /// What a waiting collector does next at `now`. To stop comes first. One that is paused
    /// neither serves a request nor runs out of time. Then comes a request that is pending, and
    /// last the end of the wait.
    pub open spec fn next_step(self, deadline: Deadline, now: Nanos) -> WaitStep {
        if self.stop {
            WaitStep::Wake(CollectorWake::Stop)
        } else if self.paused {
            WaitStep::Sleep
        } else {
            match self.pending_refresh_generation {
                Some(generation) => WaitStep::Wake(CollectorWake::Refresh(generation)),
                None => if self.ends(deadline) <= now {
                    WaitStep::Wake(CollectorWake::Timeout)
                } else {
                    WaitStep::SleepFor((self.ends(deadline) - now) as u64)
                },
            }
        }
    }

    fn find_end(&self, deadline: Deadline) -> (moment: Nanos)
        ensures
            moment == self.ends(deadline),
    {
        match deadline {
            Deadline::At(moment) => moment,
            Deadline::PeriodAfter(start) => start.saturating_add(self.period),
        }
    }

    /// The collector once a step was taken: a request that is served is no longer pending.
    pub open spec fn after_step(self, step: WaitStep) -> CollectorControl {
        match step {
            WaitStep::Wake(CollectorWake::Refresh(_)) => CollectorControl {
                pending_refresh_generation: None,
                ..self
            },
            _ => self,
        }
    }

    /// What a waiting collector does next at `now`. A request is taken as it is served.
    pub fn poll(&mut self, deadline: Deadline, now: Nanos) -> (step: WaitStep)
        ensures
            step == old(self).next_step(deadline, now),
            *final(self) == old(self).after_step(step),
    {
        if self.stop {
            return WaitStep::Wake(CollectorWake::Stop);
        }
        if self.paused {
            return WaitStep::Sleep;
        }
        match self.pending_refresh_generation {
            Some(generation) => {
                self.pending_refresh_generation = None;
                WaitStep::Wake(CollectorWake::Refresh(generation))
            },
            None => {
                let end: Nanos = self.find_end(deadline);
                if end <= now {
                    WaitStep::Wake(CollectorWake::Timeout)
                } else {
                    WaitStep::SleepFor(end - now)
                }
            },
        }
    }
}

/// To stop takes priority over everything else.
pub proof fn lemma_stop_comes_first(control: CollectorControl, deadline: Deadline, now: Nanos)
    requires
        control.stop,
    ensures
        control.next_step(deadline, now) == WaitStep::Wake(CollectorWake::Stop),
{
}

/// A paused collector collects nothing, however long it waits and whatever is requested.
pub proof fn lemma_paused_collector_waits(control: CollectorControl, deadline: Deadline, now: Nanos)
    requires
        control.paused,
        !control.stop,
    ensures
        control.next_step(deadline, now) == WaitStep::Sleep,
{
}

/// A request made during a pause is kept, and is served as soon as the collector goes on.
pub proof fn lemma_request_outlasts_a_pause(
    control: CollectorControl,
    generation: RefreshGeneration,
    deadline: Deadline,
    now: Nanos,
)
    requires
        control.paused,
        !control.stop,
        control.pending_refresh_generation == Some(generation),
    ensures
        (CollectorControl { paused: false, ..control }).next_step(deadline, now) == WaitStep::Wake(
            CollectorWake::Refresh(generation),
        ),
{
}

/// Time spent in a pause counts as waited: a collector that goes on after its deadline collects
/// at once.
pub proof fn lemma_pause_counts_as_waiting(control: CollectorControl, deadline: Nanos, now: Nanos)
    requires
        control.paused,
        !control.stop,
        control.pending_refresh_generation is None,
        deadline <= now,
    ensures
        (CollectorControl { paused: false, ..control }).next_step(Deadline::At(deadline), now)
            == WaitStep::Wake(CollectorWake::Timeout),
{
}

/// Any number of requests are served by one refresh, and by the latest of them; what is pending
/// then is none.
pub proof fn lemma_requests_coalesce(control: CollectorControl, first: u64, second: u64)
    ensures
        (CollectorControl {
            pending_refresh_generation: Some(control.coalesced(first)),
            ..control
        }).coalesced(second) >= first,
        (CollectorControl {
            pending_refresh_generation: Some(control.coalesced(first)),
            ..control
        }).coalesced(second) >= second,
        control.coalesced(first) == first || control.pending_refresh_generation == Some(
            control.coalesced(first),
        ),
{
}

/// A period that is changed during a wait is measured from the start of the wait: where it is
/// over by then the collector goes on at once, and otherwise it waits for what is left of it.
pub proof fn lemma_new_period_counts_from_the_start(
    control: CollectorControl,
    period: Nanos,
    start: Nanos,
    now: Nanos,
)
    requires
        !control.stop,
        !control.paused,
        control.pending_refresh_generation is None,
        start <= now,
        start + period <= Nanos::MAX,
    ensures
        (CollectorControl { period, ..control }).next_step(Deadline::PeriodAfter(start), now) == if now
            - start >= period {
            WaitStep::Wake(CollectorWake::Timeout)
        } else {
            WaitStep::SleepFor((period - (now - start)) as u64)
        },
{
}

/// What a periodic collector does.
#[derive(Debug, Clone, Copy, PartialEq, Eq, Structural)]
pub enum PeriodicStep {
    /// It collects, and publishes what it collected.
    Collect,
    /// It waits for one period.
    Wait,
    /// It ends.
    End,
}

impl PeriodicStep {
    /// A collector begins with a collection.
    pub fn first() -> (step: PeriodicStep)
        ensures
            step == PeriodicStep::Collect,
    {
        PeriodicStep::Collect
    }

    /// What follows a collection. Where nobody takes it any more, nothing does.
    pub fn after_publishing(taken: bool) -> (step: PeriodicStep)
        ensures
            step == if taken {
                PeriodicStep::Wait
            } else {
                PeriodicStep::End
            },
    {
        if taken {
            PeriodicStep::Wait
        } else {
            PeriodicStep::End
        }
    }

    /// What follows a wait.
    pub fn after_waiting(wake: CollectorWake) -> (step: PeriodicStep)
        ensures
            step == if wake is Stop {
                PeriodicStep::End
            } else {
                PeriodicStep::Collect
            },
    {
        match wake {
            CollectorWake::Stop => PeriodicStep::End,
            _ => PeriodicStep::Collect,
        }
    }
}

} // verus!
