//! How often the collectors sample, and which of them have fallen behind.
use vstd::prelude::*;

use crate::action::{IntervalStep, Tab};
use crate::linux::service::SYSTEMCTL_TIMEOUT;
use crate::time::{saturating_since, saturating_times, Nanos};

verus! {

broadcast use vstd::string::group_string_axioms;

/// Selectable sampling intervals, for `--interval` and the `+`/`-` keys. Shorter intervals are
/// out of scope: snapshots are picked up every 250 ms and sampling gets noisy.
pub const SAMPLING_PRESETS: [(&'static str, Nanos); 8] = [
    ("250ms", 250_000_000),
    ("500ms", 500_000_000),
    ("1s", 1_000_000_000),
    ("2s", 2_000_000_000),
    ("5s", 5_000_000_000),
    ("10s", 10_000_000_000),
    ("30s", 30_000_000_000),
    ("60s", 60_000_000_000),
];

pub const DEFAULT_SAMPLING_INTERVAL: Nanos = 1_000_000_000;

/// The first preset from `from` on that has the interval, by its place.
pub open spec fn preset_place(interval: Nanos, from: int) -> Option<int>
    decreases 8 - from,
{
    if from >= 8 {
        None
    } else if SAMPLING_PRESETS[from].1 == interval {
        Some(from)
    } else {
        preset_place(interval, from + 1)
    }
}

/// The preset next to an interval in the direction of a step. There is none for an interval
/// that is no preset, nor beyond the ends.
pub open spec fn neighbour(interval: Nanos, step: IntervalStep) -> Option<Nanos> {
    match preset_place(interval, 0) {
        Some(place) => match step {
            IntervalStep::Longer => if place + 1 < 8 {
                Some(SAMPLING_PRESETS[place + 1].1)
            } else {
                None
            },
            IntervalStep::Shorter => if place > 0 {
                Some(SAMPLING_PRESETS[place - 1].1)
            } else {
                None
            },
        },
        None => None,
    }
}

fn find_preset(interval: Nanos) -> (place: Option<usize>)
    ensures
        place matches Some(place) ==> preset_place(interval, 0) == Some(place as int) && place < 8,
        place is None ==> preset_place(interval, 0) is None,
{
    let mut i: usize = 0;
    while i < 8
        invariant
            i <= 8,
            preset_place(interval, 0) == preset_place(interval, i as int),
        decreases 8 - i,
    {
        if SAMPLING_PRESETS[i].1 == interval {
            return Some(i);
        }
        i += 1;
    }
    None
}

/// The preset next to `current` in the direction of `step`, if any.
pub fn step_preset(current: Nanos, step: IntervalStep) -> (next: Option<Nanos>)
    ensures
        next == neighbour(current, step),
{
    match find_preset(current) {
        Some(place) => match step {
            IntervalStep::Longer => if place + 1 < 8 {
                Some(SAMPLING_PRESETS[place + 1].1)
            } else {
                None
            },
            IntervalStep::Shorter => if place > 0 {
                Some(SAMPLING_PRESETS[place - 1].1)
            } else {
                None
            },
        },
        None => None,
    }
}

/// The label of an interval, or a question mark where it is no preset.
pub open spec fn interval_label(interval: Nanos) -> Seq<char> {
    match preset_place(interval, 0) {
        Some(place) => SAMPLING_PRESETS[place].0@,
        None => "?"@,
    }
}

pub fn preset_label(interval: Nanos) -> (label: &'static str)
    ensures
        label@ == interval_label(interval),
{
    match find_preset(interval) {
        Some(place) => SAMPLING_PRESETS[place].0,
        None => "?",
    }
}

/// A step to the next preset and one back lead to where one was.
pub proof fn lemma_preset_steps_back(interval: Nanos, step: IntervalStep)
    requires
        neighbour(interval, step) is Some,
    ensures
        ({
            let back = match step {
                IntervalStep::Longer => IntervalStep::Shorter,
                IntervalStep::Shorter => IntervalStep::Longer,
            };
            neighbour(neighbour(interval, step)->0, back) == Some(interval)
        }),
        match step {
            IntervalStep::Longer => interval < neighbour(interval, step)->0,
            IntervalStep::Shorter => neighbour(interval, step)->0 < interval,
        },
{
    reveal_with_fuel(preset_place, 9);
}

/// How often each background collector samples.
#[derive(Debug, Clone, Copy, PartialEq, Eq, Structural)]
pub struct CollectorPeriods {
    pub metrics: Nanos,
    pub processes: Nanos,
    pub network: Nanos,
    pub services: Nanos,
}

/// Full process scans stay at most once per second.
pub const MIN_PROCESS_PERIOD: Nanos = 1_000_000_000;

/// Service listings stay at most once every five seconds.
pub const MIN_SERVICE_PERIOD: Nanos = 5_000_000_000;

pub open spec fn longer_of(left: Nanos, right: Nanos) -> Nanos {
    if left >= right {
        left
    } else {
        right
    }
}

impl CollectorPeriods {
    /// The periods of a sampling interval: it, but not below what a collector allows.
    pub open spec fn of_interval(interval: Nanos) -> CollectorPeriods {
        CollectorPeriods {
            metrics: interval,
            processes: longer_of(interval, MIN_PROCESS_PERIOD),
            network: interval,
            services: longer_of(interval, MIN_SERVICE_PERIOD),
        }
    }

    pub fn for_sampling_interval(interval: Nanos) -> (periods: CollectorPeriods)
        ensures
            periods == CollectorPeriods::of_interval(interval),
    {
        CollectorPeriods {
            metrics: interval,
            processes: if interval >= MIN_PROCESS_PERIOD {
                interval
            } else {
                MIN_PROCESS_PERIOD
            },
            network: interval,
            services: if interval >= MIN_SERVICE_PERIOD {
                interval
            } else {
                MIN_SERVICE_PERIOD
            },
        }
    }
}

/// Background collectors whose last update time is tracked for the stale marker.
#[derive(Debug, Clone, Copy, PartialEq, Eq, Structural)]
pub enum Collector {
    Metrics,
    Processes,
    Network,
    Services,
}

impl Collector {
    pub const ALL: [Collector; 4] = [
        Collector::Metrics,
        Collector::Processes,
        Collector::Network,
        Collector::Services,
    ];

    pub fn label(self) -> (label: &'static str)
        ensures
            label@ == (match self {
                Collector::Metrics => "metrics"@,
                Collector::Processes => "processes"@,
                Collector::Network => "network"@,
                Collector::Services => "services"@,
            }),
    {
        match self {
            Collector::Metrics => "metrics",
            Collector::Processes => "processes",
            Collector::Network => "network",
            Collector::Services => "services",
        }
    }

    /// The collector's data is shown on a tab.
    pub open spec fn seen_on(self, tab: Tab) -> bool {
        match self {
            Collector::Metrics | Collector::Processes => tab == Tab::Overview || tab
                == Tab::Processes,
            Collector::Network => tab == Tab::Overview || tab == Tab::Network,
            Collector::Services => tab == Tab::Services,
        }
    }

    pub fn shown_on(self, tab: Tab) -> (shown: bool)
        ensures
            shown == self.seen_on(tab),
    {
        match self {
            Collector::Metrics | Collector::Processes => matches!(
                tab,
                Tab::Overview | Tab::Processes
            ),
            Collector::Network => matches!(tab, Tab::Overview | Tab::Network),
            Collector::Services => tab == Tab::Services,
        }
    }
}

#[derive(Debug, Clone, Copy, PartialEq, Eq, Structural)]
pub struct CollectorHealth {
    /// Not set until a period is configured; nothing becomes stale before.
    pub stale_after: Option<Nanos>,
    /// Tick time at which data last arrived; the first tick is the baseline, so that a
    /// collector that never publishes still becomes stale.
    pub last_update: Option<Nanos>,
    pub updated_since_tick: bool,
    pub stale: bool,
}

/// A longer span than can be told is as good as the longest.
pub open spec fn capped(span: int) -> Nanos {
    if span <= Nanos::MAX {
        span as Nanos
    } else {
        Nanos::MAX
    }
}

/// How long a collector may be silent: three missed periods; two for services, which may also
/// take a whole listing timeout.
pub open spec fn patience(periods: CollectorPeriods, collector: Collector) -> Nanos {
    match collector {
        Collector::Metrics => capped(periods.metrics * 3),
        Collector::Processes => capped(periods.processes * 3),
        Collector::Network => capped(periods.network * 3),
        Collector::Services => capped(capped(periods.services * 2) + SYSTEMCTL_TIMEOUT),
    }
}

fn threshold(periods: CollectorPeriods, collector: Collector) -> (span: Nanos)
    ensures
        span == patience(periods, collector),
{
    match collector {
        Collector::Metrics => saturating_times(periods.metrics, 3),
        Collector::Processes => saturating_times(periods.processes, 3),
        Collector::Network => saturating_times(periods.network, 3),
        Collector::Services => saturating_times(periods.services, 2).saturating_add(
            SYSTEMCTL_TIMEOUT,
        ),
    }
}

impl CollectorHealth {
    pub open spec fn initial() -> CollectorHealth {
        CollectorHealth {
            stale_after: None,
            last_update: None,
            updated_since_tick: false,
            stale: false,
        }
    }

    /// When data last arrived, as far as a tick can tell.
    pub open spec fn heard_at(self, now: Nanos) -> Nanos {
        if self.updated_since_tick || self.last_update is None {
            now
        } else {
            self.last_update->0
        }
    }

    /// The state after a tick, on a tab that shows the collector's data or, for services, not.
    pub open spec fn ticked(self, collector: Collector, tab: Tab, now: Nanos) -> CollectorHealth {
        match self.stale_after {
            None => self,
            Some(stale_after) => if collector == Collector::Services && !collector.seen_on(tab) {
                // Paused while hidden: entering the tab again does not count the pause.
                CollectorHealth {
                    last_update: Some(now),
                    updated_since_tick: false,
                    stale: false,
                    ..self
                }
            } else {
                CollectorHealth {
                    last_update: Some(self.heard_at(now)),
                    updated_since_tick: false,
                    stale: now - self.heard_at(now) > stale_after,
                    ..self
                }
            },
        }
    }

    /// A tick shows: the marker of a visible collector came or went.
    pub open spec fn tick_shows(self, collector: Collector, tab: Tab, now: Nanos) -> bool {
        collector.seen_on(tab) && self.ticked(collector, tab, now).stale != self.stale
    }

    fn tick(&mut self, collector: Collector, tab: Tab, now: Nanos) -> (redraw: bool)
        ensures
            *final(self) == old(self).ticked(collector, tab, now),
            redraw == old(self).tick_shows(collector, tab, now),
    {
        let stale_after: Nanos = match self.stale_after {
            Some(stale_after) => stale_after,
            None => {
                return false;
            },
        };
        if collector == Collector::Services && !collector.shown_on(tab) {
            self.last_update = Some(now);
            self.updated_since_tick = false;
            self.stale = false;
            return false;
        }
        let heard: Nanos = match self.last_update {
            Some(heard) => if self.updated_since_tick {
                now
            } else {
                heard
            },
            None => now,
        };
        self.last_update = Some(heard);
        self.updated_since_tick = false;
        let stale = saturating_since(now, heard) > stale_after;
        let changed = stale != self.stale;
        self.stale = stale;
        changed && collector.shown_on(tab)
    }
}

/// What is known of each collector.
#[derive(Debug, Clone, Copy, PartialEq, Eq, Structural)]
pub struct Health {
    pub metrics: CollectorHealth,
    pub processes: CollectorHealth,
    pub network: CollectorHealth,
    pub services: CollectorHealth,
}

impl Health {
    pub open spec fn initial() -> Health {
        Health {
            metrics: CollectorHealth::initial(),
            processes: CollectorHealth::initial(),
            network: CollectorHealth::initial(),
            services: CollectorHealth::initial(),
        }
    }

    pub open spec fn of(self, collector: Collector) -> CollectorHealth {
        match collector {
            Collector::Metrics => self.metrics,
            Collector::Processes => self.processes,
            Collector::Network => self.network,
            Collector::Services => self.services,
        }
    }

    /// A collector delivered.
    pub open spec fn heard(self, collector: Collector) -> Health {
        match collector {
            Collector::Metrics => Health {
                metrics: CollectorHealth { updated_since_tick: true, ..self.metrics },
                ..self
            },
            Collector::Processes => Health {
                processes: CollectorHealth { updated_since_tick: true, ..self.processes },
                ..self
            },
            Collector::Network => Health {
                network: CollectorHealth { updated_since_tick: true, ..self.network },
                ..self
            },
            Collector::Services => Health {
                services: CollectorHealth { updated_since_tick: true, ..self.services },
                ..self
            },
        }
    }

    /// All collectors judged by new periods.
    pub open spec fn timed(self, periods: CollectorPeriods) -> Health {
        Health {
            metrics: CollectorHealth {
                stale_after: Some(patience(periods, Collector::Metrics)),
                ..self.metrics
            },
            processes: CollectorHealth {
                stale_after: Some(patience(periods, Collector::Processes)),
                ..self.processes
            },
            network: CollectorHealth {
                stale_after: Some(patience(periods, Collector::Network)),
                ..self.network
            },
            services: CollectorHealth {
                stale_after: Some(patience(periods, Collector::Services)),
                ..self.services
            },
        }
    }

    /// All clocks stopped, to start with the next tick.
    pub open spec fn restarted(self) -> Health {
        Health {
            metrics: CollectorHealth {
                stale_after: self.metrics.stale_after,
                ..CollectorHealth::initial()
            },
            processes: CollectorHealth {
                stale_after: self.processes.stale_after,
                ..CollectorHealth::initial()
            },
            network: CollectorHealth {
                stale_after: self.network.stale_after,
                ..CollectorHealth::initial()
            },
            services: CollectorHealth {
                stale_after: self.services.stale_after,
                ..CollectorHealth::initial()
            },
        }
    }

    pub open spec fn enabled(self) -> bool {
        self.metrics.stale_after is Some || self.processes.stale_after is Some
            || self.network.stale_after is Some || self.services.stale_after is Some
    }

    pub open spec fn ticked(self, tab: Tab, now: Nanos) -> Health {
        Health {
            metrics: self.metrics.ticked(Collector::Metrics, tab, now),
            processes: self.processes.ticked(Collector::Processes, tab, now),
            network: self.network.ticked(Collector::Network, tab, now),
            services: self.services.ticked(Collector::Services, tab, now),
        }
    }

    pub open spec fn tick_shows(self, tab: Tab, now: Nanos) -> bool {
        ||| self.metrics.tick_shows(Collector::Metrics, tab, now)
        ||| self.processes.tick_shows(Collector::Processes, tab, now)
        ||| self.network.tick_shows(Collector::Network, tab, now)
        ||| self.services.tick_shows(Collector::Services, tab, now)
    }

    /// A collector is marked on a tab.
    pub open spec fn marked(self, collector: Collector, tab: Tab) -> bool {
        self.of(collector).stale && collector.seen_on(tab)
    }

    /// The collectors marked on a tab, in their order.
    pub open spec fn stale_on(self, tab: Tab) -> Seq<Collector> {
        self.stale_among(tab, Collector::Metrics) + self.stale_among(tab, Collector::Processes)
            + self.stale_among(tab, Collector::Network) + self.stale_among(tab, Collector::Services)
    }

    pub open spec fn stale_among(self, tab: Tab, collector: Collector) -> Seq<Collector> {
        if self.marked(collector, tab) {
            seq![collector]
        } else {
            Seq::empty()
        }
    }

    pub fn new() -> (health: Health)
        ensures
            health == Health::initial(),
    {
        let fresh = CollectorHealth {
            stale_after: None,
            last_update: None,
            updated_since_tick: false,
            stale: false,
        };
        Health { metrics: fresh, processes: fresh, network: fresh, services: fresh }
    }

    pub fn record(&mut self, collector: Collector)
        ensures
            *final(self) == old(self).heard(collector),
    {
        match collector {
            Collector::Metrics => {
                self.metrics.updated_since_tick = true;
            },
            Collector::Processes => {
                self.processes.updated_since_tick = true;
            },
            Collector::Network => {
                self.network.updated_since_tick = true;
            },
            Collector::Services => {
                self.services.updated_since_tick = true;
            },
        }
    }

    pub fn apply_periods(&mut self, periods: CollectorPeriods)
        ensures
            *final(self) == old(self).timed(periods),
    {
        self.metrics.stale_after = Some(threshold(periods, Collector::Metrics));
        self.processes.stale_after = Some(threshold(periods, Collector::Processes));
        self.network.stale_after = Some(threshold(periods, Collector::Network));
        self.services.stale_after = Some(threshold(periods, Collector::Services));
    }

    pub fn is_enabled(&self) -> (enabled: bool)
        ensures
            enabled == self.enabled(),
    {
        self.metrics.stale_after.is_some() || self.processes.stale_after.is_some()
            || self.network.stale_after.is_some() || self.services.stale_after.is_some()
    }

    /// Judges every collector from the next tick on, instead of flagging an old gap.
    pub fn restart(&mut self)
        ensures
            *final(self) == old(self).restarted(),
    {
        self.metrics = CollectorHealth {
            stale_after: self.metrics.stale_after,
            last_update: None,
            updated_since_tick: false,
            stale: false,
        };
        self.processes = CollectorHealth {
            stale_after: self.processes.stale_after,
            last_update: None,
            updated_since_tick: false,
            stale: false,
        };
        self.network = CollectorHealth {
            stale_after: self.network.stale_after,
            last_update: None,
            updated_since_tick: false,
            stale: false,
        };
        self.services = CollectorHealth {
            stale_after: self.services.stale_after,
            last_update: None,
            updated_since_tick: false,
            stale: false,
        };
    }

    /// Returns `true` only when a collector shown on the tab changes between fresh and stale.
    pub fn tick(&mut self, tab: Tab, now: Nanos) -> (redraw: bool)
        ensures
            *final(self) == old(self).ticked(tab, now),
            redraw == old(self).tick_shows(tab, now),
    {
        let metrics = self.metrics.tick(Collector::Metrics, tab, now);
        let processes = self.processes.tick(Collector::Processes, tab, now);
        let network = self.network.tick(Collector::Network, tab, now);
        let services = self.services.tick(Collector::Services, tab, now);
        metrics || processes || network || services
    }

    fn is_marked(&self, collector: Collector, tab: Tab) -> (marked: bool)
        ensures
            marked == self.marked(collector, tab),
    {
        let stale = match collector {
            Collector::Metrics => self.metrics.stale,
            Collector::Processes => self.processes.stale,
            Collector::Network => self.network.stale,
            Collector::Services => self.services.stale,
        };
        stale && collector.shown_on(tab)
    }

    /// The collectors marked on a tab.
    pub fn stale_collectors(&self, tab: Tab) -> (collectors: Vec<Collector>)
        ensures
            collectors@ == self.stale_on(tab),
    {
        let mut collectors: Vec<Collector> = Vec::new();
        if self.is_marked(Collector::Metrics, tab) {
            collectors.push(Collector::Metrics);
        }
        if self.is_marked(Collector::Processes, tab) {
            collectors.push(Collector::Processes);
        }
        if self.is_marked(Collector::Network, tab) {
            collectors.push(Collector::Network);
        }
        if self.is_marked(Collector::Services, tab) {
            collectors.push(Collector::Services);
        }
        assert(collectors@ =~= self.stale_on(tab));
        collectors
    }
}

/// A collector that delivered since the last tick is fresh at this one.
pub proof fn lemma_update_clears_marker(
    health: Health,
    collector: Collector,
    tab: Tab,
    now: Nanos,
)
    requires
        health.of(collector).stale_after is Some,
    ensures
        !health.heard(collector).ticked(tab, now).of(collector).stale,
        health.heard(collector).ticked(tab, now).of(collector).last_update == Some(now),
{
}

/// While the services are hidden their collector is paused, and that is no missed update: once
/// they are shown again silence counts from the last tick before.
pub proof fn lemma_pause_is_no_miss(health: CollectorHealth, hidden: Tab, left: Nanos, now: Nanos)
    requires
        health.stale_after is Some,
        hidden != Tab::Services,
        left <= now,
    ensures
        ({
            let paused = health.ticked(Collector::Services, hidden, left);
            &&& !paused.stale
            &&& paused.ticked(Collector::Services, Tab::Services, now).stale == (now - left
                > health.stale_after->0)
        }),
{
}

/// A collector that never delivered is marked as soon as its patience is over, counted from
/// the first tick, and not before.
pub proof fn lemma_silence_is_marked(
    health: CollectorHealth,
    collector: Collector,
    tab: Tab,
    first: Nanos,
    now: Nanos,
)
    requires
        health == (CollectorHealth {
            stale_after: health.stale_after,
            ..CollectorHealth::initial()
        }),
        health.stale_after is Some,
        collector.seen_on(tab),
        first <= now,
    ensures
        health.ticked(collector, tab, first).ticked(collector, tab, now).stale == (now - first
            > health.stale_after->0),
{
}

} // verus!
