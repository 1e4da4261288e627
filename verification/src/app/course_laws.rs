//! What becomes of the state over time, in terms of what was delivered and when.
use vstd::prelude::*;

use crate::action::{Action, Tab};
use crate::app::health::{Collector, CollectorPeriods, Health};
use crate::app::history;
use crate::app::interfaces;
use crate::app::list;
use crate::app::list::{Item, ListState, Tag};
use crate::app::process_laws;
use crate::app::process_table;
use crate::app::process_table::{PinnedProcess, ProcessRow, TableState};
use crate::app::snapshot_laws;
use crate::app::state::{AppState, Overlay};
use crate::app::table_laws;
use crate::likeness;
use crate::likeness::Likeness;
use crate::linux::network::{NetworkInterfaceInfo, NetworkSnapshot};
use crate::linux::process::{ProcessIdentity, ProcessInfo, ProcessSnapshot};
use crate::linux::service::{ServiceInfo, ServiceSnapshot};
use crate::linux::system::SystemMetrics;
use crate::number::Number;
use crate::text;
use crate::time::Nanos;

verus! {

broadcast use vstd::string::group_string_axioms;

/// How long a collector may be silent at a sampling interval, in nanoseconds: three intervals, of
/// which those between listings of processes last a second at least; for the services two
/// intervals of five seconds at least and ten seconds for a listing.
pub open spec fn silence_allowed(collector: Collector, interval: int) -> int {
    match collector {
        Collector::Metrics => 3 * interval,
        Collector::Network => 3 * interval,
        Collector::Processes => if interval < 1_000_000_000 {
            3_000_000_000
        } else {
            3 * interval
        },
        Collector::Services => if interval < 5_000_000_000 {
            20_000_000_000
        } else {
            2 * interval + 10_000_000_000
        },
    }
}

/// What a collector delivers is on a screen.
pub open spec fn on_screen(collector: Collector, tab: Tab) -> bool {
    match tab {
        Tab::Overview => collector != Collector::Services,
        Tab::Processes => collector == Collector::Metrics || collector == Collector::Processes,
        Tab::Services => collector == Collector::Services,
        Tab::Logs => false,
        Tab::Network => collector == Collector::Network,
    }
}

/// A collector that delivered before one tick and nothing since is marked at a later one exactly
/// if it was silent for longer than the sampling interval allows and its data is on the screen.
pub proof fn lemma_silent_collector_is_marked(
    health: Health,
    interval: Nanos,
    collector: Collector,
    tab: Tab,
    heard: Nanos,
    now: Nanos,
)
    requires
        heard <= now,
        3 * interval + 10_000_000_000 <= Nanos::MAX,
    ensures
        ({
            let at_first = health.timed(CollectorPeriods::of_interval(interval)).heard(
                collector,
            ).ticked(tab, heard);
            let later = at_first.ticked(tab, now);
            &&& !at_first.stale_on(tab).contains(collector)
            &&& later.stale_on(tab).contains(collector) == (on_screen(collector, tab) && now
                - heard > silence_allowed(collector, interval as int))
        }),
{
    let at_first = health.timed(CollectorPeriods::of_interval(interval)).heard(collector).ticked(
        tab,
        heard,
    );
    lemma_marked_are_listed(at_first, tab, collector);
    lemma_marked_are_listed(at_first.ticked(tab, now), tab, collector);
}

proof fn lemma_marked_are_listed(health: Health, tab: Tab, collector: Collector)
    ensures
        health.stale_on(tab).contains(collector) == (health.of(collector).stale && on_screen(
            collector,
            tab,
        )),
{
    let listed = health.stale_on(tab);
    let first = health.stale_among(tab, Collector::Metrics);
    let second = health.stale_among(tab, Collector::Processes);
    let third = health.stale_among(tab, Collector::Network);
    if health.marked(collector, tab) {
        let at: int = match collector {
            Collector::Metrics => 0,
            Collector::Processes => first.len() as int,
            Collector::Network => (first.len() + second.len()) as int,
            Collector::Services => (first.len() + second.len() + third.len()) as int,
        };
        assert(listed[at] == collector);
    }
}

/// A tick is drawn exactly if it changes which collectors are marked on the screen, or drops a
/// pin while the processes are shown.
#[verifier::rlimit(40)]
pub proof fn lemma_ticks_draw_what_changed(app: AppState, now: Nanos)
    ensures
        app.after(Action::Tick(now)).1 == (app.after(Action::Tick(now)).0.health.stale_on(
            app.active_tab,
        ) != app.health.stale_on(app.active_tab) || (app.active_tab == Tab::Processes
            && app.after(Action::Tick(now)).0.table.pinned.len() != app.table.pinned.len())),
{
    let (after, drawn) = app.ticked(now);
    assert(app.after(Action::Tick(now)) == (after, drawn));
    assert(after.health == app.health.ticked(app.active_tab, now));
    assert(after.table == app.table.expired(now));
    lemma_marks_change(app.health, app.active_tab, now);
}

proof fn lemma_marks_change(before: Health, tab: Tab, now: Nanos)
    ensures
        before.tick_shows(tab, now) == (before.ticked(tab, now).stale_on(tab) != before.stale_on(
            tab,
        )),
{
    let after = before.ticked(tab, now);
    lemma_marked_are_listed(before, tab, Collector::Metrics);
    lemma_marked_are_listed(before, tab, Collector::Processes);
    lemma_marked_are_listed(before, tab, Collector::Network);
    lemma_marked_are_listed(before, tab, Collector::Services);
    lemma_marked_are_listed(after, tab, Collector::Metrics);
    lemma_marked_are_listed(after, tab, Collector::Processes);
    lemma_marked_are_listed(after, tab, Collector::Network);
    lemma_marked_are_listed(after, tab, Collector::Services);
    if !before.tick_shows(tab, now) {
        assert(after.stale_on(tab) =~= before.stale_on(tab));
    }
}

/// Between two states one collector, and no other, delivered.
pub open spec fn delivered(before: Health, after: Health, collector: Collector) -> bool {
    &&& after.of(collector).updated_since_tick
    &&& after.of(collector).stale == before.of(collector).stale
    &&& after.of(collector).last_update == before.of(collector).last_update
    &&& after.of(collector).stale_after == before.of(collector).stale_after
    &&& collector != Collector::Metrics ==> after.metrics == before.metrics
    &&& collector != Collector::Processes ==> after.processes == before.processes
    &&& collector != Collector::Network ==> after.network == before.network
    &&& collector != Collector::Services ==> after.services == before.services
}

/// A reading of the system counts as one, and as nothing else.
pub proof fn lemma_delivery_of_metrics_counts(app: AppState, delivery: SystemMetrics)
    ensures
        delivered(
            app.health,
            app.after(Action::SystemMetricsUpdated(delivery)).0.health,
            Collector::Metrics,
        ),
{
}

/// A listing of the processes counts as one, also where it failed, and as nothing else.
#[verifier::rlimit(40)]
pub proof fn lemma_delivery_of_processes_counts(app: AppState, delivery: ProcessSnapshot)
    ensures
        delivered(
            app.health,
            app.after(Action::ProcessesUpdated(delivery)).0.health,
            Collector::Processes,
        ),
{
    reveal(AppState::processes_kept);
    reveal(AppState::processes_shown);
}

/// A listing of the services counts as one, also where it failed, and as nothing else.
#[verifier::rlimit(40)]
pub proof fn lemma_delivery_of_services_counts(app: AppState, delivery: ServiceSnapshot)
    ensures
        delivered(
            app.health,
            app.after(Action::ServicesUpdated(delivery)).0.health,
            Collector::Services,
        ),
{
    let heard = app.heard(Collector::Services);
    let completed = heard.refresh_pending is Some && delivery.completed_refresh_generation
        >= heard.refresh_pending->0;
    let refreshed = AppState {
        refresh_pending: if completed {
            None
        } else {
            heard.refresh_pending
        },
        ..heard
    };
    lemma_services_keep_health(refreshed, delivery.services@);
    let after = app.after(Action::ServicesUpdated(delivery)).0;
    assert(after == heard.services_updated(delivery).0);
    assert(after.health == heard.health);
}

proof fn lemma_services_keep_health(app: AppState, next: Seq<ServiceInfo>)
    ensures
        app.services_replaced(next).health == app.health,
{
    reveal(AppState::services_replaced);
    let services = ListState { items: next, ..app.services }.rebuilt().reselected(
        app.services.selected,
        app.services.current_row(),
    ).scrolled();
    let updated = AppState { service_error: None, ..app }.with_services(services);
    assert(updated.health == app.health);
}

/// A listing of the interfaces counts as one, also where it failed, and as nothing else.
#[verifier::rlimit(40)]
pub proof fn lemma_delivery_of_interfaces_counts(app: AppState, delivery: NetworkSnapshot)
    ensures
        delivered(
            app.health,
            app.after(Action::NetworkUpdated(delivery)).0.health,
            Collector::Network,
        ),
{
    reveal(AppState::networks_replaced);
}

/// A row of samples goes on with another one at its end and holds the last sixty.
pub open spec fn goes_on(before: Seq<Number>, after: Seq<Number>, last: Number) -> bool {
    &&& after.len() > 0
    &&& after.last() == last
    &&& after.len() == if before.len() < 60 {
        before.len() + 1
    } else {
        60
    }
    &&& forall|i: int|
        0 <= i < after.len() - 1 ==> #[trigger] after[i] == before[before.len() - after.len() + 1
            + i]
}

/// What a percentage is recorded as: itself from zero to a hundred, zero below and a hundred
/// above.
pub open spec fn within_percent(percent: Number, sample: Number) -> bool {
    // The bits of a number from zero on grow with it; those from the sign bit on are below zero.
    if percent.bits <= 0x4059_0000_0000_0000 {
        sample.bits == percent.bits
    } else if percent.bits < 0x7ff0_0000_0000_0000 {
        sample.bits == 0x4059_0000_0000_0000
    } else {
        sample.bits == 0 || sample.bits == 0x8000_0000_0000_0000
    }
}

/// Neither infinite nor not a number.
pub open spec fn ordinary(value: Number) -> bool {
    value.bits < 0x7ff0_0000_0000_0000 || 0x8000_0000_0000_0000 <= value.bits
        < 0xfff0_0000_0000_0000
}

/// A reading of the system goes into the histories: the use of the processors into theirs and
/// that of the memory into its own. What was not read, or is no number, goes nowhere.
pub proof fn lemma_percentages_are_recorded(app: AppState, metrics: SystemMetrics)
    requires
        app.sound(),
    ensures
        ({
            let after = app.after(Action::SystemMetricsUpdated(metrics)).0;
            &&& if metrics.cpu_percent is Some && ordinary(metrics.cpu_percent->0) {
                goes_on(app.cpu_history, after.cpu_history, after.cpu_history.last())
                    && within_percent(metrics.cpu_percent->0, after.cpu_history.last())
            } else {
                after.cpu_history == app.cpu_history
            }
            &&& if metrics.memory is Some && metrics.memory_percent is Some && ordinary(
                metrics.memory_percent->0,
            ) {
                goes_on(app.memory_history, after.memory_history, after.memory_history.last())
                    && within_percent(metrics.memory_percent->0, after.memory_history.last())
            } else {
                after.memory_history == app.memory_history
            }
            &&& after.network_history == app.network_history
        }),
{
    reveal(history::recorded);
    reveal(history::percent_recorded);
    reveal(history::sound);
    if metrics.cpu_percent is Some {
        lemma_percent_goes_on(app.cpu_history, metrics.cpu_percent->0);
    }
    if metrics.memory_percent is Some {
        lemma_percent_goes_on(app.memory_history, metrics.memory_percent->0);
    }
}

proof fn lemma_percent_goes_on(samples: Seq<Number>, percent: Number)
    requires
        history::sound(samples),
    ensures
        ({
            let after = history::percent_recorded(samples, percent);
            if ordinary(percent) {
                goes_on(samples, after, after.last()) && within_percent(percent, after.last())
            } else {
                after == samples
            }
        }),
{
    reveal(history::recorded);
    reveal(history::percent_recorded);
    reveal(history::sound);
}

/// A total of the rates goes into the history of the network, where the Overview counts any rate
/// and the total is a number from zero on.
pub proof fn lemma_rates_are_recorded(app: AppState, snapshot: NetworkSnapshot, counted: int)
    requires
        app.sound(),
        snapshot.error is None,
        snapshot.overview_rate is Some,
        snapshot.overview_rate->0.bits < 0x7ff0_0000_0000_0000,
        0 <= counted < snapshot.interfaces@.len(),
        interfaces::counted(snapshot.interfaces@[counted].name@, app.hardware),
        snapshot.interfaces@[counted].rx_rate_bytes_per_sec is Some
            || snapshot.interfaces@[counted].tx_rate_bytes_per_sec is Some,
    ensures
        ({
            let after = app.after(Action::NetworkUpdated(snapshot)).0;
            &&& goes_on(app.network_history, after.network_history, snapshot.overview_rate->0)
            &&& after.cpu_history == app.cpu_history
            &&& after.memory_history == app.memory_history
        }),
{
    reveal(history::recorded);
    reveal(history::sound);
    reveal(AppState::networks_replaced);
    lemma_counted_rate(
        snapshot.interfaces@,
        app.hardware,
        snapshot.interfaces@.len() as int,
        counted,
    );
}

proof fn lemma_counted_rate(
    interfaces: Seq<NetworkInterfaceInfo>,
    inventory: Option<crate::linux::hardware::HardwareInventory>,
    count: int,
    counted: int,
)
    requires
        0 <= counted < count <= interfaces.len(),
        interfaces::counted(interfaces[counted].name@, inventory),
        interfaces[counted].rx_rate_bytes_per_sec is Some
            || interfaces[counted].tx_rate_bytes_per_sec is Some,
    ensures
        interfaces::overview_rates(interfaces, inventory, count).len() > 0,
    decreases count,
{
    if counted < count - 1 {
        lemma_counted_rate(interfaces, inventory, count - 1, counted);
    }
}

/// A listing that failed leaves the histories as they are.
pub proof fn lemma_failures_are_not_recorded(app: AppState, snapshot: NetworkSnapshot)
    requires
        snapshot.error is Some,
    ensures
        app.after(Action::NetworkUpdated(snapshot)).0.network_history == app.network_history,
        app.after(Action::NetworkUpdated(snapshot)).0.networks == app.networks,
        app.after(Action::NetworkUpdated(snapshot)).0.network_error == Some(snapshot.error->0@),
{
}

proof fn lemma_shown_has_row<T: list::Item>(
    items: Seq<T>,
    rows: Seq<usize>,
    tag: Tag,
    from: int,
    row: int,
)
    requires
        0 <= from <= row < rows.len(),
        rows[row] < items.len(),
        items[rows[row] as int].tag() == tag,
    ensures
        list::row_from(items, rows, tag, from) is Some,
    decreases rows.len() - from,
{
    if from < row {
        lemma_shown_has_row(items, rows, tag, from + 1, row);
    }
}

proof fn lemma_row_has_item<T: list::Item>(items: Seq<T>, rows: Seq<usize>, tag: Tag, from: int)
    requires
        0 <= from,
        list::row_from(items, rows, tag, from) is Some,
    ensures
        exists|i: int| 0 <= i < items.len() && (#[trigger] items[i]).tag() == tag,
    decreases rows.len() - from,
{
    if item_is(items, rows, tag, from) {
        assert(items[rows[from] as int].tag() == tag);
    } else {
        lemma_row_has_item(items, rows, tag, from + 1);
    }
}

spec fn item_is<T: list::Item>(items: Seq<T>, rows: Seq<usize>, tag: Tag, row: int) -> bool {
    list::item_at(items, rows, row) is Some && list::item_at(items, rows, row)->0.tag() == tag
}

proof fn lemma_sought_service_has_row(
    items: Seq<ServiceInfo>,
    query: Seq<char>,
    unit: Seq<char>,
    place: int,
)
    requires
        0 <= place < items.len() <= usize::MAX,
        items[place].unit@ == unit,
        table_laws::service_sought(items[place], query),
    ensures
        ({
            let rows = list::found_places(items, text::lowercase(query), items.len() as int);
            list::row_from(items, rows, Tag::Name(unit), 0) is Some
        }),
{
    let rows = list::found_places(items, text::lowercase(query), items.len() as int);
    table_laws::lemma_service_found(items[place], query);
    list::lemma_found_is_shown(items, text::lowercase(query), items.len() as int, place);
    let row = choose|row: int| 0 <= row < rows.len() && rows[row] == place as usize;
    lemma_shown_has_row(items, rows, Tag::Name(unit), 0, row);
}

/// The selection stays on its service through a listing that still has it, and so do its details,
/// as long as the service is what is sought.
#[verifier::rlimit(40)]
pub proof fn lemma_service_stays_selected(app: AppState, snapshot: ServiceSnapshot, place: int)
    requires
        snapshot.error is None,
        app.services.selected is Some,
        0 <= place < snapshot.services@.len() <= usize::MAX,
        app.services.selected->0 == Tag::Name(snapshot.services@[place].unit@),
        table_laws::service_sought(snapshot.services@[place], app.services.query),
    ensures
        ({
            let after = app.after(Action::ServicesUpdated(snapshot)).0;
            &&& after.services.selected == app.services.selected
            &&& app.overlay == Some(Overlay::ServiceDetail) ==> after.overlay == app.overlay
        }),
{
    reveal(AppState::services_replaced);
    reveal(ListState::rebuilt);
    lemma_sought_service_has_row(
        snapshot.services@,
        app.services.query,
        snapshot.services@[place].unit@,
        place,
    );
}

/// The details of a service that a listing no longer has are closed.
#[verifier::rlimit(40)]
pub proof fn lemma_details_of_gone_service_close(app: AppState, snapshot: ServiceSnapshot)
    requires
        snapshot.error is None,
        app.services.selected is Some,
        app.overlay == Some(Overlay::ServiceDetail),
        exists|i: int|
            0 <= i < app.services.items.len() && (#[trigger] app.services.items[i]).tag()
                == app.services.selected->0,
        forall|i: int|
            0 <= i < snapshot.services@.len() ==> Tag::Name(
                (#[trigger] snapshot.services@[i]).unit@,
            ) != app.services.selected->0,
    ensures
        app.after(Action::ServicesUpdated(snapshot)).0.overlay is None,
{
    reveal(AppState::services_replaced);
    reveal(ListState::rebuilt);
    let held = app.services.items;
    let next = snapshot.services@;
    let tag = app.services.selected->0;
    let rows = list::found_places(next, text::lowercase(app.services.query), next.len() as int);
    if list::row_from(next, rows, tag, 0) is Some {
        lemma_row_has_item(next, rows, tag, 0);
        let i = choose|i: int| 0 <= i < next.len() && (#[trigger] next[i]).tag() == tag;
        assert(Tag::Name(next[i].unit@) == tag);
    }
    if likeness::all_same(held, next) {
        let i = choose|i: int| 0 <= i < held.len() && (#[trigger] held[i]).tag() == tag;
        assert(held[i].same(next[i]));
    }
}

/// The selection stays on its interface through a listing that still has it, and so do its
/// details.
#[verifier::rlimit(40)]
pub proof fn lemma_interface_stays_selected(app: AppState, snapshot: NetworkSnapshot, place: int)
    requires
        snapshot.error is None,
        app.networks.selected is Some,
        0 <= place < snapshot.interfaces@.len() <= usize::MAX,
        app.networks.selected->0 == Tag::Name(snapshot.interfaces@[place].name@),
    ensures
        ({
            let after = app.after(Action::NetworkUpdated(snapshot)).0;
            &&& after.networks.selected == app.networks.selected
            &&& app.overlay == Some(Overlay::NetworkDetail) ==> after.overlay == app.overlay
        }),
{
    reveal(AppState::networks_replaced);
    let items = snapshot.interfaces@;
    let wanted = text::lowercase(app.networks.query);
    let rows = list::found_places(items, wanted, items.len() as int);
    list::lemma_found_is_shown(items, wanted, items.len() as int, place);
    let row = choose|row: int| 0 <= row < rows.len() && rows[row] == place as usize;
    lemma_shown_has_row(items, rows, Tag::Name(items[place].name@), 0, row);
}

proof fn lemma_process_has_row(
    rows: Seq<ProcessRow>,
    processes: Seq<ProcessInfo>,
    pinned: Seq<PinnedProcess>,
    identity: ProcessIdentity,
    from: int,
    row: int,
)
    requires
        0 <= from <= row < rows.len(),
        process_table::row_shows(processes, pinned, rows[row], identity),
    ensures
        process_table::row_from(rows, processes, pinned, identity, from) is Some,
    decreases rows.len() - from,
{
    if from < row {
        lemma_process_has_row(rows, processes, pinned, identity, from + 1, row);
    }
}

proof fn lemma_marking_adds_no_pin(
    pinned: Seq<PinnedProcess>,
    processes: Seq<ProcessInfo>,
    next: Seq<ProcessInfo>,
    count: int,
)
    requires
        0 <= count <= pinned.len(),
    ensures
        ({
            let marked = process_table::marked_pins(pinned, processes, next, count);
            &&& marked.len() <= count
            &&& forall|i: int|
                0 <= i < marked.len() ==> exists|k: int|
                    0 <= k < count && (#[trigger] pinned[k]).identity == (
                    #[trigger] marked[i]).identity
        }),
    decreases count,
{
    if count > 0 {
        lemma_marking_adds_no_pin(pinned, processes, next, count - 1);
        let kept = process_table::marked_pins(pinned, processes, next, count - 1);
        let marked = process_table::marked_pins(pinned, processes, next, count);
        assert forall|i: int| 0 <= i < marked.len() implies exists|k: int|
            0 <= k < count && (#[trigger] pinned[k]).identity == (
            #[trigger] marked[i]).identity by {
            if i < kept.len() {
                assert(marked[i] == kept[i]);
                let k = choose|k: int|
                    0 <= k < count - 1 && (#[trigger] pinned[k]).identity == kept[i].identity;
                assert(pinned[k].identity == marked[i].identity);
            } else {
                assert(pinned[count - 1].identity == marked[i].identity);
            }
        }
    }
}

/// The selection stays on its process through a listing that still has it, as long as the process
/// is what is sought, and so do its details and the question whether to signal it.
#[verifier::rlimit(40)]
pub proof fn lemma_process_stays_selected(app: AppState, snapshot: ProcessSnapshot, place: int)
    requires
        app.active_tab == Tab::Processes,
        app.table.pins_sound(),
        app.table.processes.len() <= usize::MAX,
        app.table.replaced(snapshot.processes@).rows.len() <= usize::MAX,
        snapshot.error is None,
        0 <= place < snapshot.processes@.len() <= usize::MAX,
        app.table.selected == Some(snapshot.processes@[place].id()),
        !table_laws::is_pinned(app.table.pinned, snapshot.processes@[place]),
        table_laws::sought(snapshot.processes@[place], app.table.query),
    ensures
        app.after(Action::ProcessesUpdated(snapshot)).0.table.selected == app.table.selected,
        app.overlay == Some(Overlay::ProcessDetail) ==> app.after(
            Action::ProcessesUpdated(snapshot),
        ).0.overlay == app.overlay,
{
    let next = snapshot.processes@;
    let table = app.table.replaced(next);
    let identity = next[place].id();
    process_laws::lemma_replaced_settles(app.table, next);
    assert(table.deferred is None && table.processes == next && table.query == app.table.query
        && table.pinned == process_table::marked_pins(
        app.table.pinned,
        app.table.processes,
        next,
        app.table.pinned.len() as int,
    )) by {
        reveal(TableState::replaced);
        reveal(TableState::rebuilt);
    }
    lemma_marking_adds_no_pin(
        app.table.pinned,
        app.table.processes,
        next,
        app.table.pinned.len() as int,
    );
    if table_laws::is_pinned(table.pinned, next[place]) {
        let i = choose|i: int|
            0 <= i < table.pinned.len() && (#[trigger] table.pinned[i]).identity.pid
                == next[place].pid && table.pinned[i].identity.start_time
                == next[place].start_time;
        let k = choose|k: int|
            0 <= k < app.table.pinned.len() && (#[trigger] app.table.pinned[k]).identity
                == table.pinned[i].identity;
        assert(table_laws::is_pinned(app.table.pinned, next[place]));
    }
    table_laws::lemma_search_shows_what_is_sought(table, place);
    let row = choose|row: int|
        0 <= row < table.rows.len() && #[trigger] table.rows[row] is Live
            && table.rows[row]->index == place;
    lemma_process_has_row(table.rows, table.processes, table.pinned, identity, 0, row);
    process_laws::lemma_refresh_keeps_selection(app.table, next);
    process_table::lemma_process_place(next, identity, 0);
    reveal(AppState::processes_shown);
}

/// A pinned process that a listing no longer has is remembered as it was last seen; one that it
/// has goes on as it was, and no pin changes its place.
pub proof fn lemma_gone_pin_is_remembered(table: TableState, next: Seq<ProcessInfo>, place: int)
    requires
        0 <= place < table.pinned.len(),
        table.processes.len() <= usize::MAX,
        next.len() <= usize::MAX,
        forall|i: int|
            0 <= i < table.pinned.len() ==> (#[trigger] table.pinned[i]).exited is Some
                || exists|k: int|
                0 <= k < table.processes.len() && (#[trigger] table.processes[k]).id()
                    == table.pinned[i].identity,
    ensures
        table.replaced(next).pinned.len() == table.pinned.len(),
        table.replaced_hidden(next).pinned == table.replaced(next).pinned,
        ({
            let before = table.pinned[place];
            let after = table.replaced(next).pinned[place];
            let listed = exists|k: int|
                0 <= k < next.len() && (#[trigger] next[k]).id() == before.identity;
            &&& after.identity == before.identity
            &&& before.exited is Some || listed ==> after == before
            &&& before.exited is None && !listed ==> {
                &&& after.exited is Some
                &&& after.exited->0.since is None
                &&& after.exited->0.last_seen.id() == before.identity
                &&& table.processes.contains(after.exited->0.last_seen)
            }
        }),
{
    reveal(TableState::replaced);
    reveal(TableState::replaced_hidden);
    reveal(TableState::rebuilt);
    lemma_pin_marked(table.pinned, table.processes, next, table.pinned.len() as int, place);
}

proof fn lemma_pin_marked(
    pinned: Seq<PinnedProcess>,
    processes: Seq<ProcessInfo>,
    next: Seq<ProcessInfo>,
    count: int,
    place: int,
)
    requires
        0 <= place < pinned.len(),
        0 <= count <= pinned.len(),
        processes.len() <= usize::MAX,
        next.len() <= usize::MAX,
        forall|i: int|
            0 <= i < pinned.len() ==> (#[trigger] pinned[i]).exited is Some || exists|k: int|
                0 <= k < processes.len() && (#[trigger] processes[k]).id() == pinned[i].identity,
    ensures
        process_table::marked_pins(pinned, processes, next, count).len() == count,
        place < count ==> ({
            let before = pinned[place];
            let after = process_table::marked_pins(pinned, processes, next, count)[place];
            let listed = exists|k: int|
                0 <= k < next.len() && (#[trigger] next[k]).id() == before.identity;
            &&& after.identity == before.identity
            &&& before.exited is Some || listed ==> after == before
            &&& before.exited is None && !listed ==> {
                &&& after.exited is Some
                &&& after.exited->0.since is None
                &&& after.exited->0.last_seen.id() == before.identity
                &&& processes.contains(after.exited->0.last_seen)
            }
        }),
    decreases count,
{
    if count > 0 {
        lemma_pin_marked(pinned, processes, next, count - 1, place);
        let pin = pinned[count - 1];
        process_table::lemma_process_place(next, pin.identity, 0);
        process_table::lemma_process_place(processes, pin.identity, 0);
    }
}

proof fn lemma_exit_is_timed(pinned: Seq<PinnedProcess>, now: Nanos, count: int, place: int)
    requires
        0 <= place < count <= pinned.len(),
        pinned[place].exited is Some,
        pinned[place].exited->0.since is None,
    ensures
        exists|i: int|
            0 <= i < process_table::lingering_pins(pinned, now, count).len() && (
            #[trigger] process_table::lingering_pins(pinned, now, count)[i]) == (PinnedProcess {
                identity: pinned[place].identity,
                exited: Some(
                    process_table::ExitedPin {
                        last_seen: pinned[place].exited->0.last_seen,
                        since: Some(now),
                    },
                ),
            }),
    decreases count,
{
    let pins = process_table::lingering_pins(pinned, now, count);
    let timed = PinnedProcess {
        identity: pinned[place].identity,
        exited: Some(
            process_table::ExitedPin {
                last_seen: pinned[place].exited->0.last_seen,
                since: Some(now),
            },
        ),
    };
    let kept = process_table::lingering_pins(pinned, now, count - 1);
    if place < count - 1 {
        lemma_exit_is_timed(pinned, now, count - 1, place);
        let i = choose|i: int| 0 <= i < kept.len() && (#[trigger] kept[i]) == timed;
        assert(pins[i] == timed);
    } else {
        assert(pins[kept.len() as int] == timed);
    }
}

/// The identity is among the pins.
pub open spec fn pin_listed(pinned: Seq<PinnedProcess>, identity: ProcessIdentity) -> bool {
    exists|i: int| 0 <= i < pinned.len() && (#[trigger] pinned[i]).identity == identity
}

/// A pinned process that exited stays in the table for five seconds from the first tick that saw
/// it gone, and a running one for as long as it runs.
pub proof fn lemma_exited_pin_stays_five_seconds(
    table: TableState,
    first: Nanos,
    now: Nanos,
    place: int,
)
    requires
        table.pins_sound(),
        0 <= place < table.pinned.len(),
        first <= now,
    ensures
        table.pinned[place].exited is None ==> pin_listed(
            table.expired(now).pinned,
            table.pinned[place].identity,
        ),
        table.pinned[place].exited is Some && table.pinned[place].exited->0.since is None ==> {
            &&& pin_listed(table.expired(first).pinned, table.pinned[place].identity)
            &&& pin_listed(
                table.expired(first).expired(now).pinned,
                table.pinned[place].identity,
            ) == (now - first < 5_000_000_000)
        },
{
    reveal(TableState::expired);
    reveal(TableState::rebuilt);
    let pinned = table.pinned;
    process_laws::lemma_exited_pins_linger(pinned, now, pinned.len() as int, place);
    if pinned[place].exited is Some && pinned[place].exited->0.since is None {
        let pins = process_table::lingering_pins(pinned, first, pinned.len() as int);
        assert(table.expired(first).pinned == pins);
        lemma_exit_is_timed(pinned, first, pinned.len() as int, place);
        let timed = PinnedProcess {
            identity: pinned[place].identity,
            exited: Some(
                process_table::ExitedPin {
                    last_seen: pinned[place].exited->0.last_seen,
                    since: Some(first),
                },
            ),
        };
        let at = choose|i: int| 0 <= i < pins.len() && (#[trigger] pins[i]) == timed;
        process_table::lemma_lingering_pins_sound(pinned, first, pinned.len() as int);
        process_laws::lemma_exited_pins_linger(pins, now, pins.len() as int, at);
        assert(table.expired(first).expired(now).pinned == process_table::lingering_pins(
            pins,
            now,
            pins.len() as int,
        ));
    }
}

/// The selection of a service that a listing no longer has goes to what is in its row then, or to
/// the last row where there are fewer.
#[verifier::rlimit(40)]
pub proof fn lemma_gone_service_leaves_its_row(app: AppState, snapshot: ServiceSnapshot)
    requires
        snapshot.error is None,
        snapshot.services@.len() <= usize::MAX,
        app.services.selected is Some,
        app.service_error is Some || !snapshot_laws::one_service_listing(
            app.services.items,
            snapshot.services@,
        ),
        forall|i: int|
            0 <= i < snapshot.services@.len() ==> Tag::Name(
                (#[trigger] snapshot.services@[i]).unit@,
            ) != app.services.selected->0,
    ensures
        ({
            let after = app.after(Action::ServicesUpdated(snapshot)).0.services;
            let row = app.services.current_row();
            let wanted = if row < after.rows.len() {
                row
            } else {
                after.rows.len() - 1
            };
            after.rows.len() > 0 && after.rows[wanted] < snapshot.services@.len()
                ==> after.selected == Some(
                Tag::Name(snapshot.services@[after.rows[wanted] as int].unit@),
            )
        }),
{
    reveal(AppState::services_replaced);
    reveal(ListState::rebuilt);
    let next = snapshot.services@;
    let tag = app.services.selected->0;
    let rows = list::found_places(next, text::lowercase(app.services.query), next.len() as int);
    if list::row_from(next, rows, tag, 0) is Some {
        lemma_row_has_item(next, rows, tag, 0);
        let i = choose|i: int| 0 <= i < next.len() && (#[trigger] next[i]).tag() == tag;
        assert(Tag::Name(next[i].unit@) == tag);
    }
    if likeness::all_same(app.services.items, next) {
        snapshot_laws::lemma_same_services(app.services.items, next);
    }
    if app.services.selected_row() is Some {
        assert(app.services.current_row() >= 0);
    }
}

} // verus!
