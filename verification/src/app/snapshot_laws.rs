//! What is shown after a reading is that reading, down to its last field.
use vstd::prelude::*;

use crate::action::{Action, Tab};
use crate::app::health::Collector;
use crate::app::list::ListState;
use crate::app::process_table::TableState;
use crate::app::state::AppState;
use crate::likeness;
use crate::likeness::Likeness;
use crate::linux::hardware::{
    CpuPackage, GpuDevice, HardwareInventory, MemoryModule, NetworkDevice, StorageDevice,
};
use crate::linux::journal::JournalBatch;
use crate::linux::network::{NetworkInterfaceInfo, NetworkSnapshot};
use crate::linux::process;
use crate::linux::process::{ProcessInfo, ProcessSnapshot};
use crate::linux::service::{ServiceInfo, ServiceSnapshot};
use crate::linux::system::{DiskIo, LoadAverage, LogicalCpuMetrics, SystemMetrics};
use crate::number::Number;

verus! {

broadcast use vstd::string::group_string_axioms;

/// The bits of the zero with a sign.
pub const SIGNED_ZERO: u64 = 0x8000_0000_0000_0000;

/// Two measured values have the same bits, but for the two zeros, which are one number.
pub open spec fn one_value(left: Number, right: Number) -> bool {
    ||| left.bits == right.bits
    ||| (left.bits == 0 || left.bits == SIGNED_ZERO) && (right.bits == 0 || right.bits
        == SIGNED_ZERO)
}

/// Two measured values that may be missing are missing both, or one value.
pub open spec fn one_reading(left: Option<Number>, right: Option<Number>) -> bool {
    &&& left is Some == right is Some
    &&& left is Some ==> one_value(left->0, right->0)
}

/// Two texts that may be missing are missing both, or have the same characters.
pub open spec fn one_text(left: Option<String>, right: Option<String>) -> bool {
    &&& left is Some == right is Some
    &&& left is Some ==> left->0@ == right->0@
}

/// A process as one reading tells of it is as the other tells of it, in every field.
pub open spec fn one_process(left: ProcessInfo, right: ProcessInfo) -> bool {
    &&& left.pid == right.pid
    &&& left.name@ == right.name@
    &&& one_reading(left.cpu_percent, right.cpu_percent)
    &&& left.memory_bytes == right.memory_bytes
    &&& one_text(left.command, right.command)
    &&& left.state@ == right.state@
    &&& left.parent_pid == right.parent_pid
    &&& left.state_code == right.state_code
    &&& left.start_time == right.start_time
}

/// A service as one listing tells of it is as the other tells of it, in every field.
pub open spec fn one_service(left: ServiceInfo, right: ServiceInfo) -> bool {
    &&& left.unit@ == right.unit@
    &&& left.load_state@ == right.load_state@
    &&& left.active_state@ == right.active_state@
    &&& left.sub_state@ == right.sub_state@
    &&& left.description@ == right.description@
}

/// An interface as one reading tells of it is as the other tells of it, in every field.
pub open spec fn one_interface(left: NetworkInterfaceInfo, right: NetworkInterfaceInfo) -> bool {
    &&& left.name@ == right.name@
    &&& left.operstate == right.operstate
    &&& one_text(left.mac_address, right.mac_address)
    &&& left.mtu == right.mtu
    &&& left.ipv4_addresses@ == right.ipv4_addresses@
    &&& left.ipv6_addresses@ == right.ipv6_addresses@
    &&& left.rx_bytes == right.rx_bytes
    &&& left.tx_bytes == right.tx_bytes
    &&& left.rx_packets == right.rx_packets
    &&& left.tx_packets == right.tx_packets
    &&& left.rx_errors == right.rx_errors
    &&& left.tx_errors == right.tx_errors
    &&& left.rx_dropped == right.rx_dropped
    &&& left.tx_dropped == right.tx_dropped
    &&& one_reading(left.rx_rate_bytes_per_sec, right.rx_rate_bytes_per_sec)
    &&& one_reading(left.tx_rate_bytes_per_sec, right.tx_rate_bytes_per_sec)
}

/// The load as one reading tells of it is as the other tells of it.
pub open spec fn one_load(left: Option<LoadAverage>, right: Option<LoadAverage>) -> bool {
    &&& left is Some == right is Some
    &&& left is Some ==> one_value(left->0.one, right->0.one) && one_value(
        left->0.five,
        right->0.five,
    ) && one_value(left->0.fifteen, right->0.fifteen)
}

/// The processors as one reading tells of them are as the other tells of them.
pub open spec fn one_set_of_cpus(left: Seq<LogicalCpuMetrics>, right: Seq<LogicalCpuMetrics>) -> bool {
    &&& left.len() == right.len()
    &&& forall|i: int|
        0 <= i < left.len() ==> (#[trigger] left[i]).id.0 == right[i].id.0 && one_reading(
            left[i].utilization_percent,
            right[i].utilization_percent,
        )
}

/// The disks as one reading tells of them are as the other tells of them.
pub open spec fn one_set_of_disks(left: Seq<DiskIo>, right: Seq<DiskIo>) -> bool {
    &&& left.len() == right.len()
    &&& forall|i: int|
        0 <= i < left.len() ==> (#[trigger] left[i]).name@ == right[i].name@ && one_reading(
            left[i].read_bytes_per_sec,
            right[i].read_bytes_per_sec,
        ) && one_reading(left[i].write_bytes_per_sec, right[i].write_bytes_per_sec)
}

/// The system as one reading tells of it is as the other tells of it, in every field.
pub open spec fn one_system(left: SystemMetrics, right: SystemMetrics) -> bool {
    &&& one_reading(left.cpu_percent, right.cpu_percent)
    &&& one_set_of_cpus(left.logical_cpus@, right.logical_cpus@)
    &&& left.memory == right.memory
    &&& left.uptime == right.uptime
    &&& one_load(left.load_average, right.load_average)
    &&& left.root_filesystem == right.root_filesystem
    &&& one_text(left.system_identity.hostname, right.system_identity.hostname)
    &&& one_text(left.system_identity.kernel_release, right.system_identity.kernel_release)
    &&& one_set_of_disks(left.disks@, right.disks@)
}

pub open spec fn one_cpu_package(left: CpuPackage, right: CpuPackage) -> bool {
    left.physical_id == right.physical_id && left.model@ == right.model@
}

pub open spec fn one_module(left: MemoryModule, right: MemoryModule) -> bool {
    &&& one_text(left.locator, right.locator)
    &&& left.capacity_bytes == right.capacity_bytes
    &&& one_text(left.memory_type, right.memory_type)
    &&& left.speed_mts == right.speed_mts
    &&& one_text(left.manufacturer, right.manufacturer)
    &&& one_text(left.part_number, right.part_number)
}

pub open spec fn one_gpu(left: GpuDevice, right: GpuDevice) -> bool {
    left.model@ == right.model@ && left.kind == right.kind && left.vram_bytes == right.vram_bytes
}

pub open spec fn one_storage_device(left: StorageDevice, right: StorageDevice) -> bool {
    &&& left.system_name@ == right.system_name@
    &&& left.kind == right.kind
    &&& one_text(left.model, right.model)
    &&& left.capacity_bytes == right.capacity_bytes
}

pub open spec fn one_network_device(left: NetworkDevice, right: NetworkDevice) -> bool {
    left.interface_name@ == right.interface_name@ && one_text(left.model, right.model)
}

/// Two inventories list the same devices in the same order, each in every field.
pub open spec fn one_inventory(left: HardwareInventory, right: HardwareInventory) -> bool {
    &&& left.total_memory == right.total_memory
    &&& left.cpus@.len() == right.cpus@.len()
    &&& forall|i: int|
        0 <= i < left.cpus@.len() ==> one_cpu_package(#[trigger] left.cpus@[i], right.cpus@[i])
    &&& left.memory_modules@.len() == right.memory_modules@.len()
    &&& forall|i: int|
        0 <= i < left.memory_modules@.len() ==> one_module(
            #[trigger] left.memory_modules@[i],
            right.memory_modules@[i],
        )
    &&& left.gpus@.len() == right.gpus@.len()
    &&& forall|i: int|
        0 <= i < left.gpus@.len() ==> one_gpu(#[trigger] left.gpus@[i], right.gpus@[i])
    &&& left.storage_devices@.len() == right.storage_devices@.len()
    &&& forall|i: int|
        0 <= i < left.storage_devices@.len() ==> one_storage_device(
            #[trigger] left.storage_devices@[i],
            right.storage_devices@[i],
        )
    &&& left.network_devices@.len() == right.network_devices@.len()
    &&& forall|i: int|
        0 <= i < left.network_devices@.len() ==> one_network_device(
            #[trigger] left.network_devices@[i],
            right.network_devices@[i],
        )
}

/// Two listings of processes tell the same.
pub open spec fn one_listing(left: Seq<ProcessInfo>, right: Seq<ProcessInfo>) -> bool {
    &&& left.len() == right.len()
    &&& forall|i: int| 0 <= i < left.len() ==> one_process(#[trigger] left[i], right[i])
}

/// Two listings of services tell the same.
pub open spec fn one_service_listing(left: Seq<ServiceInfo>, right: Seq<ServiceInfo>) -> bool {
    &&& left.len() == right.len()
    &&& forall|i: int| 0 <= i < left.len() ==> one_service(#[trigger] left[i], right[i])
}

/// Two listings of interfaces tell the same.
pub open spec fn one_interface_listing(
    left: Seq<NetworkInterfaceInfo>,
    right: Seq<NetworkInterfaceInfo>,
) -> bool {
    &&& left.len() == right.len()
    &&& forall|i: int| 0 <= i < left.len() ==> one_interface(#[trigger] left[i], right[i])
}

/// A reading of a process that is taken for the last one tells the same as it in every field.
proof fn lemma_same_process(left: ProcessInfo, right: ProcessInfo)
    requires
        left.same(right),
    ensures
        one_process(left, right),
{
}

/// A listing of processes that is taken for the last one tells the same as it.
pub proof fn lemma_same_processes(left: Seq<ProcessInfo>, right: Seq<ProcessInfo>)
    requires
        likeness::all_same(left, right),
    ensures
        one_listing(left, right),
{
    assert forall|i: int| 0 <= i < left.len() implies one_process(#[trigger] left[i], right[i]) by {
        lemma_same_process(left[i], right[i]);
    }
}

/// A listing of services that is taken for the last one tells the same as it.
pub proof fn lemma_same_services(left: Seq<ServiceInfo>, right: Seq<ServiceInfo>)
    requires
        likeness::all_same(left, right),
    ensures
        one_service_listing(left, right),
{
    assert forall|i: int| 0 <= i < left.len() implies one_service(#[trigger] left[i], right[i]) by {
        assert(left[i].same(right[i]));
    }
}

/// After a listing of the processes that went well the table holds exactly that listing: every
/// process at its place, with its current share of the processors, memory and state.
pub proof fn lemma_process_listing_is_held(app: AppState, snapshot: ProcessSnapshot)
    requires
        snapshot.error is None,
    ensures
        one_listing(
            app.after(Action::ProcessesUpdated(snapshot)).0.table.processes,
            snapshot.processes@,
        ),
{
    reveal(AppState::processes_kept);
    reveal(AppState::processes_shown);
    reveal(TableState::replaced);
    reveal(TableState::replaced_hidden);
    reveal(TableState::rebuilt);
    let heard = app.heard(Collector::Processes);
    if likeness::all_same(heard.table.processes, snapshot.processes@) {
        assert forall|i: int| 0 <= i < heard.table.processes.len() implies one_process(
            #[trigger] heard.table.processes[i],
            snapshot.processes@[i],
        ) by {
            lemma_same_process(heard.table.processes[i], snapshot.processes@[i]);
        }
    }
}

/// A change in any field of any process is drawn while the processes are shown.
pub proof fn lemma_process_change_is_drawn(app: AppState, snapshot: ProcessSnapshot)
    requires
        snapshot.error is None,
        app.active_tab == Tab::Processes,
        !one_listing(app.table.processes, snapshot.processes@),
    ensures
        app.after(Action::ProcessesUpdated(snapshot)).1,
        app.after(Action::ProcessesUpdated(snapshot)).0.table.processes == snapshot.processes@,
{
    reveal(AppState::processes_shown);
    reveal(TableState::replaced);
    reveal(TableState::rebuilt);
    if likeness::all_same(app.table.processes, snapshot.processes@) {
        assert forall|i: int| 0 <= i < app.table.processes.len() implies one_process(
            #[trigger] app.table.processes[i],
            snapshot.processes@[i],
        ) by {
            lemma_same_process(app.table.processes[i], snapshot.processes@[i]);
        }
    }
}

/// None of the shares is a value that is not a number.
pub open spec fn shares_are_numbers(processes: Seq<ProcessInfo>) -> bool {
    forall|i: int|
        0 <= i < processes.len() && (#[trigger] processes[i]).cpu_percent is Some
            ==> processes[i].cpu_percent->0.bits % SIGNED_ZERO <= 0x7ff0_0000_0000_0000u64
}

/// A listing in which nothing changed draws nothing and leaves the table as it is.
pub proof fn lemma_unchanged_processes_draw_nothing(app: AppState, snapshot: ProcessSnapshot)
    requires
        snapshot.error is None,
        app.process_error is None,
        one_listing(app.table.processes, snapshot.processes@),
        shares_are_numbers(app.table.processes),
        shares_are_numbers(snapshot.processes@),
    ensures
        !app.after(Action::ProcessesUpdated(snapshot)).1,
        app.after(Action::ProcessesUpdated(snapshot)).0.table == app.table,
{
    assert forall|i: int| 0 <= i < app.table.processes.len() implies (
    #[trigger] app.table.processes[i]).same(snapshot.processes@[i]) by {
        assert(one_process(app.table.processes[i], snapshot.processes@[i]));
        assert(snapshot.processes@[i].cpu_percent is Some
            ==> snapshot.processes@[i].cpu_percent->0.bits % SIGNED_ZERO
            <= 0x7ff0_0000_0000_0000u64);
    }
}

/// As many processes are counted in a state as there are in it.
proof fn lemma_states_are_counted(processes: Seq<ProcessInfo>, code: char)
    ensures
        process::count_in_state(processes, code) == processes.filter(
            |process: ProcessInfo| process.state_code == code,
        ).len(),
        process::count_in_state(processes, code) <= processes.len(),
    decreases processes.len(),
{
    reveal(Seq::filter);
    if processes.len() > 0 {
        lemma_states_are_counted(processes.drop_last(), code);
    }
}

/// A listing that changed something is counted: all its processes, those that run and those
/// that are zombies.
pub proof fn lemma_processes_are_counted(app: AppState, snapshot: ProcessSnapshot)
    requires
        snapshot.error is None,
        snapshot.processes@.len() <= usize::MAX,
        !one_listing(app.table.processes, snapshot.processes@),
    ensures
        ({
            let summary = app.after(Action::ProcessesUpdated(snapshot)).0.table.summary;
            &&& summary.total == snapshot.processes@.len()
            &&& summary.running == snapshot.processes@.filter(
                |process: ProcessInfo| process.state_code == 'R',
            ).len()
            &&& summary.zombies == snapshot.processes@.filter(
                |process: ProcessInfo| process.state_code == 'Z',
            ).len()
        }),
{
    reveal(AppState::processes_kept);
    reveal(AppState::processes_shown);
    reveal(TableState::replaced);
    reveal(TableState::replaced_hidden);
    reveal(TableState::rebuilt);
    let next = snapshot.processes@;
    lemma_states_are_counted(next, 'R');
    lemma_states_are_counted(next, 'Z');
    if likeness::all_same(app.table.processes, next) {
        assert forall|i: int| 0 <= i < app.table.processes.len() implies one_process(
            #[trigger] app.table.processes[i],
            next[i],
        ) by {
            lemma_same_process(app.table.processes[i], next[i]);
        }
    }
}

/// After a listing of the services that went well the list holds exactly that listing: every
/// unit at its place, with its current states.
pub proof fn lemma_service_listing_is_held(app: AppState, snapshot: ServiceSnapshot)
    requires
        snapshot.error is None,
    ensures
        one_service_listing(
            app.after(Action::ServicesUpdated(snapshot)).0.services.items,
            snapshot.services@,
        ),
{
    reveal(AppState::services_replaced);
    reveal(ListState::rebuilt);
    let held = app.services.items;
    if likeness::all_same(held, snapshot.services@) {
        assert forall|i: int| 0 <= i < held.len() implies one_service(
            #[trigger] held[i],
            snapshot.services@[i],
        ) by {
            assert(held[i].same(snapshot.services@[i]));
        }
    }
}

/// A change in any field of any service is drawn while the services are shown.
pub proof fn lemma_service_change_is_drawn(app: AppState, snapshot: ServiceSnapshot)
    requires
        snapshot.error is None,
        app.active_tab == Tab::Services,
        !one_service_listing(app.services.items, snapshot.services@),
    ensures
        app.after(Action::ServicesUpdated(snapshot)).1,
        app.after(Action::ServicesUpdated(snapshot)).0.services.items == snapshot.services@,
{
    reveal(AppState::services_replaced);
    reveal(ListState::rebuilt);
    let held = app.services.items;
    if likeness::all_same(held, snapshot.services@) {
        assert forall|i: int| 0 <= i < held.len() implies one_service(
            #[trigger] held[i],
            snapshot.services@[i],
        ) by {
            assert(held[i].same(snapshot.services@[i]));
        }
    }
}

/// A listing of the services in which nothing changed draws nothing, unless it ends a refresh.
pub proof fn lemma_unchanged_services_draw_nothing(app: AppState, snapshot: ServiceSnapshot)
    requires
        snapshot.error is None,
        app.service_error is None,
        app.refresh_pending is None,
        one_service_listing(app.services.items, snapshot.services@),
    ensures
        !app.after(Action::ServicesUpdated(snapshot)).1,
        app.after(Action::ServicesUpdated(snapshot)).0.services == app.services,
{
    assert forall|i: int| 0 <= i < app.services.items.len() implies (
    #[trigger] app.services.items[i]).same(snapshot.services@[i]) by {
        assert(one_service(app.services.items[i], snapshot.services@[i]));
    }
}

proof fn lemma_same_interface(left: NetworkInterfaceInfo, right: NetworkInterfaceInfo)
    requires
        left.same(right),
    ensures
        one_interface(left, right),
{
    assert(left.ipv4_addresses@ =~= right.ipv4_addresses@) by {
        assert forall|i: int| 0 <= i < left.ipv4_addresses@.len() implies left.ipv4_addresses@[i]
            == right.ipv4_addresses@[i] by {
            assert(left.ipv4_addresses@[i].same(right.ipv4_addresses@[i]));
        }
    }
    assert(left.ipv6_addresses@ =~= right.ipv6_addresses@) by {
        assert forall|i: int| 0 <= i < left.ipv6_addresses@.len() implies left.ipv6_addresses@[i]
            == right.ipv6_addresses@[i] by {
            assert(left.ipv6_addresses@[i].same(right.ipv6_addresses@[i]));
        }
    }
}

/// A listing of interfaces that is taken for the last one tells the same as it.
pub proof fn lemma_same_interfaces(left: Seq<NetworkInterfaceInfo>, right: Seq<NetworkInterfaceInfo>)
    requires
        likeness::all_same(left, right),
    ensures
        one_interface_listing(left, right),
{
    assert forall|i: int| 0 <= i < left.len() implies one_interface(
        #[trigger] left[i],
        right[i],
    ) by {
        lemma_same_interface(left[i], right[i]);
    }
}

/// After a listing of the interfaces that went well the list holds exactly that listing: every
/// interface at its place, with its current counters, rates, state and addresses.
pub proof fn lemma_interface_listing_is_held(app: AppState, snapshot: NetworkSnapshot)
    requires
        snapshot.error is None,
    ensures
        one_interface_listing(
            app.after(Action::NetworkUpdated(snapshot)).0.networks.items,
            snapshot.interfaces@,
        ),
{
    reveal(AppState::networks_replaced);
    reveal(ListState::rebuilt);
    if likeness::all_same(app.networks.items, snapshot.interfaces@) {
        lemma_same_interfaces(app.networks.items, snapshot.interfaces@);
    }
}

/// A change in any field of any interface is drawn while the interfaces or the Overview are
/// shown.
pub proof fn lemma_interface_change_is_drawn(app: AppState, snapshot: NetworkSnapshot)
    requires
        snapshot.error is None,
        app.active_tab == Tab::Network || app.active_tab == Tab::Overview,
        !one_interface_listing(app.networks.items, snapshot.interfaces@),
    ensures
        app.after(Action::NetworkUpdated(snapshot)).1,
        app.after(Action::NetworkUpdated(snapshot)).0.networks.items == snapshot.interfaces@,
{
    reveal(AppState::networks_replaced);
    if likeness::all_same(app.networks.items, snapshot.interfaces@) {
        lemma_same_interfaces(app.networks.items, snapshot.interfaces@);
    }
}

/// A reading of the system is what is shown afterwards, in every field.
pub proof fn lemma_metrics_are_held(app: AppState, metrics: SystemMetrics)
    ensures
        one_system(app.after(Action::SystemMetricsUpdated(metrics)).0.metrics, metrics),
{
    if app.metrics.same(metrics) {
        lemma_same_system(app.metrics, metrics);
    }
}

/// A change in any field of the system is drawn while the Overview is shown.
pub proof fn lemma_metrics_change_is_drawn(app: AppState, metrics: SystemMetrics)
    requires
        app.active_tab == Tab::Overview,
        !one_system(app.metrics, metrics),
    ensures
        app.after(Action::SystemMetricsUpdated(metrics)).1,
        app.after(Action::SystemMetricsUpdated(metrics)).0.metrics == metrics,
{
    if app.metrics.same(metrics) {
        lemma_same_system(app.metrics, metrics);
    }
}

/// A change in what the screen of processes shows of the system, the use of the processors and
/// of the memory, is drawn there; other changes are not.
pub proof fn lemma_metrics_change_is_drawn_on_processes(app: AppState, metrics: SystemMetrics)
    requires
        app.active_tab == Tab::Processes,
    ensures
        !one_reading(app.metrics.cpu_percent, metrics.cpu_percent) || app.metrics.memory
            != metrics.memory ==> app.after(Action::SystemMetricsUpdated(metrics)).1,
        one_reading(app.metrics.cpu_percent, metrics.cpu_percent) && app.metrics.memory
            == metrics.memory && (metrics.cpu_percent is Some ==> metrics.cpu_percent->0.finite()
            && app.metrics.cpu_percent->0.finite()) ==> !app.after(
            Action::SystemMetricsUpdated(metrics),
        ).1,
{
}

proof fn lemma_same_system(left: SystemMetrics, right: SystemMetrics)
    requires
        left.same(right),
    ensures
        one_system(left, right),
{
    assert forall|i: int| 0 <= i < left.logical_cpus@.len() implies (
    #[trigger] left.logical_cpus@[i]).id.0 == right.logical_cpus@[i].id.0 && one_reading(
        left.logical_cpus@[i].utilization_percent,
        right.logical_cpus@[i].utilization_percent,
    ) by {
        assert(left.logical_cpus@[i].same(right.logical_cpus@[i]));
    }
    assert forall|i: int| 0 <= i < left.disks@.len() implies (#[trigger] left.disks@[i]).name@
        == right.disks@[i].name@ && one_reading(
        left.disks@[i].read_bytes_per_sec,
        right.disks@[i].read_bytes_per_sec,
    ) && one_reading(left.disks@[i].write_bytes_per_sec, right.disks@[i].write_bytes_per_sec) by {
        assert(left.disks@[i].same(right.disks@[i]));
    }
}

/// The inventory that was discovered is what is shown afterwards, in every field of every
/// device, and a change in any of them is drawn while the Overview is shown.
pub proof fn lemma_inventory_is_held(app: AppState, hardware: HardwareInventory)
    ensures
        ({
            let (next, drawn) = app.after(Action::HardwareDiscovered(hardware));
            &&& next.hardware is Some
            &&& one_inventory(next.hardware->0, hardware)
            &&& app.active_tab == Tab::Overview && (app.hardware is None || !one_inventory(
                app.hardware->0,
                hardware,
            )) ==> drawn
        }),
{
    if app.hardware is Some && app.hardware->0.same(hardware) {
        let held = app.hardware->0;
        assert forall|i: int| 0 <= i < held.cpus@.len() implies one_cpu_package(
            #[trigger] held.cpus@[i],
            hardware.cpus@[i],
        ) by {
            assert(held.cpus@[i].same(hardware.cpus@[i]));
        }
        assert forall|i: int| 0 <= i < held.memory_modules@.len() implies one_module(
            #[trigger] held.memory_modules@[i],
            hardware.memory_modules@[i],
        ) by {
            assert(held.memory_modules@[i].same(hardware.memory_modules@[i]));
        }
        assert forall|i: int| 0 <= i < held.gpus@.len() implies one_gpu(
            #[trigger] held.gpus@[i],
            hardware.gpus@[i],
        ) by {
            assert(held.gpus@[i].same(hardware.gpus@[i]));
        }
        assert forall|i: int| 0 <= i < held.storage_devices@.len() implies one_storage_device(
            #[trigger] held.storage_devices@[i],
            hardware.storage_devices@[i],
        ) by {
            assert(held.storage_devices@[i].same(hardware.storage_devices@[i]));
        }
        assert forall|i: int| 0 <= i < held.network_devices@.len() implies one_network_device(
            #[trigger] held.network_devices@[i],
            hardware.network_devices@[i],
        ) by {
            assert(held.network_devices@[i].same(hardware.network_devices@[i]));
        }
    }
}

/// Entries of the journal are added behind those that are kept. Of all of them the last two
/// thousand stay, and while the journal is shown they are drawn.
pub proof fn lemma_entries_are_added(app: AppState, batch: JournalBatch)
    requires
        app.logs.items.len() <= 2_000,
        batch.entries@.len() > 0,
    ensures
        ({
            let (next, drawn) = app.after(Action::LogsUpdated(batch));
            let all = app.logs.items + batch.entries@;
            &&& next.logs.items.len() == if all.len() <= 2_000 {
                all.len() as int
            } else {
                2_000
            }
            &&& forall|i: int|
                0 <= i < next.logs.items.len() ==> #[trigger] next.logs.items[i] == all[all.len()
                    - next.logs.items.len() + i]
            &&& drawn == (app.active_tab == Tab::Logs)
        }),
{
    reveal(ListState::appended);
}

} // verus!
