//! Listing services with `systemctl`.
use vstd::prelude::*;

use crate::linux::control::CollectorWake;
use crate::linux::service::{ServiceInfo, ServiceRefreshGeneration, ServiceSnapshot};
use crate::order;
use crate::order::{arrange, chars_leq, Order};
use crate::text;
use crate::text::{characters, decode_lossy, same_text, split_lines, split_once, trim};
use crate::time::Nanos;

verus! {

broadcast use vstd::string::group_string_axioms;

/// How long the collector waits before it looks again whether `systemctl` is done.
pub const COMMAND_POLL_INTERVAL: Nanos = 25_000_000;

/// What a record says of a service.
pub struct ServiceFacts {
    pub unit: Seq<char>,
    pub load_state: Seq<char>,
    pub active_state: Seq<char>,
    pub sub_state: Seq<char>,
    pub description: Seq<char>,
}

impl View for ServiceInfo {
    type V = ServiceFacts;

    open spec fn view(&self) -> ServiceFacts {
        ServiceFacts {
            unit: self.unit@,
            load_state: self.load_state@,
            active_state: self.active_state@,
            sub_state: self.sub_state@,
            description: self.description@,
        }
    }
}

/// A record that says nothing yet.
pub open spec fn blank_record() -> ServiceFacts {
    ServiceFacts {
        unit: Seq::empty(),
        load_state: Seq::empty(),
        active_state: Seq::empty(),
        sub_state: Seq::empty(),
        description: Seq::empty(),
    }
}

impl Default for ServiceInfo {
    fn default() -> (service: ServiceInfo)
        ensures
            service@ == blank_record(),
    {
        let service = ServiceInfo {
            unit: String::new(),
            load_state: String::new(),
            active_state: String::new(),
            sub_state: String::new(),
            description: String::new(),
        };
        assert(service.unit@ =~= Seq::empty());
        service
    }
}

impl ServiceFacts {
    /// The record with one more property. A value may hold more equals signs.
    pub open spec fn with_line(self, line: Seq<char>) -> ServiceFacts {
        match text::halves(line, '=') {
            Some((property, value)) => if property == "Id"@ {
                ServiceFacts { unit: value, ..self }
            } else if property == "LoadState"@ {
                ServiceFacts { load_state: value, ..self }
            } else if property == "ActiveState"@ {
                ServiceFacts { active_state: value, ..self }
            } else if property == "SubState"@ {
                ServiceFacts { sub_state: value, ..self }
            } else if property == "Description"@ {
                ServiceFacts { description: value, ..self }
            } else {
                self
            },
            None => self,
        }
    }
}

/// The records read so far, and the one being read.
pub struct ShowState {
    pub services: Seq<ServiceFacts>,
    pub current: ServiceFacts,
}

impl ShowState {
    /// The record being read is done. One without a unit stands for no service.
    pub open spec fn closed(self) -> ShowState {
        ShowState {
            services: if self.current.unit.len() > 0 {
                self.services.push(self.current)
            } else {
                self.services
            },
            current: blank_record(),
        }
    }

    /// What is known after one more line. An empty one ends a record.
    pub open spec fn with_line(self, line: Seq<char>) -> ShowState {
        if line.len() == 0 {
            self.closed()
        } else {
            ShowState { current: self.current.with_line(line), ..self }
        }
    }
}

/// What is known after the first `count` lines.
pub open spec fn shown_after(lines: Seq<Seq<char>>, count: nat) -> ShowState
    decreases count,
{
    if count == 0 {
        ShowState { services: Seq::empty(), current: blank_record() }
    } else {
        shown_after(lines, (count - 1) as nat).with_line(lines[count - 1])
    }
}

/// All services that a listing describes.
pub open spec fn shown_services(contents: Seq<char>) -> Seq<ServiceFacts> {
    shown_after(text::lines(contents), text::lines(contents).len()).closed().services
}

pub open spec fn service_views(services: Seq<ServiceInfo>) -> Seq<ServiceFacts> {
    Seq::new(services.len(), |i: int| services[i]@)
}

fn read_property(service: &mut ServiceInfo, line: &str)
    ensures
        final(service)@ == old(service)@.with_line(line@),
{
    match split_once(line, '=') {
        Some((property, value)) => {
            let property = property.as_str();
            if same_text(property, "Id") {
                service.unit = value;
            } else if same_text(property, "LoadState") {
                service.load_state = value;
            } else if same_text(property, "ActiveState") {
                service.active_state = value;
            } else if same_text(property, "SubState") {
                service.sub_state = value;
            } else if same_text(property, "Description") {
                service.description = value;
            }
        },
        None => {},
    }
}

/// Adds a record that is done to the others, where it has a unit.
fn close_record(services: &mut Vec<ServiceInfo>, record: ServiceInfo)
    ensures
        service_views(final(services)@) == (ShowState {
            services: service_views(old(services)@),
            current: record@,
        }).closed().services,
{
    let ghost before = services@;
    if !record.unit.as_str().is_empty() {
        services.push(record);
        assert(service_views(services@) =~= service_views(before).push(record@));
    }
}

/// All services that a listing describes.
pub fn parse_systemctl_show(contents: &str) -> (services: Vec<ServiceInfo>)
    ensures
        service_views(services@) == shown_services(contents@),
{
    let lines = split_lines(contents);
    let ghost all = text::views(lines@);
    let mut services: Vec<ServiceInfo> = Vec::new();
    let mut current = ServiceInfo::default();
    let mut i: usize = 0;
    assert(service_views(services@) =~= Seq::empty());
    while i < lines.len()
        invariant
            i <= lines@.len(),
            all == text::views(lines@),
            shown_after(all, i as nat) == (ShowState {
                services: service_views(services@),
                current: current@,
            }),
        decreases lines@.len() - i,
    {
        assert(all[i as int] == lines@[i as int]@);
        if lines[i].as_str().is_empty() {
            close_record(&mut services, current);
            current = ServiceInfo::default();
        } else {
            read_property(&mut current, lines[i].as_str());
        }
        i += 1;
    }
    close_record(&mut services, current);
    services
}

/// The first service may stand before the second: its unit does.
pub open spec fn unit_order() -> spec_fn(ServiceInfo, ServiceInfo) -> bool {
    |left: ServiceInfo, right: ServiceInfo| order::text_leq(left.unit@, right.unit@)
}

/// The order in which services are listed.
pub struct ByUnit;

impl Order<ServiceInfo> for ByUnit {
    open spec fn fits(&self, item: ServiceInfo) -> bool {
        true
    }

    open spec fn leq(&self) -> spec_fn(ServiceInfo, ServiceInfo) -> bool {
        unit_order()
    }

    proof fn lawful(&self) {
        let leq = unit_order();
        assert forall|left: ServiceInfo, right: ServiceInfo| #[trigger]
            leq(left, right) || leq(right, left) by {
            order::lemma_text_order(left.unit@, left.unit@, right.unit@);
        }
        assert forall|left: ServiceInfo, middle: ServiceInfo, right: ServiceInfo| #[trigger]
            leq(left, middle) && #[trigger] leq(middle, right) implies leq(left, right) by {
            order::lemma_text_order(left.unit@, middle.unit@, right.unit@);
        }
    }

    fn may_precede(&self, left: &ServiceInfo, right: &ServiceInfo) -> (result: bool) {
        chars_leq(&characters(left.unit.as_str()), &characters(right.unit.as_str()))
    }
}

/// Services arranged by unit are sorted by it.
pub proof fn lemma_by_unit_sorts(services: Seq<ServiceInfo>)
    ensures
        order::sorted(unit_order(), order::arranged(unit_order(), services)),
{
    ByUnit.lawful();
    order::lemma_arranged_sorts(unit_order(), services);
}

/// Of neighbours with the same unit, among the first `count`, only the first.
pub open spec fn without_repeats(services: Seq<ServiceInfo>, count: nat) -> Seq<ServiceInfo>
    decreases count,
{
    if count == 0 {
        Seq::empty()
    } else {
        let before = without_repeats(services, (count - 1) as nat);
        if before.len() > 0 && before.last().unit@ == services[count - 1].unit@ {
            before
        } else {
            before.push(services[count - 1])
        }
    }
}

fn drop_repeats(services: Vec<ServiceInfo>) -> (kept: Vec<ServiceInfo>)
    ensures
        kept@ == without_repeats(services@, services@.len()),
{
    let ghost all = services@;
    let mut kept: Vec<ServiceInfo> = Vec::new();
    for service in it: services
        invariant
            it.seq() == all,
            kept@ == without_repeats(all, it.index() as nat),
    {
        let repeated: bool = kept.len() > 0 && same_text(
            kept[kept.len() - 1].unit.as_str(),
            service.unit.as_str(),
        );
        if !repeated {
            kept.push(service);
        }
    }
    kept
}

/// The services are those of a listing, by unit, each once.
pub open spec fn listed_services(services: Seq<ServiceInfo>, contents: Seq<char>) -> bool {
    exists|found: Seq<ServiceInfo>|
        {
            let sorted = #[trigger] order::arranged(unit_order(), found);
            &&& service_views(found) == shown_services(contents)
            &&& services == without_repeats(sorted, sorted.len())
        }
}

/// How `systemctl` ended.
#[derive(Debug, Clone, PartialEq, Eq)]
pub enum CommandOutcome {
    /// It ran to its end.
    Finished { success: bool, stdout: Vec<u8>, stderr: Vec<u8> },
    /// It could not be run.
    Spawn(String),
    TimedOut,
    /// The collector was stopped meanwhile.
    Stopped,
}

impl ServiceSnapshot {
    /// A snapshot that only tells what went wrong.
    pub fn error(message: String) -> (snapshot: ServiceSnapshot)
        ensures
            snapshot.services@.len() == 0,
            snapshot.error == Some(message),
            snapshot.completed_refresh_generation == 0,
    {
        ServiceSnapshot {
            services: Vec::new(),
            error: Some(message),
            completed_refresh_generation: 0,
        }
    }
}

/// What a failed listing says of itself: the first line of what it complained, or that it
/// failed.
pub open spec fn complaint(stderr: Seq<char>) -> Seq<char> {
    if text::lines(stderr).len() > 0 {
        text::trimmed(text::lines(stderr)[0])
    } else {
        text::trimmed("systemctl failed"@)
    }
}

/// What went wrong, where anything did.
pub open spec fn outcome_error(outcome: CommandOutcome) -> Option<Seq<char>> {
    match outcome {
        CommandOutcome::Finished { success, stdout, stderr } => if success {
            None
        } else {
            Some(complaint(text::lossy(stderr@)))
        },
        CommandOutcome::Spawn(error) => Some("cannot run systemctl: "@ + error@),
        CommandOutcome::TimedOut => Some("systemctl timed out"@),
        CommandOutcome::Stopped => Some("systemctl collection stopped"@),
    }
}

/// What a failed listing says of itself.
pub fn find_complaint(stderr: &str) -> (message: String)
    ensures
        message@ == complaint(stderr@),
{
    let lines = split_lines(stderr);
    if lines.len() > 0 {
        assert(text::views(lines@)[0] == lines@[0]@);
        trim(lines[0].as_str())
    } else {
        trim("systemctl failed")
    }
}

/// The services in a text that `systemctl` wrote.
pub fn services_from_text(contents: &str) -> (services: Vec<ServiceInfo>)
    ensures
        listed_services(services@, contents@),
{
    let found = parse_systemctl_show(contents);
    let ghost all = found@;
    let sorted = arrange(&ByUnit, found);
    assert(sorted@ == order::arranged(unit_order(), all));
    drop_repeats(sorted)
}

/// The snapshot of all services, by how `systemctl` ended.
pub fn collect_services(outcome: CommandOutcome) -> (snapshot: ServiceSnapshot)
    ensures
        text::optional_view(snapshot.error) == outcome_error(outcome),
        snapshot.error is Some ==> snapshot.services@.len() == 0,
        snapshot.error is None ==> (outcome matches CommandOutcome::Finished { stdout, .. }
            && listed_services(snapshot.services@, text::lossy(stdout@))),
        snapshot.completed_refresh_generation == 0,
{
    match outcome {
        CommandOutcome::Finished { success, stdout, stderr } => {
            if !success {
                return ServiceSnapshot::error(
                    find_complaint(decode_lossy(stderr.as_slice()).as_str()),
                );
            }
            ServiceSnapshot {
                services: services_from_text(decode_lossy(stdout.as_slice()).as_str()),
                error: None,
                completed_refresh_generation: 0,
            }
        },
        CommandOutcome::Spawn(error) => {
            let mut message = String::from_str("cannot run systemctl: ");
            message.append(error.as_str());
            ServiceSnapshot::error(message)
        },
        CommandOutcome::TimedOut => ServiceSnapshot::error(String::from_str("systemctl timed out")),
        CommandOutcome::Stopped => ServiceSnapshot::error(
            String::from_str("systemctl collection stopped"),
        ),
    }
}

/// Services are listed by unit, and no unit is listed twice.
pub proof fn lemma_units_are_distinct(services: Seq<ServiceInfo>, count: nat)
    requires
        order::sorted(unit_order(), services),
        count <= services.len(),
    ensures
        ({
            let kept = without_repeats(services, count);
            forall|i: int, j: int|
                0 <= i < j < kept.len() ==> (#[trigger] kept[i]).unit@ != (
                #[trigger] kept[j]).unit@ && order::text_leq(kept[i].unit@, kept[j].unit@)
        }),
        ({
            let kept = without_repeats(services, count);
            count > 0 ==> kept.len() > 0 && kept.last().unit@ == services[count - 1].unit@
        }),
    decreases count,
{
    if count > 0 {
        lemma_units_are_distinct(services, (count - 1) as nat);
        let before = without_repeats(services, (count - 1) as nat);
        let kept = without_repeats(services, count);
        let next = services[count - 1];
        if before.len() > 0 && before.last().unit@ != next.unit@ {
            assert(unit_order()(services[count - 2], services[count - 1]));
            let last = before.last();
            assert(order::text_leq(last.unit@, next.unit@));
            assert forall|i: int, j: int| 0 <= i < j < kept.len() implies (
            #[trigger] kept[i]).unit@ != (#[trigger] kept[j]).unit@ && order::text_leq(
                kept[i].unit@,
                kept[j].unit@,
            ) by {
                if j == before.len() {
                    assert(kept[j] == next);
                    assert(kept[i] == before[i]);
                    let middle = before[before.len() - 1];
                    if i < before.len() - 1 {
                        assert(before[i].unit@ != middle.unit@);
                        assert(order::text_leq(before[i].unit@, middle.unit@));
                        order::lemma_text_order(before[i].unit@, middle.unit@, next.unit@);
                        order::lemma_text_order(next.unit@, next.unit@, middle.unit@);
                        order::lemma_text_order(middle.unit@, middle.unit@, next.unit@);
                    }
                } else {
                    assert(kept[i] == before[i] && kept[j] == before[j]);
                }
            }
        }
    }
}

/// Which refreshes have been completed.
#[derive(Debug, Clone, PartialEq, Eq, Structural)]
pub struct ServiceRefreshProgress {
    pub completed_generation: ServiceRefreshGeneration,
}

impl Default for ServiceRefreshProgress {
    fn default() -> (progress: ServiceRefreshProgress)
        ensures
            progress.completed_generation == 0,
    {
        ServiceRefreshProgress { completed_generation: 0 }
    }
}

impl ServiceRefreshProgress {
    /// The latest refresh that is completed once a collection for `refresh` is.
    pub open spec fn completed(self, refresh: Option<ServiceRefreshGeneration>) -> ServiceRefreshGeneration {
        match refresh {
            Some(generation) => if generation > self.completed_generation {
                generation
            } else {
                self.completed_generation
            },
            None => self.completed_generation,
        }
    }

    /// Marks a snapshot with the latest refresh that it completes. A periodic collection
    /// completes none.
    pub fn finish_collection(
        &mut self,
        snapshot: ServiceSnapshot,
        refresh_generation: Option<ServiceRefreshGeneration>,
    ) -> (marked: ServiceSnapshot)
        ensures
            final(self).completed_generation == old(self).completed(refresh_generation),
            marked == (ServiceSnapshot {
                completed_refresh_generation: final(self).completed_generation,
                ..snapshot
            }),
    {
        if let Some(generation) = refresh_generation {
            if generation > self.completed_generation {
                self.completed_generation = generation;
            }
        }
        let mut marked = snapshot;
        marked.completed_refresh_generation = self.completed_generation;
        marked
    }
}

/// What was completed stays completed: a snapshot that replaces another before it was taken
/// tells no less.
pub proof fn lemma_completion_survives_replacement(
    progress: ServiceRefreshProgress,
    refresh: Option<ServiceRefreshGeneration>,
)
    ensures
        progress.completed(refresh) >= progress.completed_generation,
        refresh matches Some(generation) ==> progress.completed(refresh) >= generation,
{
}

/// What the collector of services does after a wait.
#[derive(Debug, Clone, Copy, PartialEq, Eq, Structural)]
pub enum CollectionStep {
    /// It lists the services, for the refresh with this number or for none.
    Collect(Option<ServiceRefreshGeneration>),
    /// It ends.
    End,
}

impl CollectionStep {
    pub fn after_waiting(wake: CollectorWake) -> (step: CollectionStep)
        ensures
            step == (match wake {
                CollectorWake::Refresh(generation) => CollectionStep::Collect(Some(generation)),
                CollectorWake::Timeout => CollectionStep::Collect(None),
                CollectorWake::Stop => CollectionStep::End,
            }),
    {
        match wake {
            CollectorWake::Refresh(generation) => CollectionStep::Collect(Some(generation)),
            CollectorWake::Timeout => CollectionStep::Collect(None),
            CollectorWake::Stop => CollectionStep::End,
        }
    }
}

/// How a command that was started is getting on.
#[derive(Debug, Clone, PartialEq, Eq)]
pub enum ChildState {
    Exited,
    Running,
    /// It cannot be told.
    Lost(String),
}

/// What is done about a command that was started.
#[derive(Debug, Clone, PartialEq, Eq)]
pub enum PollStep {
    /// Its output is taken.
    Finish,
    /// It is killed, and this is how it ended.
    Kill(CommandOutcome),
    /// It is looked at again after so long, unless the collector is stopped meanwhile.
    Wait(Nanos),
}

/// What a command calls for at `now` that has to end by `deadline`.
pub open spec fn command_step(state: ChildState, now: Nanos, deadline: Nanos) -> PollStep {
    match state {
        ChildState::Exited => PollStep::Finish,
        ChildState::Lost(error) => PollStep::Kill(CommandOutcome::Spawn(error)),
        ChildState::Running => if deadline <= now {
            PollStep::Kill(CommandOutcome::TimedOut)
        } else if deadline - now < COMMAND_POLL_INTERVAL {
            PollStep::Wait((deadline - now) as u64)
        } else {
            PollStep::Wait(COMMAND_POLL_INTERVAL)
        },
    }
}

/// What is done about a command that has to end by `deadline`.
pub fn poll_command(state: ChildState, now: Nanos, deadline: Nanos) -> (step: PollStep)
    ensures
        step == command_step(state, now, deadline),
{
    match state {
        ChildState::Exited => PollStep::Finish,
        ChildState::Lost(error) => PollStep::Kill(CommandOutcome::Spawn(error)),
        ChildState::Running => if deadline <= now {
            PollStep::Kill(CommandOutcome::TimedOut)
        } else if deadline - now < COMMAND_POLL_INTERVAL {
            PollStep::Wait(deadline - now)
        } else {
            PollStep::Wait(COMMAND_POLL_INTERVAL)
        },
    }
}

} // verus!
