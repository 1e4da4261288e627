//! Sampling all processes, one listing after the other.
use std::collections::HashMap;

use vstd::prelude::*;

use crate::linux::process::{ProcessIdentity, ProcessInfo};
use crate::linux::stat;
use crate::linux::stat::{
    parse_process_stat, parse_system_cpu, process_state, ProcessFacts, RawProcess,
};
use crate::number::Number;
use crate::numerals;
use crate::numerals::parse_u32;
use crate::text;
use crate::text::{copy_optional_text, same_text};

verus! {

broadcast use {vstd::string::group_string_axioms, vstd::std_specs::hash::group_hash_axioms};

/// One number for the identity of a process.
pub open spec fn key_of(pid: u32, start_time: u64) -> u128 {
    (pid * 0x1_0000_0000_0000_0000 + start_time) as u128
}

fn identity_key(pid: u32, start_time: u64) -> (key: u128)
    ensures
        key == key_of(pid, start_time),
{
    pid as u128 * 0x1_0000_0000_0000_0000 + start_time as u128
}

/// Two processes have the same number only if both PID and start time are the same: a process
/// that reuses a PID is told apart from the one before.
pub proof fn lemma_keys_tell_processes_apart(left: ProcessIdentity, right: ProcessIdentity)
    requires
        key_of(left.pid, left.start_time) == key_of(right.pid, right.start_time),
    ensures
        left == right,
{
}

/// The command of a process with the name under which it was read.
#[derive(Debug, Clone, PartialEq, Eq)]
pub struct CachedCommand {
    pub name: String,
    pub command: Option<String>,
}

/// A command with the name under which it was read.
pub struct CommandFacts {
    pub name: Seq<char>,
    pub command: Option<Seq<char>>,
}

impl View for CachedCommand {
    type V = CommandFacts;

    open spec fn view(&self) -> CommandFacts {
        CommandFacts { name: self.name@, command: text::optional_view(self.command) }
    }
}

/// What is known of the commands kept.
pub open spec fn command_facts(commands: Map<u128, CachedCommand>) -> Map<u128, CommandFacts> {
    Map::new(|key: u128| commands.dom().contains(key), |key: u128| commands[key]@)
}

/// What two listings say of the processor time that a process took between them.
#[derive(Debug, Clone, Copy, PartialEq, Eq, Structural)]
pub struct CpuShare {
    /// Ticks that the process took.
    pub process: u64,
    /// Ticks that passed on all processors together.
    pub system: u64,
    pub cpu_count: usize,
}

/// The processor time of a process between two listings. There is none where no time passed,
/// or where the count of the process ran backwards.
pub open spec fn share(previous: u64, current: u64, system: u64, cpu_count: usize) -> Option<
    CpuShare,
> {
    if system == 0 || current < previous {
        None
    } else {
        Some(CpuShare { process: (current - previous) as u64, system, cpu_count })
    }
}

pub fn cpu_share(previous_ticks: u64, current_ticks: u64, system_delta: u64, cpu_count: usize) -> (result:
    Option<CpuShare>)
    ensures
        result == share(previous_ticks, current_ticks, system_delta, cpu_count),
{
    if system_delta == 0 {
        return None;
    }
    match current_ticks.checked_sub(previous_ticks) {
        Some(process) => Some(CpuShare { process, system: system_delta, cpu_count }),
        None => None,
    }
}

/// A process in a listing, with its share of the processor time since the listing before.
#[derive(Debug, Clone, PartialEq, Eq)]
pub struct ProcessSample {
    pub process: RawProcess,
    pub cpu: Option<CpuShare>,
}

/// What a listing of the processes gave.
#[derive(Debug, Clone, PartialEq, Eq)]
pub struct ProcessListing {
    pub samples: Vec<ProcessSample>,
    pub error: Option<String>,
}

impl ProcessSample {
    /// The process as it is shown, with its share as a percentage.
    pub fn into_info(self, cpu_percent: Option<Number>) -> (info: ProcessInfo)
        ensures
            info.pid == self.process.pid,
            info.name == self.process.name,
            info.cpu_percent == cpu_percent,
            info.memory_bytes == self.process.memory_bytes,
            info.command == self.process.command,
            info.state@ == stat::state_text(self.process.state),
            info.parent_pid == self.process.parent_pid,
            info.state_code == self.process.state,
            info.start_time == self.process.start_time,
    {
        ProcessInfo {
            pid: self.process.pid,
            name: self.process.name,
            cpu_percent,
            memory_bytes: self.process.memory_bytes,
            command: self.process.command,
            state: String::from_str(process_state(self.process.state)),
            parent_pid: self.process.parent_pid,
            state_code: self.process.state,
            start_time: self.process.start_time,
        }
    }
}

/// What was read of one entry of the listing.
pub struct Reading {
    pub stat: Option<String>,
    /// The command, which counts only where it was not known yet.
    pub command: Option<String>,
}

/// The process that an entry of the listing stands for: the name is a PID, and the status
/// that was read describes the process with that PID.
pub open spec fn observed(name: Seq<char>, stat: Option<String>, page_size: u64) -> Option<
    ProcessFacts,
> {
    match (numerals::unsigned(name, u32::MAX as int), stat) {
        (Some(pid), Some(stat)) => match stat::described(stat@, page_size) {
            Some(facts) => if facts.pid == pid {
                Some(facts)
            } else {
                None
            },
            None => None,
        },
        _ => None,
    }
}

impl ProcessFacts {
    pub open spec fn key(self) -> u128 {
        key_of(self.pid, self.start_time)
    }
}

/// A listing under way.
#[verifier::ext_equal]
pub struct Collection {
    /// Commands kept from the listing before and not claimed yet.
    pub known: Map<u128, CommandFacts>,
    /// Commands of the processes listed so far.
    pub kept: Map<u128, CommandFacts>,
    pub processes: Seq<ProcessFacts>,
}

impl Collection {
    /// The command of a process is known: it is kept, and was read under the same name.
    pub open spec fn knows(self, facts: ProcessFacts) -> bool {
        self.known.dom().contains(facts.key()) && self.known[facts.key()].name == facts.name
    }

    /// The listing with one more process, whose command is `fresh` where it is not known.
    pub open spec fn with_process(self, facts: ProcessFacts, fresh: Option<Seq<char>>) -> Collection {
        let entry = if self.knows(facts) {
            self.known[facts.key()]
        } else {
            CommandFacts { name: facts.name, command: fresh }
        };
        Collection {
            known: self.known.remove(facts.key()),
            kept: self.kept.insert(facts.key(), entry),
            processes: self.processes.push(ProcessFacts { command: entry.command, ..facts }),
        }
    }

    /// The listing with one more entry.
    pub open spec fn with_entry(self, name: Seq<char>, reading: Reading, page_size: u64) -> Collection {
        match observed(name, reading.stat, page_size) {
            Some(facts) => self.with_process(facts, text::optional_view(reading.command)),
            None => self,
        }
    }
}

/// The listing of the first `count` entries, with the commands that were known before.
pub open spec fn collected(
    known: Map<u128, CommandFacts>,
    names: Seq<Seq<char>>,
    readings: Seq<Reading>,
    page_size: u64,
    count: nat,
) -> Collection
    decreases count,
{
    if count == 0 {
        Collection { known, kept: Map::empty(), processes: Seq::empty() }
    } else {
        collected(known, names, readings, page_size, (count - 1) as nat).with_entry(
            names[count - 1],
            readings[count - 1],
            page_size,
        )
    }
}

/// Only the readings that a listing takes in decide it.
proof fn lemma_collected_prefix(
    known: Map<u128, CommandFacts>,
    names: Seq<Seq<char>>,
    left: Seq<Reading>,
    right: Seq<Reading>,
    page_size: u64,
    count: nat,
)
    requires
        forall|i: int| 0 <= i < count ==> left[i] == right[i],
    ensures
        collected(known, names, left, page_size, count) == collected(
            known,
            names,
            right,
            page_size,
            count,
        ),
    decreases count,
{
    if count > 0 {
        lemma_collected_prefix(known, names, left, right, page_size, (count - 1) as nat);
    }
}

/// The ticks of each process listed.
pub open spec fn ticks_of(processes: Seq<ProcessFacts>) -> Map<u128, u64>
    decreases processes.len(),
{
    if processes.len() == 0 {
        Map::empty()
    } else {
        ticks_of(processes.drop_last()).insert(processes.last().key(), processes.last().cpu_ticks)
    }
}

/// What is remembered from one listing to the next.
#[verifier::ext_equal]
pub struct SamplerState {
    pub system_ticks: Option<u64>,
    pub process_ticks: Map<u128, u64>,
    pub commands: Map<u128, CommandFacts>,
}

impl SamplerState {
    /// The share of the processor time that a process took since the listing before: there is
    /// none without a count of all ticks then and now, for a process that was not listed then,
    /// or where a count ran backwards.
    pub open spec fn share_of(self, system: Option<(int, int)>, facts: ProcessFacts) -> Option<
        CpuShare,
    > {
        match (system, self.system_ticks) {
            (Some((ticks, cpu_count)), Some(previous)) => if ticks >= previous
                && self.process_ticks.dom().contains(facts.key()) {
                share(
                    self.process_ticks[facts.key()],
                    facts.cpu_ticks,
                    (ticks - previous) as u64,
                    cpu_count as usize,
                )
            } else {
                None
            },
            _ => None,
        }
    }

    /// What is remembered of a listing. Where the ticks of the system are not known, those of
    /// the processes stay with the last listing that had them.
    pub open spec fn after(self, system: Option<(int, int)>, listing: Collection) -> SamplerState {
        SamplerState {
            commands: listing.kept,
            system_ticks: match system {
                Some((ticks, _)) => Some(ticks as u64),
                None => self.system_ticks,
            },
            process_ticks: match system {
                Some(_) => ticks_of(listing.processes),
                None => self.process_ticks,
            },
        }
    }
}

/// Lists processes again and again, and remembers what the next listing needs.
pub struct ProcessSampler {
    previous_system_ticks: Option<u64>,
    previous_process_ticks: HashMap<u128, u64>,
    /// Commands of live processes. Only those of the latest listing are kept.
    commands: HashMap<u128, CachedCommand>,
}

impl View for ProcessSampler {
    type V = SamplerState;

    closed spec fn view(&self) -> SamplerState {
        SamplerState {
            system_ticks: self.previous_system_ticks,
            process_ticks: self.previous_process_ticks@,
            commands: command_facts(self.commands@),
        }
    }
}

impl Default for ProcessSampler {
    fn default() -> (sampler: ProcessSampler)
        ensures
            sampler@ == (SamplerState {
                system_ticks: None,
                process_ticks: Map::empty(),
                commands: Map::empty(),
            }),
    {
        ProcessSampler {
            previous_system_ticks: None,
            previous_process_ticks: HashMap::new(),
            commands: HashMap::new(),
        }
    }
}

/// The process that an entry of the listing stands for.
fn observe(name: &str, stat: Option<String>, page_size: u64) -> (process: Option<RawProcess>)
    ensures
        match process {
            Some(process) => observed(name@, stat, page_size) == Some(process@),
            None => observed(name@, stat, page_size) is None,
        },
{
    let pid: u32 = match parse_u32(name) {
        Some(pid) => pid,
        None => {
            return None;
        },
    };
    match stat {
        Some(stat) => match parse_process_stat(stat.as_str(), page_size) {
            Some(process) => if process.pid == pid {
                Some(process)
            } else {
                None
            },
            None => None,
        },
        None => None,
    }
}

/// Takes the command of a process out of those kept, where it was read under the same name.
fn claim(commands: &mut HashMap<u128, CachedCommand>, key: u128, name: &str) -> (command: Option<
    CachedCommand,
>)
    ensures
        command_facts(final(commands)@) == command_facts(old(commands)@).remove(key),
        match command {
            Some(command) => old(commands)@.dom().contains(key) && command == old(commands)@[key]
                && command.name@ == name@,
            None => !(old(commands)@.dom().contains(key) && old(commands)@[key].name@ == name@),
        },
{
    let removed = commands.remove(&key);
    assert(command_facts(commands@) =~= command_facts(old(commands)@).remove(key));
    match removed {
        Some(cached) => if same_text(cached.name.as_str(), name) {
            Some(cached)
        } else {
            None
        },
        None => None,
    }
}

/// Keeps the command of a process.
fn keep(commands: &mut HashMap<u128, CachedCommand>, key: u128, command: CachedCommand)
    ensures
        command_facts(final(commands)@) == command_facts(old(commands)@).insert(key, command@),
{
    commands.insert(key, command);
    assert(command_facts(commands@) =~= command_facts(old(commands)@).insert(key, command@));
}

/// The status of every entry whose name is a PID can be read by `read_stat`. It is not read of
/// any other entry.
pub open spec fn stats_readable<S>(names: Seq<String>, read_stat: S) -> bool where
    S: Fn(&str) -> Option<String>,
 {
    forall|i: int, name: &str|
        #![trigger names[i], read_stat.requires((name,))]
        0 <= i < names.len() && name@ == names[i]@ && numerals::unsigned(
            name@,
            u32::MAX as int,
        ) is Some ==> read_stat.requires((name,))
}

/// A listing has come to the last entry that was read, and the command of its process is not
/// known.
pub open spec fn command_wanted<S, C>(
    names: Seq<String>,
    readings: Seq<Reading>,
    known: Map<u128, CommandFacts>,
    page_size: u64,
    read_stat: S,
    read_command: C,
) -> bool where S: Fn(&str) -> Option<String>, C: Fn(&str) -> Option<String> {
    let i = readings.len() - 1;
    let facts = observed(names[i]@, readings[i].stat, page_size);
    &&& 0 <= i < names.len()
    &&& genuine(names, readings.drop_last(), known, page_size, read_stat, read_command)
    &&& exists|name: &str|
        name@ == names[i]@ && #[trigger] read_stat.ensures((name,), readings[i].stat)
    &&& facts is Some
    &&& !collected(known, text::views(names), readings, page_size, i as nat).knows(facts->0)
}

/// Every command that a listing has to read can be read by `read_command`. A command that is
/// known is not read.
pub open spec fn commands_readable<S, C>(
    names: Seq<String>,
    known: Map<u128, CommandFacts>,
    page_size: u64,
    read_stat: S,
    read_command: C,
) -> bool where S: Fn(&str) -> Option<String>, C: Fn(&str) -> Option<String> {
    forall|readings: Seq<Reading>, name: &str|
        (#[trigger] command_wanted(names, readings, known, page_size, read_stat, read_command))
            && name@ == names[readings.len() - 1]@ ==> #[trigger] read_command.requires((name,))
}

/// The processes in a vector.
pub open spec fn all_facts(processes: Seq<RawProcess>) -> Seq<ProcessFacts> {
    Seq::new(processes.len(), |i: int| processes[i]@)
}

impl ProcessSampler {
    /// Lists the processes that the entries of a directory stand for. `read_stat` reads the
    /// status in an entry. `read_command` reads the command of a process that is new, or that
    /// has changed its name since its command was read.
    fn list<S, C>(
        &mut self,
        names: &Vec<String>,
        page_size: u64,
        read_stat: S,
        read_command: C,
    ) -> (processes: Vec<RawProcess>) where
        S: Fn(&str) -> Option<String>,
        C: Fn(&str) -> Option<String>,

        requires
            stats_readable(names@, read_stat),
            commands_readable(names@, old(self)@.commands, page_size, read_stat, read_command),
        ensures
            exists|readings: Seq<Reading>|
                {
                    let listing = #[trigger] collected(
                        old(self)@.commands,
                        text::views(names@),
                        readings,
                        page_size,
                        names@.len(),
                    );
                    &&& readings.len() == names@.len()
                    &&& genuine(names@, readings, old(self)@.commands, page_size, read_stat, read_command)
                    &&& all_facts(processes@) == listing.processes
                    &&& final(self)@ == (SamplerState { commands: listing.kept, ..old(self)@ })
                },
    {
        let ghost known = self@.commands;
        let ghost mut readings: Seq<Reading> = Seq::empty();
        let mut processes: Vec<RawProcess> = Vec::new();
        let mut kept: HashMap<u128, CachedCommand> = HashMap::new();
        let mut i: usize = 0;
        assert(command_facts(kept@) =~= Map::empty());
        assert(all_facts(processes@) =~= Seq::empty());
        while i < names.len()
            invariant
                i <= names@.len(),
                i == readings.len(),
                known == old(self)@.commands,
                stats_readable(names@, read_stat),
                commands_readable(names@, known, page_size, read_stat, read_command),
                genuine(names@, readings, known, page_size, read_stat, read_command),
                self.previous_system_ticks == old(self).previous_system_ticks,
                self.previous_process_ticks@ == old(self).previous_process_ticks@,
                collected(known, text::views(names@), readings, page_size, i as nat) == (Collection {
                    known: command_facts(self.commands@),
                    kept: command_facts(kept@),
                    processes: all_facts(processes@),
                }),
            decreases names@.len() - i,
        {
            let name = names[i].as_str();
            let stat = if parse_u32(name).is_some() {
                read_stat(name)
            } else {
                None
            };
            let ghost given = stat;
            let ghost before = Collection {
                known: command_facts(self.commands@),
                kept: command_facts(kept@),
                processes: all_facts(processes@),
            };
            let ghost mut reading = Reading { stat: given, command: None };
            let ghost shown = processes@;
            match observe(name, stat, page_size) {
                Some(mut process) => {
                    let ghost facts = process@;
                    let key: u128 = identity_key(process.pid, process.start_time);
                    let entry = match claim(&mut self.commands, key, process.name.as_str()) {
                        Some(entry) => entry,
                        None => {
                            proof {
                                let longer = readings.push(reading);
                                assert(longer.drop_last() =~= readings);
                                assert(text::views(names@)[i as int] == name@);
                                lemma_collected_prefix(
                                    known,
                                    text::views(names@),
                                    longer,
                                    readings,
                                    page_size,
                                    i as nat,
                                );
                                assert(command_wanted(
                                    names@,
                                    longer,
                                    known,
                                    page_size,
                                    read_stat,
                                    read_command,
                                ));
                            }
                            let command = read_command(name);
                            proof {
                                reading = Reading { stat: given, command };
                            }
                            CachedCommand { name: process.name.clone(), command }
                        },
                    };
                    process.command = copy_optional_text(&entry.command);
                    keep(&mut kept, key, entry);
                    processes.push(process);
                    proof {
                        assert(all_facts(processes@) =~= all_facts(shown).push(process@));
                        assert(before.with_process(facts, text::optional_view(reading.command))
                            =~= (Collection {
                            known: command_facts(self.commands@),
                            kept: command_facts(kept@),
                            processes: all_facts(processes@),
                        }));
                    }
                },
                None => {},
            }
            proof {
                let longer = readings.push(reading);
                assert(text::views(names@)[i as int] == name@);
                lemma_collected_prefix(known, text::views(names@), longer, readings, page_size, i as nat);
                assert(collected(known, text::views(names@), longer, page_size, i as nat) == before);
                assert(genuine_at(names@, longer, known, page_size, read_stat, read_command, i as int));
                assert forall|j: int| #![trigger longer[j]] 0 <= j < longer.len() implies genuine_at(
                    names@,
                    longer,
                    known,
                    page_size,
                    read_stat,
                    read_command,
                    j,
                ) by {
                    if j < i {
                        assert(longer[j] == readings[j]);
                        lemma_collected_prefix(
                            known,
                            text::views(names@),
                            longer,
                            readings,
                            page_size,
                            j as nat,
                        );
                    }
                }
                readings = longer;
            }
            i += 1;
        }
        self.commands = kept;
        processes
    }

    /// The samples of a listing, and what is remembered of it. `system` are the ticks of the
    /// system and the number of processors.
    fn sample(&mut self, system: Option<(u64, usize)>, processes: Vec<RawProcess>) -> (samples: Vec<
        ProcessSample,
    >)
        ensures
            samples@.len() == processes@.len(),
            forall|i: int|
                0 <= i < samples@.len() ==> (#[trigger] samples@[i]).process == processes@[i]
                    && samples@[i].cpu == old(self)@.share_of(widened(system), processes@[i]@),
            final(self)@.commands == old(self)@.commands,
            final(self)@.system_ticks == (match system {
                Some((ticks, _)) => Some(ticks),
                None => old(self)@.system_ticks,
            }),
            final(self)@.process_ticks == (match system {
                Some(_) => ticks_of(all_facts(processes@)),
                None => old(self)@.process_ticks,
            }),
    {
        let delta: Option<(u64, usize)> = match (system, self.previous_system_ticks) {
            (Some((current, cpu_count)), Some(previous)) => match current.checked_sub(previous) {
                Some(delta) => Some((delta, cpu_count)),
                None => None,
            },
            _ => None,
        };
        let mut next_ticks: HashMap<u128, u64> = HashMap::new();
        let mut samples: Vec<ProcessSample> = Vec::new();
        let ghost facts = all_facts(processes@);
        let ghost given = processes@;
        assert(facts.take(0) =~= Seq::empty());
        for process in it: processes
            invariant
                it.seq() == given,
                facts == all_facts(given),
                self@ == old(self)@,
                *self == *old(self),
                delta == (match (system, self@.system_ticks) {
                    (Some((current, cpu_count)), Some(previous)) => if current >= previous {
                        Some(((current - previous) as u64, cpu_count))
                    } else {
                        None
                    },
                    _ => None,
                }),
                samples@.len() == it.index(),
                next_ticks@ == ticks_of(facts.take(it.index())),
                forall|j: int|
                    0 <= j < samples@.len() ==> (#[trigger] samples@[j]).process == given[j]
                        && samples@[j].cpu == self@.share_of(widened(system), given[j]@),
        {
            let key: u128 = identity_key(process.pid, process.start_time);
            let cpu = match delta {
                Some((system_delta, cpu_count)) => match self.previous_process_ticks.get(&key) {
                    Some(previous) => cpu_share(*previous, process.cpu_ticks, system_delta, cpu_count),
                    None => None,
                },
                None => None,
            };
            next_ticks.insert(key, process.cpu_ticks);
            proof {
                let longer = facts.take(it.index() + 1);
                assert(longer.drop_last() =~= facts.take(it.index()));
                assert(longer.last() == process@);
            }
            samples.push(ProcessSample { process, cpu });
        }
        assert(facts.take(facts.len() as int) =~= facts);
        if let Some((total, _)) = system {
            self.previous_system_ticks = Some(total);
            self.previous_process_ticks = next_ticks;
        }
        samples
    }
}

/// What the contents of the file that counts ticks say, where it could be read.
pub open spec fn ticks_read(stat: Option<String>) -> Option<(int, int)> {
    match stat {
        Some(contents) => stat::system_ticks(contents@),
        None => None,
    }
}

impl ProcessSampler {
    /// Samples every process, where the process directory could be read. Where it could not,
    /// nothing is listed but why, and what is remembered stays.
    pub fn collect<S, C>(
        &mut self,
        system_stat: Option<String>,
        names: Result<Vec<String>, String>,
        page_size: u64,
        read_stat: S,
        read_command: C,
    ) -> (listing: ProcessListing) where
        S: Fn(&str) -> Option<String>,
        C: Fn(&str) -> Option<String>,

        requires
            names matches Ok(names) ==> stats_readable(names@, read_stat),
            names matches Ok(names) ==> commands_readable(
                names@,
                old(self)@.commands,
                page_size,
                read_stat,
                read_command,
            ),
        ensures
            match names {
                Ok(names) => listing.error is None && listing_sampled(
                    listing.samples@,
                    old(self)@,
                    final(self)@,
                    system_stat,
                    names@,
                    page_size,
                    read_stat,
                    read_command,
                ),
                Err(error) => {
                    &&& listing.samples@.len() == 0
                    &&& listing.error == Some(error)
                    &&& final(self)@ == old(self)@
                },
            },
    {
        match names {
            Ok(names) => ProcessListing {
                samples: self.collect_at(
                    system_stat,
                    &names,
                    page_size,
                    read_stat,
                    read_command,
                ),
                error: None,
            },
            Err(error) => ProcessListing { samples: Vec::new(), error: Some(error) },
        }
    }

    /// Samples every process of a listing: the entries of the process directory by name, and
    /// what was read of the ticks of the system before that.
    pub fn collect_at<S, C>(
        &mut self,
        system_stat: Option<String>,
        names: &Vec<String>,
        page_size: u64,
        read_stat: S,
        read_command: C,
    ) -> (samples: Vec<ProcessSample>) where
        S: Fn(&str) -> Option<String>,
        C: Fn(&str) -> Option<String>,

        requires
            stats_readable(names@, read_stat),
            commands_readable(names@, old(self)@.commands, page_size, read_stat, read_command),
        ensures
            listing_sampled(
                samples@,
                old(self)@,
                final(self)@,
                system_stat,
                names@,
                page_size,
                read_stat,
                read_command,
            ),
    {
        let system: Option<(u64, usize)> = match system_stat {
            Some(contents) => parse_system_cpu(contents.as_str()),
            None => None,
        };
        let processes = self.list(names, page_size, read_stat, read_command);
        let ghost facts = all_facts(processes@);
        let samples = self.sample(system, processes);
        proof {
            assert(widened(system) == ticks_read(system_stat));
            assert(forall|i: int| 0 <= i < samples@.len() ==> facts[i] == (#[trigger] samples@[i]).process@);
            let readings = choose|readings: Seq<Reading>|
                {
                    let listing = #[trigger] collected(
                        old(self)@.commands,
                        text::views(names@),
                        readings,
                        page_size,
                        names@.len(),
                    );
                    &&& readings.len() == names@.len()
                    &&& genuine(names@, readings, old(self)@.commands, page_size, read_stat, read_command)
                    &&& facts == listing.processes
                    &&& self@.commands == listing.kept
                };
            let listing = collected(
                old(self)@.commands,
                text::views(names@),
                readings,
                page_size,
                names@.len(),
            );
            assert(facts == listing.processes);
            assert(sampled(samples@, old(self)@, ticks_read(system_stat), listing));
            assert(self@ =~= old(self)@.after(ticks_read(system_stat), listing));
        }
        samples
    }
}

/// The samples are those of a listing: every process in it, in its order, each with its share
/// of the processor time.
pub open spec fn sampled(
    samples: Seq<ProcessSample>,
    before: SamplerState,
    system: Option<(int, int)>,
    listing: Collection,
) -> bool {
    &&& samples.len() == listing.processes.len()
    &&& forall|i: int|
        0 <= i < samples.len() ==> (#[trigger] samples[i]).process@ == listing.processes[i]
            && samples[i].cpu == before.share_of(system, listing.processes[i])
}

/// The first listing shows no processor time: it invents none.
pub proof fn lemma_first_listing_has_no_shares(
    before: SamplerState,
    system: Option<(int, int)>,
    facts: ProcessFacts,
)
    requires
        before.system_ticks is None,
    ensures
        before.share_of(system, facts) is None,
{
}

/// A process that took over the PID of another is not charged with the time of the other: it
/// has no share until it was listed twice.
pub proof fn lemma_new_process_has_no_share(
    before: SamplerState,
    system: Option<(int, int)>,
    facts: ProcessFacts,
)
    requires
        !before.process_ticks.dom().contains(facts.key()),
    ensures
        before.share_of(system, facts) is None,
{
}

/// As long as the name of a process stays the same, a listing shows the command that is kept,
/// whatever could be read by then. That there was none is kept as well.
pub proof fn lemma_known_command_is_kept(
    listing: Collection,
    facts: ProcessFacts,
    fresh: Option<Seq<char>>,
)
    requires
        listing.knows(facts),
    ensures
        listing.with_process(facts, fresh) == listing.with_process(facts, None),
        listing.with_process(facts, fresh).processes.last().command
            == listing.known[facts.key()].command,
        listing.with_process(facts, fresh).kept[facts.key()] == listing.known[facts.key()],
{
}

/// What a listing keeps of a process is what it shows of it, the last time that it shows it.
proof fn lemma_shown_command_is_kept(
    known: Map<u128, CommandFacts>,
    names: Seq<Seq<char>>,
    readings: Seq<Reading>,
    page_size: u64,
    count: nat,
    i: int,
)
    requires
        ({
            let shown = collected(known, names, readings, page_size, count).processes;
            &&& 0 <= i < shown.len()
            &&& forall|k: int| i < k < shown.len() ==> (#[trigger] shown[k]).key() != shown[i].key()
        }),
    ensures
        ({
            let listing = collected(known, names, readings, page_size, count);
            let process = listing.processes[i];
            &&& listing.kept.dom().contains(process.key())
            &&& listing.kept[process.key()] == (CommandFacts {
                name: process.name,
                command: process.command,
            })
        }),
    decreases count,
{
    if count > 0 {
        let before = collected(known, names, readings, page_size, (count - 1) as nat);
        let shown = collected(known, names, readings, page_size, count).processes;
        match observed(names[count - 1], readings[count - 1].stat, page_size) {
            Some(facts) => {
                let last = shown.len() - 1;
                assert(forall|k: int| 0 <= k < last ==> #[trigger] before.processes[k] == shown[k]);
                if i < last {
                    assert(shown[last].key() != shown[i].key());
                    lemma_shown_command_is_kept(
                        known,
                        names,
                        readings,
                        page_size,
                        (count - 1) as nat,
                        i,
                    );
                }
            },
            None => {
                lemma_shown_command_is_kept(
                    known,
                    names,
                    readings,
                    page_size,
                    (count - 1) as nat,
                    i,
                );
            },
        }
    }
}

/// Until a listing comes to a process, the command that is known of it waits.
proof fn lemma_unclaimed_command_waits(
    known: Map<u128, CommandFacts>,
    names: Seq<Seq<char>>,
    readings: Seq<Reading>,
    page_size: u64,
    count: nat,
    key: u128,
)
    requires
        ({
            let shown = collected(known, names, readings, page_size, count).processes;
            forall|k: int| 0 <= k < shown.len() ==> (#[trigger] shown[k]).key() != key
        }),
        known.dom().contains(key),
    ensures
        ({
            let waiting = collected(known, names, readings, page_size, count).known;
            waiting.dom().contains(key) && waiting[key] == known[key]
        }),
    decreases count,
{
    if count > 0 {
        let before = collected(known, names, readings, page_size, (count - 1) as nat);
        let shown = collected(known, names, readings, page_size, count).processes;
        match observed(names[count - 1], readings[count - 1].stat, page_size) {
            Some(facts) => {
                let last = shown.len() - 1;
                assert(forall|k: int| 0 <= k < last ==> #[trigger] before.processes[k] == shown[k]);
                assert(shown[last].key() == facts.key());
            },
            None => {},
        }
        lemma_unclaimed_command_waits(
            known,
            names,
            readings,
            page_size,
            (count - 1) as nat,
            key,
        );
    }
}

/// The first time that a listing shows a process, it shows the command that was known of it.
proof fn lemma_known_command_is_shown(
    known: Map<u128, CommandFacts>,
    names: Seq<Seq<char>>,
    readings: Seq<Reading>,
    page_size: u64,
    count: nat,
    j: int,
)
    requires
        ({
            let shown = collected(known, names, readings, page_size, count).processes;
            &&& 0 <= j < shown.len()
            &&& forall|k: int| 0 <= k < j ==> (#[trigger] shown[k]).key() != shown[j].key()
            &&& known.dom().contains(shown[j].key())
            &&& known[shown[j].key()].name == shown[j].name
        }),
    ensures
        ({
            let process = collected(known, names, readings, page_size, count).processes[j];
            process.command == known[process.key()].command
        }),
    decreases count,
{
    if count > 0 {
        let before = collected(known, names, readings, page_size, (count - 1) as nat);
        let shown = collected(known, names, readings, page_size, count).processes;
        match observed(names[count - 1], readings[count - 1].stat, page_size) {
            Some(facts) => {
                let last = shown.len() - 1;
                assert(forall|k: int| 0 <= k < last ==> #[trigger] before.processes[k] == shown[k]);
                if j < last {
                    lemma_known_command_is_shown(
                        known,
                        names,
                        readings,
                        page_size,
                        (count - 1) as nat,
                        j,
                    );
                } else {
                    lemma_unclaimed_command_waits(
                        known,
                        names,
                        readings,
                        page_size,
                        (count - 1) as nat,
                        facts.key(),
                    );
                }
            },
            None => {
                lemma_known_command_is_shown(
                    known,
                    names,
                    readings,
                    page_size,
                    (count - 1) as nat,
                    j,
                );
            },
        }
    }
}

/// A command is read once for each process: a process that two listings in a row show under the
/// same name has the same command in both, whatever the second could have read. That there was
/// none holds on as well. (Where a directory names a process more than once, the last time in
/// the first listing and the first time in the second are those that go together.)
pub proof fn lemma_command_is_read_once<S, C, T, D>(
    earlier: Seq<ProcessSample>,
    later: Seq<ProcessSample>,
    before: SamplerState,
    between: SamplerState,
    after: SamplerState,
    earlier_system: Option<String>,
    later_system: Option<String>,
    earlier_names: Seq<String>,
    later_names: Seq<String>,
    page_size: u64,
    earlier_stat: S,
    earlier_command: C,
    later_stat: T,
    later_command: D,
    i: int,
    j: int,
) where
    S: Fn(&str) -> Option<String>,
    C: Fn(&str) -> Option<String>,
    T: Fn(&str) -> Option<String>,
    D: Fn(&str) -> Option<String>,

    requires
        listing_sampled(
            earlier,
            before,
            between,
            earlier_system,
            earlier_names,
            page_size,
            earlier_stat,
            earlier_command,
        ),
        listing_sampled(
            later,
            between,
            after,
            later_system,
            later_names,
            page_size,
            later_stat,
            later_command,
        ),
        0 <= i < earlier.len(),
        0 <= j < later.len(),
        earlier[i].process@.key() == later[j].process@.key(),
        earlier[i].process@.name == later[j].process@.name,
        forall|k: int|
            i < k < earlier.len() ==> (#[trigger] earlier[k]).process@.key()
                != earlier[i].process@.key(),
        forall|k: int|
            0 <= k < j ==> (#[trigger] later[k]).process@.key() != later[j].process@.key(),
    ensures
        later[j].process@.command == earlier[i].process@.command,
{
    let first = choose|readings: Seq<Reading>|
        {
            let listing = #[trigger] collected(
                before.commands,
                text::views(earlier_names),
                readings,
                page_size,
                earlier_names.len(),
            );
            &&& sampled(earlier, before, ticks_read(earlier_system), listing)
            &&& between == before.after(ticks_read(earlier_system), listing)
        };
    let second = choose|readings: Seq<Reading>|
        {
            let listing = #[trigger] collected(
                between.commands,
                text::views(later_names),
                readings,
                page_size,
                later_names.len(),
            );
            sampled(later, between, ticks_read(later_system), listing)
        };
    let shown = collected(
        before.commands,
        text::views(earlier_names),
        first,
        page_size,
        earlier_names.len(),
    ).processes;
    let again = collected(
        between.commands,
        text::views(later_names),
        second,
        page_size,
        later_names.len(),
    ).processes;
    assert(forall|k: int| 0 <= k < shown.len() ==> #[trigger] shown[k] == earlier[k].process@);
    assert(forall|k: int| 0 <= k < again.len() ==> #[trigger] again[k] == later[k].process@);
    lemma_shown_command_is_kept(
        before.commands,
        text::views(earlier_names),
        first,
        page_size,
        earlier_names.len(),
        i,
    );
    lemma_known_command_is_shown(
        between.commands,
        text::views(later_names),
        second,
        page_size,
        later_names.len(),
        j,
    );
}

/// A process that changed its name, or that took over a PID, has its command read anew.
pub proof fn lemma_changed_process_is_read_again(
    listing: Collection,
    facts: ProcessFacts,
    fresh: Option<Seq<char>>,
)
    requires
        !listing.known.dom().contains(facts.key()) || listing.known[facts.key()].name
            != facts.name,
    ensures
        listing.with_process(facts, fresh).processes.last().command == fresh,
        listing.with_process(facts, fresh).kept[facts.key()] == (CommandFacts {
            name: facts.name,
            command: fresh,
        }),
{
}

/// The commands kept are those of the processes in the latest listing and of no others: a
/// process that is gone is forgotten.
pub proof fn lemma_only_listed_commands_are_kept(
    known: Map<u128, CommandFacts>,
    names: Seq<Seq<char>>,
    readings: Seq<Reading>,
    page_size: u64,
    count: nat,
    key: u128,
)
    ensures
        ({
            let listing = collected(known, names, readings, page_size, count);
            listing.kept.dom().contains(key) <==> exists|i: int|
                0 <= i < listing.processes.len() && (#[trigger] listing.processes[i]).key() == key
        }),
    decreases count,
{
    if count > 0 {
        let before = collected(known, names, readings, page_size, (count - 1) as nat);
        let listing = collected(known, names, readings, page_size, count);
        lemma_only_listed_commands_are_kept(
            known,
            names,
            readings,
            page_size,
            (count - 1) as nat,
            key,
        );
        match observed(names[count - 1], readings[count - 1].stat, page_size) {
            Some(facts) => {
                let last = listing.processes.len() - 1;
                assert(listing.processes[last].key() == facts.key());
                assert(forall|i: int|
                    0 <= i < last ==> #[trigger] listing.processes[i] == before.processes[i]);
                if before.kept.dom().contains(key) {
                    let i = choose|i: int|
                        0 <= i < before.processes.len() && (#[trigger] before.processes[i]).key()
                            == key;
                    assert(listing.processes[i].key() == key);
                }
            },
            None => {},
        }
    }
}

/// The same ticks and number of processors, as numbers without bounds.
pub open spec fn widened(system: Option<(u64, usize)>) -> Option<(int, int)> {
    match system {
        Some((ticks, cpu_count)) => Some((ticks as int, cpu_count as int)),
        None => None,
    }
}

/// Samples and what is remembered after them are those of a listing whose files were read by
/// `read_stat` and `read_command`.
pub open spec fn listing_sampled<S, C>(
    samples: Seq<ProcessSample>,
    before: SamplerState,
    after: SamplerState,
    system_stat: Option<String>,
    names: Seq<String>,
    page_size: u64,
    read_stat: S,
    read_command: C,
) -> bool where S: Fn(&str) -> Option<String>, C: Fn(&str) -> Option<String> {
    exists|readings: Seq<Reading>|
        {
            let listing = #[trigger] collected(
                before.commands,
                text::views(names),
                readings,
                page_size,
                names.len(),
            );
            &&& readings.len() == names.len()
            &&& genuine(names, readings, before.commands, page_size, read_stat, read_command)
            &&& sampled(samples, before, ticks_read(system_stat), listing)
            &&& after == before.after(ticks_read(system_stat), listing)
        }
}

/// The readings came out of `read_stat` and `read_command`, as far as they were needed.
pub open spec fn genuine<S, C>(
    names: Seq<String>,
    readings: Seq<Reading>,
    known: Map<u128, CommandFacts>,
    page_size: u64,
    read_stat: S,
    read_command: C,
) -> bool where S: Fn(&str) -> Option<String>, C: Fn(&str) -> Option<String> {
    forall|i: int|
        #![trigger readings[i]]
        0 <= i < readings.len() ==> genuine_at(
            names,
            readings,
            known,
            page_size,
            read_stat,
            read_command,
            i,
        )
}

pub open spec fn genuine_at<S, C>(
    names: Seq<String>,
    readings: Seq<Reading>,
    known: Map<u128, CommandFacts>,
    page_size: u64,
    read_stat: S,
    read_command: C,
    i: int,
) -> bool where S: Fn(&str) -> Option<String>, C: Fn(&str) -> Option<String> {
    let facts = observed(names[i]@, readings[i].stat, page_size);
    &&& numerals::unsigned(names[i]@, u32::MAX as int) is Some ==> exists|name: &str|
        name@ == names[i]@ && #[trigger] read_stat.ensures((name,), readings[i].stat)
    &&& facts is Some && !collected(known, text::views(names), readings, page_size, i as nat).knows(
        facts->0,
    ) ==> exists|name: &str|
        name@ == names[i]@ && #[trigger] read_command.ensures((name,), readings[i].command)
}

} // verus!
