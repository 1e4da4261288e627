//! Processors as they are built in: one package for all the logical processors on it.
use vstd::prelude::*;

use crate::linux::hardware::CpuPackage;
use crate::numerals;
use crate::numerals::parse_u32;
use crate::table;
use crate::table::{find, put};
use crate::text;
use crate::text::{characters, same_text, split_lines, split_once, string_of, trim};

verus! {

broadcast use vstd::string::group_string_axioms;

/// The position of the first empty line from `from` on: of the first of two line breaks in a
/// row. Without one it is the end of the text.
pub open spec fn blank_from(text: Seq<char>, from: int) -> int
    decreases text.len() - from,
{
    if from + 1 >= text.len() {
        text.len() as int
    } else if text[from] == '\n' && text[from + 1] == '\n' {
        from
    } else {
        blank_from(text, from + 1)
    }
}

proof fn lemma_blank_from(text: Seq<char>, from: int)
    requires
        0 <= from <= text.len(),
    ensures
        from <= blank_from(text, from) <= text.len(),
        blank_from(text, from) < text.len() ==> blank_from(text, from) + 2 <= text.len(),
    decreases text.len() - from,
{
    if from + 1 < text.len() && !(text[from] == '\n' && text[from + 1] == '\n') {
        lemma_blank_from(text, from + 1);
    }
}

/// The sections of a text from `from` on, with an empty line between any two.
pub open spec fn sections_from(text: Seq<char>, from: int) -> Seq<Seq<char>>
    decreases text.len() - from,
    when 0 <= from <= text.len()
    via sections_decrease
{
    let end = blank_from(text, from);
    if end >= text.len() {
        seq![text.subrange(from, text.len() as int)]
    } else {
        seq![text.subrange(from, end)] + sections_from(text, end + 2)
    }
}

#[via_fn]
proof fn sections_decrease(text: Seq<char>, from: int) {
    lemma_blank_from(text, from);
}

fn find_blank(chars: &Vec<char>, from: usize) -> (at: usize)
    requires
        from <= chars@.len(),
    ensures
        at == blank_from(chars@, from as int),
        from <= at <= chars@.len(),
        at < chars@.len() ==> at + 2 <= chars@.len(),
{
    let length: usize = chars.len();
    let mut i: usize = from;
    proof {
        lemma_blank_from(chars@, from as int);
    }
    while i < length && i + 1 < length && !(chars[i] == '\n' && chars[i + 1] == '\n')
        invariant
            length == chars@.len(),
            from <= i <= length,
            blank_from(chars@, from as int) == blank_from(chars@, i as int),
        decreases length - i,
    {
        i += 1;
    }
    if i >= length || i + 1 >= length {
        length
    } else {
        i
    }
}

fn split_sections(contents: &str) -> (sections: Vec<String>)
    ensures
        text::views(sections@) == sections_from(contents@, 0),
{
    let chars = characters(contents);
    let length: usize = chars.len();
    let mut sections: Vec<String> = Vec::new();
    let mut from: usize = 0;
    let mut done: bool = false;
    assert(text::views(sections@) + sections_from(contents@, 0) =~= sections_from(contents@, 0));
    while !done
        invariant
            chars@ == contents@,
            length == chars@.len(),
            from <= length,
            !done ==> text::views(sections@) + sections_from(contents@, from as int) == sections_from(
                contents@,
                0,
            ),
            done ==> text::views(sections@) == sections_from(contents@, 0),
        decreases
            length - from + if done {
                0int
            } else {
                1int
            },
    {
        let end: usize = find_blank(&chars, from);
        let section = string_of(&chars, from, end);
        let ghost before = sections@;
        sections.push(section);
        assert(text::views(sections@) =~= text::views(before).push(section@));
        if end >= length {
            assert(text::views(sections@) =~= text::views(before) + sections_from(contents@, from as int));
            done = true;
        } else {
            assert(text::views(sections@) + sections_from(contents@, end + 2) =~= text::views(before)
                + sections_from(contents@, from as int));
            from = end + 2;
        }
    }
    sections
}

/// What a section says of a processor.
pub struct RecordFacts {
    pub physical_id: Option<u32>,
    pub model: Option<Seq<char>>,
}

impl RecordFacts {
    /// What is known after one more line.
    pub open spec fn with_line(self, line: Seq<char>) -> RecordFacts {
        match text::halves(line, ':') {
            Some((key, value)) => {
                let key = text::trimmed(key);
                let value = text::trimmed(value);
                if key == "physical id"@ {
                    RecordFacts {
                        physical_id: match numerals::unsigned(value, u32::MAX as int) {
                            Some(id) => Some(id as u32),
                            None => None,
                        },
                        ..self
                    }
                } else if (key == "model name"@ || key == "Hardware"@) && value.len() > 0 {
                    RecordFacts { model: Some(value), ..self }
                } else if key == "Processor"@ && self.model is None && value.len() > 0 {
                    RecordFacts { model: Some(value), ..self }
                } else {
                    self
                }
            },
            None => self,
        }
    }
}

/// What the first `count` lines of a section say.
pub open spec fn record_of(lines: Seq<Seq<char>>, count: nat) -> RecordFacts
    decreases count,
{
    if count == 0 {
        RecordFacts { physical_id: None, model: None }
    } else {
        record_of(lines, (count - 1) as nat).with_line(lines[count - 1])
    }
}

/// What a section says of a processor, its model included.
#[derive(Debug, Clone, PartialEq, Eq)]
pub struct CpuRecord {
    pub physical_id: Option<u32>,
    pub model: Option<String>,
}

impl View for CpuRecord {
    type V = RecordFacts;

    open spec fn view(&self) -> RecordFacts {
        RecordFacts { physical_id: self.physical_id, model: text::optional_view(self.model) }
    }
}

fn read_line(record: &mut CpuRecord, line: &str)
    ensures
        final(record)@ == old(record)@.with_line(line@),
{
    match split_once(line, ':') {
        Some((key, value)) => {
            let key = trim(key.as_str());
            let value = trim(value.as_str());
            if same_text(key.as_str(), "physical id") {
                proof {
                    numerals::lemma_unsigned_range(value@, u32::MAX as int);
                }
                record.physical_id = parse_u32(value.as_str());
            } else if same_text(key.as_str(), "model name") || same_text(key.as_str(), "Hardware") {
                if !value.as_str().is_empty() {
                    record.model = Some(value);
                }
            } else if same_text(key.as_str(), "Processor") && record.model.is_none()
                && !value.as_str().is_empty() {
                record.model = Some(value);
            }
        },
        None => {},
    }
}

fn read_record(section: &str) -> (record: CpuRecord)
    ensures
        record@ == record_of(text::lines(section@), text::lines(section@).len()),
{
    let lines = split_lines(section);
    let mut record = CpuRecord { physical_id: None, model: None };
    let mut i: usize = 0;
    while i < lines.len()
        invariant
            i <= lines@.len(),
            record@ == record_of(text::views(lines@), i as nat),
        decreases lines@.len() - i,
    {
        assert(text::views(lines@)[i as int] == lines@[i as int]@);
        read_line(&mut record, lines[i].as_str());
        i += 1;
    }
    record
}

/// A processor with a model.
pub struct ProcessorFacts {
    pub physical_id: Option<u32>,
    pub model: Seq<char>,
}

/// The processors that the first `count` sections name a model for.
pub open spec fn processors(sections: Seq<Seq<char>>, count: nat) -> Seq<ProcessorFacts>
    decreases count,
{
    if count == 0 {
        Seq::empty()
    } else {
        let before = processors(sections, (count - 1) as nat);
        let section = text::lines(sections[count - 1]);
        let record = record_of(section, section.len());
        match record.model {
            Some(model) => before.push(
                ProcessorFacts { physical_id: record.physical_id, model },
            ),
            None => before,
        }
    }
}

/// All processors that a text describes.
pub open spec fn described_processors(contents: Seq<char>) -> Seq<ProcessorFacts> {
    processors(sections_from(contents, 0), sections_from(contents, 0).len())
}

impl View for CpuPackage {
    type V = ProcessorFacts;

    open spec fn view(&self) -> ProcessorFacts {
        ProcessorFacts { physical_id: self.physical_id, model: self.model@ }
    }
}

pub open spec fn package_views(packages: Seq<CpuPackage>) -> Seq<ProcessorFacts> {
    Seq::new(packages.len(), |i: int| packages[i]@)
}

fn read_processors(contents: &str) -> (records: Vec<CpuPackage>)
    ensures
        package_views(records@) == described_processors(contents@),
{
    let sections = split_sections(contents);
    let mut records: Vec<CpuPackage> = Vec::new();
    let mut i: usize = 0;
    assert(package_views(records@) =~= Seq::empty());
    while i < sections.len()
        invariant
            i <= sections@.len(),
            package_views(records@) == processors(text::views(sections@), i as nat),
        decreases sections@.len() - i,
    {
        assert(text::views(sections@)[i as int] == sections@[i as int]@);
        let record = read_record(sections[i].as_str());
        let ghost before = records@;
        match record.model {
            Some(model) => {
                records.push(CpuPackage { physical_id: record.physical_id, model });
                assert(package_views(records@) =~= package_views(before).push(
                    ProcessorFacts { physical_id: record.physical_id, model: model@ },
                ));
            },
            None => {},
        }
        i += 1;
    }
    records
}

/// The model of a package: that of the first processor on it, among the first `count`.
pub open spec fn package_model(records: Seq<ProcessorFacts>, count: nat, id: u32) -> Option<Seq<char>>
    decreases count,
{
    if count == 0 {
        None
    } else {
        match package_model(records, (count - 1) as nat, id) {
            Some(model) => Some(model),
            None => if records[count - 1].physical_id == Some(id) {
                Some(records[count - 1].model)
            } else {
                None
            },
        }
    }
}

/// The models of the first `count` processors, each once, in the order in which they come up.
pub open spec fn distinct_models(records: Seq<ProcessorFacts>, count: nat) -> Seq<Seq<char>>
    decreases count,
{
    if count == 0 {
        Seq::empty()
    } else {
        let before = distinct_models(records, (count - 1) as nat);
        if before.contains(records[count - 1].model) {
            before
        } else {
            before.push(records[count - 1].model)
        }
    }
}

/// Some processor names its package.
pub open spec fn names_packages(records: Seq<ProcessorFacts>) -> bool {
    exists|i: int| 0 <= i < records.len() && (#[trigger] records[i]).physical_id is Some
}

/// The packages by number, ascending: one for every number that is named, with its model.
pub open spec fn packages_by_id(packages: Seq<CpuPackage>, records: Seq<ProcessorFacts>) -> bool {
    &&& forall|i: int| 0 <= i < packages.len() ==> (#[trigger] packages[i]).physical_id is Some
    &&& forall|i: int, j: int|
        0 <= i < j < packages.len() ==> (#[trigger] packages[i]).physical_id->0 < (
        #[trigger] packages[j]).physical_id->0
    &&& forall|i: int|
        0 <= i < packages.len() ==> package_model(
            records,
            records.len(),
            (#[trigger] packages[i]).physical_id->0,
        ) == Some(packages[i].model@)
    &&& forall|id: u32| #[trigger]
        package_model(records, records.len(), id) is Some ==> exists|i: int|
            0 <= i < packages.len() && (#[trigger] packages[i]).physical_id == Some(id)
}

/// One package for every model.
pub open spec fn packages_by_model(packages: Seq<CpuPackage>, records: Seq<ProcessorFacts>) -> bool {
    &&& packages.len() == distinct_models(records, records.len()).len()
    &&& forall|i: int|
        0 <= i < packages.len() ==> (#[trigger] packages[i]).physical_id is None
            && packages[i].model@ == distinct_models(records, records.len())[i]
}

fn check_packages(records: &Vec<CpuPackage>) -> (result: bool)
    ensures
        result == names_packages(package_views(records@)),
{
    let mut i: usize = 0;
    while i < records.len()
        invariant
            i <= records@.len(),
            forall|j: int| 0 <= j < i ==> (#[trigger] records@[j]).physical_id is None,
        decreases records@.len() - i,
    {
        if records[i].physical_id.is_some() {
            assert(package_views(records@)[i as int].physical_id is Some);
            return true;
        }
        i += 1;
    }
    proof {
        if names_packages(package_views(records@)) {
            let j = choose|j: int|
                0 <= j < records@.len() && (#[trigger] package_views(
                    records@,
                )[j]).physical_id is Some;
            assert(records@[j].physical_id is None);
        }
    }
    false
}

/// The table of models says of every package what the first `count` records do.
spec fn tabled(table: Seq<(u32, String)>, records: Seq<ProcessorFacts>, count: nat) -> bool {
    &&& table::ascending(table)
    &&& forall|id: u32| #[trigger]
        text::optional_view(table::lookup(table, id)) == package_model(records, count, id)
}

fn collect_models(records: &Vec<CpuPackage>) -> (table: Vec<(u32, String)>)
    ensures
        tabled(table@, package_views(records@), records@.len()),
{
    let ghost facts = package_views(records@);
    let mut table: Vec<(u32, String)> = Vec::new();
    let mut i: usize = 0;
    assert(forall|id: u32| table::lookup(table@, id) is None);
    while i < records.len()
        invariant
            i <= records@.len(),
            facts == package_views(records@),
            tabled(table@, facts, i as nat),
        decreases records@.len() - i,
    {
        assert(facts[i as int] == records@[i as int]@);
        let ghost before = table@;
        match records[i].physical_id {
            Some(id) => {
                let at: usize = find(&table, id);
                assert(text::optional_view(table::lookup(before, id)) == package_model(facts, i as nat, id));
                if !(at < table.len() && table[at].0 == id) {
                    put(&mut table, id, records[i].model.clone());
                }
            },
            None => {},
        }
        assert forall|id: u32| #[trigger]
            text::optional_view(table::lookup(table@, id)) == package_model(facts, (i + 1) as nat, id) by {
            assert(text::optional_view(table::lookup(before, id)) == package_model(facts, i as nat, id));
        }
        i += 1;
    }
    table
}

fn collect_by_id(records: &Vec<CpuPackage>) -> (packages: Vec<CpuPackage>)
    ensures
        packages_by_id(packages@, package_views(records@)),
{
    let table = collect_models(records);
    let ghost facts = package_views(records@);
    let ghost all = records@.len();
    let mut packages: Vec<CpuPackage> = Vec::new();
    let mut i: usize = 0;
    while i < table.len()
        invariant
            i <= table@.len(),
            packages@.len() == i,
            forall|j: int|
                0 <= j < i ==> (#[trigger] packages@[j]).physical_id == Some(table@[j].0)
                    && packages@[j].model@ == table@[j].1@,
        decreases table@.len() - i,
    {
        packages.push(CpuPackage { physical_id: Some(table[i].0), model: table[i].1.clone() });
        i += 1;
    }
    proof {
        assert forall|j: int, k: int| 0 <= j < k < packages@.len() implies (
        #[trigger] packages@[j]).physical_id->0 < (#[trigger] packages@[k]).physical_id->0 by {
            assert(table@[j].0 < table@[k].0);
        }
        assert forall|j: int| 0 <= j < packages@.len() implies package_model(
            facts,
            all,
            (#[trigger] packages@[j]).physical_id->0,
        ) == Some(packages@[j].model@) by {
            let id = table@[j].0;
            table::lemma_lookup(table@, id);
            assert(table@[j].0 == id);
            assert(text::optional_view(table::lookup(table@, id)) == package_model(facts, all, id));
        }
        assert forall|id: u32| #[trigger]
            package_model(facts, all, id) is Some implies exists|j: int|
            0 <= j < packages@.len() && (#[trigger] packages@[j]).physical_id == Some(id) by {
            assert(text::optional_view(table::lookup(table@, id)) == package_model(facts, all, id));
            table::lemma_lookup(table@, id);
            let j = choose|j: int| 0 <= j < table@.len() && (#[trigger] table@[j]).0 == id;
            assert(packages@[j].physical_id == Some(id));
        }
    }
    packages
}

fn has_model(packages: &Vec<CpuPackage>, model: &str) -> (found: bool)
    ensures
        found == exists|i: int| 0 <= i < packages@.len() && (#[trigger] packages@[i]).model@ == model@,
{
    let mut i: usize = 0;
    while i < packages.len()
        invariant
            i <= packages@.len(),
            forall|j: int| 0 <= j < i ==> (#[trigger] packages@[j]).model@ != model@,
        decreases packages@.len() - i,
    {
        if same_text(packages[i].model.as_str(), model) {
            assert(packages@[i as int].model@ == model@);
            return true;
        }
        i += 1;
    }
    false
}

fn collect_by_model(records: &Vec<CpuPackage>) -> (packages: Vec<CpuPackage>)
    ensures
        packages_by_model(packages@, package_views(records@)),
{
    let ghost facts = package_views(records@);
    let mut packages: Vec<CpuPackage> = Vec::new();
    let mut i: usize = 0;
    while i < records.len()
        invariant
            i <= records@.len(),
            facts == package_views(records@),
            packages@.len() == distinct_models(facts, i as nat).len(),
            forall|j: int|
                0 <= j < packages@.len() ==> (#[trigger] packages@[j]).physical_id is None
                    && packages@[j].model@ == distinct_models(facts, i as nat)[j],
        decreases records@.len() - i,
    {
        assert(facts[i as int] == records@[i as int]@);
        let ghost models = distinct_models(facts, i as nat);
        let model = records[i].model.clone();
        let known: bool = has_model(&packages, model.as_str());
        proof {
            if known {
                let j = choose|j: int|
                    0 <= j < packages@.len() && (#[trigger] packages@[j]).model@ == model@;
                assert(models[j] == model@);
            } else if models.contains(model@) {
                let j = choose|j: int| 0 <= j < models.len() && models[j] == model@;
                assert(packages@[j].model@ == model@);
            }
        }
        if !known {
            packages.push(CpuPackage { physical_id: None, model });
        }
        i += 1;
    }
    packages
}

/// The packages that a description of all logical processors names. Where any of those names
/// its package, there is one for each number named; otherwise one for each model.
pub fn parse_cpu_packages(contents: &str) -> (packages: Vec<CpuPackage>)
    ensures
        names_packages(described_processors(contents@)) ==> packages_by_id(
            packages@,
            described_processors(contents@),
        ),
        !names_packages(described_processors(contents@)) ==> packages_by_model(
            packages@,
            described_processors(contents@),
        ),
{
    let records = read_processors(contents);
    if check_packages(&records) {
        collect_by_id(&records)
    } else {
        collect_by_model(&records)
    }
}

/// No model is listed twice where packages are told apart by their models.
pub proof fn lemma_models_are_distinct(records: Seq<ProcessorFacts>, count: nat)
    ensures
        distinct_models(records, count).no_duplicates(),
    decreases count,
{
    if count > 0 {
        lemma_models_are_distinct(records, (count - 1) as nat);
    }
}

} // verus!
