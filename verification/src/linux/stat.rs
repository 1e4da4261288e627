//! Reading what the kernel writes about processes.
use vstd::prelude::*;

use crate::numerals;
use crate::numerals::{checked_total, has_only_digits, parse_all, parse_i64, parse_u32, parse_u64};
use crate::text;
use crate::text::{
    characters, decode_lossy, find_from, find_last, same_text, split_lines, split_words,
    split_words_from, string_of, strip_prefix, trim_range,
};

verus! {

broadcast use vstd::string::group_string_axioms;

/// Where the name of a process stands in its status line: from the first opening to the last
/// closing parenthesis, so that a name may hold both.
pub open spec fn name_bounds(stat: Seq<char>) -> Option<(int, int)> {
    let start = text::position_from(stat, 0, '(');
    let end = text::last_position(stat, stat.len() as int, ')');
    if start < stat.len() && end > start {
        Some((start, end))
    } else {
        None
    }
}

/// Where the name ends.
pub open spec fn name_end(stat: Seq<char>) -> int {
    text::last_position(stat, stat.len() as int, ')')
}

/// The fields behind the name.
pub open spec fn stat_fields(stat: Seq<char>) -> Seq<Seq<char>> {
    text::words_from(stat, name_end(stat) + 1)
}

/// The start time in a status line: the twentieth field behind the name.
pub open spec fn parsed_start_time(stat: Seq<char>) -> Option<int> {
    if name_bounds(stat) is Some && stat_fields(stat).len() > 19 {
        numerals::unsigned(stat_fields(stat)[19], u64::MAX as int)
    } else {
        None
    }
}

fn find_name(chars: &Vec<char>) -> (bounds: Option<(usize, usize)>)
    ensures
        match bounds {
            Some((start, end)) => name_bounds(chars@) == Some((start as int, end as int)) && start
                < end < chars@.len(),
            None => name_bounds(chars@) is None,
        },
{
    let start: usize = find_from(chars, 0, '(');
    if start >= chars.len() {
        return None;
    }
    match find_last(chars, ')') {
        Some(end) => if end > start {
            Some((start, end))
        } else {
            None
        },
        None => None,
    }
}

pub fn read_process_start_time(stat_contents: &str) -> (start_time: Option<u64>)
    ensures
        match start_time {
            Some(start_time) => parsed_start_time(stat_contents@) == Some(start_time as int),
            None => parsed_start_time(stat_contents@) is None,
        },
{
    let chars = characters(stat_contents);
    match find_name(&chars) {
        Some((_, end)) => {
            let fields = split_words_from(&chars, end + 1);
            if fields.len() <= 19 {
                return None;
            }
            assert(text::views(fields@)[19] == fields@[19]@);
            parse_u64(fields[19].as_str())
        },
        None => None,
    }
}

/// One process as its status line describes it.
#[derive(Debug, Clone, PartialEq, Eq)]
pub struct RawProcess {
    pub pid: u32,
    pub name: String,
    pub state: char,
    pub parent_pid: u32,
    pub cpu_ticks: u64,
    pub start_time: u64,
    pub memory_bytes: u64,
    pub command: Option<String>,
}

/// The memory that a number of pages takes: none where the number is negative, and at most
/// what can be counted.
pub open spec fn resident_bytes(pages: int, page_size: u64) -> int {
    if pages <= 0 {
        0
    } else if pages * page_size <= u64::MAX {
        pages * page_size
    } else {
        u64::MAX as int
    }
}

/// Whether a status line describes a process at all: it names a PID and has enough fields, and
/// each field that counts is a number.
pub open spec fn describes_process(stat: Seq<char>) -> bool {
    let fields = stat_fields(stat);
    let max = u64::MAX as int;
    &&& name_bounds(stat) is Some
    &&& numerals::unsigned(text::trimmed(stat.take(text::position_from(stat, 0, '('))), u32::MAX as int) is Some
    &&& fields.len() > 21
    &&& numerals::unsigned(fields[1], u32::MAX as int) is Some
    &&& numerals::unsigned(fields[11], max) is Some
    &&& numerals::unsigned(fields[12], max) is Some
    &&& numerals::unsigned(fields[19], max) is Some
    &&& numerals::signed(fields[21]) is Some
    &&& numerals::unsigned(fields[11], max)->0 + numerals::unsigned(fields[12], max)->0 <= max
}

/// What a status line says of a process.
pub struct ProcessFacts {
    pub pid: u32,
    pub name: Seq<char>,
    pub state: char,
    pub parent_pid: u32,
    pub cpu_ticks: u64,
    pub start_time: u64,
    pub memory_bytes: u64,
    pub command: Option<Seq<char>>,
}

impl View for RawProcess {
    type V = ProcessFacts;

    open spec fn view(&self) -> ProcessFacts {
        ProcessFacts {
            pid: self.pid,
            name: self.name@,
            state: self.state,
            parent_pid: self.parent_pid,
            cpu_ticks: self.cpu_ticks,
            start_time: self.start_time,
            memory_bytes: self.memory_bytes,
            command: text::optional_view(self.command),
        }
    }
}

/// The process that a status line describes, its command not known.
pub open spec fn described(stat: Seq<char>, page_size: u64) -> Option<ProcessFacts> {
    let fields = stat_fields(stat);
    let max = u64::MAX as int;
    if describes_process(stat) {
        Some(
            ProcessFacts {
                pid: numerals::unsigned(text::trimmed(stat.take(text::position_from(stat, 0, '('))), u32::MAX as int)->0 as u32,
                name: stat.subrange(text::position_from(stat, 0, '(') + 1, name_end(stat)),
                state: fields[0][0],
                parent_pid: numerals::unsigned(fields[1], u32::MAX as int)->0 as u32,
                cpu_ticks: (numerals::unsigned(fields[11], max)->0 + numerals::unsigned(fields[12], max)->0) as u64,
                start_time: numerals::unsigned(fields[19], max)->0 as u64,
                memory_bytes: resident_bytes(numerals::signed(fields[21])->0, page_size) as u64,
                command: None,
            },
        )
    } else {
        None
    }
}

/// Every word has a character.
proof fn lemma_words_are_not_empty(text: Seq<char>, from: int, i: int)
    requires
        0 <= from <= text.len(),
        0 <= i < text::words_from(text, from).len(),
    ensures
        text::words_from(text, from)[i].len() > 0,
    decreases i,
{
    text::lemma_gap_from(text, from, false);
    let start = text::gap_from(text, from, false);
    text::lemma_gap_from(text, start, true);
    let end = text::gap_from(text, start, true);
    assert(text.subrange(start, end).len() > 0);
    if i > 0 {
        lemma_words_are_not_empty(text, end, i - 1);
        assert(text::words_from(text, from)[i] == text::words_from(text, end)[i - 1]);
    }
}

/// The memory of so many pages.
fn count_resident_bytes(pages: i64, page_size: u64) -> (bytes: u64)
    ensures
        bytes == resident_bytes(pages as int, page_size),
{
    if pages <= 0 {
        return 0;
    }
    match (pages as u64).checked_mul(page_size) {
        Some(bytes) => bytes,
        None => u64::MAX,
    }
}

/// The process that a status line describes.
pub fn parse_process_stat(contents: &str, page_size: u64) -> (process: Option<RawProcess>)
    ensures
        match process {
            Some(process) => described(contents@, page_size) == Some(process@),
            None => described(contents@, page_size) is None,
        },
{
    let chars = characters(contents);
    let length: usize = chars.len();
    let (start, end) = match find_name(&chars) {
        Some(bounds) => bounds,
        None => {
            return None;
        },
    };
    assert(chars@.subrange(0, start as int) =~= chars@.take(start as int));
    let pid: u32 = match parse_u32(trim_range(&chars, 0, start).as_str()) {
        Some(pid) => pid,
        None => {
            return None;
        },
    };
    let name = string_of(&chars, start + 1, end);
    let fields = split_words_from(&chars, end + 1);
    if fields.len() <= 21 {
        return None;
    }
    assert(text::views(fields@) == stat_fields(contents@));
    assert(forall|i: int| 0 <= i < fields@.len() ==> fields@[i]@ == #[trigger] stat_fields(contents@)[i]);
    proof {
        lemma_words_are_not_empty(chars@, end + 1, 0);
    }
    let state = fields[0].as_str().get_char(0);
    let parent_pid: u32 = match parse_u32(fields[1].as_str()) {
        Some(number) => number,
        None => {
            return None;
        },
    };
    let user_ticks: u64 = match parse_u64(fields[11].as_str()) {
        Some(number) => number,
        None => {
            return None;
        },
    };
    let system_ticks: u64 = match parse_u64(fields[12].as_str()) {
        Some(number) => number,
        None => {
            return None;
        },
    };
    let start_time: u64 = match parse_u64(fields[19].as_str()) {
        Some(number) => number,
        None => {
            return None;
        },
    };
    let resident_pages: i64 = match parse_i64(fields[21].as_str()) {
        Some(number) => number,
        None => {
            return None;
        },
    };
    let cpu_ticks: u64 = match user_ticks.checked_add(system_ticks) {
        Some(sum) => sum,
        None => {
            return None;
        },
    };
    Some(
        RawProcess {
            pid,
            name,
            state,
            parent_pid,
            cpu_ticks,
            start_time,
            memory_bytes: count_resident_bytes(resident_pages, page_size),
            command: None,
        },
    )
}

/// The start time that a status line shows is the one that the process it describes has.
pub proof fn lemma_start_time_agrees(stat: Seq<char>, page_size: u64)
    requires
        described(stat, page_size) is Some,
    ensures
        parsed_start_time(stat) == Some(described(stat, page_size)->0.start_time as int),
{
    numerals::lemma_unsigned_range(stat_fields(stat)[19], u64::MAX as int);
}

/// The fields that count time in a line of processor times: at most eight behind the label, so
/// that guest time, which user time holds already, is not counted twice.
pub open spec fn time_fields(fields: Seq<Seq<char>>) -> Seq<Seq<char>> {
    fields.subrange(1, if fields.len() < 9 { fields.len() as int } else { 9 })
}

/// A line that counts the time of one processor.
pub open spec fn is_processor_line(line: Seq<char>) -> bool {
    match text::without_prefix(line, "cpu"@) {
        Some(rest) => text::words(rest).len() > 0 && numerals::all_digits(text::words(rest)[0]),
        None => false,
    }
}

/// How many of the lines from `from` on count the time of one processor.
pub open spec fn processor_count(lines: Seq<Seq<char>>, from: int) -> int
    decreases lines.len() - from,
{
    if from >= lines.len() {
        0
    } else {
        processor_count(lines, from + 1) + if is_processor_line(lines[from]) {
            1int
        } else {
            0int
        }
    }
}

/// The ticks of all processors together and their number, at least one.
pub open spec fn system_ticks(contents: Seq<char>) -> Option<(int, int)> {
    let all = text::lines(contents);
    if all.len() == 0 || text::words(all[0]).len() == 0 || text::words(all[0])[0] != "cpu"@ {
        None
    } else {
        match numerals::all_unsigned(time_fields(text::words(all[0]))) {
            Some(times) => if numerals::total(times) <= u64::MAX {
                let count = processor_count(all, 1);
                Some((numerals::total(times), if count < 1 { 1 } else { count }))
            } else {
                None
            },
            None => None,
        }
    }
}

fn check_processor_line(line: &str) -> (result: bool)
    ensures
        result == is_processor_line(line@),
{
    match strip_prefix(line, "cpu") {
        Some(rest) => {
            let fields = split_words(rest.as_str());
            if fields.len() == 0 {
                return false;
            }
            assert(text::views(fields@)[0] == fields@[0]@);
            has_only_digits(fields[0].as_str())
        },
        None => false,
    }
}

fn count_processors(lines: &Vec<String>) -> (count: usize)
    requires
        lines@.len() > 0,
    ensures
        count == processor_count(text::views(lines@), 1),
{
    let length: usize = lines.len();
    let mut count: usize = 0;
    let mut i: usize = length;
    while i > 1
        invariant
            length == lines@.len(),
            1 <= i <= lines@.len(),
            count == processor_count(text::views(lines@), i as int),
            count <= lines@.len() - i,
        decreases i,
    {
        i -= 1;
        assert(text::views(lines@)[i as int] == lines@[i as int]@);
        if check_processor_line(lines[i].as_str()) {
            count += 1;
        }
    }
    count
}

/// The ticks of all processors together and their number.
pub fn parse_system_cpu(contents: &str) -> (ticks: Option<(u64, usize)>)
    ensures
        match ticks {
            Some((ticks, count)) => system_ticks(contents@) == Some((ticks as int, count as int)),
            None => system_ticks(contents@) is None,
        },
{
    let lines = split_lines(contents);
    if lines.len() == 0 {
        return None;
    }
    assert(text::views(lines@)[0] == lines@[0]@);
    let fields = split_words(lines[0].as_str());
    if fields.len() == 0 {
        return None;
    }
    assert(text::views(fields@)[0] == fields@[0]@);
    if !same_text(fields[0].as_str(), "cpu") {
        return None;
    }
    let end: usize = if fields.len() < 9 {
        fields.len()
    } else {
        9
    };
    let times = match parse_all(&fields, 1, end) {
        Some(times) => times,
        None => {
            return None;
        },
    };
    match checked_total(&times) {
        Some(sum) => {
            let count: usize = count_processors(&lines);
            Some((sum, if count < 1 { 1 } else { count }))
        },
        None => None,
    }
}

/// The state of a process in words.
pub open spec fn state_text(state: char) -> Seq<char> {
    if state == 'R' {
        "R (running)"@
    } else if state == 'S' {
        "S (sleeping)"@
    } else if state == 'D' {
        "D (disk sleep)"@
    } else if state == 'Z' {
        "Z (zombie)"@
    } else if state == 'T' || state == 't' {
        "T (stopped)"@
    } else if state == 'I' {
        "I (idle)"@
    } else if state == 'X' || state == 'x' {
        "X (dead)"@
    } else {
        "? (unknown)"@
    }
}

pub fn process_state(state: char) -> (text: &'static str)
    ensures
        text@ == state_text(state),
{
    match state {
        'R' => "R (running)",
        'S' => "S (sleeping)",
        'D' => "D (disk sleep)",
        'Z' => "Z (zombie)",
        'T' | 't' => "T (stopped)",
        'I' => "I (idle)",
        'X' | 'x' => "X (dead)",
        _ => "? (unknown)",
    }
}

/// The size of a page, by what the system says of it: 4096 where that is no size.
pub fn page_size_of(reported: i64) -> (size: u64)
    ensures
        size == if reported > 0 { reported as int } else { 4096 },
{
    if reported > 0 {
        reported as u64
    } else {
        4096
    }
}

/// Where the argument that starts at `from` ends: at the next zero byte, or at the end.
pub open spec fn argument_end(bytes: Seq<u8>, from: int) -> int
    decreases bytes.len() - from,
{
    if from >= bytes.len() || bytes[from] == 0 {
        from
    } else {
        argument_end(bytes, from + 1)
    }
}

proof fn lemma_argument_end(bytes: Seq<u8>, from: int)
    requires
        0 <= from <= bytes.len(),
    ensures
        from <= argument_end(bytes, from) <= bytes.len(),
    decreases bytes.len() - from,
{
    if from < bytes.len() && bytes[from] != 0 {
        lemma_argument_end(bytes, from + 1);
    }
}

/// The arguments from `from` on that are not empty.
pub open spec fn arguments_from(bytes: Seq<u8>, from: int) -> Seq<Seq<u8>>
    decreases bytes.len() + 1 - from,
    when 0 <= from
    via arguments_decrease
{
    if from >= bytes.len() {
        Seq::empty()
    } else {
        let end = argument_end(bytes, from);
        let rest = arguments_from(bytes, end + 1);
        if end > from {
            seq![bytes.subrange(from, end)] + rest
        } else {
            rest
        }
    }
}

#[via_fn]
proof fn arguments_decrease(bytes: Seq<u8>, from: int) {
    if from < bytes.len() {
        lemma_argument_end(bytes, from);
    }
}

/// Words in a row, with a space between any two.
pub open spec fn spaced(words: Seq<Seq<char>>) -> Seq<char>
    decreases words.len(),
{
    if words.len() == 0 {
        Seq::empty()
    } else if words.len() == 1 {
        words[0]
    } else {
        spaced(words.drop_last()) + seq![' '] + words.last()
    }
}

/// The command that arguments spell, where they spell one.
pub open spec fn spelled(arguments: Seq<Seq<char>>) -> Option<Seq<char>> {
    if spaced(arguments).len() == 0 {
        None
    } else {
        Some(spaced(arguments))
    }
}

/// Arguments as text.
pub open spec fn decoded(arguments: Seq<Seq<u8>>) -> Seq<Seq<char>> {
    Seq::new(arguments.len(), |i: int| text::lossy(arguments[i]))
}

/// The command that a row of arguments, each ended by a zero byte, spells, where it spells one.
pub open spec fn command_of(bytes: Seq<u8>) -> Option<Seq<char>> {
    spelled(decoded(arguments_from(bytes, 0)))
}

/// The command that arguments spell.
pub fn join_arguments(arguments: &Vec<String>) -> (command: Option<String>)
    ensures
        text::optional_view(command) == spelled(text::views(arguments@)),
{
    let ghost words = text::views(arguments@);
    let mut text = String::new();
    let mut i: usize = 0;
    assert(words.take(0) =~= Seq::empty());
    while i < arguments.len()
        invariant
            i <= arguments@.len(),
            words == text::views(arguments@),
            text@ == spaced(words.take(i as int)),
        decreases arguments@.len() - i,
    {
        assert(words.take(i + 1).drop_last() =~= words.take(i as int));
        assert(words.take(i + 1).last() == arguments@[i as int]@);
        if i > 0 {
            text.push(' ');
        }
        text.append(arguments[i].as_str());
        assert(text@ =~= spaced(words.take(i + 1)));
        i += 1;
    }
    assert(words.take(i as int) =~= words);
    if text.as_str().is_empty() {
        None
    } else {
        Some(text)
    }
}

/// The bytes from `from` up to `to`.
fn bytes_of(bytes: &Vec<u8>, from: usize, to: usize) -> (out: Vec<u8>)
    requires
        from <= to <= bytes@.len(),
    ensures
        out@ == bytes@.subrange(from as int, to as int),
{
    let mut out: Vec<u8> = Vec::new();
    let mut i: usize = from;
    while i < to
        invariant
            from <= i <= to <= bytes@.len(),
            out@ == bytes@.subrange(from as int, i as int),
        decreases to - i,
    {
        out.push(bytes[i]);
        assert(bytes@.subrange(from as int, i + 1) =~= bytes@.subrange(from as int, i as int).push(
            bytes@[i as int],
        ));
        i += 1;
    }
    out
}

fn find_argument_end(bytes: &Vec<u8>, from: usize) -> (end: usize)
    requires
        from <= bytes@.len(),
    ensures
        end == argument_end(bytes@, from as int),
        from <= end <= bytes@.len(),
{
    let mut i: usize = from;
    while i < bytes.len() && bytes[i] != 0
        invariant
            from <= i <= bytes@.len(),
            argument_end(bytes@, from as int) == argument_end(bytes@, i as int),
        decreases bytes@.len() - i,
    {
        i += 1;
    }
    i
}

/// The command that the arguments of a process spell, each ended by a zero byte.
pub fn parse_command_line(bytes: &Vec<u8>) -> (command: Option<String>)
    ensures
        text::optional_view(command) == command_of(bytes@),
{
    let mut arguments: Vec<String> = Vec::new();
    let mut from: usize = 0;
    let ghost mut done: Seq<Seq<u8>> = Seq::empty();
    while from < bytes.len()
        invariant
            text::views(arguments@) == decoded(done),
            done + arguments_from(bytes@, from as int) == arguments_from(bytes@, 0),
        decreases bytes@.len() - from,
    {
        let end: usize = find_argument_end(bytes, from);
        let ghost rest = arguments_from(bytes@, end + 1);
        if end > from {
            let ghost longer = done.push(bytes@.subrange(from as int, end as int));
            assert(longer + rest =~= done + arguments_from(bytes@, from as int));
            let ghost earlier = arguments@;
            arguments.push(decode_lossy(bytes_of(bytes, from, end).as_slice()));
            proof {
                assert(text::views(earlier).len() == decoded(done).len());
                assert forall|i: int| 0 <= i < longer.len() implies text::views(arguments@)[i]
                    == decoded(longer)[i] by {
                    if i < done.len() {
                        assert(text::views(earlier)[i] == decoded(done)[i]);
                    }
                }
                assert(text::views(arguments@) =~= decoded(longer));
            }
            proof {
                done = longer;
            }
        }
        if end == bytes.len() {
            from = end;
            assert(rest =~= Seq::empty());
            assert(arguments_from(bytes@, end as int) =~= Seq::empty());
        } else {
            from = end + 1;
        }
    }
    assert(done + arguments_from(bytes@, from as int) =~= done);
    join_arguments(&arguments)
}

/// The command that is shown: what the arguments spell, or else the executable.
pub open spec fn chosen_command(arguments: Option<Seq<u8>>, executable: Option<Seq<char>>) -> Option<
    Seq<char>,
> {
    match arguments {
        Some(bytes) => match command_of(bytes) {
            Some(text) => Some(text),
            None => executable,
        },
        None => executable,
    }
}

/// The command of a process: what its arguments spell, or else the program that it runs.
pub fn command_from(arguments: Option<Vec<u8>>, executable: Option<String>) -> (command: Option<
    String,
>)
    ensures
        text::optional_view(command) == chosen_command(
            match arguments {
                Some(bytes) => Some(bytes@),
                None => None,
            },
            text::optional_view(executable),
        ),
{
    match arguments {
        Some(bytes) => match parse_command_line(&bytes) {
            Some(text) => Some(text),
            None => executable,
        },
        None => executable,
    }
}

} // verus!
