//! How much memory and file system space is in use.
use vstd::prelude::*;

use crate::linux::system::ByteUsage;
use crate::numerals;
use crate::numerals::parse_u64;
use crate::text;
use crate::text::{same_text, split_lines, split_once, split_words};

verus! {

broadcast use vstd::string::group_string_axioms;

/// The number that a line gives for `name`: its key is exactly `name`, and what follows the
/// colon starts with a number.
pub open spec fn named_value(line: Seq<char>, name: Seq<char>) -> Option<int> {
    match text::halves(line, ':') {
        Some((key, rest)) => if key == name && text::words(rest).len() > 0 {
            numerals::unsigned(text::words(rest)[0], u64::MAX as int)
        } else {
            None
        },
        None => None,
    }
}

/// The number given for `name` by the first line from `from` on that gives one.
pub open spec fn first_value(lines: Seq<Seq<char>>, from: int, name: Seq<char>) -> Option<int>
    decreases lines.len() - from,
{
    if from >= lines.len() {
        None
    } else if named_value(lines[from], name) is Some {
        named_value(lines[from], name)
    } else {
        first_value(lines, from + 1, name)
    }
}

fn read_named_value(line: &str, name: &str) -> (value: Option<u64>)
    ensures
        match value {
            Some(value) => named_value(line@, name@) == Some(value as int),
            None => named_value(line@, name@) is None,
        },
{
    match split_once(line, ':') {
        Some((key, rest)) => {
            if !same_text(key.as_str(), name) {
                return None;
            }
            let fields = split_words(rest.as_str());
            if fields.len() == 0 {
                return None;
            }
            assert(text::views(fields@)[0] == fields@[0]@);
            parse_u64(fields[0].as_str())
        },
        None => None,
    }
}

fn find_value(lines: &Vec<String>, name: &str) -> (value: Option<u64>)
    ensures
        match value {
            Some(value) => first_value(text::views(lines@), 0, name@) == Some(value as int),
            None => first_value(text::views(lines@), 0, name@) is None,
        },
{
    let mut i: usize = 0;
    while i < lines.len()
        invariant
            i <= lines@.len(),
            first_value(text::views(lines@), 0, name@) == first_value(text::views(lines@), i as int, name@),
        decreases lines@.len() - i,
    {
        assert(text::views(lines@)[i as int] == lines@[i as int]@);
        match read_named_value(lines[i].as_str(), name) {
            Some(value) => {
                return Some(value);
            },
            None => {},
        }
        i += 1;
    }
    None
}

/// So many kibibytes in bytes, where they can be counted.
pub open spec fn kibibytes(count: int) -> Option<int> {
    if count * 1024 <= u64::MAX {
        Some(count * 1024)
    } else {
        None
    }
}

/// All memory, in bytes.
pub open spec fn total_memory(contents: Seq<char>) -> Option<int> {
    match first_value(text::lines(contents), 0, "MemTotal"@) {
        Some(count) => kibibytes(count),
        None => None,
    }
}

/// All memory, in bytes.
pub fn parse_total_memory(contents: &str) -> (bytes: Option<u64>)
    ensures
        match bytes {
            Some(bytes) => total_memory(contents@) == Some(bytes as int),
            None => total_memory(contents@) is None,
        },
{
    match find_value(&split_lines(contents), "MemTotal") {
        Some(count) => count.checked_mul(1024),
        None => None,
    }
}

/// The kibibytes that can be had: what the kernel says of it, or else what is free, buffers
/// and cached together.
pub open spec fn available_kibibytes(lines: Seq<Seq<char>>) -> Option<int> {
    match first_value(lines, 0, "MemAvailable"@) {
        Some(count) => Some(count),
        None => match (
            first_value(lines, 0, "MemFree"@),
            first_value(lines, 0, "Buffers"@),
            first_value(lines, 0, "Cached"@),
        ) {
            (Some(free), Some(buffers), Some(cached)) => if free + buffers + cached <= u64::MAX {
                Some(free + buffers + cached)
            } else {
                None
            },
            _ => None,
        },
    }
}

fn find_available(lines: &Vec<String>) -> (count: Option<u64>)
    ensures
        match count {
            Some(count) => available_kibibytes(text::views(lines@)) == Some(count as int),
            None => available_kibibytes(text::views(lines@)) is None,
        },
{
    match find_value(lines, "MemAvailable") {
        Some(count) => {
            return Some(count);
        },
        None => {},
    }
    match (find_value(lines, "MemFree"), find_value(lines, "Buffers"), find_value(lines, "Cached")) {
        (Some(free), Some(buffers), Some(cached)) => match free.checked_add(buffers) {
            Some(sum) => sum.checked_add(cached),
            None => None,
        },
        _ => None,
    }
}

/// What is in use out of `total`, where `available` can be had: never less than nothing.
pub open spec fn usage(total: int, available: int) -> ByteUsage {
    ByteUsage {
        used: if total > available {
            (total - available) as u64
        } else {
            0
        },
        total: total as u64,
    }
}

/// The memory in use.
pub open spec fn memory_usage(contents: Seq<char>) -> Option<ByteUsage> {
    match (total_memory(contents), available_kibibytes(text::lines(contents))) {
        (Some(total), Some(available)) => match kibibytes(available) {
            Some(available) => Some(usage(total, available)),
            None => None,
        },
        _ => None,
    }
}

/// The memory in use.
pub fn parse_memory_usage(contents: &str) -> (result: Option<ByteUsage>)
    ensures
        result == memory_usage(contents@),
{
    let lines = split_lines(contents);
    match (find_value(&lines, "MemTotal"), find_available(&lines)) {
        (Some(total), Some(available)) => match (
            total.checked_mul(1024),
            available.checked_mul(1024),
        ) {
            (Some(total), Some(available)) => Some(
                ByteUsage { used: total.saturating_sub(available), total },
            ),
            _ => None,
        },
        _ => None,
    }
}

/// A file system as the kernel counts it.
#[derive(Debug, Clone, Copy, PartialEq, Eq, Structural)]
pub struct FilesystemStatistics {
    /// The unit in which blocks are counted, or 0.
    pub fragment_size: u64,
    pub block_size: u64,
    pub blocks: u64,
    pub available_blocks: u64,
}

/// So many blocks in bytes, or as many bytes as can be counted.
pub open spec fn capped_bytes(blocks: u64, size: u64) -> int {
    if blocks * size <= u64::MAX {
        blocks * size
    } else {
        u64::MAX as int
    }
}

impl FilesystemStatistics {
    /// The unit in which blocks are counted.
    pub open spec fn unit(self) -> u64 {
        if self.fragment_size == 0 {
            self.block_size
        } else {
            self.fragment_size
        }
    }
}

/// The space of a file system in use.
pub open spec fn space(statistics: FilesystemStatistics) -> ByteUsage {
    usage(
        capped_bytes(statistics.blocks, statistics.unit()),
        capped_bytes(statistics.available_blocks, statistics.unit()),
    )
}

fn count_bytes(blocks: u64, size: u64) -> (bytes: u64)
    ensures
        bytes == capped_bytes(blocks, size),
{
    match blocks.checked_mul(size) {
        Some(bytes) => bytes,
        None => u64::MAX,
    }
}

/// The space of a file system in use.
pub fn filesystem_usage(statistics: FilesystemStatistics) -> (result: ByteUsage)
    ensures
        result == space(statistics),
{
    let unit: u64 = if statistics.fragment_size == 0 {
        statistics.block_size
    } else {
        statistics.fragment_size
    };
    let total: u64 = count_bytes(statistics.blocks, unit);
    let available: u64 = count_bytes(statistics.available_blocks, unit);
    ByteUsage { used: total.saturating_sub(available), total }
}

/// Never more is in use than there is.
pub proof fn lemma_usage_within_total(contents: Seq<char>)
    ensures
        memory_usage(contents) matches Some(usage) ==> usage.used <= usage.total,
{
    lemma_first_value_range(text::lines(contents), 0, "MemAvailable"@);
    lemma_first_value_range(text::lines(contents), 0, "MemFree"@);
    lemma_first_value_range(text::lines(contents), 0, "Buffers"@);
    lemma_first_value_range(text::lines(contents), 0, "Cached"@);
    lemma_first_value_range(text::lines(contents), 0, "MemTotal"@);
}

proof fn lemma_first_value_range(lines: Seq<Seq<char>>, from: int, name: Seq<char>)
    requires
        0 <= from,
    ensures
        first_value(lines, from, name) matches Some(value) ==> 0 <= value <= u64::MAX,
    decreases lines.len() - from,
{
    if from < lines.len() {
        match text::halves(lines[from], ':') {
            Some((key, rest)) => {
                if text::words(rest).len() > 0 {
                    numerals::lemma_unsigned_range(text::words(rest)[0], u64::MAX as int);
                }
            },
            None => {},
        }
        lemma_first_value_range(lines, from + 1, name);
    }
}

} // verus!
