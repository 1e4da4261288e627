//! How fast disks are read and written.
use vstd::prelude::*;

use crate::linux::rate;
use crate::linux::rate::{find_sample, CounterSample, NamedCounters, NamedSample, Rate};
use crate::linux::storage;
use crate::linux::storage::is_whole_disk;
use crate::numerals;
use crate::numerals::parse_all;
use crate::text;
use crate::text::{split_lines, split_words};
use crate::time::Nanos;

verus! {

broadcast use vstd::string::group_string_axioms;

/// Sectors are counted in units of so many bytes, whatever those of the device are.
pub const SECTOR_BYTES: u64 = 512;

/// The counters of one disk.
#[derive(Debug, Clone, PartialEq, Eq)]
pub struct DiskRow {
    pub name: String,
    pub sectors_read: u64,
    pub sectors_written: u64,
}

/// The name and counters of a disk.
pub struct DiskCounters {
    pub name: Seq<char>,
    pub sectors_read: u64,
    pub sectors_written: u64,
}

impl View for DiskRow {
    type V = DiskCounters;

    open spec fn view(&self) -> DiskCounters {
        DiskCounters {
            name: self.name@,
            sectors_read: self.sectors_read,
            sectors_written: self.sectors_written,
        }
    }
}

/// The counters that a line gives of a whole disk. Behind two device numbers and the name stand
/// at least eleven counters, each a number: the third counts sectors read, the seventh sectors
/// written.
pub open spec fn disk_row(line: Seq<char>) -> Option<DiskCounters> {
    let fields = text::words(line);
    if fields.len() < 14 || !storage::whole_disk(fields[2]) {
        None
    } else {
        match numerals::all_unsigned(fields.subrange(3, 14)) {
            Some(counters) => Some(
                DiskCounters {
                    name: fields[2],
                    sectors_read: counters[2],
                    sectors_written: counters[6],
                },
            ),
            None => None,
        }
    }
}

/// The counters of all whole disks in the first `count` lines. Any other line is skipped.
pub open spec fn disk_rows(lines: Seq<Seq<char>>, count: nat) -> Seq<DiskCounters>
    decreases count,
{
    if count == 0 {
        Seq::empty()
    } else {
        match disk_row(lines[count - 1]) {
            Some(row) => disk_rows(lines, (count - 1) as nat).push(row),
            None => disk_rows(lines, (count - 1) as nat),
        }
    }
}

/// The counters in rows.
pub open spec fn row_views(rows: Seq<DiskRow>) -> Seq<DiskCounters> {
    Seq::new(rows.len(), |i: int| rows[i]@)
}

fn parse_disk_row(line: &str) -> (row: Option<DiskRow>)
    ensures
        match row {
            Some(row) => disk_row(line@) == Some(row@),
            None => disk_row(line@) is None,
        },
{
    let fields = split_words(line);
    if fields.len() < 14 {
        return None;
    }
    assert(text::views(fields@)[2] == fields@[2]@);
    if !is_whole_disk(fields[2].as_str()) {
        return None;
    }
    match parse_all(&fields, 3, 14) {
        Some(counters) => Some(
            DiskRow {
                name: fields[2].clone(),
                sectors_read: counters[2],
                sectors_written: counters[6],
            },
        ),
        None => None,
    }
}

/// The counters of all whole disks.
pub fn parse_diskstats(contents: &str) -> (rows: Vec<DiskRow>)
    ensures
        row_views(rows@) == disk_rows(text::lines(contents@), text::lines(contents@).len()),
{
    let lines = split_lines(contents);
    let ghost all = text::views(lines@);
    let mut rows: Vec<DiskRow> = Vec::new();
    let mut i: usize = 0;
    assert(row_views(rows@) =~= Seq::empty());
    while i < lines.len()
        invariant
            i <= lines@.len(),
            all == text::views(lines@),
            row_views(rows@) == disk_rows(all, i as nat),
        decreases lines@.len() - i,
    {
        assert(all[i as int] == lines@[i as int]@);
        let ghost before = rows@;
        match parse_disk_row(lines[i].as_str()) {
            Some(row) => {
                rows.push(row);
                assert(row_views(rows@) =~= row_views(before).push(row@));
            },
            None => {},
        }
        i += 1;
    }
    rows
}

/// The disks of the first `count` rows with their counters at `now`. Of rows with the same name
/// the first one counts.
pub open spec fn sampled_disks(rows: Seq<DiskCounters>, count: nat, now: Nanos) -> Seq<NamedCounters>
    decreases count,
{
    if count == 0 {
        Seq::empty()
    } else {
        let before = sampled_disks(rows, (count - 1) as nat, now);
        let row = rows[count - 1];
        if rate::known_sample(before, 0, row.name) is Some {
            before
        } else {
            before.push(
                NamedCounters {
                    name: row.name,
                    sample: CounterSample {
                        first: row.sectors_read,
                        second: row.sectors_written,
                        at: now,
                    },
                },
            )
        }
    }
}

/// How fast a disk was read and written, in sectors. There are no rates until a second sample
/// of the disk exists.
#[derive(Debug, Clone, PartialEq, Eq)]
pub struct DiskRates {
    pub name: String,
    pub rates: Option<(Rate, Rate)>,
}

/// The rates shown are those of `disks` since `previous`.
pub open spec fn rated(
    shown: Seq<DiskRates>,
    previous: Seq<NamedCounters>,
    disks: Seq<NamedCounters>,
) -> bool {
    &&& shown.len() == disks.len()
    &&& forall|i: int|
        0 <= i < shown.len() ==> (#[trigger] shown[i]).name@ == disks[i].name && shown[i].rates
            == rate::rates_between(rate::known_sample(previous, 0, disks[i].name), disks[i].sample)
}

/// Samples the disks again and again.
pub struct DiskIoSampler {
    /// One entry for each disk of the last sample.
    previous: Vec<NamedSample>,
}

impl View for DiskIoSampler {
    type V = Seq<NamedCounters>;

    closed spec fn view(&self) -> Seq<NamedCounters> {
        rate::named_views(self.previous@)
    }
}

impl Default for DiskIoSampler {
    fn default() -> (sampler: DiskIoSampler)
        ensures
            sampler@ == Seq::<NamedCounters>::empty(),
    {
        let sampler = DiskIoSampler { previous: Vec::new() };
        assert(sampler@ =~= Seq::<NamedCounters>::empty());
        sampler
    }
}

/// The disks that counters which may not have been read stand for.
pub open spec fn disks_read(contents: Option<String>, now: Nanos) -> Seq<NamedCounters> {
    match contents {
        Some(contents) => {
            let rows = disk_rows(text::lines(contents@), text::lines(contents@).len());
            sampled_disks(rows, rows.len(), now)
        },
        None => Seq::empty(),
    }
}

impl DiskIoSampler {
    /// The rates of all disks since the last sample, by the counters read at `now`. Where they
    /// could not be read nothing is remembered, so that no later rate spans the gap; and so it
    /// is for a disk that was gone in between.
    pub fn collect(&mut self, contents: Option<String>, now: Nanos) -> (disks: Vec<DiskRates>)
        ensures
            rated(disks@, old(self)@, disks_read(contents, now)),
            final(self)@ == disks_read(contents, now),
    {
        let contents = match contents {
            Some(contents) => contents,
            None => {
                self.previous = Vec::new();
                assert(self@ =~= Seq::<NamedCounters>::empty());
                return Vec::new();
            },
        };
        let rows = parse_diskstats(contents.as_str());
        let ghost counters = row_views(rows@);
        let mut next: Vec<NamedSample> = Vec::new();
        let mut disks: Vec<DiskRates> = Vec::new();
        let mut i: usize = 0;
        assert(rate::named_views(next@) =~= Seq::empty());
        while i < rows.len()
            invariant
                i <= rows@.len(),
                counters == row_views(rows@),
                self@ == old(self)@,
                self.previous@ == old(self).previous@,
                rate::named_views(next@) == sampled_disks(counters, i as nat, now),
                rated(disks@, old(self)@, rate::named_views(next@)),
            decreases rows@.len() - i,
        {
            let row = &rows[i];
            assert(counters[i as int] == row@);
            let ghost before = next@;
            if find_sample(&next, row.name.as_str()).is_none() {
                let sample = CounterSample::new(row.sectors_read, row.sectors_written, now);
                let rates = sample.rates_since(find_sample(&self.previous, row.name.as_str()));
                next.push(NamedSample { name: row.name.clone(), sample });
                disks.push(DiskRates { name: row.name.clone(), rates });
                assert(rate::named_views(next@) =~= rate::named_views(before).push(
                    NamedCounters { name: row.name@, sample },
                ));
            }
            i += 1;
        }
        self.previous = next;
        disks
    }
}

/// A disk that was not in the sample before has no rates, whatever its counters say: neither a
/// new disk nor one that came back is charged with what it did unseen.
pub proof fn lemma_unseen_disk_has_no_rates(
    previous: Seq<NamedCounters>,
    name: Seq<char>,
    sample: CounterSample,
)
    requires
        forall|i: int| 0 <= i < previous.len() ==> (#[trigger] previous[i]).name != name,
    ensures
        rate::rates_between(rate::known_sample(previous, 0, name), sample) is None,
{
    rate::lemma_unknown(previous, 0, name);
}

/// No rate spans a gap: a disk that was not in the sample before, or whose counters could not be
/// read then, has no rates in the next one.
pub proof fn lemma_no_rate_spans_a_gap(
    earlier: Option<String>,
    then: Nanos,
    later: Option<String>,
    now: Nanos,
    shown: Seq<DiskRates>,
    i: int,
)
    requires
        rated(shown, disks_read(earlier, then), disks_read(later, now)),
        0 <= i < shown.len(),
        earlier is None || forall|j: int|
            0 <= j < disks_read(earlier, then).len() ==> (#[trigger] disks_read(
                earlier,
                then,
            )[j]).name != shown[i].name@,
    ensures
        shown[i].rates is None,
{
    let disk = disks_read(later, now)[i];
    lemma_unseen_disk_has_no_rates(disks_read(earlier, then), disk.name, disk.sample);
}

/// No name is listed twice.
pub proof fn lemma_disks_are_distinct(rows: Seq<DiskCounters>, count: nat, now: Nanos)
    ensures
        ({
            let disks = sampled_disks(rows, count, now);
            forall|i: int, j: int|
                0 <= i < j < disks.len() ==> (#[trigger] disks[i]).name != (
                #[trigger] disks[j]).name
        }),
    decreases count,
{
    if count > 0 {
        lemma_disks_are_distinct(rows, (count - 1) as nat, now);
        let before = sampled_disks(rows, (count - 1) as nat, now);
        let name = rows[count - 1].name;
        if rate::known_sample(before, 0, name) is None {
            assert forall|i: int| 0 <= i < before.len() implies (#[trigger] before[i]).name
                != name by {
                if before[i].name == name {
                    rate::lemma_known(before, 0, i, name);
                }
            }
        }
    }
}

} // verus!
