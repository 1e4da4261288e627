//! Local time, written out.
use vstd::prelude::*;

use crate::numerals;
use crate::numerals::to_decimal;
use crate::text::characters;

verus! {

broadcast use vstd::string::group_string_axioms;

/// A moment broken down in the local time zone.
#[derive(Debug, Clone, Copy, PartialEq, Eq, Structural)]
pub struct LocalTime {
    pub year: i32,
    pub month: u8,
    pub day: u8,
    pub hour: u8,
    pub minute: u8,
    pub second: u8,
    /// Seconds east of UTC, including daylight saving time.
    pub utc_offset_seconds: i32,
}

/// A moment as the C library breaks it down: years since 1900, and months from 0.
#[derive(Debug, Clone, Copy, PartialEq, Eq, Structural)]
pub struct BrokenDownTime {
    pub years_since_1900: i32,
    pub month: i32,
    pub day: i32,
    pub hour: i32,
    pub minute: i32,
    pub second: i32,
    pub utc_offset_seconds: i64,
}

/// A number fits into eight bits.
pub open spec fn fits_byte(number: int) -> bool {
    0 <= number <= u8::MAX
}

impl BrokenDownTime {
    /// Every part can be held.
    pub open spec fn holdable(self) -> bool {
        &&& self.years_since_1900 + 1900 <= i32::MAX
        &&& fits_byte(self.month + 1)
        &&& fits_byte(self.day as int)
        &&& fits_byte(self.hour as int)
        &&& fits_byte(self.minute as int)
        &&& fits_byte(self.second as int)
        &&& i32::MIN <= self.utc_offset_seconds <= i32::MAX
    }
}

fn to_byte(number: i32) -> (byte: Option<u8>)
    ensures
        byte == if fits_byte(number as int) {
            Some(number as u8)
        } else {
            None
        },
{
    if 0 <= number && number <= 255 {
        Some(number as u8)
    } else {
        None
    }
}

/// `count` zeros.
pub open spec fn zeros(count: int) -> Seq<char> {
    Seq::new(
        if count > 0 {
            count as nat
        } else {
            0
        },
        |i: int| '0',
    )
}

/// A number in decimal digits, with zeros in front to make it as long as `width`.
pub open spec fn padded(number: nat, width: int) -> Seq<char> {
    zeros(width - numerals::decimal(number).len()) + numerals::decimal(number)
}

fn to_padded(number: u64, width: usize) -> (text: String)
    ensures
        text@ == padded(number as nat, width as int),
{
    let digits = to_decimal(number);
    let length: usize = characters(digits.as_str()).len();
    let mut text = String::new();
    let mut i: usize = length;
    assert(text@ =~= zeros(0));
    while i < width
        invariant
            length <= i,
            i <= width || i == length,
            length == numerals::decimal(number as nat).len(),
            text@ == zeros(i - length),
        decreases width - i,
    {
        text.push('0');
        assert(text@ =~= zeros(i + 1 - length));
        i += 1;
    }
    assert(text@ =~= zeros(width - length));
    text.append(digits.as_str());
    text
}

/// A year in at least four characters, its sign among them.
pub open spec fn year_text(year: i32) -> Seq<char> {
    if year < 0 {
        seq!['-'] + padded((-year) as nat, 3)
    } else {
        padded(year as nat, 4)
    }
}

/// How far a number is from zero.
pub open spec fn distance(number: i32) -> nat {
    if number < 0 {
        (-number) as nat
    } else {
        number as nat
    }
}

fn find_distance(number: i32) -> (away: u64)
    ensures
        away == distance(number),
{
    let wide: i64 = number as i64;
    if wide < 0 {
        (-wide) as u64
    } else {
        wide as u64
    }
}

fn write_year(year: i32) -> (text: String)
    ensures
        text@ == year_text(year),
{
    let away: u64 = find_distance(year);
    if year < 0 {
        let mut text = String::from_str("-");
        text.append(to_padded(away, 3).as_str());
        proof {
            reveal_strlit("-");
        }
        assert(text@ =~= seq!['-'] + padded((-year) as nat, 3));
        text
    } else {
        to_padded(away, 4)
    }
}

impl LocalTime {
    /// The local time in the parts that are held, where they can be.
    pub open spec fn of(time: BrokenDownTime) -> Option<LocalTime> {
        if time.holdable() {
            Some(
                LocalTime {
                    year: (time.years_since_1900 + 1900) as i32,
                    month: (time.month + 1) as u8,
                    day: time.day as u8,
                    hour: time.hour as u8,
                    minute: time.minute as u8,
                    second: time.second as u8,
                    utc_offset_seconds: time.utc_offset_seconds as i32,
                },
            )
        } else {
            None
        }
    }

    /// Takes over a moment as the C library breaks it down, where every part can be held.
    pub fn from_broken_down(time: BrokenDownTime) -> (result: Option<LocalTime>)
        ensures
            result == LocalTime::of(time),
    {
        if time.utc_offset_seconds < -0x8000_0000 || time.utc_offset_seconds > 0x7fff_ffff {
            return None;
        }
        if time.month == 0x7fff_ffff {
            return None;
        }
        match (
            time.years_since_1900.checked_add(1900),
            to_byte(time.month + 1),
            to_byte(time.day),
            to_byte(time.hour),
            to_byte(time.minute),
            to_byte(time.second),
        ) {
            (Some(year), Some(month), Some(day), Some(hour), Some(minute), Some(second)) => Some(
                LocalTime {
                    year,
                    month,
                    day,
                    hour,
                    minute,
                    second,
                    utc_offset_seconds: time.utc_offset_seconds as i32,
                },
            ),
            _ => None,
        }
    }

    /// Hours, minutes and seconds, two digits each, with colons between them.
    pub open spec fn clock_text(self) -> Seq<char> {
        padded(self.hour as nat, 2) + ":"@ + padded(self.minute as nat, 2) + ":"@ + padded(
            self.second as nat,
            2,
        )
    }

    pub fn clock(&self) -> (text: String)
        ensures
            text@ == self.clock_text(),
    {
        let mut text = to_padded(self.hour as u64, 2);
        text.append(":");
        text.append(to_padded(self.minute as u64, 2).as_str());
        text.append(":");
        text.append(to_padded(self.second as u64, 2).as_str());
        text
    }

    /// The sign of the offset from UTC.
    pub open spec fn sign_text(self) -> Seq<char> {
        if self.utc_offset_seconds < 0 {
            "-"@
        } else {
            "+"@
        }
    }

    /// The offset from UTC in whole minutes, without its sign.
    pub open spec fn offset_minutes(self) -> nat {
        distance(self.utc_offset_seconds) / 60
    }

    /// The date, the clock, and the offset from UTC in hours and minutes.
    pub open spec fn full_text(self) -> Seq<char> {
        year_text(self.year) + "-"@ + padded(self.month as nat, 2) + "-"@ + padded(
            self.day as nat,
            2,
        ) + " "@ + self.clock_text() + " "@ + self.sign_text() + padded(
            self.offset_minutes() / 60,
            2,
        ) + padded(self.offset_minutes() % 60, 2)
    }

    pub fn full(&self) -> (text: String)
        ensures
            text@ == self.full_text(),
    {
        let offset_minutes: u64 = find_distance(self.utc_offset_seconds) / 60;
        let mut text = write_year(self.year);
        text.append("-");
        text.append(to_padded(self.month as u64, 2).as_str());
        text.append("-");
        text.append(to_padded(self.day as u64, 2).as_str());
        text.append(" ");
        text.append(self.clock().as_str());
        text.append(" ");
        text.append(
            if self.utc_offset_seconds < 0 {
                "-"
            } else {
                "+"
            },
        );
        text.append(to_padded(offset_minutes / 60, 2).as_str());
        text.append(to_padded(offset_minutes % 60, 2).as_str());
        text
    }
}

} // verus!
