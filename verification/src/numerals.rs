//! Numbers written out in digits.
use vstd::prelude::*;

use crate::text;
use crate::text::characters;

verus! {

pub open spec fn digit(c: char) -> bool {
    '0' <= c <= '9'
}

/// What a digit counts.
pub open spec fn digit_value(c: char) -> int {
    c as int - '0' as int
}

pub fn is_digit(c: char) -> (result: bool)
    ensures
        result == digit(c),
{
    '0' <= c && c <= '9'
}

/// Every character is a digit.
pub open spec fn all_digits(text: Seq<char>) -> bool {
    forall|i: int| 0 <= i < text.len() ==> digit(#[trigger] text[i])
}

/// Whether every character is a digit.
pub fn has_only_digits(text: &str) -> (result: bool)
    ensures
        result == all_digits(text@),
{
    let chars = characters(text);
    let mut i: usize = 0;
    while i < chars.len()
        invariant
            i <= chars@.len(),
            chars@ == text@,
            forall|j: int| 0 <= j < i ==> digit(#[trigger] text@[j]),
        decreases chars@.len() - i,
    {
        if !is_digit(chars[i]) {
            assert(!digit(text@[i as int]));
            return false;
        }
        i += 1;
    }
    true
}

/// The number that a row of digits writes.
pub open spec fn value(digits: Seq<char>) -> int
    decreases digits.len(),
{
    if digits.len() == 0 {
        0
    } else {
        value(digits.drop_last()) * 10 + digit_value(digits.last())
    }
}

pub proof fn lemma_value_grows(digits: Seq<char>, shorter: int)
    requires
        all_digits(digits),
        0 <= shorter <= digits.len(),
    ensures
        0 <= value(digits.take(shorter)) <= value(digits),
    decreases digits.len(),
{
    if digits.len() == 0 {
        assert(digits.take(shorter) =~= digits);
    } else if shorter == digits.len() {
        assert(digits.take(shorter) =~= digits);
        lemma_value_grows(digits.drop_last(), 0);
        assert(digit(digits.last()));
        assert(digits.drop_last().take(0) =~= Seq::empty());
    } else {
        assert(digits.take(shorter) =~= digits.drop_last().take(shorter));
        lemma_value_grows(digits.drop_last(), shorter);
        assert(digit(digits.last()));
    }
}

/// The digits of an unsigned number, behind an optional plus sign.
pub open spec fn unsigned_digits(text: Seq<char>) -> Seq<char> {
    if text.len() > 0 && text[0] == '+' {
        text.skip(1)
    } else {
        text
    }
}

/// The unsigned number that a text writes, where it writes one that is at most `max`: at least
/// one digit, nothing but digits, and a plus sign in front at most.
pub open spec fn unsigned(text: Seq<char>, max: int) -> Option<int> {
    let digits = unsigned_digits(text);
    if digits.len() > 0 && all_digits(digits) && value(digits) <= max {
        Some(value(digits))
    } else {
        None
    }
}

/// An unsigned number that a text writes is not negative and within its bound.
pub proof fn lemma_unsigned_range(text: Seq<char>, max: int)
    ensures
        unsigned(text, max) is Some ==> 0 <= unsigned(text, max)->0 <= max,
{
    let digits = unsigned_digits(text);
    if all_digits(digits) {
        lemma_value_grows(digits, 0);
        assert(digits.take(0) =~= Seq::empty());
    }
}

/// The signed number of 64 bits that a text writes, where it writes one.
pub open spec fn signed(text: Seq<char>) -> Option<int> {
    if text.len() > 0 && text[0] == '-' {
        let digits = text.skip(1);
        if digits.len() > 0 && all_digits(digits) && -value(digits) >= i64::MIN {
            Some(-value(digits))
        } else {
            None
        }
    } else {
        unsigned(text, i64::MAX as int)
    }
}

/// The number written by the characters from `from` on, where all are digits and it fits.
fn read_digits(chars: &Vec<char>, from: usize) -> (number: Option<u64>)
    requires
        from <= chars@.len(),
    ensures
        match number {
            Some(number) => {
                &&& from < chars@.len()
                &&& all_digits(chars@.skip(from as int))
                &&& value(chars@.skip(from as int)) == number
            },
            None => {
                ||| from == chars@.len()
                ||| !all_digits(chars@.skip(from as int))
                ||| value(chars@.skip(from as int)) > u64::MAX
            },
        },
{
    let ghost digits = chars@.skip(from as int);
    if from == chars.len() {
        return None;
    }
    let mut number: u64 = 0;
    let mut i: usize = from;
    proof {
        assert(digits.take(0) =~= Seq::empty());
    }
    while i < chars.len()
        invariant
            from <= i <= chars@.len(),
            digits == chars@.skip(from as int),
            forall|j: int| 0 <= j < i - from ==> digit(#[trigger] digits[j]),
            number == value(digits.take(i - from)),
        decreases chars@.len() - i,
    {
        let c = chars[i];
        assert(digits[i - from] == c);
        if !is_digit(c) {
            assert(!digit(digits[i - from]));
            return None;
        }
        let unit: u64 = (c as u32 - '0' as u32) as u64;
        proof {
            let longer = digits.take(i - from + 1);
            assert(longer.drop_last() =~= digits.take(i - from));
            assert(longer.last() == c);
            assert(value(longer) == number * 10 + unit);
            if all_digits(digits) {
                lemma_value_grows(digits, i - from + 1);
            }
        }
        number = match number.checked_mul(10) {
            Some(tens) => match tens.checked_add(unit) {
                Some(sum) => sum,
                None => {
                    return None;
                },
            },
            None => {
                return None;
            },
        };
        i += 1;
    }
    assert(digits.take(digits.len() as int) =~= digits);
    Some(number)
}

/// The unsigned number of 64 bits that a text writes.
pub fn parse_u64(text: &str) -> (number: Option<u64>)
    ensures
        number matches Some(n) ==> unsigned(text@, u64::MAX as int) == Some(n as int),
        number is None ==> unsigned(text@, u64::MAX as int) is None,
{
    let chars = characters(text);
    assert(chars@.skip(0) =~= chars@);
    if chars.len() > 0 && chars[0] == '+' {
        read_digits(&chars, 1)
    } else {
        read_digits(&chars, 0)
    }
}

/// The unsigned number of 32 bits that a text writes.
pub fn parse_u32(text: &str) -> (number: Option<u32>)
    ensures
        number matches Some(n) ==> unsigned(text@, u32::MAX as int) == Some(n as int),
        number is None ==> unsigned(text@, u32::MAX as int) is None,
{
    match parse_u64(text) {
        Some(number) => if number <= u32::MAX as u64 {
            Some(number as u32)
        } else {
            None
        },
        None => None,
    }
}

/// The signed number of 64 bits that a text writes.
pub fn parse_i64(text: &str) -> (number: Option<i64>)
    ensures
        number matches Some(n) ==> signed(text@) == Some(n as int),
        number is None ==> signed(text@) is None,
{
    let chars = characters(text);
    if chars.len() > 0 && chars[0] == '-' {
        match read_digits(&chars, 1) {
            Some(number) => if number <= 0x7fff_ffff_ffff_ffff {
                Some(-(number as i64))
            } else if number == 0x8000_0000_0000_0000 {
                Some(i64::MIN)
            } else {
                None
            },
            None => None,
        }
    } else {
        match parse_u64(text) {
            Some(number) => if number <= 0x7fff_ffff_ffff_ffff {
                Some(number as i64)
            } else {
                None
            },
            None => None,
        }
    }
}

/// What the numbers of a sequence add up to.
pub open spec fn total(numbers: Seq<u64>) -> int
    decreases numbers.len(),
{
    if numbers.len() == 0 {
        0
    } else {
        total(numbers.drop_last()) + numbers.last()
    }
}

pub proof fn lemma_total_grows(numbers: Seq<u64>, shorter: int)
    requires
        0 <= shorter <= numbers.len(),
    ensures
        0 <= total(numbers.take(shorter)) <= total(numbers),
    decreases numbers.len(),
{
    if shorter == numbers.len() {
        assert(numbers.take(shorter) =~= numbers);
        if shorter > 0 {
            lemma_total_grows(numbers.drop_last(), shorter - 1);
        }
    } else {
        assert(numbers.take(shorter) =~= numbers.drop_last().take(shorter));
        lemma_total_grows(numbers.drop_last(), shorter);
    }
}

/// What numbers add up to, where it fits.
pub fn checked_total(numbers: &Vec<u64>) -> (sum: Option<u64>)
    ensures
        match sum {
            Some(sum) => total(numbers@) == sum,
            None => total(numbers@) > u64::MAX,
        },
{
    let mut sum: u64 = 0;
    let mut i: usize = 0;
    assert(numbers@.take(0) =~= Seq::empty());
    while i < numbers.len()
        invariant
            i <= numbers@.len(),
            sum == total(numbers@.take(i as int)),
        decreases numbers@.len() - i,
    {
        proof {
            assert(numbers@.take(i + 1).drop_last() =~= numbers@.take(i as int));
            lemma_total_grows(numbers@, i + 1);
        }
        match sum.checked_add(numbers[i]) {
            Some(next) => {
                sum = next;
            },
            None => {
                return None;
            },
        }
        i += 1;
    }
    assert(numbers@.take(i as int) =~= numbers@);
    Some(sum)
}

/// The numbers that texts write, where each writes one.
pub open spec fn all_unsigned(texts: Seq<Seq<char>>) -> Option<Seq<u64>> {
    if forall|i: int|
        0 <= i < texts.len() ==> unsigned(#[trigger] texts[i], u64::MAX as int) is Some {
        Some(Seq::new(texts.len(), |i: int| unsigned(texts[i], u64::MAX as int)->0 as u64))
    } else {
        None
    }
}

/// The numbers that the texts from `from` up to `to` write, where each writes one.
pub fn parse_all(texts: &Vec<String>, from: usize, to: usize) -> (numbers: Option<Vec<u64>>)
    requires
        from <= to <= texts@.len(),
    ensures
        match numbers {
            Some(numbers) => all_unsigned(text::views(texts@).subrange(from as int, to as int))
                == Some(numbers@),
            None => all_unsigned(text::views(texts@).subrange(from as int, to as int)) is None,
        },
{
    let ghost part = text::views(texts@).subrange(from as int, to as int);
    let mut numbers: Vec<u64> = Vec::new();
    let mut i: usize = from;
    while i < to
        invariant
            from <= i <= to <= texts@.len(),
            part == text::views(texts@).subrange(from as int, to as int),
            numbers@.len() == i - from,
            forall|j: int|
                0 <= j < i - from ==> unsigned(#[trigger] part[j], u64::MAX as int) == Some(
                    numbers@[j] as int,
                ),
        decreases to - i,
    {
        assert(part[i - from] == texts@[i as int]@);
        match parse_u64(texts[i].as_str()) {
            Some(number) => {
                numbers.push(number);
            },
            None => {
                assert(unsigned(part[i - from], u64::MAX as int) is None);
                return None;
            },
        }
        i += 1;
    }
    assert(numbers@ =~= all_unsigned(part)->0);
    Some(numbers)
}

/// The decimal digits of a number.
pub open spec fn decimal(number: nat) -> Seq<char>
    decreases number,
{
    if number < 10 {
        seq![digit_char(number)]
    } else {
        decimal(number / 10).push(digit_char(number % 10))
    }
}

/// The digit that counts `unit`.
pub open spec fn digit_char(unit: nat) -> char {
    (unit + 48) as char
}

fn digit_of(unit: u64) -> (c: char)
    requires
        unit < 10,
    ensures
        c == digit_char(unit as nat),
        digit(c),
        digit_value(c) == unit,
{
    let code: u8 = 48 + unit as u8;
    code as char
}

/// A number written in decimal digits.
pub fn to_decimal(number: u64) -> (text: String)
    ensures
        text@ == decimal(number as nat),
    decreases number,
{
    if number < 10 {
        let mut text = String::new();
        text.push(digit_of(number));
        assert(text@ =~= decimal(number as nat));
        text
    } else {
        let mut text = to_decimal(number / 10);
        text.push(digit_of(number % 10));
        text
    }
}

/// What is written in decimal reads back as the same number.
pub proof fn lemma_decimal_reads_back(number: nat)
    ensures
        decimal(number).len() > 0,
        all_digits(decimal(number)),
        value(decimal(number)) == number,
    decreases number,
{
    if number < 10 {
        let text = decimal(number);
        assert(text.drop_last() =~= Seq::empty());
        assert(digit_value(text.last()) == number);
        assert(value(text) == value(text.drop_last()) * 10 + digit_value(text.last()));
    } else {
        lemma_decimal_reads_back(number / 10);
        let text = decimal(number);
        assert(text.drop_last() =~= decimal(number / 10));
        assert(digit_value(text.last()) == number % 10);
    }
}

} // verus!
