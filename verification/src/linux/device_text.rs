//! Reading what devices say of themselves.
use vstd::prelude::*;

use crate::numerals;
use crate::numerals::parse_u64;
use crate::text;
use crate::text::{characters, same_text, split_words, trim};

verus! {

broadcast use vstd::string::group_string_axioms;

/// A letter of the English alphabet made small; any other character as it is.
pub open spec fn small(c: char) -> char {
    if 'A' <= c <= 'Z' {
        ((c as int) + 32) as char
    } else {
        c
    }
}

/// A text with its English letters made small.
pub open spec fn small_letters(text: Seq<char>) -> Seq<char> {
    Seq::new(text.len(), |i: int| small(text[i]))
}

pub fn to_small_letters(text: &str) -> (out: String)
    ensures
        out@ == small_letters(text@),
{
    let chars = characters(text);
    let mut out = String::new();
    let mut i: usize = 0;
    while i < chars.len()
        invariant
            i <= chars@.len(),
            chars@ == text@,
            out@ == small_letters(text@).take(i as int),
        decreases chars@.len() - i,
    {
        let c = chars[i];
        let lower: char = if 'A' <= c && c <= 'Z' {
            (c as u8 + 32) as char
        } else {
            c
        };
        out.push(lower);
        assert(small_letters(text@).take(i + 1) =~= small_letters(text@).take(i as int).push(
            lower,
        ));
        i += 1;
    }
    assert(small_letters(text@).take(i as int) =~= small_letters(text@));
    out
}

/// A value that says something, without the white space around it. An empty one does not, nor
/// one that says it is unknown or not specified.
pub open spec fn meaningful_text(value: Option<Seq<char>>) -> Option<Seq<char>> {
    match value {
        Some(value) => {
            let value = text::trimmed(value);
            if value.len() == 0 || small_letters(value) == "unknown"@ || small_letters(value)
                == "not specified"@ {
                None
            } else {
                Some(value)
            }
        },
        None => None,
    }
}

pub fn meaningful(value: Option<String>) -> (result: Option<String>)
    ensures
        text::optional_view(result) == meaningful_text(text::optional_view(value)),
{
    match value {
        Some(value) => {
            let value = trim(value.as_str());
            let lower = to_small_letters(value.as_str());
            if value.as_str().is_empty() || same_text(lower.as_str(), "unknown") || same_text(
                lower.as_str(),
                "not specified",
            ) {
                None
            } else {
                Some(value)
            }
        },
        None => None,
    }
}

/// The first of the words from `from` on that is a number.
pub open spec fn number_among(words: Seq<Seq<char>>, from: int) -> Option<int>
    decreases words.len() - from,
{
    if from >= words.len() {
        None
    } else if numerals::unsigned(words[from], u64::MAX as int) is Some {
        numerals::unsigned(words[from], u64::MAX as int)
    } else {
        number_among(words, from + 1)
    }
}

/// The first number in a text.
pub fn first_number(value: &str) -> (number: Option<u64>)
    ensures
        match number {
            Some(number) => number_among(text::words(value@), 0) == Some(number as int),
            None => number_among(text::words(value@), 0) is None,
        },
{
    let parts = split_words(value);
    let mut i: usize = 0;
    while i < parts.len()
        invariant
            i <= parts@.len(),
            text::views(parts@) == text::words(value@),
            number_among(text::words(value@), 0) == number_among(text::words(value@), i as int),
        decreases parts@.len() - i,
    {
        assert(text::views(parts@)[i as int] == parts@[i as int]@);
        match parse_u64(parts[i].as_str()) {
            Some(number) => {
                return Some(number);
            },
            None => {},
        }
        i += 1;
    }
    None
}

/// The first of two values that is there.
pub open spec fn either<T>(first: Option<T>, second: Option<T>) -> Option<T> {
    match first {
        Some(value) => Some(value),
        None => second,
    }
}

pub fn pick(first: Option<String>, second: Option<String>) -> (value: Option<String>)
    ensures
        text::optional_view(value) == either(text::optional_view(first), text::optional_view(second)),
{
    match first {
        Some(value) => Some(value),
        None => second,
    }
}

/// Two values with a space between them, or the one that is there.
pub open spec fn pair_text(first: Option<Seq<char>>, second: Option<Seq<char>>) -> Seq<char> {
    match (first, second) {
        (Some(first), Some(second)) => first + seq![' '] + second,
        (Some(first), None) => first,
        (None, Some(second)) => second,
        (None, None) => Seq::empty(),
    }
}

/// Two values as one, where that says something.
pub fn join_nonempty(first: Option<String>, second: Option<String>) -> (joined: Option<String>)
    ensures
        text::optional_view(joined) == meaningful_text(
            Some(pair_text(text::optional_view(first), text::optional_view(second))),
        ),
{
    let text = match (first, second) {
        (Some(first), Some(second)) => {
            let mut text = first;
            text.push(' ');
            text.append(second.as_str());
            assert(text@ =~= first@ + seq![' '] + second@);
            text
        },
        (Some(first), None) => first,
        (None, Some(second)) => second,
        (None, None) => {
            let text = String::new();
            assert(text@ =~= Seq::empty());
            text
        },
    };
    meaningful(Some(text))
}

/// The value of a hexadecimal digit.
pub open spec fn hex_digit(c: char) -> Option<int> {
    if '0' <= c <= '9' {
        Some(c as int - '0' as int)
    } else if 'a' <= c <= 'f' {
        Some(c as int - 'a' as int + 10)
    } else if 'A' <= c <= 'F' {
        Some(c as int - 'A' as int + 10)
    } else {
        None
    }
}

/// The number that a row of hexadecimal digits writes.
pub open spec fn hex_value(digits: Seq<char>) -> Option<int>
    decreases digits.len(),
{
    if digits.len() == 0 {
        Some(0)
    } else {
        match (hex_value(digits.drop_last()), hex_digit(digits.last())) {
            (Some(high), Some(low)) => Some(high * 16 + low),
            _ => None,
        }
    }
}

/// A text without the `0x` in front of it, however often that stands there.
pub open spec fn without_hex_prefix(text: Seq<char>) -> Seq<char>
    decreases text.len(),
{
    if text.len() >= 2 && text[0] == '0' && text[1] == 'x' {
        without_hex_prefix(text.skip(2))
    } else {
        text
    }
}

/// The number of 32 bits that hexadecimal digits write, at least one of them, behind an
/// optional plus sign.
pub open spec fn hex_number(text: Seq<char>) -> Option<u32> {
    let digits = numerals::unsigned_digits(text);
    match hex_value(digits) {
        Some(value) => if digits.len() > 0 && value <= u32::MAX {
            Some(value as u32)
        } else {
            None
        },
        None => None,
    }
}

/// The number in a file that holds one in hexadecimal.
pub open spec fn hex_content(contents: Option<Seq<char>>) -> Option<u32> {
    match meaningful_text(contents) {
        Some(value) => hex_number(without_hex_prefix(value)),
        None => None,
    }
}

proof fn lemma_hex_value_grows(digits: Seq<char>, shorter: int)
    requires
        0 <= shorter <= digits.len(),
        hex_value(digits) is Some,
    ensures
        hex_value(digits.take(shorter)) is Some,
        0 <= hex_value(digits.take(shorter))->0 <= hex_value(digits)->0,
    decreases digits.len(),
{
    if shorter == digits.len() {
        assert(digits.take(shorter) =~= digits);
        if shorter > 0 {
            lemma_hex_value_grows(digits.drop_last(), shorter - 1);
            assert(digits.drop_last().take(shorter - 1) =~= digits.drop_last());
        }
    } else {
        assert(digits.take(shorter) =~= digits.drop_last().take(shorter));
        lemma_hex_value_grows(digits.drop_last(), shorter);
    }
}

fn read_hex_digit(c: char) -> (value: Option<u32>)
    ensures
        match value {
            Some(value) => hex_digit(c) == Some(value as int) && value < 16,
            None => hex_digit(c) is None,
        },
{
    if '0' <= c && c <= '9' {
        Some(c as u32 - '0' as u32)
    } else if 'a' <= c && c <= 'f' {
        Some(c as u32 - 'a' as u32 + 10)
    } else if 'A' <= c && c <= 'F' {
        Some(c as u32 - 'A' as u32 + 10)
    } else {
        None
    }
}

/// The number that the characters from `from` on write in hexadecimal.
fn read_hex_digits(chars: &Vec<char>, from: usize) -> (number: Option<u32>)
    requires
        from <= chars@.len(),
    ensures
        number == (match hex_value(chars@.skip(from as int)) {
            Some(value) => if from < chars@.len() && value <= u32::MAX {
                Some(value as u32)
            } else {
                None
            },
            None => None,
        }),
{
    let ghost digits = chars@.skip(from as int);
    if from == chars.len() {
        return None;
    }
    let mut number: u32 = 0;
    let mut i: usize = from;
    assert(digits.take(0) =~= Seq::empty());
    while i < chars.len()
        invariant
            from <= i <= chars@.len(),
            digits == chars@.skip(from as int),
            hex_value(digits.take(i - from)) == Some(number as int),
        decreases chars@.len() - i,
    {
        let ghost longer = digits.take(i - from + 1);
        proof {
            assert(longer.drop_last() =~= digits.take(i - from));
            assert(longer.last() == chars@[i as int]);
            if hex_value(digits) is Some {
                lemma_hex_value_grows(digits, i - from + 1);
            }
        }
        match read_hex_digit(chars[i]) {
            Some(unit) => {
                match number.checked_mul(16) {
                    Some(sixteens) => match sixteens.checked_add(unit) {
                        Some(sum) => {
                            number = sum;
                        },
                        None => {
                            return None;
                        },
                    },
                    None => {
                        return None;
                    },
                }
            },
            None => {
                return None;
            },
        }
        i += 1;
    }
    assert(digits.take(digits.len() as int) =~= digits);
    Some(number)
}

fn skip_hex_prefix(chars: &Vec<char>) -> (from: usize)
    ensures
        from <= chars@.len(),
        chars@.skip(from as int) == without_hex_prefix(chars@),
{
    let length: usize = chars.len();
    let mut from: usize = 0;
    assert(chars@.skip(0) =~= chars@);
    while length - from >= 2 && chars[from] == '0' && chars[from + 1] == 'x'
        invariant
            length == chars@.len(),
            from <= length,
            without_hex_prefix(chars@.skip(from as int)) == without_hex_prefix(chars@),
        decreases length - from,
    {
        assert(chars@.skip(from as int).skip(2) =~= chars@.skip(from + 2));
        from += 2;
    }
    from
}

/// The number in a file that holds one in hexadecimal.
pub fn parse_hex(contents: Option<String>) -> (number: Option<u32>)
    ensures
        number == hex_content(text::optional_view(contents)),
{
    match meaningful(contents) {
        Some(value) => {
            let chars = characters(value.as_str());
            let from: usize = skip_hex_prefix(&chars);
            assert(chars@.skip(from as int) == without_hex_prefix(value@));
            if from < chars.len() && chars[from] == '+' {
                assert(chars@.skip(from as int).skip(1) =~= chars@.skip(from + 1));
                read_hex_digits(&chars, from + 1)
            } else {
                read_hex_digits(&chars, from)
            }
        },
        None => None,
    }
}

/// The small hexadecimal digit for a value.
pub open spec fn hex_char(value: nat) -> char {
    if value < 10 {
        (value + 48) as char
    } else {
        (value + 87) as char
    }
}

/// A number in small hexadecimal digits, at least `width` of them.
pub open spec fn hex_text(number: nat, width: nat) -> Seq<char>
    decreases number, width,
{
    if number < 16 && width <= 1 {
        seq![hex_char(number)]
    } else {
        hex_text(
            number / 16,
            if width == 0 {
                0
            } else {
                (width - 1) as nat
            },
        ).push(hex_char(number % 16))
    }
}

fn hex_digit_of(value: u32) -> (c: char)
    requires
        value < 16,
    ensures
        c == hex_char(value as nat),
{
    let code: u8 = if value < 10 {
        48 + value as u8
    } else {
        87 + value as u8
    };
    code as char
}

/// A number in small hexadecimal digits, with zeros in front to make it as long as `width`.
pub fn to_hex(number: u32, width: u32) -> (text: String)
    ensures
        text@ == hex_text(number as nat, width as nat),
    decreases number, width,
{
    if number < 16 && width <= 1 {
        let mut text = String::new();
        text.push(hex_digit_of(number));
        assert(text@ =~= seq![hex_char(number as nat)]);
        text
    } else {
        let mut text = to_hex(
            number / 16,
            if width == 0 {
                0
            } else {
                width - 1
            },
        );
        text.push(hex_digit_of(number % 16));
        text
    }
}

} // verus!
