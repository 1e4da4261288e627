//! Text as sequences of characters: splitting, trimming, searching and reading numbers.
use vstd::prelude::*;

verus! {

broadcast use vstd::string::group_string_axioms;

/// `String::push` adds one character at the end.
pub assume_specification[ String::push ](string: &mut String, character: char)
    ensures
        final(string)@ == old(string)@.push(character),
;

/// `String::pop` takes the last character off, where there is one.
pub assume_specification[ String::pop ](string: &mut String) -> (last: Option<char>)
    ensures
        old(string)@.len() == 0 ==> last is None && final(string)@ == old(string)@,
        old(string)@.len() > 0 ==> last == Some(old(string)@.last()) && final(string)@ == old(
            string,
        )@.drop_last(),
;

/// What `str::to_lowercase` makes of a text.
pub uninterp spec fn lowercase(text: Seq<char>) -> Seq<char>;

/// Calls `str::to_lowercase`: the result is a function of the text alone, and the empty text
/// has the empty result. Which character becomes which is left to the Unicode tables.
#[verifier::external_body]
pub(crate) fn to_lowercase(text: &str) -> (lower: String)
    ensures
        lower@ == lowercase(text@),
        text@.len() == 0 ==> lower@.len() == 0,
{
    text.to_lowercase()
}

/// What `String::from_utf8_lossy` makes of bytes.
pub uninterp spec fn lossy(bytes: Seq<u8>) -> Seq<char>;

/// Calls `String::from_utf8_lossy`: bytes that are valid UTF-8 are decoded as they stand, others
/// in a way that is a function of the bytes alone and left to the standard library.
#[verifier::external_body]
pub(crate) fn decode_lossy(bytes: &[u8]) -> (text: String)
    ensures
        text@ == lossy(bytes@),
        vstd::utf8::valid_utf8(bytes@) ==> text@ == vstd::utf8::decode_utf8(bytes@),
{
    String::from_utf8_lossy(bytes).into_owned()
}

/// The texts that a vector of strings holds.
pub open spec fn views(strings: Seq<String>) -> Seq<Seq<char>> {
    Seq::new(strings.len(), |i: int| strings[i]@)
}

/// The position of the first `wanted` from `from` on, or the end of the text.
pub open spec fn position_from(text: Seq<char>, from: int, wanted: char) -> int
    decreases text.len() - from,
{
    if from >= text.len() {
        text.len() as int
    } else if text[from] == wanted {
        from
    } else {
        position_from(text, from + 1, wanted)
    }
}

/// A position is the first one that holds `wanted` exactly if it does and none before it does.
pub proof fn lemma_position_from(text: Seq<char>, from: int, wanted: char)
    requires
        0 <= from <= text.len(),
    ensures
        from <= position_from(text, from, wanted) <= text.len(),
        forall|i: int| from <= i < position_from(text, from, wanted) ==> text[i] != wanted,
        position_from(text, from, wanted) < text.len() ==> text[position_from(text, from, wanted)]
            == wanted,
    decreases text.len() - from,
{
    if from < text.len() && text[from] != wanted {
        lemma_position_from(text, from + 1, wanted);
    }
}

/// The first position from `from` on that is white space (or, with `white` false, that is
/// not), or the end of the text.
pub open spec fn gap_from(text: Seq<char>, from: int, white: bool) -> int
    decreases text.len() - from,
{
    if from >= text.len() {
        text.len() as int
    } else if whitespace(text[from]) == white {
        from
    } else {
        gap_from(text, from + 1, white)
    }
}

pub proof fn lemma_gap_from(text: Seq<char>, from: int, white: bool)
    requires
        0 <= from <= text.len(),
    ensures
        from <= gap_from(text, from, white) <= text.len(),
        forall|i: int|
            from <= i < gap_from(text, from, white) ==> whitespace(#[trigger] text[i]) != white,
        gap_from(text, from, white) < text.len() ==> whitespace(text[gap_from(text, from, white)])
            == white,
    decreases text.len() - from,
{
    if from < text.len() && whitespace(text[from]) != white {
        lemma_gap_from(text, from + 1, white);
    }
}

/// The characters of a text, one by one.
pub fn characters(text: &str) -> (out: Vec<char>)
    ensures
        out@ == text@,
{
    let mut out: Vec<char> = Vec::new();
    for c in it: text.chars()
        invariant
            out@ == text@.take(it.index()),
            it.seq() == text@,
    {
        out.push(c);
        assert(text@.take(it.index() + 1) =~= text@.take(it.index()).push(c));
    }
    assert(text@.take(text@.len() as int) =~= text@);
    out
}

/// The string made of the characters from `from` up to `to`.
pub fn string_of(chars: &Vec<char>, from: usize, to: usize) -> (out: String)
    requires
        from <= to <= chars@.len(),
    ensures
        out@ == chars@.subrange(from as int, to as int),
{
    let mut out = String::new();
    let mut i: usize = from;
    while i < to
        invariant
            from <= i <= to <= chars@.len(),
            out@ == chars@.subrange(from as int, i as int),
        decreases to - i,
    {
        out.push(chars[i]);
        assert(chars@.subrange(from as int, i + 1) =~= chars@.subrange(from as int, i as int).push(
            chars@[i as int],
        ));
        i += 1;
    }
    out
}

/// Two texts have the same characters.
pub fn same_text(left: &str, right: &str) -> (same: bool)
    ensures
        same == (left@ == right@),
{
    same_chars(&characters(left), &characters(right))
}

pub fn same_chars(left: &Vec<char>, right: &Vec<char>) -> (same: bool)
    ensures
        same == (left@ == right@),
{
    if left.len() != right.len() {
        return false;
    }
    let mut i: usize = 0;
    while i < left.len()
        invariant
            i <= left@.len() == right@.len(),
            forall|j: int| 0 <= j < i ==> left@[j] == right@[j],
        decreases left@.len() - i,
    {
        if left[i] != right[i] {
            assert(left@[i as int] != right@[i as int]);
            return false;
        }
        i += 1;
    }
    assert(left@ =~= right@);
    true
}

/// Two optional texts are both missing or hold the same characters.
pub fn same_optional_text(left: &Option<String>, right: &Option<String>) -> (same: bool)
    ensures
        same == (optional_view(*left) == optional_view(*right)),
{
    match (left, right) {
        (Some(left), Some(right)) => same_text(left.as_str(), right.as_str()),
        (None, None) => true,
        _ => false,
    }
}

/// The text that an optional string holds.
pub open spec fn optional_view(text: Option<String>) -> Option<Seq<char>> {
    match text {
        Some(text) => Some(text@),
        None => None,
    }
}

/// A copy of an optional string.
pub fn copy_optional_text(text: &Option<String>) -> (copy: Option<String>)
    ensures
        copy == *text,
{
    match text {
        Some(text) => Some(text.clone()),
        None => None,
    }
}

/// White space as Unicode lists it.
pub open spec fn whitespace(c: char) -> bool {
    ||| '\u{9}' <= c <= '\u{d}'
    ||| c == ' '
    ||| c == '\u{85}'
    ||| c == '\u{a0}'
    ||| c == '\u{1680}'
    ||| '\u{2000}' <= c <= '\u{200a}'
    ||| c == '\u{2028}'
    ||| c == '\u{2029}'
    ||| c == '\u{202f}'
    ||| c == '\u{205f}'
    ||| c == '\u{3000}'
}

pub fn is_whitespace(c: char) -> (result: bool)
    ensures
        result == whitespace(c),
{
    ('\u{9}' <= c && c <= '\u{d}') || c == ' ' || c == '\u{85}' || c == '\u{a0}' || c == '\u{1680}'
        || ('\u{2000}' <= c && c <= '\u{200a}') || c == '\u{2028}' || c == '\u{2029}' || c
        == '\u{202f}' || c == '\u{205f}' || c == '\u{3000}'
}

/// Control characters: the C0 and C1 blocks and delete.
pub open spec fn control(c: char) -> bool {
    c <= '\u{1f}' || '\u{7f}' <= c <= '\u{9f}'
}

pub fn is_control(c: char) -> (result: bool)
    ensures
        result == control(c),
{
    c <= '\u{1f}' || ('\u{7f}' <= c && c <= '\u{9f}')
}

/// The position of the first `wanted` from `from` on, or the end.
pub fn find_from(chars: &Vec<char>, from: usize, wanted: char) -> (at: usize)
    requires
        from <= chars@.len(),
    ensures
        at == position_from(chars@, from as int, wanted),
        from <= at <= chars@.len(),
{
    let mut i: usize = from;
    while i < chars.len() && chars[i] != wanted
        invariant
            from <= i <= chars@.len(),
            position_from(chars@, from as int, wanted) == position_from(chars@, i as int, wanted),
        decreases chars@.len() - i,
    {
        i += 1;
    }
    i
}

/// The position of the first white space (or, with `white` false, of the first other
/// character) from `from` on, or the end.
pub fn find_whitespace(chars: &Vec<char>, from: usize, white: bool) -> (at: usize)
    requires
        from <= chars@.len(),
    ensures
        at == gap_from(chars@, from as int, white),
        from <= at <= chars@.len(),
{
    let mut i: usize = from;
    while i < chars.len() && is_whitespace(chars[i]) != white
        invariant
            from <= i <= chars@.len(),
            gap_from(chars@, from as int, white) == gap_from(chars@, i as int, white),
        decreases chars@.len() - i,
    {
        i += 1;
    }
    i
}

/// Where the line that starts at `start` ends, its line break not counted.
pub open spec fn line_end(text: Seq<char>, start: int) -> int {
    position_from(text, start, '\n')
}

/// The line from `start` to the break at `end`; a carriage return belongs to the break.
pub open spec fn line_text(text: Seq<char>, start: int, end: int) -> Seq<char> {
    if end < text.len() && start < end && text[end - 1] == '\r' {
        text.subrange(start, end - 1)
    } else {
        text.subrange(start, end)
    }
}

pub open spec fn lines_from(text: Seq<char>, start: int) -> Seq<Seq<char>>
    decreases text.len() + 1 - start,
    when 0 <= start
    via lines_decrease
{
    if start >= text.len() {
        Seq::empty()
    } else {
        let end = line_end(text, start);
        seq![line_text(text, start, end)] + lines_from(text, end + 1)
    }
}

#[via_fn]
proof fn lines_decrease(text: Seq<char>, start: int) {
    if start < text.len() {
        lemma_position_from(text, start, '\n');
    }
}

/// The lines of a text, without their line breaks. A break at the very end starts no line.
pub open spec fn lines(text: Seq<char>) -> Seq<Seq<char>> {
    lines_from(text, 0)
}

pub fn split_lines(text: &str) -> (out: Vec<String>)
    ensures
        views(out@) == lines(text@),
{
    let chars = characters(text);
    let mut out: Vec<String> = Vec::new();
    let mut start: usize = 0;
    while start < chars.len()
        invariant
            chars@ == text@,
            views(out@) + lines_from(text@, start as int) == lines(text@),
        decreases chars@.len() - start,
    {
        let end: usize = find_from(&chars, start, '\n');
        let stop: usize = if end < chars.len() && start < end && chars[end - 1] == '\r' {
            end - 1
        } else {
            end
        };
        let line = string_of(&chars, start, stop);
        let ghost before = out@;
        out.push(line);
        proof {
            assert(line@ == line_text(text@, start as int, end as int));
            assert(views(out@) =~= views(before).push(line@));
            assert(views(out@) + lines_from(text@, end + 1) =~= views(before) + lines_from(
                text@,
                start as int,
            ));
        }
        if end == chars.len() {
            assert(lines_from(text@, end + 1) =~= Seq::empty());
            assert(views(out@) =~= lines(text@));
            return out;
        }
        start = end + 1;
    }
    assert(views(out@) =~= lines(text@));
    out
}

pub open spec fn words_from(text: Seq<char>, from: int) -> Seq<Seq<char>>
    decreases text.len() - from,
    when 0 <= from <= text.len()
    via words_decrease
{
    let start = gap_from(text, from, false);
    if start >= text.len() {
        Seq::empty()
    } else {
        let end = gap_from(text, start, true);
        seq![text.subrange(start, end)] + words_from(text, end)
    }
}

#[via_fn]
proof fn words_decrease(text: Seq<char>, from: int) {
    lemma_gap_from(text, from, false);
    let start = gap_from(text, from, false);
    if start < text.len() {
        lemma_gap_from(text, start, true);
    }
}

/// The words of a text: its longest stretches without white space.
pub open spec fn words(text: Seq<char>) -> Seq<Seq<char>> {
    words_from(text, 0)
}

/// The words of the characters from `from` on.
pub fn split_words_from(chars: &Vec<char>, from: usize) -> (out: Vec<String>)
    requires
        from <= chars@.len(),
    ensures
        views(out@) == words_from(chars@, from as int),
{
    let mut out: Vec<String> = Vec::new();
    let mut start: usize = find_whitespace(chars, from, false);
    let mut at: usize = from;
    assert(views(out@) =~= Seq::empty());
    assert(views(out@) + words_from(chars@, at as int) =~= words_from(chars@, from as int));
    while start < chars.len()
        invariant
            from <= at <= start <= chars@.len(),
            start == gap_from(chars@, at as int, false),
            views(out@) + words_from(chars@, at as int) == words_from(chars@, from as int),
        decreases chars@.len() - at,
    {
        let end: usize = find_whitespace(chars, start, true);
        proof {
            lemma_gap_from(chars@, at as int, false);
            lemma_gap_from(chars@, start as int, true);
        }
        let word = string_of(chars, start, end);
        let ghost before = out@;
        out.push(word);
        proof {
            assert(views(out@) =~= views(before).push(word@));
            assert(views(out@) + words_from(chars@, end as int) =~= views(before) + words_from(
                chars@,
                at as int,
            ));
        }
        at = end;
        start = find_whitespace(chars, at, false);
    }
    assert(views(out@) =~= words_from(chars@, from as int));
    out
}

pub fn split_words(text: &str) -> (out: Vec<String>)
    ensures
        views(out@) == words(text@),
{
    split_words_from(&characters(text), 0)
}

/// Where a text ends once the white space at its end is gone.
pub open spec fn trimmed_end(text: Seq<char>) -> int
    decreases text.len(),
{
    if text.len() == 0 || !whitespace(text.last()) {
        text.len() as int
    } else {
        trimmed_end(text.drop_last())
    }
}

/// A text without the white space around it.
pub open spec fn trimmed(text: Seq<char>) -> Seq<char> {
    let end = trimmed_end(text);
    let start = gap_from(text, 0, false);
    if start >= end {
        Seq::empty()
    } else {
        text.subrange(start, end)
    }
}

proof fn lemma_trimmed_end(text: Seq<char>, end: int)
    requires
        0 <= end <= text.len(),
        forall|i: int| end <= i < text.len() ==> whitespace(#[trigger] text[i]),
        end > 0 ==> !whitespace(text[end - 1]),
    ensures
        trimmed_end(text) == end,
    decreases text.len(),
{
    if end < text.len() {
        assert(whitespace(text[text.len() - 1]));
        lemma_trimmed_end(text.drop_last(), end);
    }
}

/// The characters from `from` up to `to` without the white space around them.
pub fn trim_range(chars: &Vec<char>, from: usize, to: usize) -> (out: String)
    requires
        from <= to <= chars@.len(),
    ensures
        out@ == trimmed(chars@.subrange(from as int, to as int)),
{
    let ghost part = chars@.subrange(from as int, to as int);
    let mut start: usize = from;
    while start < to && is_whitespace(chars[start])
        invariant
            from <= start <= to <= chars@.len(),
            part == chars@.subrange(from as int, to as int),
            gap_from(part, 0, false) == gap_from(part, start - from, false),
        decreases to - start,
    {
        assert(part[start - from] == chars@[start as int]);
        start += 1;
    }
    let mut end: usize = to;
    while end > from && is_whitespace(chars[end - 1])
        invariant
            from <= end <= to <= chars@.len(),
            part == chars@.subrange(from as int, to as int),
            forall|i: int| end - from <= i < part.len() ==> whitespace(#[trigger] part[i]),
        decreases end,
    {
        assert(part[end - 1 - from] == chars@[end - 1]);
        end -= 1;
    }
    proof {
        lemma_trimmed_end(part, end - from);
    }
    if start >= end {
        let out = String::new();
        assert(out@ =~= Seq::empty());
        out
    } else {
        assert(chars@.subrange(start as int, end as int) =~= part.subrange(
            start - from,
            end - from,
        ));
        string_of(chars, start, end)
    }
}

pub fn trim(text: &str) -> (out: String)
    ensures
        out@ == trimmed(text@),
{
    let chars = characters(text);
    assert(chars@.subrange(0, chars@.len() as int) =~= text@);
    trim_range(&chars, 0, chars.len())
}

/// `part` occurs in `text` at position `at`.
pub open spec fn occurs_at(text: Seq<char>, part: Seq<char>, at: int) -> bool {
    0 <= at && at + part.len() <= text.len() && text.subrange(at, at + part.len()) == part
}

/// `part` occurs somewhere in `text`.
pub open spec fn contains(text: Seq<char>, part: Seq<char>) -> bool {
    exists|at: int| occurs_at(text, part, at)
}

fn is_at(text: &Vec<char>, part: &Vec<char>, at: usize) -> (found: bool)
    requires
        at + part@.len() <= text@.len(),
    ensures
        found == occurs_at(text@, part@, at as int),
{
    let length: usize = text.len();
    let mut i: usize = 0;
    while i < part.len()
        invariant
            i <= part@.len(),
            at + part@.len() <= text@.len() == length,
            forall|j: int| 0 <= j < i ==> text@[at + j] == part@[j],
        decreases part@.len() - i,
    {
        if text[at + i] != part[i] {
            assert(text@.subrange(at as int, at + part@.len())[i as int] != part@[i as int]);
            return false;
        }
        i += 1;
    }
    assert(text@.subrange(at as int, at + part@.len()) =~= part@);
    true
}

/// Whether `part` occurs in `text`.
pub fn contains_chars(text: &Vec<char>, part: &Vec<char>) -> (found: bool)
    ensures
        found == contains(text@, part@),
{
    if part.len() > text.len() {
        assert forall|at: int| !occurs_at(text@, part@, at) by {}
        return false;
    }
    let last: usize = text.len() - part.len();
    let mut at: usize = 0;
    while at <= last
        invariant
            last == text@.len() - part@.len(),
            at <= last + 1,
            forall|i: int| 0 <= i < at ==> !occurs_at(text@, part@, i),
        decreases last + 1 - at,
    {
        if is_at(text, part, at) {
            assert(occurs_at(text@, part@, at as int));
            return true;
        }
        if at == last {
            assert forall|i: int| !occurs_at(text@, part@, i) by {}
            return false;
        }
        at += 1;
    }
    false
}

/// Whether `part` occurs in `text`, of two strings.
pub fn contains_text(text: &str, part: &str) -> (found: bool)
    ensures
        found == contains(text@, part@),
{
    contains_chars(&characters(text), &characters(part))
}

/// Whether `text` begins with `prefix`.
pub fn starts_with(text: &str, prefix: &str) -> (found: bool)
    ensures
        found == occurs_at(text@, prefix@, 0),
{
    let text = characters(text);
    let prefix = characters(prefix);
    prefix.len() <= text.len() && is_at(&text, &prefix, 0)
}

/// A text without `prefix`, where it begins with it.
pub open spec fn without_prefix(text: Seq<char>, prefix: Seq<char>) -> Option<Seq<char>> {
    if occurs_at(text, prefix, 0) {
        Some(text.skip(prefix.len() as int))
    } else {
        None
    }
}

pub fn strip_prefix(text: &str, prefix: &str) -> (rest: Option<String>)
    ensures
        optional_view(rest) == without_prefix(text@, prefix@),
{
    let text = characters(text);
    let prefix = characters(prefix);
    if prefix.len() <= text.len() && is_at(&text, &prefix, 0) {
        assert(text@.skip(prefix@.len() as int) =~= text@.subrange(
            prefix@.len() as int,
            text@.len() as int,
        ));
        Some(string_of(&text, prefix.len(), text.len()))
    } else {
        None
    }
}

/// The two sides of the first `separator`, where there is one.
pub open spec fn halves(text: Seq<char>, separator: char) -> Option<(Seq<char>, Seq<char>)> {
    let at = position_from(text, 0, separator);
    if at < text.len() {
        Some((text.take(at), text.skip(at + 1)))
    } else {
        None
    }
}

/// The texts that a pair of strings holds.
pub open spec fn pair_view(pair: Option<(String, String)>) -> Option<(Seq<char>, Seq<char>)> {
    match pair {
        Some((left, right)) => Some((left@, right@)),
        None => None,
    }
}

pub fn split_once(text: &str, separator: char) -> (pair: Option<(String, String)>)
    ensures
        pair_view(pair) == halves(text@, separator),
{
    let chars = characters(text);
    let at: usize = find_from(&chars, 0, separator);
    if at < chars.len() {
        assert(chars@.take(at as int) =~= chars@.subrange(0, at as int));
        assert(chars@.skip(at + 1) =~= chars@.subrange(at + 1, chars@.len() as int));
        Some((string_of(&chars, 0, at), string_of(&chars, at + 1, chars.len())))
    } else {
        None
    }
}

/// The last position before `before` that holds `wanted`, or -1.
pub open spec fn last_position(text: Seq<char>, before: int, wanted: char) -> int
    decreases before,
{
    if before <= 0 {
        -1
    } else if text[before - 1] == wanted {
        before - 1
    } else {
        last_position(text, before - 1, wanted)
    }
}

/// The last position that holds `wanted`.
pub fn find_last(chars: &Vec<char>, wanted: char) -> (at: Option<usize>)
    ensures
        at == (if last_position(chars@, chars@.len() as int, wanted) < 0 {
            None
        } else {
            Some(last_position(chars@, chars@.len() as int, wanted) as usize)
        }),
        at is Some ==> at->0 < chars@.len() && chars@[at->0 as int] == wanted && last_position(
            chars@,
            chars@.len() as int,
            wanted,
        ) == at->0,
{
    let mut i: usize = chars.len();
    while i > 0
        invariant
            i <= chars@.len(),
            last_position(chars@, chars@.len() as int, wanted) == last_position(chars@, i as int, wanted),
        decreases i,
    {
        if chars[i - 1] == wanted {
            return Some(i - 1);
        }
        i -= 1;
    }
    None
}

} // verus!
