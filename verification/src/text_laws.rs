//! What is read out of a text is what was written into it.
use vstd::prelude::*;

use crate::numerals;
use crate::text;

verus! {

broadcast use vstd::string::group_string_axioms;

/// Nothing but white space.
pub open spec fn blank(text: Seq<char>) -> bool {
    forall|i: int| 0 <= i < text.len() ==> text::whitespace(#[trigger] text[i])
}

/// A word: some characters, none of them white space.
pub open spec fn word(text: Seq<char>) -> bool {
    text.len() > 0 && forall|i: int|
        0 <= i < text.len() ==> !text::whitespace(#[trigger] text[i])
}

/// Fields written one after the other, each behind its gap.
pub open spec fn spaced_out(gaps: Seq<Seq<char>>, fields: Seq<Seq<char>>) -> Seq<char>
    decreases fields.len(),
{
    if fields.len() == 0 {
        Seq::empty()
    } else {
        gaps[0] + fields[0] + spaced_out(gaps.skip(1), fields.skip(1))
    }
}

/// The fields are words, the gaps are white space, and only the first one may be missing.
pub open spec fn well_spaced(gaps: Seq<Seq<char>>, fields: Seq<Seq<char>>) -> bool {
    &&& gaps.len() == fields.len()
    &&& forall|i: int| 0 <= i < fields.len() ==> word(#[trigger] fields[i])
    &&& forall|i: int| 0 <= i < gaps.len() ==> blank(#[trigger] gaps[i])
    &&& forall|i: int| 0 < i < gaps.len() ==> (#[trigger] gaps[i]).len() > 0
}

proof fn lemma_gap_ends(text: Seq<char>, from: int, end: int, white: bool)
    requires
        0 <= from <= end <= text.len(),
        forall|i: int| from <= i < end ==> text::whitespace(#[trigger] text[i]) != white,
        end < text.len() ==> text::whitespace(text[end]) == white,
    ensures
        text::gap_from(text, from, white) == end,
    decreases end - from,
{
    if from < end {
        lemma_gap_ends(text, from + 1, end, white);
    }
}

/// Fields behind something else are the words from there on.
pub proof fn lemma_words_behind(
    before: Seq<char>,
    gaps: Seq<Seq<char>>,
    fields: Seq<Seq<char>>,
    tail: Seq<char>,
)
    requires
        well_spaced(gaps, fields),
        blank(tail),
        fields.len() > 0 && before.len() > 0 && gaps[0].len() == 0 ==> text::whitespace(
            before.last(),
        ),
    ensures
        text::words_from(before + spaced_out(gaps, fields) + tail, before.len() as int) == fields,
    decreases fields.len(),
{
    let all = before + spaced_out(gaps, fields) + tail;
    let from = before.len() as int;
    if fields.len() == 0 {
        assert(all =~= before + tail);
        assert forall|i: int| from <= i < all.len() implies text::whitespace(
            #[trigger] all[i],
        ) by {
            assert(all[i] == tail[i - from]);
        }
        lemma_gap_ends(all, from, all.len() as int, false);
        assert(text::words_from(all, from) =~= fields);
    } else {
        let rest = spaced_out(gaps.skip(1), fields.skip(1));
        let start = from + gaps[0].len();
        let end = start + fields[0].len();
        let longer = before + gaps[0] + fields[0];
        assert(all =~= longer + rest + tail);
        assert(longer.len() == end);
        assert(blank(gaps[0]));
        assert(word(fields[0]));
        assert forall|i: int| from <= i < start implies text::whitespace(#[trigger] all[i]) by {
            assert(all[i] == gaps[0][i - from]);
        }
        assert forall|i: int| start <= i < end implies !text::whitespace(#[trigger] all[i]) by {
            assert(all[i] == fields[0][i - start]);
        }
        lemma_gap_ends(all, from, start, false);
        if fields.len() > 1 {
            let next = gaps.skip(1)[0];
            assert(next == gaps[1]);
            assert(blank(gaps[1]) && gaps[1].len() > 0);
            assert(rest =~= gaps[1] + fields.skip(1)[0] + spaced_out(
                gaps.skip(1).skip(1),
                fields.skip(1).skip(1),
            ));
            assert(all[end] == gaps[1][0]);
        } else {
            assert(rest =~= Seq::empty());
            if end < all.len() {
                assert(all[end] == tail[0]);
            }
        }
        lemma_gap_ends(all, start, end, true);
        assert(well_spaced(gaps.skip(1), fields.skip(1))) by {
            assert forall|i: int| 0 <= i < fields.skip(1).len() implies word(
                #[trigger] fields.skip(1)[i],
            ) by {
                assert(fields.skip(1)[i] == fields[i + 1]);
            }
            assert forall|i: int| 0 <= i < gaps.skip(1).len() implies blank(
                #[trigger] gaps.skip(1)[i],
            ) by {
                assert(gaps.skip(1)[i] == gaps[i + 1]);
            }
            assert forall|i: int| 0 < i < gaps.skip(1).len() implies (
            #[trigger] gaps.skip(1)[i]).len() > 0 by {
                assert(gaps.skip(1)[i] == gaps[i + 1]);
            }
        }
        if fields.len() > 1 {
            assert(gaps.skip(1)[0] == gaps[1]);
        }
        lemma_words_behind(longer, gaps.skip(1), fields.skip(1), tail);
        assert(all.subrange(start, end) =~= fields[0]);
        assert(text::words_from(all, from) =~= seq![fields[0]] + fields.skip(1));
        assert(seq![fields[0]] + fields.skip(1) =~= fields);
    }
}

/// However fields are spaced out in a line, they are its words, in order and unchanged.
pub proof fn lemma_words_are_fields(gaps: Seq<Seq<char>>, fields: Seq<Seq<char>>, tail: Seq<char>)
    requires
        well_spaced(gaps, fields),
        blank(tail),
    ensures
        text::words(spaced_out(gaps, fields) + tail) == fields,
{
    let line = spaced_out(gaps, fields) + tail;
    assert(line =~= Seq::<char>::empty() + spaced_out(gaps, fields) + tail);
    lemma_words_behind(Seq::empty(), gaps, fields, tail);
}

/// The same with nothing behind the last field.
pub proof fn lemma_words_are_all_fields(gaps: Seq<Seq<char>>, fields: Seq<Seq<char>>)
    requires
        well_spaced(gaps, fields),
    ensures
        text::words(spaced_out(gaps, fields)) == fields,
{
    lemma_words_are_fields(gaps, fields, Seq::empty());
    assert(spaced_out(gaps, fields) + Seq::<char>::empty() =~= spaced_out(gaps, fields));
}

/// The first word of a text that begins with one is that word, whatever follows a gap.
pub proof fn lemma_first_word(first: Seq<char>, gap: char, rest: Seq<char>)
    requires
        word(first),
        text::whitespace(gap),
    ensures
        text::words(first + seq![gap] + rest).len() > 0,
        text::words(first + seq![gap] + rest)[0] == first,
{
    let all = first + seq![gap] + rest;
    let end = first.len() as int;
    assert forall|i: int| 0 <= i < end implies !text::whitespace(#[trigger] all[i]) by {
        assert(all[i] == first[i]);
    }
    assert(all[end] == gap);
    lemma_gap_ends(all, 0, 0, false);
    lemma_gap_ends(all, 0, end, true);
    assert(all.subrange(0, end) =~= first);
}

/// Lines written one below the other, each with its break.
pub open spec fn written(lines: Seq<Seq<char>>) -> Seq<char>
    decreases lines.len(),
{
    if lines.len() == 0 {
        Seq::empty()
    } else {
        lines[0] + seq!['\n'] + written(lines.skip(1))
    }
}

/// A line: it holds no break and no half of one at its end.
pub open spec fn one_line(line: Seq<char>) -> bool {
    &&& forall|i: int| 0 <= i < line.len() ==> #[trigger] line[i] != '\n'
    &&& line.len() > 0 ==> line.last() != '\r'
}

/// The first place that holds a character is the one found.
pub proof fn lemma_break_found(text: Seq<char>, from: int, end: int, wanted: char)
    requires
        0 <= from <= end <= text.len(),
        forall|i: int| from <= i < end ==> #[trigger] text[i] != wanted,
        end < text.len() ==> text[end] == wanted,
    ensures
        text::position_from(text, from, wanted) == end,
    decreases end - from,
{
    if from < end {
        lemma_break_found(text, from + 1, end, wanted);
    }
}

proof fn lemma_lines_behind(before: Seq<char>, lines: Seq<Seq<char>>)
    requires
        forall|i: int| 0 <= i < lines.len() ==> one_line(#[trigger] lines[i]),
    ensures
        text::lines_from(before + written(lines), before.len() as int) == lines,
    decreases lines.len(),
{
    let all = before + written(lines);
    let start = before.len() as int;
    if lines.len() == 0 {
        assert(text::lines_from(all, start) =~= lines);
    } else {
        let end = start + lines[0].len();
        let longer = before + lines[0] + seq!['\n'];
        assert(all =~= longer + written(lines.skip(1)));
        assert(one_line(lines[0]));
        assert forall|i: int| start <= i < end implies #[trigger] all[i] != '\n' by {
            assert(all[i] == lines[0][i - start]);
        }
        assert(all[end] == '\n');
        lemma_break_found(all, start, end, '\n');
        if start < end {
            assert(all[end - 1] == lines[0].last());
        }
        assert(all.subrange(start, end) =~= lines[0]);
        assert forall|i: int| 0 <= i < lines.skip(1).len() implies one_line(
            #[trigger] lines.skip(1)[i],
        ) by {
            assert(lines.skip(1)[i] == lines[i + 1]);
        }
        lemma_lines_behind(longer, lines.skip(1));
        assert(longer.len() == end + 1);
        assert(seq![lines[0]] + lines.skip(1) =~= lines);
    }
}

/// The lines of a text are those that were written into it, in order and unchanged.
pub proof fn lemma_lines_are_written(lines: Seq<Seq<char>>)
    requires
        forall|i: int| 0 <= i < lines.len() ==> one_line(#[trigger] lines[i]),
    ensures
        text::lines(written(lines)) == lines,
{
    assert(Seq::<char>::empty() + written(lines) =~= written(lines));
    lemma_lines_behind(Seq::empty(), lines);
}

/// A number is read back as it is written, in a word that holds no white space.
pub proof fn lemma_numbers_are_read_back(number: nat, max: int)
    ensures
        word(numerals::decimal(number)),
        numerals::decimal(number)[0] != '+',
        numerals::decimal(number)[0] != '-',
        number <= max ==> numerals::unsigned(numerals::decimal(number), max) == Some(number as int),
        number > max ==> numerals::unsigned(numerals::decimal(number), max) is None,
{
    let text = numerals::decimal(number);
    numerals::lemma_decimal_reads_back(number);
    assert forall|i: int| 0 <= i < text.len() implies !text::whitespace(#[trigger] text[i]) by {
        assert(numerals::digit(text[i]));
    }
    assert(numerals::digit(text[0]));
    assert(numerals::unsigned_digits(text) == text);
}

/// Numbers as they are written.
pub open spec fn decimals(numbers: Seq<u64>) -> Seq<Seq<char>> {
    Seq::new(numbers.len(), |i: int| numerals::decimal(numbers[i] as nat))
}

/// Numbers in a row are read back as they are written.
pub proof fn lemma_all_numbers_are_read_back(numbers: Seq<u64>)
    ensures
        numerals::all_unsigned(decimals(numbers)) == Some(numbers),
        forall|i: int| 0 <= i < numbers.len() ==> word(#[trigger] decimals(numbers)[i]),
{
    let texts = decimals(numbers);
    assert forall|i: int| 0 <= i < texts.len() implies numerals::unsigned(
        #[trigger] texts[i],
        u64::MAX as int,
    ) == Some(numbers[i] as int) by {
        lemma_numbers_are_read_back(numbers[i] as nat, u64::MAX as int);
    }
    assert forall|i: int| 0 <= i < numbers.len() implies word(#[trigger] texts[i]) by {
        lemma_numbers_are_read_back(numbers[i] as nat, u64::MAX as int);
    }
    assert(numerals::all_unsigned(texts)->0 =~= numbers);
}

/// The two sides of the first separator, put together round it, are the text, and the first side
/// holds no separator.
pub proof fn lemma_halves_make_the_text(text: Seq<char>, separator: char)
    ensures
        match text::halves(text, separator) {
            Some((left, right)) => {
                &&& text == left + seq![separator] + right
                &&& !left.contains(separator)
            },
            None => !text.contains(separator),
        },
{
    text::lemma_position_from(text, 0, separator);
    let at = text::position_from(text, 0, separator);
    if at < text.len() {
        assert(text =~= text.take(at) + seq![separator] + text.skip(at + 1));
    }
}

/// A text is split at the first separator that was written into it.
pub proof fn lemma_halves_are_written(left: Seq<char>, separator: char, right: Seq<char>)
    requires
        !left.contains(separator),
    ensures
        text::halves(left + seq![separator] + right, separator) == Some((left, right)),
{
    let all = left + seq![separator] + right;
    assert forall|i: int| 0 <= i < left.len() implies #[trigger] all[i] != separator by {
        assert(all[i] == left[i]);
        assert(left.contains(left[i]));
    }
    lemma_break_found(all, 0, left.len() as int, separator);
    assert(all.take(left.len() as int) =~= left);
    assert(all.skip(left.len() as int + 1) =~= right);
}

proof fn lemma_end_of(core: Seq<char>, after: Seq<char>)
    requires
        blank(after),
        core.len() > 0 ==> !text::whitespace(core.last()),
    ensures
        text::trimmed_end(core + after) == core.len(),
    decreases after.len(),
{
    if after.len() == 0 {
        assert(core + after =~= core);
    } else {
        assert((core + after).last() == after.last());
        assert(text::whitespace(after[after.len() - 1]));
        assert((core + after).drop_last() =~= core + after.drop_last());
        lemma_end_of(core, after.drop_last());
    }
}

/// White space around a text is taken off, and nothing of the text.
pub proof fn lemma_trimming_keeps_the_text(before: Seq<char>, core: Seq<char>, after: Seq<char>)
    requires
        blank(before),
        blank(after),
        core.len() > 0,
        !text::whitespace(core[0]),
        !text::whitespace(core.last()),
    ensures
        text::trimmed(before + core + after) == core,
{
    let all = before + core + after;
    let start = before.len() as int;
    let end = start + core.len();
    assert((before + core).last() == core.last());
    lemma_end_of(before + core, after);
    assert forall|i: int| 0 <= i < start implies text::whitespace(#[trigger] all[i]) by {
        assert(all[i] == before[i]);
    }
    assert(all[start] == core[0]);
    lemma_gap_ends(all, 0, start, false);
    assert(all.subrange(start, end) =~= core);
}

/// What was written into a text is found there, and what is found there stands there.
pub proof fn lemma_contained_is_found(before: Seq<char>, part: Seq<char>, after: Seq<char>)
    ensures
        text::contains(before + part + after, part),
{
    let all = before + part + after;
    let at = before.len() as int;
    assert(all.subrange(at, at + part.len()) =~= part);
    assert(text::occurs_at(all, part, at));
}

/// A text in which something is found is made of what comes before it, it, and what comes
/// behind it.
pub proof fn lemma_found_is_contained(text: Seq<char>, part: Seq<char>) -> (split: (
    Seq<char>,
    Seq<char>,
))
    requires
        text::contains(text, part),
    ensures
        text == split.0 + part + split.1,
{
    let at = choose|at: int| text::occurs_at(text, part, at);
    let split = (text.take(at), text.skip(at + part.len()));
    assert(text =~= split.0 + part + split.1) by {
        assert(text.subrange(at, at + part.len()) == part);
        assert forall|i: int| 0 <= i < text.len() implies text[i] == (split.0 + part + split.1)[i] by {
            if at <= i < at + part.len() {
                assert(part[i - at] == text.subrange(at, at + part.len())[i - at]);
            }
        }
    }
    split
}

/// A prefix is taken off where it stands, and only there.
pub proof fn lemma_prefix_is_taken_off(text: Seq<char>, prefix: Seq<char>, rest: Seq<char>)
    ensures
        text::without_prefix(prefix + rest, prefix) == Some(rest),
        text::without_prefix(text, prefix) matches Some(left) ==> text == prefix + left,
{
    assert((prefix + rest).subrange(0, prefix.len() as int) =~= prefix);
    assert((prefix + rest).skip(prefix.len() as int) =~= rest);
    if text::occurs_at(text, prefix, 0) {
        assert(text =~= text.subrange(0, prefix.len() as int) + text.skip(prefix.len() as int));
    }
}

/// Which characters are white space and which only control: tabs, breaks and blanks are white
/// space, letters, digits and signs are neither.
pub proof fn lemma_common_characters(c: char)
    ensures
        c == ' ' || c == '\t' || c == '\n' || c == '\r' ==> text::whitespace(c),
        '!' <= c <= '~' ==> !text::whitespace(c) && !text::control(c),
        c < ' ' ==> text::control(c),
        c == ' ' ==> !text::control(c),
{
}

/// Blanks, tabs and the ends of lines are white space, and no character that is printed on its
/// own is.
pub proof fn lemma_printed_characters_are_no_gaps(c: char)
    ensures
        text::whitespace(' '),
        text::whitespace('\t'),
        text::whitespace('\n'),
        text::whitespace('\r'),
        '!' <= c <= '~' ==> !text::whitespace(c),
{
}

/// Printed characters, blanks among them, can be searched for; what only moves the cursor cannot.
pub proof fn lemma_printed_characters_are_no_controls(c: char)
    ensures
        ' ' <= c <= '~' ==> !text::control(c),
        c < ' ' ==> text::control(c),
        text::control('\u{7f}'),
{
}

/// A number with a minus sign is read as the number below zero.
pub proof fn lemma_signed_numbers_are_read_back(number: nat)
    requires
        number <= i64::MAX,
    ensures
        numerals::signed(numerals::decimal(number)) == Some(number as int),
        numerals::signed(seq!['-'] + numerals::decimal(number)) == Some(-(number as int)),
{
    let digits = numerals::decimal(number);
    lemma_numbers_are_read_back(number, i64::MAX as int);
    numerals::lemma_decimal_reads_back(number);
    assert((seq!['-'] + digits).skip(1) =~= digits);
    assert((seq!['-'] + digits)[0] == '-');
}

/// The last line needs no end, and a line may end with a carriage return as well, which is no
/// part of it.
pub proof fn lemma_lines_end_in_two_ways(line: Seq<char>)
    requires
        one_line(line),
        line.len() > 0,
    ensures
        text::lines(line) == seq![line],
        text::lines(line + seq!['\r', '\n']) == seq![line],
        text::lines(Seq::empty()) == Seq::<Seq<char>>::empty(),
{
    let ended = line + seq!['\r', '\n'];
    let end = line.len() as int;
    lemma_break_found(line, 0, end, '\n');
    assert(line.subrange(0, end) =~= line);
    assert(text::lines_from(line, end + 1) =~= Seq::empty());
    assert forall|i: int| 0 <= i < end + 1 implies #[trigger] ended[i] != '\n' by {
        if i < end {
            assert(ended[i] == line[i]);
        }
    }
    lemma_break_found(ended, 0, end + 1, '\n');
    assert(ended[end] == '\r');
    assert(ended.subrange(0, end) =~= line);
    assert(text::lines_from(ended, end + 2) =~= Seq::empty());
    assert(seq![line] + Seq::<Seq<char>>::empty() =~= seq![line]);
}

} // verus!
