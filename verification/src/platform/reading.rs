//! What texts say: how words, lines and numbers are put together, and how they come apart again.
use vstd::prelude::*;

verus! {

/// No character of `text` is white space.
pub open spec fn solid(text: Seq<char>) -> bool {
    forall|i: int| 0 <= i < text.len() ==> !crate::platform::text::is_space(#[trigger] text[i])
}

/// Every character of `text` is white space.
pub open spec fn blank(text: Seq<char>) -> bool {
    forall|i: int| 0 <= i < text.len() ==> crate::platform::text::is_space(#[trigger] text[i])
}

/// Every character of `text` is a decimal digit.
pub open spec fn digits_only(text: Seq<char>) -> bool {
    forall|i: int| 0 <= i < text.len() ==> '0' <= #[trigger] text[i] <= '9'
}

/// Blanks, tabs and line ends separate; visible ASCII characters do not.
pub proof fn visible_characters_are_no_space(c: char)
    ensures
        '!' <= c <= '~' ==> !crate::platform::text::is_space(c),
        c == ' ' || c == '\t' || c == '\n' || c == '\r' ==> crate::platform::text::is_space(c),
{
}

/// Beyond ASCII, the separators are the spaces and line ends of Unicode.
pub proof fn spaces_of_unicode_separate(c: char)
    requires
        c > '~',
    ensures
        crate::platform::text::is_space(c) <==> {
            ||| c == '\u{85}' || c == '\u{a0}' || c == '\u{1680}'
            ||| '\u{2000}' <= c <= '\u{200a}'
            ||| c == '\u{2028}' || c == '\u{2029}' || c == '\u{202f}' || c == '\u{205f}'
            ||| c == '\u{3000}'
        },
{
}

/// Within ASCII, the separators are the blank and the five controls from tab to carriage return.
pub proof fn blanks_and_line_ends_separate(c: char)
    requires
        c <= '~',
    ensures
        crate::platform::text::is_space(c) <==> c == ' ' || '\t' <= c <= '\r',
{
}

/// Scanning goes on where it stopped.
proof fn lemma_scan_words(first: Seq<char>, second: Seq<char>)
    requires
        crate::platform::text::scan_words(first).1.len() == 0,
    ensures
        crate::platform::text::scan_words(first + second).0
            == crate::platform::text::scan_words(first).0
            + crate::platform::text::scan_words(second).0,
        crate::platform::text::scan_words(first + second).1
            == crate::platform::text::scan_words(second).1,
    decreases second.len(),
{
    if second.len() == 0 {
        assert(first + second =~= first);
        assert(crate::platform::text::scan_words(first).0
            + crate::platform::text::scan_words(second).0
            =~= crate::platform::text::scan_words(first).0);
        assert(crate::platform::text::scan_words(first).1
            =~= crate::platform::text::scan_words(second).1);
    } else {
        lemma_scan_words(first, second.drop_last());
        assert((first + second).drop_last() =~= first + second.drop_last());
        assert((first + second).last() == second.last());
        assert(crate::platform::text::scan_words(first + second).0
            =~= crate::platform::text::scan_words(first).0
            + crate::platform::text::scan_words(second).0);
    }
}

/// A run without white space stays open.
proof fn lemma_scan_solid(word: Seq<char>)
    requires
        solid(word),
    ensures
        crate::platform::text::scan_words(word).0.len() == 0,
        crate::platform::text::scan_words(word).1 == word,
    decreases word.len(),
{
    if word.len() > 0 {
        let shorter = word.drop_last();
        assert forall|i: int| 0 <= i < shorter.len() implies !crate::platform::text::is_space(
            #[trigger] shorter[i],
        ) by {
            assert(shorter[i] == word[i]);
        }
        lemma_scan_solid(shorter);
        assert(!crate::platform::text::is_space(word[word.len() - 1]));
        assert(shorter.push(word.last()) =~= word);
    } else {
        assert(crate::platform::text::scan_words(word).1 =~= word);
    }
}

/// White space separates words, and is part of none: the words of two texts with white space
/// between them are the words of the one and the words of the other.
pub proof fn white_space_separates_words(first: Seq<char>, space: char, second: Seq<char>)
    requires
        crate::platform::text::is_space(space),
    ensures
        crate::platform::text::words(first.push(space) + second) == crate::platform::text::words(
            first,
        ) + crate::platform::text::words(second),
        crate::platform::text::words(Seq::empty()).len() == 0,
{
    let closed = first.push(space);
    assert(closed.drop_last() =~= first);
    lemma_scan_words(closed, second);
    let (done, open) = crate::platform::text::scan_words(first);
    assert(crate::platform::text::scan_words(closed).0 =~= crate::platform::text::words(first));
    assert(crate::platform::text::words(closed + second) =~= crate::platform::text::words(first)
        + crate::platform::text::words(second));
}

/// A run without white space is one word.
pub proof fn a_run_is_one_word(word: Seq<char>)
    requires
        solid(word),
        word.len() > 0,
    ensures
        crate::platform::text::words(word) == seq![word],
{
    lemma_scan_solid(word);
    assert(crate::platform::text::words(word) =~= seq![word]);
}

/// Scanning goes on where it stopped.
proof fn lemma_scan_lines(first: Seq<char>, second: Seq<char>)
    requires
        crate::platform::text::scan_lines(first).1.len() == 0,
    ensures
        crate::platform::text::scan_lines(first + second).0
            == crate::platform::text::scan_lines(first).0
            + crate::platform::text::scan_lines(second).0,
        crate::platform::text::scan_lines(first + second).1
            == crate::platform::text::scan_lines(second).1,
    decreases second.len(),
{
    if second.len() == 0 {
        assert(first + second =~= first);
        assert(crate::platform::text::scan_lines(first).0
            + crate::platform::text::scan_lines(second).0
            =~= crate::platform::text::scan_lines(first).0);
        assert(crate::platform::text::scan_lines(first).1
            =~= crate::platform::text::scan_lines(second).1);
    } else {
        lemma_scan_lines(first, second.drop_last());
        assert((first + second).drop_last() =~= first + second.drop_last());
        assert((first + second).last() == second.last());
        assert(crate::platform::text::scan_lines(first + second).0
            =~= crate::platform::text::scan_lines(first).0
            + crate::platform::text::scan_lines(second).0);
    }
}

/// A text without line feed is one open line.
proof fn lemma_scan_line(line: Seq<char>)
    requires
        !line.contains('\n'),
    ensures
        crate::platform::text::scan_lines(line).0.len() == 0,
        crate::platform::text::scan_lines(line).1 == line,
    decreases line.len(),
{
    if line.len() > 0 {
        let shorter = line.drop_last();
        assert forall|c: char| shorter.contains(c) implies line.contains(c) by {
            let i = shorter.index_of(c);
            assert(line[i] == c);
        }
        lemma_scan_line(shorter);
        assert(line[line.len() - 1] != '\n');
        assert(shorter.push(line.last()) =~= line);
    } else {
        assert(crate::platform::text::scan_lines(line).1 =~= line);
    }
}

/// A line feed, or a carriage return and a line feed, ends a line: what stands before it is one
/// line, and the lines of what follows come behind that.
pub proof fn a_line_feed_ends_a_line(line: Seq<char>, rest: Seq<char>)
    requires
        !line.contains('\n'),
    ensures
        line.len() == 0 || line.last() != '\r' ==> crate::platform::text::lines(
            line.push('\n') + rest,
        ) == seq![line] + crate::platform::text::lines(rest),
        crate::platform::text::lines(line.push('\r').push('\n') + rest) == seq![line]
            + crate::platform::text::lines(rest),
{
    let ended = line.push('\n');
    lemma_scan_line(line);
    assert(ended.drop_last() =~= line);
    lemma_scan_lines(ended, rest);
    if line.len() == 0 || line.last() != '\r' {
        assert(crate::platform::text::scan_lines(ended).0 =~= seq![line]);
        assert(crate::platform::text::lines(ended + rest) =~= seq![line]
            + crate::platform::text::lines(rest));
    }
    let returned = line.push('\r');
    assert forall|i: int| 0 <= i < returned.len() implies returned[i] != '\n' by {
        if i < line.len() {
            assert(line.contains(line[i]));
        }
    }
    lemma_scan_line(returned);
    let both = returned.push('\n');
    assert(both.drop_last() =~= returned);
    assert(returned.drop_last() =~= line);
    lemma_scan_lines(both, rest);
    assert(crate::platform::text::scan_lines(both).0 =~= seq![line]);
    assert(crate::platform::text::lines(both + rest) =~= seq![line] + crate::platform::text::lines(
        rest,
    ));
}

/// What stands behind the last line feed is a line of its own, unless it is empty.
pub proof fn the_last_line_needs_no_ending(line: Seq<char>)
    requires
        !line.contains('\n'),
    ensures
        line.len() > 0 ==> crate::platform::text::lines(line) == seq![line],
        line.len() == 0 ==> crate::platform::text::lines(line).len() == 0,
{
    lemma_scan_line(line);
    if line.len() > 0 {
        assert(crate::platform::text::lines(line) =~= seq![line]);
    }
}

/// The digits of a number have its value.
proof fn lemma_decimal(value: nat)
    ensures
        digits_only(crate::domain::text::decimal(value)),
        crate::domain::text::decimal(value).len() > 0,
        crate::platform::text::digits_value(crate::domain::text::decimal(value)) == value,
    decreases value,
{
    let word = crate::domain::text::decimal(value);
    if value < 10 {
        reveal_with_fuel(crate::platform::text::digits_value, 2);
        assert(word.drop_last() =~= Seq::empty());
    } else {
        lemma_decimal(value / 10);
        let shorter = crate::domain::text::decimal(value / 10);
        assert(word.drop_last() =~= shorter);
        assert forall|i: int| 0 <= i < word.len() implies '0' <= #[trigger] word[i] <= '9' by {
            if i < shorter.len() {
                assert(word[i] == shorter[i]);
            }
        }
    }
}

/// A number that was written down in digits is read as itself, with or without a plus sign; one
/// that is too large is not read at all.
pub proof fn written_numbers_are_read_back(value: nat)
    ensures
        ({
            let word = crate::domain::text::decimal(value);
            let signed = seq!['+'] + word;
            &&& value <= u64::MAX ==> {
                &&& crate::platform::text::number(word) == Some(value as u64)
                &&& crate::platform::text::number(signed) == Some(value as u64)
                &&& crate::platform::text::numeral(word) == Ok::<
                    _,
                    crate::platform::text::NumberFailure,
                >(value as u64)
                &&& crate::platform::text::numeral(signed) == Ok::<
                    _,
                    crate::platform::text::NumberFailure,
                >(value as u64)
            }
            &&& value > u64::MAX ==> {
                &&& crate::platform::text::number(word) is None
                &&& crate::platform::text::number(signed) is None
                &&& crate::platform::text::numeral(word) is Err
                &&& crate::platform::text::numeral(signed) is Err
            }
        }),
{
    lemma_decimal(value);
    let word = crate::domain::text::decimal(value);
    let signed = seq!['+'] + word;
    assert(word[0] != '+');
    assert(signed.skip(1) =~= word);
    assert forall|i: int| 0 <= i < word.len() implies crate::platform::text::is_digit(
        #[trigger] word[i],
    ) by {}
    crate::platform::text::lemma_read_digits(word);
}

/// A decimal digit lies between zero and nine.
proof fn lemma_digit(c: char)
    ensures
        crate::platform::text::is_digit(c) <==> '0' <= c <= '9',
{
}

/// Digits and nothing else make a number, after one plus sign at most.
pub proof fn only_digits_make_a_number(word: Seq<char>)
    ensures
        crate::platform::text::number(word) is Some ==> {
            ||| word.len() > 0 && digits_only(word)
            ||| word.len() > 1 && word[0] == '+' && digits_only(word.skip(1))
        },
        crate::platform::text::numeral(word) is Ok <==> crate::platform::text::number(word) is Some,
        crate::platform::text::numeral(word) matches Ok(value) ==> crate::platform::text::number(
            word,
        ) == Some(value),
{
    let digits = crate::platform::text::numeral_digits(word);
    crate::platform::text::lemma_read_digits(digits);
    if crate::platform::text::number(word) is Some {
        assert forall|i: int| 0 <= i < digits.len() implies '0' <= #[trigger] digits[i]
            <= '9' by {
            assert(crate::platform::text::is_digit(digits[i]));
            lemma_digit(digits[i]);
        }
    }
}

/// Another digit makes a number ten times as large and adds its own value.
pub proof fn a_digit_adds_a_decimal_place(word: Seq<char>, value: u64, c: char)
    requires
        crate::platform::text::number(word) == Some(value),
    ensures
        '0' <= c <= '9' && value * 10 + (c as u32 - '0' as u32) <= u64::MAX
            ==> crate::platform::text::number(word.push(c)) == Some(
            (value * 10 + (c as u32 - '0' as u32)) as u64,
        ),
        '0' <= c <= '9' && value * 10 + (c as u32 - '0' as u32) > u64::MAX
            ==> crate::platform::text::number(word.push(c)) is None,
        !('0' <= c <= '9') ==> crate::platform::text::number(word.push(c)) is None,
{
    let longer = word.push(c);
    let digits = crate::platform::text::numeral_digits(word);
    let more = crate::platform::text::numeral_digits(longer);
    assert(more =~= digits.push(c));
    assert(more.drop_last() =~= digits);
    assert(more[digits.len() as int] == c);
    if '0' <= c <= '9' {
        assert forall|i: int| 0 <= i < more.len() implies crate::platform::text::is_digit(
            #[trigger] more[i],
        ) by {
            if i < digits.len() {
                assert(crate::platform::text::is_digit(digits[i]));
            }
        }
    } else {
        assert(!crate::platform::text::is_digit(more[digits.len() as int]));
    }
}

/// Reading fails at the first thing that is wrong: nothing at all, a character that is no digit,
/// or a digit too many.
pub proof fn numerals_fail_for_a_reason(word: Seq<char>, value: u64, c: char, rest: Seq<char>)
    requires
        crate::platform::text::number(word) == Some(value),
    ensures
        crate::platform::text::numeral(Seq::empty()) == Err::<u64, _>(
            crate::platform::text::NumberFailure::Empty,
        ),
        crate::platform::text::numeral(seq!['+']) == Err::<u64, _>(
            crate::platform::text::NumberFailure::Invalid,
        ),
        !('0' <= c <= '9') ==> crate::platform::text::numeral(word.push(c) + rest) == Err::<u64, _>(
            crate::platform::text::NumberFailure::Invalid,
        ),
        '0' <= c <= '9' && value * 10 + (c as u32 - '0' as u32) > u64::MAX
            ==> crate::platform::text::numeral(word.push(c) + rest) == Err::<u64, _>(
            crate::platform::text::NumberFailure::TooLarge,
        ),
{
    let digits = crate::platform::text::numeral_digits(word);
    let whole = word.push(c) + rest;
    assert(crate::platform::text::numeral_digits(whole) =~= digits.push(c) + rest);
    assert(digits.push(c).drop_last() =~= digits);
    crate::platform::text::lemma_read_digits(digits);
    lemma_failure_stays(digits.push(c), rest);
}

/// What was read wrong stays wrong.
proof fn lemma_failure_stays(digits: Seq<char>, rest: Seq<char>)
    ensures
        crate::platform::text::read_digits(digits) is Err ==> crate::platform::text::read_digits(
            digits + rest,
        ) == crate::platform::text::read_digits(digits),
    decreases rest.len(),
{
    if rest.len() == 0 {
        assert(digits + rest =~= digits);
    } else {
        lemma_failure_stays(digits, rest.drop_last());
        assert((digits + rest).drop_last() =~= digits + rest.drop_last());
    }
}

/// What stands behind a prefix is found, and nothing is found behind another one.
pub proof fn a_prefix_comes_off(prefix: Seq<char>, rest: Seq<char>, text: Seq<char>)
    ensures
        crate::platform::text::after_prefix(prefix + rest, prefix) == Some(rest),
        crate::platform::text::after_prefix(text, prefix) matches Some(found) ==> text == prefix
            + found,
{
    let whole = prefix + rest;
    assert(whole.take(prefix.len() as int) =~= prefix);
    assert(whole.skip(prefix.len() as int) =~= rest);
    if let Some(found) = crate::platform::text::after_prefix(text, prefix) {
        assert(text =~= text.take(prefix.len() as int) + text.skip(prefix.len() as int));
    }
}

/// What stands behind the last mark is found, whatever stands before it.
pub proof fn the_last_mark_counts(before: Seq<char>, mark: char, rest: Seq<char>)
    requires
        !rest.contains(mark),
    ensures
        crate::platform::text::after_last(before.push(mark) + rest, mark) == Some(rest),
        crate::platform::text::after_last(rest, mark) is None,
    decreases rest.len(),
{
    let whole = before.push(mark) + rest;
    if rest.len() == 0 {
        assert(whole =~= before.push(mark));
        assert(crate::platform::text::after_last(whole, mark) == Some(rest)) by {
            assert(rest =~= Seq::empty());
        }
    } else {
        let shorter = rest.drop_last();
        assert forall|c: char| shorter.contains(c) implies rest.contains(c) by {
            let i = shorter.index_of(c);
            assert(rest[i] == c);
        }
        the_last_mark_counts(before, mark, shorter);
        assert(whole.drop_last() =~= before.push(mark) + shorter);
        assert(rest.contains(rest.last()));
        assert(shorter.push(rest.last()) =~= rest);
    }
}

/// White space around a text is left out, and nothing else.
pub proof fn trimming_leaves_the_text(before: Seq<char>, text: Seq<char>, after: Seq<char>)
    requires
        blank(before),
        blank(after),
        text.len() > 0 ==> !crate::platform::text::is_space(text[0])
            && !crate::platform::text::is_space(text.last()),
    ensures
        crate::platform::text::trimmed(before + text + after) == text,
{
    lemma_trim_start(before, text + after);
    assert(before + text + after =~= before + (text + after));
    if text.len() == 0 {
        assert(text + after =~= after);
        lemma_trim_start(after, Seq::empty());
        assert(after + Seq::empty() =~= after);
        assert(crate::platform::text::trimmed_start(after).len() == 0);
        assert(crate::platform::text::trimmed(before + text + after) =~= text);
    } else {
        assert((text + after)[0] == text[0]);
        lemma_trim_end(text, after);
    }
}

/// White space at the start goes.
proof fn lemma_trim_start(before: Seq<char>, text: Seq<char>)
    requires
        blank(before),
    ensures
        crate::platform::text::trimmed_start(before + text) == crate::platform::text::trimmed_start(
            text,
        ),
    decreases before.len(),
{
    if before.len() == 0 {
        assert(before + text =~= text);
    } else {
        let shorter = before.skip(1);
        assert forall|i: int| 0 <= i < shorter.len() implies crate::platform::text::is_space(
            #[trigger] shorter[i],
        ) by {
            assert(shorter[i] == before[i + 1]);
        }
        lemma_trim_start(shorter, text);
        assert(crate::platform::text::is_space(before[0]));
        assert((before + text)[0] == before[0]);
        assert((before + text).skip(1) =~= shorter + text);
    }
}

/// White space at the end goes.
proof fn lemma_trim_end(text: Seq<char>, after: Seq<char>)
    requires
        blank(after),
    ensures
        crate::platform::text::trimmed_end(text + after) == crate::platform::text::trimmed_end(text),
    decreases after.len(),
{
    if after.len() == 0 {
        assert(text + after =~= text);
    } else {
        let shorter = after.drop_last();
        assert forall|i: int| 0 <= i < shorter.len() implies crate::platform::text::is_space(
            #[trigger] shorter[i],
        ) by {
            assert(shorter[i] == after[i]);
        }
        lemma_trim_end(text, shorter);
        assert(crate::platform::text::is_space(after[after.len() - 1]));
        assert((text + after).last() == after.last());
        assert((text + after).drop_last() =~= text + shorter);
    }
}

/// No line of `all` starts with `prefix`.
pub open spec fn none_starts_with(all: Seq<Seq<char>>, prefix: Seq<char>) -> bool {
    forall|i: int|
        0 <= i < all.len() ==> !(prefix.len() <= (#[trigger] all[i]).len() && all[i].take(
            prefix.len() as int,
        ) == prefix)
}

/// The first line that starts with a prefix counts: what stands behind the prefix is found,
/// whatever lines follow.
pub proof fn the_first_line_with_a_prefix_counts(
    before: Seq<Seq<char>>,
    prefix: Seq<char>,
    rest: Seq<char>,
    after: Seq<Seq<char>>,
)
    requires
        none_starts_with(before, prefix),
    ensures
        crate::platform::text::first_field(before.push(prefix + rest) + after, prefix) == Some(rest),
        crate::platform::text::first_field(before, prefix) is None,
    decreases before.len(),
{
    let all = before.push(prefix + rest) + after;
    if before.len() == 0 {
        assert(all[0] == prefix + rest);
        a_prefix_comes_off(prefix, rest, all[0]);
    } else {
        let later = before.skip(1);
        assert forall|i: int| 0 <= i < later.len() implies !(prefix.len() <= (
        #[trigger] later[i]).len() && later[i].take(prefix.len() as int) == prefix) by {
            assert(later[i] == before[i + 1]);
        }
        the_first_line_with_a_prefix_counts(later, prefix, rest, after);
        assert(all[0] == before[0]);
        assert(all.skip(1) =~= later.push(prefix + rest) + after);
    }
}

} // verus!
