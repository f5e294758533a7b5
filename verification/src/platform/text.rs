//! Reading of kernel text files.
use vstd::prelude::*;
use vstd::string::StringExecFns;

verus! {

/// Whether Unicode counts `c` as white space.
pub open spec fn is_space(c: char) -> bool {
    let code = c as u32;
    ||| 0x9 <= code <= 0xd
    ||| code == 0x20
    ||| code == 0x85
    ||| code == 0xa0
    ||| code == 0x1680
    ||| 0x2000 <= code <= 0x200a
    ||| code == 0x2028
    ||| code == 0x2029
    ||| code == 0x202f
    ||| code == 0x205f
    ||| code == 0x3000
}

fn space(c: char) -> (space: bool)
    ensures
        space == is_space(c),
{
    let code = c as u32;
    (0x9 <= code && code <= 0xd) || code == 0x20 || code == 0x85 || code == 0xa0 || code == 0x1680
        || (0x2000 <= code && code <= 0x200a) || code == 0x2028 || code == 0x2029 || code == 0x202f
        || code == 0x205f || code == 0x3000
}

/// The words of a text so far, and the word that is still open at its end.
pub open spec fn scan_words(text: Seq<char>) -> (Seq<Seq<char>>, Seq<char>)
    decreases text.len(),
{
    if text.len() == 0 {
        (Seq::empty(), Seq::empty())
    } else {
        let (done, open) = scan_words(text.drop_last());
        if !is_space(text.last()) {
            (done, open.push(text.last()))
        } else if open.len() > 0 {
            (done.push(open), Seq::empty())
        } else {
            (done, Seq::empty())
        }
    }
}

/// The longest runs without white space, in order.
pub open spec fn words(text: Seq<char>) -> Seq<Seq<char>> {
    let (done, open) = scan_words(text);
    if open.len() > 0 {
        done.push(open)
    } else {
        done
    }
}

/// A line without the carriage return of its ending.
pub open spec fn without_return(line: Seq<char>) -> Seq<char> {
    if line.len() > 0 && line.last() == '\r' {
        line.drop_last()
    } else {
        line
    }
}

/// The complete lines of a text so far, and the line that is still open at its end.
pub open spec fn scan_lines(text: Seq<char>) -> (Seq<Seq<char>>, Seq<char>)
    decreases text.len(),
{
    if text.len() == 0 {
        (Seq::empty(), Seq::empty())
    } else {
        let (done, open) = scan_lines(text.drop_last());
        if text.last() == '\n' {
            (done.push(without_return(open)), Seq::empty())
        } else {
            (done, open.push(text.last()))
        }
    }
}

/// The lines of a text. A line ends with a line feed or a carriage return and a line feed; the
/// last line may lack its ending.
pub open spec fn lines(text: Seq<char>) -> Seq<Seq<char>> {
    let (done, open) = scan_lines(text);
    if open.len() > 0 {
        done.push(open)
    } else {
        done
    }
}

/// The value of a decimal digit.
pub open spec fn digit_value(c: char) -> nat {
    (c as u32 - 48) as nat
}

/// Whether `c` is a decimal digit.
pub open spec fn is_digit(c: char) -> bool {
    48 <= c as u32 <= 57
}

/// The value of a sequence of decimal digits.
pub open spec fn digits_value(digits: Seq<char>) -> nat
    decreases digits.len(),
{
    if digits.len() == 0 {
        0
    } else {
        digits_value(digits.drop_last()) * 10 + digit_value(digits.last())
    }
}

/// The digits of a numeral: an optional plus sign is left out.
pub open spec fn numeral_digits(word: Seq<char>) -> Seq<char> {
    if word.len() > 0 && word[0] == '+' {
        word.skip(1)
    } else {
        word
    }
}

/// The number that a whole word stands for: digits only, after an optional plus sign, and
/// within range.
pub open spec fn number(word: Seq<char>) -> Option<u64> {
    let digits = numeral_digits(word);
    if digits.len() > 0 && (forall|i: int| 0 <= i < digits.len() ==> is_digit(
        #[trigger] digits[i],
    )) && digits_value(digits) <= u64::MAX {
        Some(digits_value(digits) as u64)
    } else {
        None
    }
}

/// Why a word is not a number.
#[derive(Debug, Clone, Copy, PartialEq, Eq, Structural)]
pub enum NumberFailure {
    /// There is nothing to read.
    Empty,
    /// A character is not a digit.
    Invalid,
    /// The number is out of range.
    TooLarge,
}

impl NumberFailure {
    /// The message of the failure.
    pub open spec fn text(self) -> Seq<char> {
        match self {
            NumberFailure::Empty => "cannot parse integer from empty string"@,
            NumberFailure::Invalid => "invalid digit found in string"@,
            NumberFailure::TooLarge => "number too large to fit in target type"@,
        }
    }

    /// Renders the failure for people.
    #[must_use]
    pub fn message(self) -> (message: String)
        ensures
            message@ == self.text(),
    {
        match self {
            NumberFailure::Empty => String::from_str("cannot parse integer from empty string"),
            NumberFailure::Invalid => String::from_str("invalid digit found in string"),
            NumberFailure::TooLarge => String::from_str("number too large to fit in target type"),
        }
    }
}

/// Reads digits one by one: the first one that is not a digit or that leaves the range decides.
pub open spec fn read_digits(digits: Seq<char>) -> Result<nat, NumberFailure>
    decreases digits.len(),
{
    if digits.len() == 0 {
        Ok(0)
    } else {
        match read_digits(digits.drop_last()) {
            Err(failure) => Err(failure),
            Ok(value) => if !is_digit(digits.last()) {
                Err(NumberFailure::Invalid)
            } else if value * 10 + digit_value(digits.last()) > u64::MAX {
                Err(NumberFailure::TooLarge)
            } else {
                Ok((value * 10 + digit_value(digits.last())) as nat)
            },
        }
    }
}

/// The number that a whole word stands for, or why it is none.
pub open spec fn numeral(word: Seq<char>) -> Result<u64, NumberFailure> {
    if word.len() == 0 {
        Err(NumberFailure::Empty)
    } else if numeral_digits(word).len() == 0 {
        Err(NumberFailure::Invalid)
    } else {
        match read_digits(numeral_digits(word)) {
            Ok(value) => Ok(value as u64),
            Err(failure) => Err(failure),
        }
    }
}

/// Reading digits succeeds exactly on digits within range, with their value.
pub proof fn lemma_read_digits(digits: Seq<char>)
    ensures
        read_digits(digits) is Ok <==> (forall|i: int|
            0 <= i < digits.len() ==> is_digit(#[trigger] digits[i])) && digits_value(digits)
            <= u64::MAX,
        read_digits(digits) matches Ok(value) ==> value == digits_value(digits),
    decreases digits.len(),
{
    if digits.len() > 0 {
        let rest = digits.drop_last();
        lemma_read_digits(rest);
        assert forall|i: int| 0 <= i < rest.len() implies rest[i] == digits[i] by {}
        if forall|i: int| 0 <= i < digits.len() ==> is_digit(#[trigger] digits[i]) {
            assert(is_digit(digits[digits.len() - 1]));
            assert forall|i: int| 0 <= i < rest.len() implies is_digit(#[trigger] rest[i]) by {
                assert(is_digit(digits[i]));
            }
            assert(digits_value(rest) <= digits_value(digits));
        }
        if read_digits(digits) is Ok {
            assert forall|i: int| 0 <= i < digits.len() implies is_digit(#[trigger] digits[i]) by {
                if i < rest.len() {
                    assert(is_digit(rest[i]));
                }
            }
        }
    }
}

/// What follows `prefix`, if the text starts with it.
pub open spec fn after_prefix(text: Seq<char>, prefix: Seq<char>) -> Option<Seq<char>> {
    if prefix.len() <= text.len() && text.take(prefix.len() as int) == prefix {
        Some(text.skip(prefix.len() as int))
    } else {
        None
    }
}

/// What follows the last `mark`, if there is one.
pub open spec fn after_last(text: Seq<char>, mark: char) -> Option<Seq<char>>
    decreases text.len(),
{
    if text.len() == 0 {
        None
    } else if text.last() == mark {
        Some(Seq::empty())
    } else {
        match after_last(text.drop_last(), mark) {
            Some(rest) => Some(rest.push(text.last())),
            None => None,
        }
    }
}

/// The text without white space at its end.
pub open spec fn trimmed_end(text: Seq<char>) -> Seq<char>
    decreases text.len(),
{
    if text.len() > 0 && is_space(text.last()) {
        trimmed_end(text.drop_last())
    } else {
        text
    }
}

/// The text without white space at its start.
pub open spec fn trimmed_start(text: Seq<char>) -> Seq<char>
    decreases text.len(),
{
    if text.len() > 0 && is_space(text[0]) {
        trimmed_start(text.skip(1))
    } else {
        text
    }
}

/// The text without white space around it.
pub open spec fn trimmed(text: Seq<char>) -> Seq<char> {
    trimmed_end(trimmed_start(text))
}

/// What follows `prefix` on the first line that starts with it.
pub open spec fn first_field(all: Seq<Seq<char>>, prefix: Seq<char>) -> Option<Seq<char>>
    decreases all.len(),
{
    if all.len() == 0 {
        None
    } else {
        match after_prefix(all[0], prefix) {
            Some(rest) => Some(rest),
            None => first_field(all.skip(1), prefix),
        }
    }
}

/// The characters of `text`.
pub fn chars_of(text: &str) -> (chars: Vec<char>)
    ensures
        chars@ == text@,
{
    let mut chars: Vec<char> = Vec::new();
    for c in it: text.chars()
        invariant
            it.seq() == text@,
            chars@ == text@.take(it.index() as int),
    {
        assert(text@.take(it.index() + 1) =~= text@.take(it.index() as int).push(c));
        chars.push(c);
    }
    assert(chars@ =~= text@);
    chars
}

/// The views of several texts.
pub open spec fn views(texts: Seq<Vec<char>>) -> Seq<Seq<char>> {
    Seq::new(texts.len(), |i: int| texts[i]@)
}

fn copy(text: &Vec<char>, from: usize, to: usize) -> (part: Vec<char>)
    requires
        from <= to <= text@.len(),
    ensures
        part@ == text@.subrange(from as int, to as int),
{
    let mut part: Vec<char> = Vec::new();
    let mut i: usize = from;
    while i < to
        invariant
            from <= i <= to <= text@.len(),
            part@ == text@.subrange(from as int, i as int),
        decreases to - i,
    {
        part.push(text[i]);
        assert(text@.subrange(from as int, i + 1) =~= text@.subrange(from as int, i as int).push(
            text@[i as int],
        ));
        i = i + 1;
    }
    part
}

/// Splits a text into its words.
pub fn split_words(text: &Vec<char>) -> (found: Vec<Vec<char>>)
    ensures
        views(found@) == words(text@),
{
    let mut done: Vec<Vec<char>> = Vec::new();
    let mut open: Vec<char> = Vec::new();
    let mut i: usize = 0;
    assert(text@.take(0) =~= Seq::empty());
    assert(views(done@) =~= Seq::empty());
    while i < text.len()
        invariant
            i <= text@.len(),
            (views(done@), open@) == scan_words(text@.take(i as int)),
        decreases text@.len() - i,
    {
        let c = text[i];
        let ghost before = views(done@);
        proof {
            assert(text@.take(i + 1).drop_last() =~= text@.take(i as int));
            assert(text@.take(i + 1).last() == c);
        }
        if !space(c) {
            open.push(c);
        } else if open.len() > 0 {
            let ghost word = open@;
            done.push(open);
            open = Vec::new();
            assert(views(done@) =~= before.push(word));
            assert(open@ =~= Seq::empty());
        } else {
            assert(open@ =~= Seq::empty());
        }
        i = i + 1;
    }
    assert(text@.take(i as int) =~= text@);
    if open.len() > 0 {
        let ghost before = views(done@);
        let ghost word = open@;
        done.push(open);
        assert(views(done@) =~= before.push(word));
    }
    done
}

/// Splits a text into its lines.
pub fn split_lines(text: &Vec<char>) -> (found: Vec<Vec<char>>)
    ensures
        views(found@) == lines(text@),
{
    let mut done: Vec<Vec<char>> = Vec::new();
    let mut open: Vec<char> = Vec::new();
    let mut i: usize = 0;
    assert(text@.take(0) =~= Seq::empty());
    assert(views(done@) =~= Seq::empty());
    while i < text.len()
        invariant
            i <= text@.len(),
            (views(done@), open@) == scan_lines(text@.take(i as int)),
        decreases text@.len() - i,
    {
        let c = text[i];
        let ghost before = views(done@);
        let ghost line = open@;
        proof {
            assert(text@.take(i + 1).drop_last() =~= text@.take(i as int));
            assert(text@.take(i + 1).last() == c);
        }
        if c == '\n' {
            if open.len() > 0 && open[open.len() - 1] == '\r' {
                open.pop();
            }
            assert(open@ =~= without_return(line));
            done.push(open);
            open = Vec::new();
            assert(views(done@) =~= before.push(without_return(line)));
            assert(open@ =~= Seq::empty());
        } else {
            open.push(c);
        }
        i = i + 1;
    }
    assert(text@.take(i as int) =~= text@);
    if open.len() > 0 {
        let ghost before = views(done@);
        let ghost line = open@;
        done.push(open);
        assert(views(done@) =~= before.push(line));
    }
    done
}

/// Reads a whole word as a number.
///
/// # Errors
/// Returns why the word is not a number.
pub fn read_number(word: &Vec<char>) -> (value: Result<u64, NumberFailure>)
    ensures
        value == numeral(word@),
{
    if word.len() == 0 {
        return Err(NumberFailure::Empty);
    }
    let start: usize = if word[0] == '+' {
        1
    } else {
        0
    };
    let ghost digits = numeral_digits(word@);
    assert(digits =~= word@.skip(start as int));
    if start == word.len() {
        return Err(NumberFailure::Invalid);
    }
    let mut value: u64 = 0;
    let mut i: usize = start;
    assert(digits.take(0) =~= Seq::empty());
    while i < word.len()
        invariant
            start <= i <= word@.len(),
            start < word@.len(),
            digits == numeral_digits(word@),
            digits == word@.skip(start as int),
            read_digits(digits.take(i - start)) == Ok::<nat, NumberFailure>(value as nat),
        decreases word@.len() - i,
    {
        let c = word[i];
        let code = c as u32;
        proof {
            let n = i - start;
            assert(digits.take(n + 1).drop_last() =~= digits.take(n));
            assert(digits.take(n + 1).last() == c);
            lemma_failure_stays(digits, n + 1);
        }
        if code < 48 || code > 57 {
            return Err(NumberFailure::Invalid);
        }
        let digit: u64 = (code - 48) as u64;
        match value.checked_mul(10) {
            Some(shifted) => match shifted.checked_add(digit) {
                Some(grown) => {
                    value = grown;
                },
                None => {
                    return Err(NumberFailure::TooLarge);
                },
            },
            None => {
                return Err(NumberFailure::TooLarge);
            },
        }
        i = i + 1;
    }
    assert(digits.take(i - start) =~= digits);
    Ok(value)
}

/// A failure at one digit is the failure of the whole.
proof fn lemma_failure_stays(digits: Seq<char>, n: int)
    requires
        0 <= n <= digits.len(),
    ensures
        read_digits(digits.take(n)) is Err ==> read_digits(digits) == read_digits(digits.take(n)),
    decreases digits.len() - n,
{
    if n < digits.len() {
        assert(digits.take(n + 1).drop_last() =~= digits.take(n));
        lemma_failure_stays(digits, n + 1);
    } else {
        assert(digits.take(n) =~= digits);
    }
}

/// Reads a whole word as a number, if it is one.
pub fn parse_number(word: &Vec<char>) -> (value: Option<u64>)
    ensures
        value == number(word@),
{
    proof {
        lemma_read_digits(numeral_digits(word@));
    }
    match read_number(word) {
        Ok(value) => Some(value),
        Err(_) => None,
    }
}

/// Takes a leading `prefix` off a text.
pub fn strip_prefix(text: &Vec<char>, prefix: &str) -> (rest: Option<Vec<char>>)
    ensures
        match rest {
            Some(found) => after_prefix(text@, prefix@) == Some(found@),
            None => after_prefix(text@, prefix@) is None,
        },
{
    let start: Vec<char> = chars_of(prefix);
    if start.len() > text.len() {
        return None;
    }
    let mut i: usize = 0;
    while i < start.len()
        invariant
            i <= start@.len() <= text@.len(),
            start@ == prefix@,
            forall|j: int| 0 <= j < i ==> text@[j] == start@[j],
        decreases start@.len() - i,
    {
        if text[i] != start[i] {
            assert(text@.take(prefix@.len() as int)[i as int] != prefix@[i as int]);
            return None;
        }
        i = i + 1;
    }
    assert(text@.take(prefix@.len() as int) =~= prefix@);
    let rest: Vec<char> = copy(text, start.len(), text.len());
    assert(rest@ =~= text@.skip(prefix@.len() as int));
    Some(rest)
}

/// Whether a text is exactly `expected`.
pub fn is_text(text: &Vec<char>, expected: &str) -> (same: bool)
    ensures
        same == (text@ == expected@),
{
    match strip_prefix(text, expected) {
        Some(rest) => {
            proof {
                if rest@.len() == 0 {
                    assert(text@ =~= text@.take(expected@.len() as int));
                }
            }
            rest.len() == 0
        },
        None => {
            assert(text@ == expected@ ==> text@.take(expected@.len() as int) =~= expected@);
            false
        },
    }
}

/// What follows the last `mark` of a text.
pub fn split_after_last(text: &Vec<char>, mark: char) -> (rest: Option<Vec<char>>)
    ensures
        match rest {
            Some(found) => after_last(text@, mark) == Some(found@),
            None => after_last(text@, mark) is None,
        },
{
    let mut end: usize = text.len();
    let ghost all = text@;
    assert(all.take(end as int) =~= all);
    assert(all.skip(end as int) =~= Seq::empty());
    while end > 0
        invariant
            end <= text@.len(),
            all == text@,
            after_last(all, mark) == (match after_last(all.take(end as int), mark) {
                Some(rest) => Some(rest + all.skip(end as int)),
                None => None,
            }),
        decreases end,
    {
        proof {
            assert(all.take(end as int).drop_last() =~= all.take(end - 1));
            assert(all.take(end as int).last() == all[end - 1]);
        }
        if text[end - 1] == mark {
            let rest: Vec<char> = copy(text, end, text.len());
            assert(rest@ =~= Seq::<char>::empty() + all.skip(end as int));
            return Some(rest);
        }
        proof {
            match after_last(all.take(end - 1), mark) {
                Some(rest) => {
                    assert(rest.push(all[end - 1]) + all.skip(end as int) =~= rest + all.skip(
                        end - 1,
                    ));
                },
                None => {},
            }
        }
        end = end - 1;
    }
    None
}

/// Takes the white space off the start of a text.
fn trim_start(text: &Vec<char>) -> (rest: Vec<char>)
    ensures
        rest@ == trimmed_start(text@),
{
    let mut start: usize = 0;
    assert(text@.skip(0) =~= text@);
    while start < text.len() && space(text[start])
        invariant
            start <= text@.len(),
            trimmed_start(text@) == trimmed_start(text@.skip(start as int)),
        decreases text@.len() - start,
    {
        assert(text@.skip(start as int).skip(1) =~= text@.skip(start + 1));
        start = start + 1;
    }
    let rest: Vec<char> = copy(text, start, text.len());
    assert(rest@ =~= text@.skip(start as int));
    assert(trimmed_start(rest@) == rest@);
    rest
}

/// Takes the white space off the end of a text.
fn trim_end(text: &Vec<char>) -> (rest: Vec<char>)
    ensures
        rest@ == trimmed_end(text@),
{
    let mut end: usize = text.len();
    assert(text@.take(end as int) =~= text@);
    while end > 0 && space(text[end - 1])
        invariant
            end <= text@.len(),
            trimmed_end(text@) == trimmed_end(text@.take(end as int)),
        decreases end,
    {
        assert(text@.take(end as int).drop_last() =~= text@.take(end - 1));
        assert(text@.take(end as int).last() == text@[end - 1]);
        end = end - 1;
    }
    let rest: Vec<char> = copy(text, 0, end);
    assert(rest@ =~= text@.take(end as int));
    assert(trimmed_end(rest@) == rest@);
    rest
}

/// Takes the white space off both ends of a text.
pub fn trim(text: &Vec<char>) -> (inner: Vec<char>)
    ensures
        inner@ == trimmed(text@),
{
    let rest: Vec<char> = trim_start(text);
    trim_end(&rest)
}

/// What follows `prefix` on the first line that starts with it.
pub fn find_field(all: &Vec<Vec<char>>, prefix: &str) -> (rest: Option<Vec<char>>)
    ensures
        match rest {
            Some(found) => first_field(views(all@), prefix@) == Some(found@),
            None => first_field(views(all@), prefix@) is None,
        },
{
    let mut i: usize = 0;
    assert(views(all@).skip(0) =~= views(all@));
    while i < all.len()
        invariant
            i <= all@.len(),
            first_field(views(all@), prefix@) == first_field(views(all@).skip(i as int), prefix@),
        decreases all@.len() - i,
    {
        proof {
            assert(views(all@).skip(i as int)[0] == all@[i as int]@);
            assert(views(all@).skip(i as int).skip(1) =~= views(all@).skip(i + 1));
        }
        if let Some(rest) = strip_prefix(&all[i], prefix) {
            return Some(rest);
        }
        i = i + 1;
    }
    assert(views(all@).skip(i as int) =~= Seq::empty());
    None
}

} // verus!
