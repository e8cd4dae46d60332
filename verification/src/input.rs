//! Reading a move from a line of text: the line, without the white space
//! around it, is a decimal number, with or without a plus sign before it.

use vstd::prelude::*;

verus! {

/// The error of a line that is no number.
#[derive(Debug, Clone, Copy, PartialEq, Eq, Structural)]
pub struct ParseError;

impl ParseError {
    /// The sentence that tells the human that the line was no number.
    pub fn message(&self) -> (text: &'static str)
        ensures
            text@ == "Invalid input. Please enter a number between 0 and 8."@,
    {
        "Invalid input. Please enter a number between 0 and 8."
    }
}

/// The characters that count as white space: the ones that Unicode gives the
/// property `White_Space`.
pub open spec fn is_white_space(c: char) -> bool {
    let code = c as u32;
    ||| 0x09 <= code <= 0x0D
    ||| code == 0x20
    ||| code == 0x85
    ||| code == 0xA0
    ||| code == 0x1680
    ||| 0x2000 <= code <= 0x200A
    ||| code == 0x2028
    ||| code == 0x2029
    ||| code == 0x202F
    ||| code == 0x205F
    ||| code == 0x3000
}

/// `text` without the white space at its start.
pub open spec fn trim_start(text: Seq<char>) -> Seq<char>
    decreases text.len(),
{
    if text.len() > 0 && is_white_space(text[0]) {
        trim_start(text.drop_first())
    } else {
        text
    }
}

/// `text` without the white space at its end.
pub open spec fn trim_end(text: Seq<char>) -> Seq<char>
    decreases text.len(),
{
    if text.len() > 0 && is_white_space(text.last()) {
        trim_end(text.drop_last())
    } else {
        text
    }
}

/// `text` without the white space at its start and at its end.
pub open spec fn trimmed(text: Seq<char>) -> Seq<char> {
    trim_end(trim_start(text))
}

/// `text` without the plus sign that may stand before a number.
pub open spec fn unsigned_part(text: Seq<char>) -> Seq<char> {
    if text.len() > 0 && text[0] == '+' {
        text.drop_first()
    } else {
        text
    }
}

/// One of the ten decimal digits.
pub open spec fn is_digit(c: char) -> bool {
    '0' <= c <= '9'
}

/// The number a digit stands for; zero for any other character.
pub open spec fn digit_value(c: char) -> nat {
    if is_digit(c) {
        (c as u32 - '0' as u32) as nat
    } else {
        0
    }
}

/// Every character of `text` is a decimal digit.
pub open spec fn digits_only(text: Seq<char>) -> bool {
    forall|i: int| 0 <= i < text.len() ==> is_digit(#[trigger] text[i])
}

/// The number that a sequence of digits writes in base ten.
pub open spec fn decimal_value(digits: Seq<char>) -> nat
    decreases digits.len(),
{
    if digits.len() == 0 {
        0
    } else {
        10 * decimal_value(digits.drop_last()) + digit_value(digits.last())
    }
}

/// The index that a line of text names: the line, trimmed and without a plus
/// sign, must be one digit or more, and the number must fit a `usize`.
pub open spec fn parsed_index(line: Seq<char>) -> Option<usize> {
    let digits = unsigned_part(trimmed(line));
    if digits.len() > 0 && digits_only(digits) && decimal_value(digits) <= usize::MAX {
        Some(decimal_value(digits) as usize)
    } else {
        None
    }
}

/// Where the first `count` characters are white space and the next one, if
/// there is one, is not, trimming the start drops exactly those.
pub proof fn lemma_trim_start(text: Seq<char>, count: int)
    requires
        0 <= count <= text.len(),
        forall|i: int| 0 <= i < count ==> is_white_space(#[trigger] text[i]),
        count < text.len() ==> !is_white_space(text[count]),
    ensures
        trim_start(text) == text.subrange(count, text.len() as int),
    decreases count,
{
    if count == 0 {
        assert(text.subrange(0, text.len() as int) =~= text);
    } else {
        let rest = text.drop_first();
        assert forall|i: int| 0 <= i < count - 1 implies is_white_space(#[trigger] rest[i]) by {
            assert(rest[i] == text[i + 1]);
        }
        lemma_trim_start(rest, count - 1);
        assert(rest.subrange(count - 1, rest.len() as int) =~= text.subrange(
            count,
            text.len() as int,
        ));
    }
}

/// Where the characters from `end` on are white space and the one before, if
/// there is one, is not, trimming the end drops exactly those.
pub proof fn lemma_trim_end(text: Seq<char>, end: int)
    requires
        0 <= end <= text.len(),
        forall|i: int| end <= i < text.len() ==> is_white_space(#[trigger] text[i]),
        0 < end ==> !is_white_space(text[end - 1]),
    ensures
        trim_end(text) == text.subrange(0, end),
    decreases text.len() - end,
{
    if end == text.len() {
        assert(text.subrange(0, end) =~= text);
    } else {
        let rest = text.drop_last();
        lemma_trim_end(rest, end);
        assert(rest.subrange(0, end) =~= text.subrange(0, end));
    }
}

/// The digits read so far never write a larger number than all of them.
pub proof fn lemma_value_of_prefix(digits: Seq<char>, count: int)
    requires
        0 <= count <= digits.len(),
    ensures
        decimal_value(digits.subrange(0, count)) <= decimal_value(digits),
    decreases digits.len() - count,
{
    if count == digits.len() {
        assert(digits.subrange(0, count) =~= digits);
    } else {
        lemma_value_of_prefix(digits.drop_last(), count);
        assert(digits.drop_last().subrange(0, count) =~= digits.subrange(0, count));
    }
}

/// Whether `c` is white space.
fn is_space(c: char) -> (space: bool)
    ensures
        space == is_white_space(c),
{
    let code = c as u32;
    (0x09 <= code && code <= 0x0D) || code == 0x20 || code == 0x85 || code == 0xA0 || code
        == 0x1680 || (0x2000 <= code && code <= 0x200A) || code == 0x2028 || code == 0x2029
        || code == 0x202F || code == 0x205F || code == 0x3000
}

/// The position of the first character of `line` that is not white space, or
/// the length of the line where there is none.
fn first_mark(line: &str, len: usize) -> (start: usize)
    requires
        len == line@.len(),
    ensures
        start <= len,
        trim_start(line@) == line@.subrange(start as int, len as int),
{
    let mut start: usize = 0;
    while start < len
        invariant_except_break
            start <= len,
            len == line@.len(),
            forall|i: int| 0 <= i < start ==> is_white_space(#[trigger] line@[i]),
        ensures
            start <= len,
            forall|i: int| 0 <= i < start ==> is_white_space(#[trigger] line@[i]),
            start < len ==> !is_white_space(line@[start as int]),
        decreases len - start,
    {
        if !is_space(line.get_char(start)) {
            break ;
        }
        start += 1;
    }
    proof {
        lemma_trim_start(line@, start as int);
    }
    start
}

/// The position after the last character of `line` from `start` on that is
/// not white space, or `start` where there is none.
fn last_mark(line: &str, start: usize, len: usize) -> (end: usize)
    requires
        start <= len == line@.len(),
    ensures
        start <= end <= len,
        trim_end(line@.subrange(start as int, len as int)) == line@.subrange(
            start as int,
            end as int,
        ),
{
    let mut end: usize = len;
    while end > start
        invariant_except_break
            start <= end <= len,
            len == line@.len(),
            forall|i: int| end <= i < len ==> is_white_space(#[trigger] line@[i]),
        ensures
            start <= end <= len,
            forall|i: int| end <= i < len ==> is_white_space(#[trigger] line@[i]),
            start < end ==> !is_white_space(line@[end - 1]),
        decreases end,
    {
        if !is_space(line.get_char(end - 1)) {
            break ;
        }
        end -= 1;
    }
    proof {
        let tail = line@.subrange(start as int, len as int);
        assert forall|i: int| end - start <= i < tail.len() implies is_white_space(
            #[trigger] tail[i],
        ) by {
            assert(tail[i] == line@[start + i]);
        }
        lemma_trim_end(tail, end - start);
        assert(tail.subrange(0, end - start) =~= line@.subrange(start as int, end as int));
    }
    end
}

/// Reads the index that a line of text names.
///
/// White space around the number is ignored, and one plus sign may stand
/// before it. What is left must be decimal digits, at least one, that write a
/// number no larger than `usize::MAX`; any other line is an error.
pub fn parse_index(line: &str) -> (r: Result<usize, ParseError>)
    ensures
        r == match parsed_index(line@) {
            Some(index) => Ok::<usize, ParseError>(index),
            None => Err(ParseError),
        },
{
    let len = line.unicode_len();
    let start = first_mark(line, len);
    let end = last_mark(line, start, len);
    let ghost text = line@.subrange(start as int, end as int);
    assert(text == trimmed(line@));
    let first = if start < end && line.get_char(start) == '+' {
        start + 1
    } else {
        start
    };
    let ghost digits = line@.subrange(first as int, end as int);
    assert(digits =~= unsigned_part(text));
    if first == end {
        return Err(ParseError);
    }
    let mut value: usize = 0;
    let mut i: usize = first;
    while i < end
        invariant
            first <= i <= end <= len == line@.len(),
            digits == line@.subrange(first as int, end as int),
            digits == unsigned_part(trimmed(line@)),
            digits_only(digits.subrange(0, i - first)),
            value == decimal_value(digits.subrange(0, i - first)),
        decreases end - i,
    {
        let c = line.get_char(i);
        let ghost read = digits.subrange(0, i - first + 1);
        proof {
            assert(read.drop_last() =~= digits.subrange(0, i - first));
            assert(read.last() == c);
            lemma_value_of_prefix(digits, i - first + 1);
        }
        if !(c >= '0' && c <= '9') {
            assert(!is_digit(digits[i - first]));
            return Err(ParseError);
        }
        let digit = (c as u32 - '0' as u32) as usize;
        assert(decimal_value(read) == 10 * value + digit) by {
            assert(read.len() > 0);
            assert(digit == digit_value(read.last()));
            assert(decimal_value(read.drop_last()) == value);
        }
        let tenfold = match value.checked_mul(10) {
            Some(tenfold) => tenfold,
            None => {
                return Err(ParseError);
            },
        };
        value = match tenfold.checked_add(digit) {
            Some(sum) => sum,
            None => {
                return Err(ParseError);
            },
        };
        i += 1;
    }
    assert(digits.subrange(0, end - first) =~= digits);
    Ok(value)
}

} // verus!
