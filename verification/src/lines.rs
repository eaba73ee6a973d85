//! Cutting texts at separators and into lines, and reading numbers.

use crate::agents;
use crate::search;
use crate::search::{ends_with, matches_at, split};
use crate::strings;
use crate::strings::{char_is_digit, chars_of, string_of};
use vstd::prelude::*;

verus! {

/// Where a part stands in a text first, from a position on.
pub open spec fn index_from(text: Seq<char>, part: Seq<char>, from: int) -> Option<int>
    decreases text.len() - from,
{
    if from > text.len() - part.len() || from >= text.len() {
        None
    } else if search::occurs_at(text, part, from) {
        Some(from)
    } else {
        index_from(text, part, from + 1)
    }
}

/// Where a part stands in a text first.
pub open spec fn first_index(text: Seq<char>, part: Seq<char>) -> Option<int> {
    index_from(text, part, 0)
}

/// Where a part stands in a text last, up to a position.
pub open spec fn index_up_to(text: Seq<char>, part: Seq<char>, to: int) -> Option<int>
    decreases to + 1,
{
    if to < 0 {
        None
    } else if search::occurs_at(text, part, to) {
        Some(to)
    } else {
        index_up_to(text, part, to - 1)
    }
}

/// Where a part stands in a text last.
pub open spec fn last_index(text: Seq<char>, part: Seq<char>) -> Option<int> {
    index_up_to(text, part, text.len() - part.len())
}

fn find_first(text: &Vec<char>, part: &Vec<char>) -> (found: Option<usize>)
    ensures
        match found {
            Some(index) => first_index(text@, part@) == Some(index as int) && index + part@.len()
                <= text@.len(),
            None => first_index(text@, part@) is None,
        },
{
    let mut index: usize = 0;
    while index < text.len()
        invariant
            index <= text@.len(),
            index_from(text@, part@, index as int) == first_index(text@, part@),
        decreases text@.len() - index,
    {
        if text.len() - index < part.len() {
            return None;
        }
        if matches_at(text, part, index) {
            return Some(index);
        }
        index += 1;
    }
    None
}

fn find_last(text: &Vec<char>, part: &Vec<char>) -> (found: Option<usize>)
    ensures
        match found {
            Some(index) => last_index(text@, part@) == Some(index as int) && index + part@.len()
                <= text@.len(),
            None => last_index(text@, part@) is None,
        },
{
    if part.len() > text.len() {
        return None;
    }
    let mut index: usize = text.len() - part.len();
    loop
        invariant
            index + part@.len() <= text@.len(),
            index_up_to(text@, part@, index as int) == last_index(text@, part@),
        decreases index,
    {
        if matches_at(text, part, index) {
            return Some(index);
        }
        if index == 0 {
            assert(index_up_to(text@, part@, -1) is None);
            return None;
        }
        index -= 1;
    }
}

/// The two sides of the first separator.
pub open spec fn cut_once(text: Seq<char>, separator: Seq<char>) -> Option<(Seq<char>, Seq<char>)> {
    match first_index(text, separator) {
        Some(index) => Some((text.take(index), text.skip(index + separator.len()))),
        None => None,
    }
}

/// The two sides of the last separator.
pub open spec fn cut_last(text: Seq<char>, separator: Seq<char>) -> Option<(Seq<char>, Seq<char>)> {
    match last_index(text, separator) {
        Some(index) => Some((text.take(index), text.skip(index + separator.len()))),
        None => None,
    }
}

/// Cuts a text at the first separator.
pub fn split_once(text: &str, separator: &str) -> (sides: Option<(String, String)>)
    ensures
        match sides {
            Some((left, right)) => cut_once(text@, separator@) == Some((left@, right@)),
            None => cut_once(text@, separator@) is None,
        },
{
    let chars = chars_of(text);
    let part = chars_of(separator);
    match find_first(&chars, &part) {
        Some(index) => {
            let length: usize = chars.len();
            let left = string_of(&chars, 0, index);
            let right = string_of(&chars, index + part.len(), length);
            proof {
                assert(left@ =~= text@.take(index as int));
                assert(right@ =~= text@.skip(index + separator@.len()));
            }
            Some((left, right))
        },
        None => None,
    }
}

/// Cuts a text at the last separator.
pub fn rsplit_once(text: &str, separator: &str) -> (sides: Option<(String, String)>)
    ensures
        match sides {
            Some((left, right)) => cut_last(text@, separator@) == Some((left@, right@)),
            None => cut_last(text@, separator@) is None,
        },
{
    let chars = chars_of(text);
    let part = chars_of(separator);
    match find_last(&chars, &part) {
        Some(index) => {
            let length: usize = chars.len();
            let left = string_of(&chars, 0, index);
            let right = string_of(&chars, index + part.len(), length);
            proof {
                assert(left@ =~= text@.take(index as int));
                assert(right@ =~= text@.skip(index + separator@.len()));
            }
            Some((left, right))
        },
        None => None,
    }
}

/// What stands before the first separator; the whole text if there is none.
pub open spec fn before_first(text: Seq<char>, separator: Seq<char>) -> Seq<char> {
    match cut_once(text, separator) {
        Some((left, _)) => left,
        None => text,
    }
}

/// What stands before the first separator; the whole text if there is none.
pub fn take_before(text: &str, separator: &str) -> (left: String)
    ensures
        left@ == before_first(text@, separator@),
{
    match split_once(text, separator) {
        Some((left, _)) => left,
        None => text.to_owned(),
    }
}

/// A text without a suffix.
pub open spec fn without_suffix(text: Seq<char>, suffix: Seq<char>) -> Option<Seq<char>> {
    if suffix.is_suffix_of(text) {
        Some(text.take(text.len() - suffix.len()))
    } else {
        None
    }
}

/// A text without a suffix.
pub fn strip_suffix(text: &str, suffix: &str) -> (rest: Option<String>)
    ensures
        match rest {
            Some(rest) => without_suffix(text@, suffix@) == Some(rest@),
            None => without_suffix(text@, suffix@) is None,
        },
{
    if !ends_with(text, suffix) {
        return None;
    }
    let chars = chars_of(text);
    let cut = chars_of(suffix);
    assert(cut@.len() <= chars@.len());
    let rest = string_of(&chars, 0, chars.len() - cut.len());
    proof {
        assert(rest@ =~= text@.take(text@.len() - suffix@.len()));
    }
    Some(rest)
}

/// A line without the carriage return before its end.
pub open spec fn without_return(line: Seq<char>) -> Seq<char> {
    if line.len() > 0 && line.last() == '\r' {
        line.drop_last()
    } else {
        line
    }
}

/// The lines of a text: a line ends with a line feed, with or without a carriage return before it,
/// and what follows the last one is a line if it is not empty.
pub open spec fn lines_of(text: Seq<char>) -> Seq<Seq<char>> {
    let parts = search::pieces(text, '\n');
    let ended = parts.drop_last().map_values(|part: Seq<char>| without_return(part));
    if parts.last().len() == 0 {
        ended
    } else {
        ended.push(parts.last())
    }
}

fn cut_return(line: &str) -> (rest: String)
    ensures
        rest@ == without_return(line@),
{
    let chars = chars_of(line);
    if chars.len() > 0 && chars[chars.len() - 1] == '\r' {
        let rest = string_of(&chars, 0, chars.len() - 1);
        proof {
            assert(rest@ =~= line@.drop_last());
        }
        rest
    } else {
        line.to_owned()
    }
}

/// Cuts a text into its lines.
pub fn lines(text: &str) -> (lines: Vec<String>)
    ensures
        search::texts(lines@) == lines_of(text@),
{
    let parts = split(text, '\n');
    let ghost pieces = search::pieces(text@, '\n');
    assert(search::texts(parts@).len() == pieces.len());
    let mut lines: Vec<String> = Vec::new();
    let last: usize = parts.len() - 1;
    let mut index: usize = 0;
    while index < last
        invariant
            index <= last,
            parts@.len() == last + 1,
            pieces == search::texts(parts@),
            lines@.len() == index,
            forall|i: int| 0 <= i < index ==> #[trigger] lines@[i]@ == without_return(pieces[i]),
        decreases last - index,
    {
        assert(pieces[index as int] == parts@[index as int]@);
        lines.push(cut_return(parts[index].as_str()));
        index += 1;
    }
    assert(pieces.last() == parts@[last as int]@);
    let ghost ended = pieces.drop_last().map_values(|part: Seq<char>| without_return(part));
    proof {
        assert(search::texts(lines@) =~= ended);
    }
    if !parts[last].as_str().is_empty() {
        let ghost before = lines@;
        lines.push(parts[last].clone());
        proof {
            assert(search::texts(lines@) =~= ended.push(pieces.last()));
        }
    }
    lines
}

/// The lines of a text with their ends: a line goes on up to and with the next line feed.
pub open spec fn kept_lines(text: Seq<char>) -> Seq<Seq<char>>
    decreases text.len(),
{
    if text.len() == 0 {
        Seq::empty()
    } else {
        let before = kept_lines(text.drop_last());
        if before.len() > 0 && before.last().last() != '\n' {
            before.drop_last().push(before.last().push(text.last()))
        } else {
            before.push(seq![text.last()])
        }
    }
}

/// Splits a text into lines that keep their ends.
pub fn lines_with_endings(text: &str) -> (rows: Vec<String>)
    ensures
        search::texts(rows@) == kept_lines(text@),
{
    let chars = chars_of(text);
    let mut rows: Vec<String> = Vec::new();
    let mut current = String::new();
    let mut index: usize = 0;
    let ghost mut ended: Seq<Seq<char>> = Seq::empty();
    proof {
        assert(chars@.take(0) =~= Seq::empty());
        assert(search::texts(rows@) =~= ended);
    }
    while index < chars.len()
        invariant
            index <= chars@.len(),
            chars@ == text@,
            search::texts(rows@) == ended,
            ended.len() > 0 ==> ended.last().last() == '\n',
            current@.len() > 0 ==> current@.last() != '\n',
            kept_lines(chars@.take(index as int)) == if current@.len() > 0 {
                ended.push(current@)
            } else {
                ended
            },
        decreases chars@.len() - index,
    {
        let character = chars[index];
        let ghost before = current@;
        proof {
            assert(chars@.take(index + 1).drop_last() =~= chars@.take(index as int));
            assert(ended.push(before).drop_last() =~= ended);
            if before.len() == 0 {
                assert(before.push(character) =~= seq![character]);
            }
        }
        current.push(character);
        if character == '\n' {
            let ghost shown = search::texts(rows@);
            let ghost line = current@;
            rows.push(current);
            current = String::new();
            proof {
                assert(search::texts(rows@) =~= shown.push(line));
                ended = ended.push(line);
            }
        }
        index += 1;
    }
    proof {
        assert(chars@.take(index as int) =~= text@);
    }
    if !current.as_str().is_empty() {
        let ghost line = current@;
        rows.push(current);
        proof {
            assert(search::texts(rows@) =~= ended.push(line));
        }
    }
    rows
}

/// The value of a digit.
pub open spec fn digit_value(digit: char) -> nat {
    (digit as int - '0' as int) as nat
}

/// The number that a row of digits stands for.
pub open spec fn number_of(digits: Seq<char>) -> nat
    decreases digits.len(),
{
    if digits.len() == 0 {
        0
    } else {
        number_of(digits.drop_last()) * 10 + digit_value(digits.last())
    }
}

/// The digits of a number, behind a plus sign if there is one.
pub open spec fn digits_of_number(text: Seq<char>) -> Seq<char> {
    if text.len() > 0 && text[0] == '+' {
        text.skip(1)
    } else {
        text
    }
}

/// The number that a text stands for: digits, perhaps behind a plus sign, and no more than the
/// limit.
pub open spec fn parsed_number(text: Seq<char>, limit: nat) -> Option<nat> {
    let digits = digits_of_number(text);
    if digits.len() > 0 && agents::all_digits(digits) && number_of(digits) <= limit {
        Some(number_of(digits))
    } else {
        None
    }
}

proof fn number_grows(digits: Seq<char>, count: int)
    requires
        0 <= count <= digits.len(),
    ensures
        number_of(digits.take(count)) <= number_of(digits),
    decreases digits.len(),
{
    if count == digits.len() {
        assert(digits.take(count) =~= digits);
    } else {
        number_grows(digits.drop_last(), count);
        assert(digits.drop_last().take(count) =~= digits.take(count));
    }
}

/// Reads a number that is no more than the limit.
pub fn parse_number(text: &str, limit: u64) -> (number: Option<u64>)
    ensures
        match number {
            Some(value) => parsed_number(text@, limit as nat) == Some(value as nat),
            None => parsed_number(text@, limit as nat) is None,
        },
{
    let chars = chars_of(text);
    let start: usize = if chars.len() > 0 && chars[0] == '+' {
        1
    } else {
        0
    };
    let ghost digits = digits_of_number(text@);
    assert(digits =~= chars@.skip(start as int));
    if start == chars.len() {
        return None;
    }
    let mut value: u64 = 0;
    let mut index: usize = start;
    proof {
        assert(digits.take(0) =~= Seq::empty());
    }
    while index < chars.len()
        invariant
            start <= index <= chars@.len(),
            start < chars@.len(),
            digits == chars@.skip(start as int),
            digits == digits_of_number(text@),
            forall|i: int| 0 <= i < index - start ==> strings::is_digit(#[trigger] digits[i]),
            value == number_of(digits.take(index - start)),
            value <= limit,
        decreases chars@.len() - index,
    {
        let digit = chars[index];
        let ghost place = index - start;
        assert(digits[place] == digit);
        if !char_is_digit(digit) {
            assert(!strings::is_digit(digits[place]));
            return None;
        }
        proof {
            assert(digits.take(place + 1).drop_last() =~= digits.take(place));
            number_grows(digits, place + 1);
        }
        let next: u128 = value as u128 * 10 + (digit as u32 - '0' as u32) as u128;
        if next > limit as u128 {
            return None;
        }
        value = next as u64;
        index += 1;
    }
    proof {
        assert(digits.take(index - start) =~= digits);
    }
    Some(value)
}

/// Reads a number that fits into 32 bits.
pub fn parse_u32(text: &str) -> (number: Option<u32>)
    ensures
        match number {
            Some(value) => parsed_number(text@, u32::MAX as nat) == Some(value as nat),
            None => parsed_number(text@, u32::MAX as nat) is None,
        },
{
    match parse_number(text, u32::MAX as u64) {
        Some(value) => Some(value as u32),
        None => None,
    }
}

/// Reads a number that fits into a machine word.
pub fn parse_usize(text: &str) -> (number: Option<usize>)
    ensures
        match number {
            Some(value) => parsed_number(text@, usize::MAX as nat) == Some(value as nat),
            None => parsed_number(text@, usize::MAX as nat) is None,
        },
{
    match parse_number(text, usize::MAX as u64) {
        Some(value) => Some(value as usize),
        None => None,
    }
}

/// A number is written with digits, which stand for the number.
pub proof fn decimal_is_digits(value: nat)
    ensures
        agents::all_digits(strings::decimal(value)),
        strings::decimal(value).len() > 0,
        number_of(strings::decimal(value)) == value,
    decreases value,
{
    let text = strings::decimal(value);
    assert(digit_value(strings::digit_char(value)) == value % 10);
    if value >= 10 {
        decimal_is_digits(value / 10);
        assert(text.drop_last() =~= strings::decimal(value / 10));
    } else {
        assert(text.drop_last() =~= Seq::empty());
        assert(number_of(text.drop_last()) == 0);
    }
}

/// A number that was written down is read back.
pub proof fn written_numbers_are_read_back(value: nat, limit: nat)
    requires
        value <= limit,
    ensures
        parsed_number(strings::decimal(value), limit) == Some(value),
{
    decimal_is_digits(value);
    let text = strings::decimal(value);
    assert(strings::is_digit(text[0]));
    assert(digits_of_number(text) == text);
}

} // verus!
