//! Searching, cutting and rewriting text.

use crate::strings;
use crate::strings::{char_is_whitespace, chars_of, string_of};
use vstd::prelude::*;

verus! {

/// `part` stands in `text` at position `index`.
pub open spec fn occurs_at(text: Seq<char>, part: Seq<char>, index: int) -> bool {
    0 <= index <= text.len() - part.len() && text.subrange(index, index + part.len()) == part
}

/// `part` stands somewhere in `text`.
pub open spec fn contains_text(text: Seq<char>, part: Seq<char>) -> bool {
    exists|index: int| occurs_at(text, part, index)
}

/// Whether `part` stands in `text` at a position.
pub fn matches_at(text: &Vec<char>, part: &Vec<char>, index: usize) -> (found: bool)
    requires
        index + part@.len() <= text@.len(),
    ensures
        found == occurs_at(text@, part@, index as int),
{
    let total: usize = text.len();
    let mut offset: usize = 0;
    while offset < part.len()
        invariant
            offset <= part@.len(),
            total == text@.len(),
            index + part@.len() <= text@.len(),
            forall|i: int| 0 <= i < offset ==> text@[index + i] == part@[i],
        decreases part@.len() - offset,
    {
        if text[index + offset] != part[offset] {
            proof {
                if occurs_at(text@, part@, index as int) {
                    assert(text@.subrange(index as int, index + part@.len())[offset as int]
                        == part@[offset as int]);
                }
            }
            return false;
        }
        offset += 1;
    }
    proof {
        assert(text@.subrange(index as int, index + part@.len()) =~= part@);
    }
    true
}

/// The first position at which `part` stands in `text`.
pub fn find_chars(text: &Vec<char>, part: &Vec<char>) -> (found: Option<usize>)
    ensures
        match found {
            Some(index) => occurs_at(text@, part@, index as int) && forall|i: int|
                0 <= i < index ==> !occurs_at(text@, part@, i),
            None => !contains_text(text@, part@),
        },
{
    if part.len() > text.len() {
        return None;
    }
    let last: usize = text.len() - part.len();
    let mut index: usize = 0;
    loop
        invariant
            last == text@.len() - part@.len(),
            index <= last,
            forall|i: int| 0 <= i < index ==> !occurs_at(text@, part@, i),
        decreases last - index,
    {
        if matches_at(text, part, index) {
            return Some(index);
        }
        if index == last {
            return None;
        }
        index += 1;
    }
}

/// Whether `part` stands somewhere in `text`.
pub fn contains(text: &str, part: &str) -> (found: bool)
    ensures
        found == contains_text(text@, part@),
{
    find_chars(&chars_of(text), &chars_of(part)).is_some()
}

/// Whether a character stands somewhere in `text`.
pub fn contains_char(text: &str, character: char) -> (found: bool)
    ensures
        found == text@.contains(character),
{
    let chars = chars_of(text);
    let mut index: usize = 0;
    while index < chars.len()
        invariant
            index <= chars@.len(),
            chars@ == text@,
            forall|i: int| 0 <= i < index ==> chars@[i] != character,
        decreases chars@.len() - index,
    {
        if chars[index] == character {
            assert(text@[index as int] == character);
            return true;
        }
        index += 1;
    }
    false
}

/// Whether `text` begins with `prefix`.
pub fn starts_with(text: &str, prefix: &str) -> (found: bool)
    ensures
        found == prefix@.is_prefix_of(text@),
{
    let chars = chars_of(text);
    let part = chars_of(prefix);
    if part.len() > chars.len() {
        return false;
    }
    let found = matches_at(&chars, &part, 0);
    proof {
        assert(prefix@.is_prefix_of(text@) <==> occurs_at(text@, prefix@, 0));
    }
    found
}

/// Whether `text` ends with `suffix`.
pub fn ends_with(text: &str, suffix: &str) -> (found: bool)
    ensures
        found == suffix@.is_suffix_of(text@),
{
    let chars = chars_of(text);
    let part = chars_of(suffix);
    if part.len() > chars.len() {
        return false;
    }
    let start: usize = chars.len() - part.len();
    let found = matches_at(&chars, &part, start);
    proof {
        assert(suffix@.is_suffix_of(text@) <==> occurs_at(text@, suffix@, start as int));
    }
    found
}

/// What follows `prefix` in `text`, if `text` begins with it.
pub fn strip_prefix(text: &str, prefix: &str) -> (rest: Option<String>)
    ensures
        match rest {
            Some(rest) => prefix@.is_prefix_of(text@) && rest@ == text@.skip(prefix@.len() as int),
            None => !prefix@.is_prefix_of(text@),
        },
{
    if !starts_with(text, prefix) {
        return None;
    }
    let chars = chars_of(text);
    let cut: usize = chars_of(prefix).len();
    let rest = string_of(&chars, cut, chars.len());
    proof {
        assert(text@.subrange(cut as int, text@.len() as int) =~= text@.skip(cut as int));
    }
    Some(rest)
}

/// The text without the white space at its beginning.
pub open spec fn trimmed_start(text: Seq<char>) -> Seq<char>
    decreases text.len(),
{
    if text.len() > 0 && strings::is_white_space(text[0]) {
        trimmed_start(text.skip(1))
    } else {
        text
    }
}

/// The text without the white space at its end.
pub open spec fn trimmed_end(text: Seq<char>) -> Seq<char>
    decreases text.len(),
{
    if text.len() > 0 && strings::is_white_space(text.last()) {
        trimmed_end(text.drop_last())
    } else {
        text
    }
}

/// The text without the white space at both its ends.
pub open spec fn trimmed(text: Seq<char>) -> Seq<char> {
    trimmed_end(trimmed_start(text))
}

/// The text without the white space at its end.
pub fn trim_end(text: &str) -> (rest: String)
    ensures
        rest@ == trimmed_end(text@),
{
    let chars = chars_of(text);
    let mut end: usize = chars.len();
    proof {
        assert(chars@.subrange(0, end as int) =~= text@);
    }
    while end > 0 && char_is_whitespace(chars[end - 1])
        invariant
            end <= chars@.len(),
            trimmed_end(chars@.subrange(0, end as int)) == trimmed_end(text@),
        decreases end,
    {
        proof {
            assert(chars@.subrange(0, end as int).drop_last() =~= chars@.subrange(0, end - 1));
        }
        end -= 1;
    }
    string_of(&chars, 0, end)
}

/// The text without the white space at its beginning.
pub fn trim_start(text: &str) -> (rest: String)
    ensures
        rest@ == trimmed_start(text@),
{
    let chars = chars_of(text);
    let mut start: usize = 0;
    proof {
        assert(chars@.subrange(0, chars@.len() as int) =~= text@);
    }
    while start < chars.len() && char_is_whitespace(chars[start])
        invariant
            start <= chars@.len(),
            trimmed_start(chars@.subrange(start as int, chars@.len() as int)) == trimmed_start(
                text@,
            ),
        decreases chars@.len() - start,
    {
        proof {
            assert(chars@.subrange(start as int, chars@.len() as int).skip(1) =~= chars@.subrange(
                start + 1,
                chars@.len() as int,
            ));
        }
        start += 1;
    }
    string_of(&chars, start, chars.len())
}

/// The text without the white space at both its ends.
pub fn trim(text: &str) -> (rest: String)
    ensures
        rest@ == trimmed(text@),
{
    let rest = trim_start(text);
    trim_end(rest.as_str())
}

/// The pieces of a text between the separators: one more than there are separators.
pub open spec fn pieces(text: Seq<char>, separator: char) -> Seq<Seq<char>>
    decreases text.len(),
{
    if text.len() == 0 {
        seq![Seq::empty()]
    } else {
        let before = pieces(text.drop_last(), separator);
        if text.last() == separator {
            before.push(Seq::empty())
        } else {
            before.drop_last().push(before.last().push(text.last()))
        }
    }
}

/// The texts that a vector of strings holds.
pub open spec fn texts(strings: Seq<String>) -> Seq<Seq<char>> {
    Seq::new(strings.len(), |i: int| strings[i]@)
}

/// Cuts a text at every separator.
pub fn split(text: &str, separator: char) -> (parts: Vec<String>)
    ensures
        texts(parts@) == pieces(text@, separator),
        parts@.len() >= 1,
{
    let chars = chars_of(text);
    let mut parts: Vec<String> = Vec::new();
    let mut piece: String = String::new();
    let mut index: usize = 0;
    proof {
        assert(chars@.take(0) =~= Seq::empty());
        assert(texts(parts@).push(piece@) =~= pieces(chars@.take(0), separator));
    }
    while index < chars.len()
        invariant
            index <= chars@.len(),
            chars@ == text@,
            texts(parts@).push(piece@) == pieces(chars@.take(index as int), separator),
        decreases chars@.len() - index,
    {
        let character = chars[index];
        proof {
            assert(chars@.take(index + 1).drop_last() =~= chars@.take(index as int));
        }
        if character == separator {
            let ghost before = parts@;
            let ghost last = piece@;
            parts.push(piece);
            piece = String::new();
            proof {
                assert(texts(parts@) =~= texts(before).push(last));
                assert(texts(parts@).push(piece@) =~= pieces(
                    chars@.take(index + 1),
                    separator,
                ));
            }
        } else {
            piece.push(character);
            proof {
                let before = pieces(chars@.take(index as int), separator);
                assert(before.drop_last() =~= texts(parts@));
                assert(texts(parts@).push(piece@) =~= pieces(
                    chars@.take(index + 1),
                    separator,
                ));
            }
        }
        index += 1;
    }
    proof {
        assert(chars@.take(index as int) =~= text@);
    }
    let ghost before = parts@;
    let ghost last = piece@;
    parts.push(piece);
    proof {
        assert(texts(parts@) =~= texts(before).push(last));
    }
    parts
}

/// A text with every occurrence of one character replaced.
pub open spec fn replaced(text: Seq<char>, from: char, to: Seq<char>) -> Seq<char>
    decreases text.len(),
{
    if text.len() == 0 {
        text
    } else if text.last() == from {
        replaced(text.drop_last(), from, to) + to
    } else {
        replaced(text.drop_last(), from, to).push(text.last())
    }
}

/// Replaces every occurrence of one character.
pub fn replace_char(text: &str, from: char, to: &str) -> (result: String)
    ensures
        result@ == replaced(text@, from, to@),
{
    let chars = chars_of(text);
    let mut result: String = String::new();
    let mut index: usize = 0;
    proof {
        assert(chars@.take(0) =~= Seq::empty());
        assert(result@ =~= chars@.take(0));
    }
    while index < chars.len()
        invariant
            index <= chars@.len(),
            chars@ == text@,
            result@ == replaced(chars@.take(index as int), from, to@),
        decreases chars@.len() - index,
    {
        proof {
            assert(chars@.take(index + 1).drop_last() =~= chars@.take(index as int));
        }
        if chars[index] == from {
            result.append(to);
        } else {
            result.push(chars[index]);
        }
        index += 1;
    }
    proof {
        assert(chars@.take(index as int) =~= text@);
    }
    result
}

/// Texts joined with a separator between each two of them.
pub open spec fn joined(parts: Seq<Seq<char>>, separator: Seq<char>) -> Seq<char>
    decreases parts.len(),
{
    if parts.len() == 0 {
        Seq::empty()
    } else if parts.len() == 1 {
        parts[0]
    } else {
        joined(parts.drop_last(), separator) + separator + parts.last()
    }
}

/// Joins texts with a separator between each two of them.
pub fn join(parts: &Vec<String>, separator: &str) -> (text: String)
    ensures
        text@ == joined(texts(parts@), separator@),
{
    let mut text: String = String::new();
    let mut index: usize = 0;
    proof {
        assert(text@ =~= joined(texts(parts@).take(0), separator@));
    }
    while index < parts.len()
        invariant
            index <= parts@.len(),
            text@ == joined(texts(parts@).take(index as int), separator@),
        decreases parts@.len() - index,
    {
        let ghost before = text@;
        if index > 0 {
            text.append(separator);
        }
        text.append(parts[index].as_str());
        proof {
            let prefix = texts(parts@).take(index + 1);
            assert(prefix.drop_last() =~= texts(parts@).take(index as int));
            if index == 0 {
                assert(before =~= Seq::empty());
                assert(text@ =~= prefix[0]);
            } else {
                assert(text@ =~= before + separator@ + prefix.last());
            }
        }
        index += 1;
    }
    proof {
        assert(texts(parts@).take(index as int) =~= texts(parts@));
    }
    text
}

/// Whether one of the strings holds a text.
pub open spec fn lists(strings: Seq<String>, text: Seq<char>) -> bool {
    exists|i: int| 0 <= i < strings.len() && #[trigger] strings[i]@ == text
}

/// The position of the first string that holds a text.
pub open spec fn first_position(strings: Seq<String>, text: Seq<char>, index: int) -> bool {
    &&& 0 <= index < strings.len()
    &&& strings[index]@ == text
    &&& forall|i: int| 0 <= i < index ==> #[trigger] strings[i]@ != text
}

/// Finds the first string that holds a text.
pub fn position_of(strings: &Vec<String>, text: &str) -> (found: Option<usize>)
    ensures
        match found {
            Some(index) => first_position(strings@, text@, index as int),
            None => !lists(strings@, text@),
        },
{
    let wanted = text.to_owned();
    let mut index: usize = 0;
    while index < strings.len()
        invariant
            index <= strings@.len(),
            wanted@ == text@,
            forall|i: int| 0 <= i < index ==> #[trigger] strings@[i]@ != text@,
        decreases strings@.len() - index,
    {
        if strings[index] == wanted {
            return Some(index);
        }
        index += 1;
    }
    None
}

} // verus!
