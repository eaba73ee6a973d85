//! Texts: how they are cut, trimmed, joined, read as numbers, and ordered.

use crate::agents;
use crate::lines;
use crate::order;
use crate::search;
use crate::strings;
use vstd::prelude::*;

verus! {

/// All of the text is white space.
pub open spec fn is_blank(text: Seq<char>) -> bool {
    forall|i: int| 0 <= i < text.len() ==> strings::is_white_space(#[trigger] text[i])
}

/// Among the ASCII characters, white space is the space, the tab, and the characters that end lines
/// and pages.
pub proof fn ascii_white_space(character: char)
    requires
        (character as u32) < 0x80,
    ensures
        strings::is_white_space(character) <==> character == ' ' || character == '\t' || character
            == '\n' || character == '\r' || character as u32 == 0x0b || character as u32 == 0x0c,
        strings::is_white_space('\u{3000}'),
{
}

proof fn start_is_trimmed(text: Seq<char>)
    ensures
        exists|n: int|
            0 <= n <= text.len() && search::trimmed_start(text) == #[trigger] text.skip(n)
                && is_blank(text.take(n)),
        search::trimmed_start(text).len() > 0 ==> !strings::is_white_space(
            search::trimmed_start(text)[0],
        ),
    decreases text.len(),
{
    if text.len() > 0 && strings::is_white_space(text[0]) {
        let rest = text.skip(1);
        start_is_trimmed(rest);
        let n = choose|n: int|
            0 <= n <= rest.len() && search::trimmed_start(rest) == #[trigger] rest.skip(n)
                && is_blank(rest.take(n));
        assert(rest.skip(n) =~= text.skip(n + 1));
        assert forall|i: int| 0 <= i < n + 1 implies strings::is_white_space(
            #[trigger] text.take(n + 1)[i],
        ) by {
            if i > 0 {
                assert(rest.take(n)[i - 1] == text[i]);
            }
        }
    } else {
        assert(text.skip(0) =~= text);
        assert(is_blank(text.take(0)));
    }
}

proof fn end_is_trimmed(text: Seq<char>)
    ensures
        exists|n: int|
            0 <= n <= text.len() && search::trimmed_end(text) == #[trigger] text.take(n) && is_blank(
                text.skip(n),
            ),
        search::trimmed_end(text).len() > 0 ==> !strings::is_white_space(
            search::trimmed_end(text).last(),
        ),
    decreases text.len(),
{
    if text.len() > 0 && strings::is_white_space(text.last()) {
        let rest = text.drop_last();
        end_is_trimmed(rest);
        let n = choose|n: int|
            0 <= n <= rest.len() && search::trimmed_end(rest) == #[trigger] rest.take(n) && is_blank(
                rest.skip(n),
            );
        assert(rest.take(n) =~= text.take(n));
        assert forall|i: int| 0 <= i < text.len() - n implies strings::is_white_space(
            #[trigger] text.skip(n)[i],
        ) by {
            if i < rest.len() - n {
                assert(rest.skip(n)[i] == text[n + i]);
            }
        }
    } else {
        assert(text.take(text.len() as int) =~= text);
        assert(is_blank(text.skip(text.len() as int)));
    }
}

/// Trimming takes away white space at the two ends, all of it, and nothing else.
pub proof fn trimming_takes_the_white_space(text: Seq<char>)
    ensures
        exists|from: int, to: int|
            0 <= from <= to <= text.len() && search::trimmed(text) == #[trigger] text.subrange(
                from,
                to,
            ) && is_blank(text.take(from)) && is_blank(text.skip(to)),
        search::trimmed(text).len() > 0 ==> !strings::is_white_space(search::trimmed(text)[0])
            && !strings::is_white_space(search::trimmed(text).last()),
{
    let start = search::trimmed_start(text);
    start_is_trimmed(text);
    end_is_trimmed(start);
    let from = choose|n: int|
        0 <= n <= text.len() && start == #[trigger] text.skip(n) && is_blank(text.take(n));
    let length = choose|n: int|
        0 <= n <= start.len() && search::trimmed_end(start) == #[trigger] start.take(n) && is_blank(
            start.skip(n),
        );
    let to = from + length;
    assert(start.take(length) =~= text.subrange(from, to));
    assert forall|i: int| 0 <= i < text.len() - to implies strings::is_white_space(
        #[trigger] text.skip(to)[i],
    ) by {
        assert(start.skip(length)[i] == text[to + i]);
    }
    if search::trimmed(text).len() > 0 {
        assert(search::trimmed(text)[0] == start[0]);
    }
}

proof fn pieces_exist(text: Seq<char>, separator: char)
    ensures
        search::pieces(text, separator).len() > 0,
    decreases text.len(),
{
    if text.len() > 0 {
        pieces_exist(text.drop_last(), separator);
    }
}

/// Cutting a text at a separator and joining the pieces with it gives the text back; no piece holds
/// the separator.
pub proof fn cut_texts_are_joined_again(text: Seq<char>, separator: char)
    ensures
        search::joined(search::pieces(text, separator), seq![separator]) == text,
        forall|k: int|
            0 <= k < search::pieces(text, separator).len() ==> !(#[trigger] search::pieces(
                text,
                separator,
            )[k]).contains(separator),
        search::pieces(text, separator).len() > 0,
    decreases text.len(),
{
    let parts = search::pieces(text, separator);
    if text.len() > 0 {
        let before = search::pieces(text.drop_last(), separator);
        cut_texts_are_joined_again(text.drop_last(), separator);
        assert(text =~= text.drop_last().push(text.last()));
        if text.last() == separator {
            assert(parts.drop_last() =~= before);
            assert(search::joined(parts, seq![separator]) == search::joined(before, seq![separator])
                + seq![separator] + Seq::<char>::empty());
            assert(search::joined(parts, seq![separator]) =~= text);
        } else {
            let grown = before.last().push(text.last());
            assert(parts.drop_last() =~= before.drop_last());
            if before.len() == 1 {
                assert(parts =~= seq![grown]);
                assert(search::joined(before, seq![separator]) == before[0]);
                assert(search::joined(parts, seq![separator]) =~= text);
            } else {
                assert(search::joined(before, seq![separator]) == search::joined(
                    before.drop_last(),
                    seq![separator],
                ) + seq![separator] + before.last());
                assert(search::joined(parts, seq![separator]) == search::joined(
                    before.drop_last(),
                    seq![separator],
                ) + seq![separator] + grown);
                assert(search::joined(parts, seq![separator]) =~= text.drop_last().push(
                    text.last(),
                ));
            }
            assert forall|k: int| 0 <= k < parts.len() implies !(#[trigger] parts[k]).contains(
                separator,
            ) by {
                if k == parts.len() - 1 {
                    assert(!before[before.len() - 1].contains(separator));
                    if grown.contains(separator) {
                        let i = choose|i: int| 0 <= i < grown.len() && grown[i] == separator;
                        assert(before.last()[i] == separator);
                    }
                } else {
                    assert(parts[k] == before[k]);
                }
            }
        }
    }
}

proof fn pieces_grow(text: Seq<char>, part: Seq<char>, separator: char)
    requires
        !part.contains(separator),
    ensures
        search::pieces(text + part, separator) == search::pieces(text, separator).drop_last().push(
            search::pieces(text, separator).last() + part,
        ),
    decreases part.len(),
{
    let base = search::pieces(text, separator);
    pieces_exist(text, separator);
    if part.len() == 0 {
        assert(text + part =~= text);
        assert(base.drop_last().push(base.last() + part) =~= base) by {
            assert(base.last() + part =~= base.last());
        }
    } else {
        let less = part.drop_last();
        assert(!less.contains(separator)) by {
            if less.contains(separator) {
                let i = choose|i: int| 0 <= i < less.len() && less[i] == separator;
                assert(part[i] == separator);
            }
        }
        pieces_grow(text, less, separator);
        assert((text + part).drop_last() =~= text + less);
        assert(part[part.len() - 1] != separator);
        assert((text + part).last() == part.last());
        let before = search::pieces(text + less, separator);
        assert(before.last() == base.last() + less);
        assert(before.drop_last() =~= base.drop_last());
        assert((base.last() + less).push(part.last()) =~= base.last() + part);
    }
}

/// The lines of a text go from one end of a line to the next; the last one counts without such an
/// end too, if there is anything in it, and a carriage return before the end belongs to the end.
pub proof fn lines_end_where_they_end(text: Seq<char>, line: Seq<char>)
    requires
        text.len() == 0 || text.last() == '\n',
        !line.contains('\n'),
    ensures
        lines::lines_of(Seq::empty()).len() == 0,
        line.len() > 0 ==> lines::lines_of(text + line) == lines::lines_of(text).push(line),
        lines::lines_of((text + line).push('\n')) == lines::lines_of(text).push(
            if line.len() > 0 && line.last() == '\r' {
                line.drop_last()
            } else {
                line
            },
        ),
{
    let parts = search::pieces(text, '\n');
    pieces_exist(text, '\n');
    assert(parts.last().len() == 0);
    pieces_grow(text, line, '\n');
    let longer = search::pieces(text + line, '\n');
    assert(parts.last() + line =~= line);
    assert(longer.drop_last() =~= parts.drop_last());
    assert(longer.last() == line);
    let ended = search::pieces((text + line).push('\n'), '\n');
    assert((text + line).push('\n').drop_last() =~= text + line);
    assert(ended == longer.push(Seq::empty()));
    assert(ended.drop_last() =~= longer);
    let strip = |part: Seq<char>| lines::without_return(part);
    assert(longer =~= parts.drop_last().push(line));
    assert(longer.map_values(strip) =~= parts.drop_last().map_values(strip).push(
        lines::without_return(line),
    ));
    assert(ended.drop_last().map_values(strip) =~= parts.drop_last().map_values(strip).push(
        lines::without_return(line),
    ));
}

proof fn search_from(text: Seq<char>, part: Seq<char>, from: int)
    requires
        part.len() > 0,
        0 <= from,
    ensures
        match lines::index_from(text, part, from) {
            Some(index) => from <= index && search::occurs_at(text, part, index) && forall|i: int|
                from <= i < index ==> !#[trigger] search::occurs_at(text, part, i),
            None => forall|i: int| from <= i ==> !#[trigger] search::occurs_at(text, part, i),
        },
    decreases text.len() - from,
{
    if !(from > text.len() - part.len() || from >= text.len()) && !search::occurs_at(
        text,
        part,
        from,
    ) {
        search_from(text, part, from + 1);
    }
}

proof fn search_up_to(text: Seq<char>, part: Seq<char>, to: int)
    ensures
        match lines::index_up_to(text, part, to) {
            Some(index) => index <= to && search::occurs_at(text, part, index) && forall|i: int|
                index < i <= to ==> !#[trigger] search::occurs_at(text, part, i),
            None => forall|i: int| i <= to ==> !#[trigger] search::occurs_at(text, part, i),
        },
    decreases to + 1,
{
    if to >= 0 && !search::occurs_at(text, part, to) {
        search_up_to(text, part, to - 1);
    }
}

/// Cutting a text once cuts it at the first separator and cutting it from behind at the last one; the
/// two sides with the separator between them are the text, and a text without the separator is not
/// cut.
pub proof fn texts_are_cut_at_the_separator(text: Seq<char>, separator: Seq<char>, other: int)
    requires
        separator.len() > 0,
    ensures
        lines::cut_once(text, separator) is Some <==> search::contains_text(text, separator),
        lines::cut_last(text, separator) is Some <==> search::contains_text(text, separator),
        lines::cut_once(text, separator) matches Some((left, right)) ==> text == left + separator
            + right && (search::occurs_at(text, separator, other) ==> left.len() <= other),
        lines::cut_last(text, separator) matches Some((left, right)) ==> text == left + separator
            + right && (search::occurs_at(text, separator, other) ==> other <= left.len()),
{
    search_from(text, separator, 0);
    search_up_to(text, separator, text.len() - separator.len());
    if let Some(index) = lines::first_index(text, separator) {
        assert(text =~= text.take(index) + separator + text.skip(index + separator.len())) by {
            assert(text.subrange(index, index + separator.len()) == separator);
            assert(forall|i: int|
                0 <= i < separator.len() ==> separator[i] == #[trigger] text.subrange(
                    index,
                    index + separator.len(),
                )[i]);
        }
    }
    if let Some(index) = lines::last_index(text, separator) {
        assert(text =~= text.take(index) + separator + text.skip(index + separator.len())) by {
            assert(text.subrange(index, index + separator.len()) == separator);
            assert(forall|i: int|
                0 <= i < separator.len() ==> separator[i] == #[trigger] text.subrange(
                    index,
                    index + separator.len(),
                )[i]);
        }
    }
}

/// A text without a suffix is what stands before the suffix, and there is none if it does not end
/// with it.
pub proof fn suffixes_are_cut_off(text: Seq<char>, suffix: Seq<char>, stem: Seq<char>)
    ensures
        lines::without_suffix(stem + suffix, suffix) == Some(stem),
        lines::without_suffix(text, suffix) matches Some(rest) ==> rest + suffix == text,
{
    let whole = stem + suffix;
    assert(suffix =~= whole.subrange(whole.len() - suffix.len(), whole.len() as int));
    assert(whole.take(whole.len() - suffix.len()) =~= stem);
    if suffix.is_suffix_of(text) {
        let rest = text.take(text.len() - suffix.len());
        assert(suffix == text.subrange(text.len() - suffix.len(), text.len() as int));
        assert(rest + suffix =~= text);
    }
}

/// A text is read as a number exactly if it is digits, with a plus sign before them or not, and the
/// number is not too large; the number is the one that the digits write.
pub proof fn only_digits_are_numbers(text: Seq<char>, limit: nat, value: nat)
    ensures
        lines::parsed_number(text, limit) is Some ==> lines::parsed_number(text, limit)->Some_0
            <= limit && text.len() > 0 && (text[0] == '+' ==> text.len() > 1) && forall|i: int|
            1 <= i < text.len() ==> strings::is_digit(#[trigger] text[i]),
        value <= limit ==> lines::parsed_number(strings::decimal(value), limit) == Some(value)
            && lines::parsed_number(seq!['+'] + strings::decimal(value), limit) == Some(value),
        value > limit ==> lines::parsed_number(strings::decimal(value), limit) is None,
{
    lines::decimal_is_digits(value);
    let digits = strings::decimal(value);
    assert(strings::is_digit(digits[0]));
    assert((seq!['+'] + digits).skip(1) =~= digits);
    if text.len() > 0 && text[0] == '+' {
        let rest = text.skip(1);
        if agents::all_digits(rest) {
            assert forall|i: int| 1 <= i < text.len() implies strings::is_digit(
                #[trigger] text[i],
            ) by {
                assert(rest[i - 1] == text[i]);
            }
        }
    }
}

/// Texts are ordered as in a dictionary: by the first character in which they differ, and a beginning
/// before what it begins.
pub proof fn texts_are_in_dictionary_order(
    shared: Seq<char>,
    one: char,
    other: char,
    rest: Seq<char>,
    end: Seq<char>,
)
    ensures
        one < other ==> order::text_less(shared.push(one) + rest, shared.push(other) + end),
        one > other ==> !order::text_less(shared.push(one) + rest, shared.push(other) + end),
        order::text_less(shared, shared.push(one) + rest),
        !order::text_less(shared.push(one) + rest, shared),
    decreases shared.len(),
{
    let left = shared.push(one) + rest;
    let right = shared.push(other) + end;
    if shared.len() == 0 {
        assert(left[0] == one && right[0] == other);
    } else {
        let less = shared.skip(1);
        texts_are_in_dictionary_order(less, one, other, rest, end);
        assert(left.skip(1) =~= less.push(one) + rest);
        assert(right.skip(1) =~= less.push(other) + end);
        assert(left[0] == shared[0] && right[0] == shared[0]);
    }
}

/// Making letters small changes the capital letters of ASCII, each to its own small one, and nothing
/// else.
pub proof fn capitals_become_small(text: Seq<char>, k: int)
    requires
        0 <= k < text.len(),
    ensures
        strings::lower_ascii(text).len() == text.len(),
        'A' <= text[k] <= 'Z' ==> strings::lower_ascii(text)[k] as u32 == text[k] as u32 + 32,
        !('A' <= text[k] <= 'Z') ==> strings::lower_ascii(text)[k] == text[k],
{
}

/// A negative number is written with a minus sign before the digits, and every other one without.
pub proof fn signs_are_written(value: int)
    ensures
        value >= 0 ==> lines::number_of(strings::signed_decimal(value)) == value,
        value < 0 ==> strings::signed_decimal(value)[0] == '-' && lines::number_of(
            strings::signed_decimal(value).skip(1),
        ) == -value,
{
    if value >= 0 {
        lines::decimal_is_digits(value as nat);
    } else {
        lines::decimal_is_digits((-value) as nat);
        assert(strings::signed_decimal(value).skip(1) =~= strings::decimal((-value) as nat));
    }
}

proof fn flat_push(pieces: Seq<Seq<char>>, piece: Seq<char>)
    ensures
        pieces.push(piece).flatten() == pieces.flatten() + piece,
{
    let longer = pieces.push(piece);
    longer.lemma_flatten_and_flatten_alt_are_equivalent();
    pieces.lemma_flatten_and_flatten_alt_are_equivalent();
    assert(longer.drop_last() =~= pieces);
}

/// The lines of a text with their ends, put together, are the text; each of them but the last ends
/// where a line ends, and none goes on behind that.
pub proof fn lines_with_their_ends_are_the_text(text: Seq<char>)
    ensures
        lines::kept_lines(text).flatten() == text,
        forall|k: int|
            0 <= k < lines::kept_lines(text).len() ==> (#[trigger] lines::kept_lines(text)[k]).len()
                > 0 && !lines::kept_lines(text)[k].drop_last().contains('\n') && (k
                < lines::kept_lines(text).len() - 1 ==> lines::kept_lines(text)[k].last() == '\n'),
    decreases text.len(),
{
    let rows = lines::kept_lines(text);
    if text.len() == 0 {
        assert(rows =~= Seq::empty());
        rows.lemma_flatten_and_flatten_alt_are_equivalent();
    } else {
        let before = lines::kept_lines(text.drop_last());
        lines_with_their_ends_are_the_text(text.drop_last());
        assert(text =~= text.drop_last().push(text.last()));
        if before.len() > 0 && before.last().last() != '\n' {
            let last = before.last();
            let grown = last.push(text.last());
            assert(before =~= before.drop_last().push(last));
            flat_push(before.drop_last(), last);
            flat_push(before.drop_last(), grown);
            assert(rows.flatten() =~= text.drop_last().push(text.last()));
            assert(before[before.len() - 1] == last);
            assert(grown.drop_last() =~= last);
            if last.contains('\n') {
                let i = choose|i: int| 0 <= i < last.len() && last[i] == '\n';
                assert(i < last.len() - 1);
                assert(last.drop_last()[i] == '\n');
            }
            assert forall|k: int| 0 <= k < rows.len() implies (#[trigger] rows[k]).len() > 0
                && !rows[k].drop_last().contains('\n') && (k < rows.len() - 1 ==> rows[k].last()
                == '\n') by {
                if k < rows.len() - 1 {
                    assert(rows[k] == before[k]);
                }
            }
        } else {
            let single = seq![text.last()];
            flat_push(before, single);
            assert(rows.flatten() =~= text);
            assert(single.drop_last() =~= Seq::empty());
            assert forall|k: int| 0 <= k < rows.len() implies (#[trigger] rows[k]).len() > 0
                && !rows[k].drop_last().contains('\n') && (k < rows.len() - 1 ==> rows[k].last()
                == '\n') by {
                if k < rows.len() - 1 {
                    assert(rows[k] == before[k]);
                    if k == before.len() - 1 {
                        assert(before[k] == before.last());
                    }
                }
            }
        }
    }
}

} // verus!
