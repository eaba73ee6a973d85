//! How bodies are shown: what is folded, what is marked, and what a block of code looks like.

use crate::app::views;
use crate::highlight;
use crate::highlight::code;
use crate::highlight::inline::Piece;
use crate::highlight::SpanView;
use crate::laws::texts;
use crate::lines;
use crate::palette::Color;
use crate::search;
use crate::strings;
use vstd::prelude::*;

verus! {

proof fn joined_prefix(parts: Seq<Seq<char>>, separator: Seq<char>, count: int)
    requires
        0 < count <= parts.len(),
    ensures
        search::joined(parts.take(count), separator).is_prefix_of(search::joined(parts, separator)),
    decreases parts.len(),
{
    let whole = search::joined(parts, separator);
    let part = search::joined(parts.take(count), separator);
    if count == parts.len() {
        assert(parts.take(count) =~= parts);
        assert(part =~= whole.subrange(0, part.len() as int));
    } else {
        joined_prefix(parts.drop_last(), separator, count);
        assert(parts.drop_last().take(count) =~= parts.take(count));
        let before = search::joined(parts.drop_last(), separator);
        assert(whole == before + separator + parts.last());
        assert(part == before.subrange(0, part.len() as int));
        assert(part =~= whole.subrange(0, part.len() as int));
    }
}

/// A folded body is the beginning of the body, its first twenty lines; a body of no more lines is
/// shown whole.
pub proof fn folded_bodies_are_the_beginning(body: Seq<char>)
    ensures
        views::folded_text(body).is_prefix_of(body),
        search::pieces(body, '\n').len() <= 20 ==> views::folded_text(body) == body,
        search::pieces(body, '\n').len() > 20 ==> views::folded_text(body) == search::joined(
            search::pieces(body, '\n').take(20),
            "\n"@,
        ),
{
    reveal_strlit("\n");
    assert("\n"@ =~= seq!['\n']);
    texts::cut_texts_are_joined_again(body, '\n');
    let rows = search::pieces(body, '\n');
    if rows.len() > 20 {
        joined_prefix(rows, "\n"@, 20);
    } else {
        assert(body =~= body.subrange(0, body.len() as int));
    }
}

proof fn next_is_the_next(text: Seq<char>, character: char, from: int)
    requires
        0 <= from <= text.len(),
    ensures
        from <= crate::highlight::inline::next_of(text, character, from) <= text.len(),
        crate::highlight::inline::next_of(text, character, from) < text.len() ==> text[crate::highlight::inline::next_of(
            text,
            character,
            from,
        )] == character,
        forall|i: int|
            from <= i < crate::highlight::inline::next_of(text, character, from) ==> #[trigger] text[i] != character,
    decreases text.len() - from,
{
    if from < text.len() && text[from] != character {
        next_is_the_next(text, character, from + 1);
    }
}

/// What stands between two backticks is code, without the backticks, up to the next one.
pub proof fn backticks_frame_code(text: Seq<char>, at: int, end: int, no_color: bool)
    requires
        0 <= at < end < text.len(),
        text[at] == '`',
        text[end] == '`',
        forall|i: int| at < i < end ==> #[trigger] text[i] != '`',
    ensures
        crate::highlight::inline::piece_at(text, at) == Piece::Code(end),
        crate::highlight::inline::piece_end(at, Piece::Code(end)) == end + 1,
        crate::highlight::inline::piece_spans(text, at, Piece::Code(end), no_color).len() == 1,
        crate::highlight::inline::piece_spans(text, at, Piece::Code(end), no_color)[0].content == text.subrange(
            at + 1,
            end,
        ),
        !no_color ==> crate::highlight::inline::piece_spans(text, at, Piece::Code(end), no_color)[0].style.fg == Some(
            Color::White,
        ) && crate::highlight::inline::piece_spans(text, at, Piece::Code(end), no_color)[0].style.bg == Some(
            Color::Rgb(50, 50, 60),
        ),
        no_color ==> crate::highlight::inline::piece_spans(text, at, Piece::Code(end), no_color)[0].style.fg is None
            && crate::highlight::inline::piece_spans(text, at, Piece::Code(end), no_color)[0].style.bg is None,
{
    next_is_the_next(text, '`', at + 1);
    let found = crate::highlight::inline::next_of(text, '`', at + 1);
    if found < end {
        assert(text[found] != '`');
    } else if found > end {
        assert(text[end] != '`');
    }
}

proof fn title_ends_at(text: Seq<char>, from: int, end: int)
    requires
        0 <= from <= end < text.len(),
        text[end] == ']',
        forall|i: int|
            from <= i < end ==> #[trigger] text[i] != ']' && text[i] != '(' && text[i] != '\n',
    ensures
        crate::highlight::inline::title_end(text, from) == end,
    decreases end - from,
{
    if from < end {
        assert(text[from] != ']');
        title_ends_at(text, from + 1, end);
    }
}

proof fn address_ends_at(text: Seq<char>, from: int, end: int)
    requires
        0 <= from <= end < text.len(),
        text[end] == ')',
        forall|i: int| from <= i < end ==> #[trigger] text[i] != ')' && text[i] != '\n',
    ensures
        crate::highlight::inline::address_end(text, from) == end,
    decreases end - from,
{
    if from < end {
        assert(text[from] != ')');
        address_ends_at(text, from + 1, end);
    }
}

/// A title in square brackets with an address in round ones behind it is a link: the title is shown
/// underlined, and behind a space the address, between angle brackets.
pub proof fn brackets_make_links(
    title: Seq<char>,
    address: Seq<char>,
    rest: Seq<char>,
    no_color: bool,
)
    requires
        title.len() > 0,
        address.len() > 0,
        forall|i: int|
            0 <= i < title.len() ==> #[trigger] title[i] != ']' && title[i] != '(' && title[i]
                != '\n',
        forall|i: int| 0 <= i < address.len() ==> #[trigger] address[i] != ')' && address[i] != '\n',
    ensures
        ({
            let text = seq!['['] + title + seq![']', '('] + address + seq![')'] + rest;
            let close = title.len() as int + 1;
            let end = close + 2 + address.len();
            &&& crate::highlight::inline::link_at(text, 0) == Some((close, end))
            &&& crate::highlight::inline::piece_at(text, 0) == Piece::Link(close, end)
            &&& crate::highlight::inline::piece_end(0, Piece::Link(close, end)) == end + 1
            &&& crate::highlight::inline::piece_spans(text, 0, Piece::Link(close, end), no_color).len() == 3
            &&& crate::highlight::inline::piece_spans(text, 0, Piece::Link(close, end), no_color)[0].content == title
            &&& crate::highlight::inline::piece_spans(text, 0, Piece::Link(close, end), no_color)[0].style.underlined
            &&& crate::highlight::inline::piece_spans(text, 0, Piece::Link(close, end), no_color)[0].style.fg == Some(
                Color::Blue,
            )
            &&& crate::highlight::inline::piece_spans(text, 0, Piece::Link(close, end), no_color)[1].content == " "@
            &&& crate::highlight::inline::piece_spans(text, 0, Piece::Link(close, end), no_color)[2].content == "<"@
                + address + ">"@
            &&& text.subrange(1, close) == title
            &&& text.subrange(close + 2, end) == address
        }),
{
    let text = seq!['['] + title + seq![']', '('] + address + seq![')'] + rest;
    let close = title.len() as int + 1;
    let end = close + 2 + address.len();
    assert(text[0] == '[');
    assert(text[close] == ']');
    assert(text[close + 1] == '(');
    assert(text[end] == ')');
    assert forall|i: int| 1 <= i < close implies #[trigger] text[i] != ']' && text[i] != '('
        && text[i] != '\n' by {
        assert(text[i] == title[i - 1]);
    }
    assert forall|i: int| close + 2 <= i < end implies #[trigger] text[i] != ')' && text[i]
        != '\n' by {
        assert(text[i] == address[i - close - 2]);
    }
    title_ends_at(text, 1, close);
    address_ends_at(text, close + 2, end);
    assert(text.subrange(1, close) =~= title);
    assert(text.subrange(close + 2, end) =~= address);
}

proof fn mentions_end(text: Seq<char>, from: int)
    requires
        0 <= from <= text.len(),
    ensures
        from <= crate::highlight::inline::mention_end(text, from) <= text.len(),
        forall|i: int|
            from <= i < crate::highlight::inline::mention_end(text, from) ==> crate::highlight::inline::in_mention(#[trigger] text[i]),
        crate::highlight::inline::mention_end(text, from) < text.len() ==> !crate::highlight::inline::in_mention(
            text[crate::highlight::inline::mention_end(text, from)],
        ),
    decreases text.len() - from,
{
    if from < text.len() && crate::highlight::inline::in_mention(text[from]) {
        mentions_end(text, from + 1);
    }
}

/// An at sign where a word begins mentions somebody: the sign and all the letters, digits, hyphens
/// and underscores behind it are marked.
pub proof fn at_signs_mention(text: Seq<char>, at: int, end: int, no_color: bool)
    requires
        0 <= at,
        at + 1 < end <= text.len(),
        text[at] == '@',
        at == 0 || strings::is_white_space(text[at - 1]),
        forall|i: int|
            at < i < end ==> (crate::highlight::inline::is_alphanumeric(#[trigger] text[i]) || text[i] == '-' || text[i]
                == '_'),
        end < text.len() ==> !crate::highlight::inline::is_alphanumeric(text[end]) && text[end] != '-' && text[end]
            != '_',
    ensures
        crate::highlight::inline::piece_at(text, at) == Piece::Mention(end),
        crate::highlight::inline::piece_end(at, Piece::Mention(end)) == end,
        crate::highlight::inline::piece_spans(text, at, Piece::Mention(end), no_color).len() == 1,
        crate::highlight::inline::piece_spans(text, at, Piece::Mention(end), no_color)[0].content == text.subrange(
            at,
            end,
        ),
        crate::highlight::inline::piece_spans(text, at, Piece::Mention(end), no_color)[0].style.bold,
        crate::highlight::inline::piece_spans(text, at, Piece::Mention(end), no_color)[0].style.fg == Some(
            Color::Magenta,
        ),
{
    mentions_end(text, at + 1);
    let found = crate::highlight::inline::mention_end(text, at + 1);
    if found < end {
        assert(crate::highlight::inline::in_mention(text[found]));
    } else if found > end {
        assert(crate::highlight::inline::in_mention(text[end]));
    }
}

proof fn words_end(text: Seq<char>, from: int)
    requires
        0 <= from <= text.len(),
    ensures
        from <= crate::highlight::inline::word_end(text, from) <= text.len(),
        forall|i: int|
            from <= i < crate::highlight::inline::word_end(text, from) ==> !strings::is_white_space(#[trigger] text[i]),
        crate::highlight::inline::word_end(text, from) < text.len() ==> strings::is_white_space(
            text[crate::highlight::inline::word_end(text, from)],
        ),
    decreases text.len() - from,
{
    if from < text.len() && !strings::is_white_space(text[from]) {
        words_end(text, from + 1);
    }
}

/// A word that begins as a web address is marked as one, up to the next white space.
pub proof fn web_addresses_are_marked(text: Seq<char>, at: int, end: int, no_color: bool)
    requires
        0 <= at < end <= text.len(),
        at == 0 || strings::is_white_space(text[at - 1]),
        search::occurs_at(text, "http://"@, at) || search::occurs_at(text, "https://"@, at),
        forall|i: int| at <= i < end ==> !strings::is_white_space(#[trigger] text[i]),
        end < text.len() ==> strings::is_white_space(text[end]),
    ensures
        crate::highlight::inline::piece_at(text, at) == Piece::Address(end),
        crate::highlight::inline::piece_spans(text, at, Piece::Address(end), no_color).len() == 1,
        crate::highlight::inline::piece_spans(text, at, Piece::Address(end), no_color)[0].content == text.subrange(
            at,
            end,
        ),
        crate::highlight::inline::piece_spans(text, at, Piece::Address(end), no_color)[0].style.underlined,
        crate::highlight::inline::piece_end(at, Piece::Address(end)) == end,
{
    reveal_strlit("http://");
    reveal_strlit("https://");
    if search::occurs_at(text, "http://"@, at) {
        assert(text.subrange(at, at + "http://"@.len())[0] == 'h');
    } else {
        assert(text.subrange(at, at + "https://"@.len())[0] == 'h');
    }
    assert(text[at] == 'h');
    words_end(text, at);
    let found = crate::highlight::inline::word_end(text, at);
    if found < end {
        assert(!strings::is_white_space(text[found]));
    } else if found > end {
        assert(!strings::is_white_space(text[end]));
    }
}

/// What stands between two fences is a block of code in the language that the first fence names; what
/// stands before is plain, and what stands behind, from the next line on, is read the same way.
pub proof fn fences_frame_code(
    text: Seq<char>,
    before: Seq<char>,
    opened: Seq<char>,
    language: Seq<char>,
    rest: Seq<char>,
    block: Seq<char>,
    behind: Seq<char>,
    theme: Seq<char>,
    no_color: bool,
)
    requires
        lines::cut_once(text, "```"@) == Some((before, opened)),
        lines::cut_once(opened, "\n"@) == Some((language, rest)),
        lines::cut_once(rest, "```"@) == Some((block, behind)),
    ensures
        highlight::body_lines(text, theme, no_color) == crate::highlight::inline::plain_lines(before, no_color)
            + code::code_block(search::trimmed(language), block, theme, no_color)
            + highlight::body_lines(
            if behind.len() > 0 && behind[0] == '\n' {
                behind.skip(1)
            } else {
                behind
            },
            theme,
            no_color,
        ),
{
    reveal_strlit("```");
    reveal_strlit("\n");
    texts::texts_are_cut_at_the_separator(text, "```"@, 0);
    texts::texts_are_cut_at_the_separator(opened, "\n"@, 0);
    texts::texts_are_cut_at_the_separator(rest, "```"@, 0);
    let next = if behind.len() > 0 && behind[0] == '\n' {
        behind.skip(1)
    } else {
        behind
    };
    assert(highlight::after_fence(behind) == next) by {
        if "\n"@.is_prefix_of(behind) {
            assert("\n"@[0] == behind.subrange(0, 1)[0]);
        } else if behind.len() > 0 && behind[0] == '\n' {
            assert("\n"@ =~= behind.subrange(0, 1));
        }
    }
    assert(next.len() < text.len());
    assert(highlight::body_lines(text, theme, no_color) =~= crate::highlight::inline::plain_lines(before, no_color)
        + code::code_block(search::trimmed(language), block, theme, no_color)
        + highlight::body_lines(next, theme, no_color));
}

/// A body without fences is plain, and so is one whose fence is not followed by a line; a block that
/// is not closed goes on to the end.
pub proof fn unfinished_fences(
    text: Seq<char>,
    before: Seq<char>,
    opened: Seq<char>,
    language: Seq<char>,
    rest: Seq<char>,
    theme: Seq<char>,
    no_color: bool,
)
    ensures
        !search::contains_text(text, "```"@) ==> highlight::body_lines(text, theme, no_color)
            == crate::highlight::inline::plain_lines(text, no_color),
        lines::cut_once(text, "```"@) == Some((before, opened)) && !search::contains_text(
            opened,
            "\n"@,
        ) ==> highlight::body_lines(text, theme, no_color) == crate::highlight::inline::plain_lines(before, no_color)
            + crate::highlight::inline::plain_lines("```"@ + opened, no_color),
        lines::cut_once(text, "```"@) == Some((before, opened)) && lines::cut_once(opened, "\n"@)
            == Some((language, rest)) && !search::contains_text(rest, "```"@)
            ==> highlight::body_lines(text, theme, no_color) == crate::highlight::inline::plain_lines(before, no_color)
            + code::code_block(search::trimmed(language), rest, theme, no_color),
{
    reveal_strlit("```");
    reveal_strlit("\n");
    texts::texts_are_cut_at_the_separator(text, "```"@, 0);
    texts::texts_are_cut_at_the_separator(opened, "\n"@, 0);
    texts::texts_are_cut_at_the_separator(rest, "```"@, 0);
}

/// A block begins with the name of its language at the right edge; its lines stand behind a bar, in
/// their order, with their numbers from one on if there are more than five.
pub proof fn blocks_are_framed(
    rows: Seq<Seq<SpanView>>,
    label: Seq<char>,
    no_color: bool,
    k: int,
    i: int,
)
    requires
        0 <= k < rows.len(),
        0 <= i < rows[k].len(),
    ensures
        ({
            let block = code::framed(rows, label, no_color);
            let line = block[k + 1];
            let shift: int = if rows.len() > 5 {
                2
            } else {
                1
            };
            &&& block.len() == rows.len() + 1
            &&& block[0].right_aligned
            &&& block[0].spans[0].content == " "@ + label + " "@
            &&& !line.right_aligned
            &&& line.spans.len() == rows[k].len() + shift
            &&& line.spans[0].content == "▊"@
            &&& line.spans[i + shift].content == rows[k][i].content
            &&& line.spans[i + shift].style.fg == rows[k][i].style.fg
            &&& line.spans[i + shift].style.bg == Some(Color::Rgb(30, 30, 46))
            &&& rows.len() > 5 ==> line.spans[1].content == code::gutter((k + 1) as nat)
        }),
{
}

/// The number of a line stands at the right of a column of three, before a bar.
pub proof fn numbers_stand_at_the_right(number: nat)
    requires
        number < 1000,
    ensures
        code::gutter(number).len() == 6,
        code::gutter(number).skip(3) == " │ "@,
        number >= 100 ==> code::gutter(number).take(3) == strings::decimal(number),
        number < 10 ==> code::gutter(number).take(3) == "  "@ + strings::decimal(number),
        10 <= number < 100 ==> code::gutter(number).take(3) == " "@ + strings::decimal(number),
{
    reveal_strlit("  ");
    reveal_strlit(" ");
    reveal_strlit("");
    reveal_strlit(" │ ");
    reveal_with_fuel(strings::decimal, 4);
    let digits = strings::decimal(number);
    assert(number < 10 ==> digits.len() == 1);
    assert(10 <= number < 100 ==> digits.len() == 2);
    assert(100 <= number ==> digits.len() == 3);
    assert(code::gutter(number).skip(3) =~= " │ "@);
    if number >= 100 {
        assert(code::gutter(number).take(3) =~= digits);
    } else if number >= 10 {
        assert(code::gutter(number).take(3) =~= " "@ + digits);
    } else {
        assert(code::gutter(number).take(3) =~= "  "@ + digits);
    }
}

/// The theme that is asked for is taken if there is one of that name; else the usual one is.
pub proof fn known_themes_are_taken(requested: Option<Seq<char>>)
    ensures
        requested is Some && search::trimmed(requested->Some_0).len() > 0 && code::has_theme(
            requested->Some_0,
        ) ==> code::chosen_theme(requested) == requested->Some_0,
        requested is None || search::trimmed(requested->Some_0).len() == 0 || !code::has_theme(
            requested->Some_0,
        ) ==> code::chosen_theme(requested) == "base16-ocean.dark"@,
{
}

/// A piece of code loses the end of its line, and nothing else; its colour is the one that was given.
pub proof fn tokens_keep_their_text(text: Seq<char>, ends: Seq<char>, color: (u8, u8, u8))
    requires
        text.len() > 0 ==> text.last() != '\n' && text.last() != '\r',
        forall|i: int| 0 <= i < ends.len() ==> #[trigger] ends[i] == '\n' || ends[i] == '\r',
    ensures
        code::token_span((text + ends, color)).content == text,
        code::token_span((text + ends, color)).style.fg == Some(Color::Rgb(color.0, color.1, color.2)),
    decreases ends.len(),
{
    if ends.len() == 0 {
        assert(text + ends =~= text);
    } else {
        let fewer = ends.drop_last();
        assert(ends[ends.len() - 1] == ends.last());
        assert((text + ends).drop_last() =~= text + fewer);
        assert((text + ends).last() == ends.last());
        assert forall|i: int| 0 <= i < fewer.len() implies #[trigger] fewer[i] == '\n' || fewer[i]
            == '\r' by {
            assert(fewer[i] == ends[i]);
        }
        tokens_keep_their_text(text, fewer, color);
    }
}

/// What is shown of a folded body and what is left out are together the whole body.
pub proof fn nothing_is_lost_in_folding(body: Seq<char>)
    ensures
        views::folded_text(body).len() + views::left_out(body) == body.len(),
        search::pieces(body, '\n').len() <= 20 ==> views::left_out(body) == 0,
{
    folded_bodies_are_the_beginning(body);
}

/// Nothing is marked that is not meant: code begins with a backtick, a link with a bracket, and
/// mentions and web addresses begin where a word begins, with an at sign or with the word for the
/// web.
pub proof fn only_what_is_meant_is_marked(text: Seq<char>, at: int)
    requires
        0 <= at < text.len(),
    ensures
        crate::highlight::inline::piece_at(text, at) is Code ==> text[at] == '`',
        crate::highlight::inline::piece_at(text, at) is Link ==> text[at] == '[',
        crate::highlight::inline::piece_at(text, at) is Mention ==> text[at] == '@' && (at == 0
            || strings::is_white_space(text[at - 1])),
        crate::highlight::inline::piece_at(text, at) is Address ==> (at == 0
            || strings::is_white_space(text[at - 1])) && (search::occurs_at(text, "http://"@, at)
            || search::occurs_at(text, "https://"@, at)),
{
}

} // verus!
