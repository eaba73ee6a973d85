//! Lines of running text: inline code, links, mentions and web addresses.

use crate::highlight;
use crate::highlight::{plain_style, raw_span, TextLine, TextSpan, TextStyle};
use crate::palette::Color;
use crate::search;
use crate::search::split;
use crate::strings;
use crate::strings::{char_is_whitespace, chars_of, concat3, string_of};
use vstd::prelude::*;

verus! {

/// Unicode's alphanumeric characters.
pub uninterp spec fn is_alphanumeric(character: char) -> bool;

/// `char::is_alphanumeric`. The result depends on the character alone and is named
/// [`is_alphanumeric`]; which characters are letters or numbers is not stated.
#[verifier::external_body]
fn char_is_alphanumeric(character: char) -> (alphanumeric: bool)
    ensures
        alphanumeric == is_alphanumeric(character),
{
    character.is_alphanumeric()
}

/// The background of inline code.
#[verifier::allow_in_spec]
pub fn inline_code_background() -> Color
    returns
        Color::Rgb(50, 50, 60),
{
    Color::Rgb(50, 50, 60)
}

/// The look of inline code.
pub open spec fn code_style(no_color: bool) -> TextStyle {
    if no_color {
        plain_style()
    } else {
        TextStyle {
            fg: Some(Color::White),
            bg: Some(inline_code_background()),
            ..plain_style()
        }
    }
}

/// The look of links and web addresses.
#[verifier::allow_in_spec]
pub fn link_style() -> TextStyle
    returns
        (TextStyle {
            fg: Some(Color::Blue),
            bg: None,
            bold: false,
            dim: false,
            underlined: true,
        }),
{
    TextStyle { fg: Some(Color::Blue), bg: None, bold: false, dim: false, underlined: true }
}

/// The look of the address behind a link's title.
#[verifier::allow_in_spec]
pub fn address_style() -> TextStyle
    returns
        (TextStyle {
            fg: Some(Color::DarkGray),
            bg: None,
            bold: false,
            dim: true,
            underlined: false,
        }),
{
    TextStyle { fg: Some(Color::DarkGray), bg: None, bold: false, dim: true, underlined: false }
}

/// The look of mentions.
#[verifier::allow_in_spec]
pub fn mention_style() -> TextStyle
    returns
        (TextStyle {
            fg: Some(Color::Magenta),
            bg: None,
            bold: true,
            dim: false,
            underlined: false,
        }),
{
    TextStyle { fg: Some(Color::Magenta), bg: None, bold: true, dim: false, underlined: false }
}

/// Where a character stands first, from a position on; the end of the text if it does not.
pub open spec fn next_of(text: Seq<char>, character: char, from: int) -> int
    decreases text.len() - from,
{
    if from >= text.len() || text[from] == character {
        from
    } else {
        next_of(text, character, from + 1)
    }
}

/// The character ends a link's title.
pub open spec fn ends_title(character: char) -> bool {
    character == ']' || character == '(' || character == '\n'
}

/// Where a link's title ends that begins at a position.
pub open spec fn title_end(text: Seq<char>, from: int) -> int
    decreases text.len() - from,
{
    if from >= text.len() || ends_title(text[from]) {
        from
    } else {
        title_end(text, from + 1)
    }
}

/// Where a link's address ends that begins at a position.
pub open spec fn address_end(text: Seq<char>, from: int) -> int
    decreases text.len() - from,
{
    if from >= text.len() || text[from] == ')' || text[from] == '\n' {
        from
    } else {
        address_end(text, from + 1)
    }
}

/// Where the title and the address of a link end that begins at a position: a title in square
/// brackets, and right behind it an address in round brackets, neither of them empty.
pub open spec fn link_at(text: Seq<char>, start: int) -> Option<(int, int)> {
    let title = title_end(text, start + 1);
    let address = address_end(text, title + 2);
    if start < text.len() && text[start] == '[' && title < text.len() && text[title] == ']' && title
        > start + 1 && title + 1 < text.len() && text[title + 1] == '(' && address < text.len()
        && text[address] == ')' && address > title + 2 {
        Some((title, address))
    } else {
        None
    }
}

/// The character belongs to the name behind an at sign.
pub open spec fn in_mention(character: char) -> bool {
    is_alphanumeric(character) || character == '-' || character == '_'
}

/// Where a mention ends whose name begins at a position.
pub open spec fn mention_end(text: Seq<char>, from: int) -> int
    decreases text.len() - from,
{
    if from < text.len() && in_mention(text[from]) {
        mention_end(text, from + 1)
    } else {
        from
    }
}

/// Where a run without white space ends that begins at a position.
pub open spec fn word_end(text: Seq<char>, from: int) -> int
    decreases text.len() - from,
{
    if from < text.len() && !strings::is_white_space(text[from]) {
        word_end(text, from + 1)
    } else {
        from
    }
}

/// A word begins at a position: the text does, or white space stands before it.
pub open spec fn word_begins(text: Seq<char>, at: int) -> bool {
    at == 0 || strings::is_white_space(text[at - 1])
}

/// A web address begins at a position.
pub open spec fn web_address_at(text: Seq<char>, at: int) -> bool {
    word_begins(text, at) && (search::occurs_at(text, "http://"@, at) || search::occurs_at(
        text,
        "https://"@,
        at,
    ))
}

/// What begins at a position, and where it ends.
pub enum Piece {
    Character,
    Code(int),
    Link(int, int),
    Mention(int),
    Address(int),
}

/// What begins at a position of a line.
pub open spec fn piece_at(text: Seq<char>, at: int) -> Piece {
    if text[at] == '`' && next_of(text, '`', at + 1) < text.len() {
        Piece::Code(next_of(text, '`', at + 1))
    } else if link_at(text, at) is Some {
        Piece::Link(link_at(text, at)->Some_0.0, link_at(text, at)->Some_0.1)
    } else if text[at] == '@' && word_begins(text, at) && mention_end(text, at + 1) > at + 1 {
        Piece::Mention(mention_end(text, at + 1))
    } else if web_address_at(text, at) {
        Piece::Address(word_end(text, at))
    } else {
        Piece::Character
    }
}

/// A collected run of ordinary text, if it is not empty.
pub open spec fn flushed(run: Seq<char>) -> Seq<highlight::SpanView> {
    if run.len() > 0 {
        seq![highlight::raw(run)]
    } else {
        Seq::empty()
    }
}

/// What a piece shows.
pub open spec fn piece_spans(
    text: Seq<char>,
    at: int,
    piece: Piece,
    no_color: bool,
) -> Seq<highlight::SpanView> {
    match piece {
        Piece::Character => Seq::empty(),
        Piece::Code(end) => seq![
            highlight::SpanView {
                content: text.subrange(at + 1, end),
                style: code_style(no_color),
            },
        ],
        Piece::Link(title, address) => seq![
            highlight::SpanView { content: text.subrange(at + 1, title), style: link_style() },
            highlight::raw(" "@),
            highlight::SpanView {
                content: "<"@ + text.subrange(title + 2, address) + ">"@,
                style: address_style(),
            },
        ],
        Piece::Mention(end) => seq![
            highlight::SpanView { content: text.subrange(at, end), style: mention_style() },
        ],
        Piece::Address(end) => seq![
            highlight::SpanView { content: text.subrange(at, end), style: link_style() },
        ],
    }
}

/// Where a piece ends.
pub open spec fn piece_end(at: int, piece: Piece) -> int {
    match piece {
        Piece::Character => at + 1,
        Piece::Code(end) => end + 1,
        Piece::Link(_, address) => address + 1,
        Piece::Mention(end) => end,
        Piece::Address(end) => end,
    }
}

/// What a line shows from a position on, behind a run of ordinary text.
pub open spec fn spans_from(
    text: Seq<char>,
    at: int,
    run: Seq<char>,
    no_color: bool,
) -> Seq<highlight::SpanView>
    decreases text.len() - at,
{
    if at >= text.len() {
        flushed(run)
    } else {
        let piece = piece_at(text, at);
        if piece is Character || !(at < piece_end(at, piece) <= text.len()) {
            spans_from(text, at + 1, run.push(text[at]), no_color)
        } else {
            flushed(run) + piece_spans(text, at, piece, no_color) + spans_from(
                text,
                piece_end(at, piece),
                Seq::empty(),
                no_color,
            )
        }
    }
}

/// A line of running text.
pub open spec fn plain_line(text: Seq<char>, no_color: bool) -> highlight::LineView {
    let spans = spans_from(text, 0, Seq::empty(), no_color);
    highlight::LineView {
        spans: if spans.len() == 0 {
            seq![highlight::raw(Seq::empty())]
        } else {
            spans
        },
        style: plain_style(),
        right_aligned: false,
    }
}

/// The lines of running text.
pub open spec fn plain_lines(text: Seq<char>, no_color: bool) -> Seq<highlight::LineView> {
    search::pieces(text, '\n').map_values(|line: Seq<char>| plain_line(line, no_color))
}

fn find_next(text: &Vec<char>, character: char, from: usize) -> (found: usize)
    requires
        from <= text@.len(),
    ensures
        found == next_of(text@, character, from as int),
        from <= found <= text@.len(),
{
    let mut index: usize = from;
    while index < text.len() && text[index] != character
        invariant
            from <= index <= text@.len(),
            next_of(text@, character, index as int) == next_of(text@, character, from as int),
        decreases text@.len() - index,
    {
        index += 1;
    }
    index
}

fn find_title_end(text: &Vec<char>, from: usize) -> (found: usize)
    requires
        from <= text@.len(),
    ensures
        found == title_end(text@, from as int),
        from <= found <= text@.len(),
{
    let mut index: usize = from;
    while index < text.len() && text[index] != ']' && text[index] != '(' && text[index] != '\n'
        invariant
            from <= index <= text@.len(),
            title_end(text@, index as int) == title_end(text@, from as int),
        decreases text@.len() - index,
    {
        index += 1;
    }
    index
}

fn find_address_end(text: &Vec<char>, from: usize) -> (found: usize)
    requires
        from <= text@.len(),
    ensures
        found == address_end(text@, from as int),
        from <= found <= text@.len(),
{
    let mut index: usize = from;
    while index < text.len() && text[index] != ')' && text[index] != '\n'
        invariant
            from <= index <= text@.len(),
            address_end(text@, index as int) == address_end(text@, from as int),
        decreases text@.len() - index,
    {
        index += 1;
    }
    index
}

fn find_link(text: &Vec<char>, start: usize) -> (link: Option<(usize, usize)>)
    requires
        start < text@.len(),
    ensures
        match link {
            Some((title, address)) => link_at(text@, start as int) == Some(
                (title as int, address as int),
            ) && start + 1 < title && title + 2 < address < text@.len(),
            None => link_at(text@, start as int) is None,
        },
{
    let length: usize = text.len();
    if text[start] != '[' {
        return None;
    }
    let title = find_title_end(text, start + 1);
    if title >= length || text[title] != ']' || title == start + 1 {
        return None;
    }
    if title + 1 >= length || text[title + 1] != '(' {
        return None;
    }
    let address = find_address_end(text, title + 2);
    if address >= length || text[address] != ')' || address == title + 2 {
        return None;
    }
    Some((title, address))
}

/// The title and the address of the link that a text begins with.
pub fn parse_markdown_link(text: &str) -> (link: Option<(String, String)>)
    ensures
        match link {
            Some((title, address)) => link_at(text@, 0) matches Some((t, a)) && title@
                == text@.subrange(1, t) && address@ == text@.subrange(t + 2, a),
            None => link_at(text@, 0) is None,
        },
{
    let chars = chars_of(text);
    if chars.len() == 0 {
        return None;
    }
    match find_link(&chars, 0) {
        Some((title, address)) => Some(
            (string_of(&chars, 1, title), string_of(&chars, title + 2, address)),
        ),
        None => None,
    }
}

fn find_mention_end(text: &Vec<char>, from: usize) -> (found: usize)
    requires
        from <= text@.len(),
    ensures
        found == mention_end(text@, from as int),
        from <= found <= text@.len(),
{
    let mut index: usize = from;
    while index < text.len() && (char_is_alphanumeric(text[index]) || text[index] == '-'
        || text[index] == '_')
        invariant
            from <= index <= text@.len(),
            mention_end(text@, index as int) == mention_end(text@, from as int),
        decreases text@.len() - index,
    {
        index += 1;
    }
    index
}

fn find_word_end(text: &Vec<char>, from: usize) -> (found: usize)
    requires
        from <= text@.len(),
    ensures
        found == word_end(text@, from as int),
        from <= found <= text@.len(),
{
    let mut index: usize = from;
    while index < text.len() && !char_is_whitespace(text[index])
        invariant
            from <= index <= text@.len(),
            word_end(text@, index as int) == word_end(text@, from as int),
        decreases text@.len() - index,
    {
        index += 1;
    }
    index
}

fn is_word_start(text: &Vec<char>, at: usize) -> (begins: bool)
    requires
        at < text@.len(),
    ensures
        begins == word_begins(text@, at as int),
{
    at == 0 || char_is_whitespace(text[at - 1])
}

fn stands_at(text: &Vec<char>, word: &str, at: usize) -> (found: bool)
    requires
        at < text@.len(),
    ensures
        found == search::occurs_at(text@, word@, at as int),
{
    let part = chars_of(word);
    if text.len() - at < part.len() {
        return false;
    }
    search::matches_at(text, &part, at)
}

fn is_web_address(text: &Vec<char>, at: usize) -> (found: bool)
    requires
        at < text@.len(),
    ensures
        found == web_address_at(text@, at as int),
{
    is_word_start(text, at) && (stands_at(text, "http://", at) || stands_at(text, "https://", at))
}

/// Inline code as it is shown.
pub fn format_inline_code(text: String, no_color: bool) -> (span: TextSpan)
    ensures
        span@ == (highlight::SpanView { content: text@, style: code_style(no_color) }),
{
    let style = if no_color {
        plain_style()
    } else {
        TextStyle {
            fg: Some(Color::White),
            bg: Some(inline_code_background()),
            bold: false,
            dim: false,
            underlined: false,
        }
    };
    TextSpan { content: text, style }
}

fn push_span(spans: &mut Vec<TextSpan>, span: TextSpan)
    ensures
        highlight::span_views(final(spans)@) == highlight::span_views(old(spans)@).push(span@),
{
    let ghost before = spans@;
    spans.push(span);
    proof {
        assert(highlight::span_views(spans@) =~= highlight::span_views(before).push(span@));
    }
}

fn flush(spans: &mut Vec<TextSpan>, run: String)
    ensures
        highlight::span_views(final(spans)@) == highlight::span_views(old(spans)@) + flushed(run@),
{
    proof {
        let views = highlight::span_views(spans@);
        assert(views + Seq::<highlight::SpanView>::empty() =~= views);
        assert(views + seq![highlight::raw(run@)] =~= views.push(highlight::raw(run@)));
    }
    if !run.as_str().is_empty() {
        push_span(spans, raw_span(run));
    }
}

/// Shows the piece that begins at a position, unless it is an ordinary character.
fn push_piece(
    spans: &mut Vec<TextSpan>,
    text: &Vec<char>,
    at: usize,
    run: &mut String,
    no_color: bool,
) -> (next: usize)
    requires
        at < text@.len(),
    ensures
        ({
            let piece = piece_at(text@, at as int);
            &&& next == piece_end(at as int, piece)
            &&& at < next <= text@.len()
            &&& piece is Character ==> {
                &&& final(spans)@ == old(spans)@
                &&& final(run)@ == old(run)@.push(text@[at as int])
            }
            &&& !(piece is Character) ==> {
                &&& highlight::span_views(final(spans)@) == highlight::span_views(old(spans)@) + (
                flushed(old(run)@) + piece_spans(text@, at as int, piece, no_color))
                &&& final(run)@ == Seq::<char>::empty()
            }
        }),
{
    let ghost piece = piece_at(text@, at as int);
    let ghost before = highlight::span_views(spans@);
    let ghost first = flushed(run@);
    let length: usize = text.len();
    assert(at < length);
    if text[at] == '`' {
        let end = find_next(text, '`', at + 1);
        if end < length {
            let collected = run.clone();
            flush(spans, collected);
            push_span(spans, format_inline_code(string_of(text, at + 1, end), no_color));
            run.clear();
            proof {
                assert(highlight::span_views(spans@) =~= before + (first + piece_spans(
                    text@,
                    at as int,
                    piece,
                    no_color,
                )));
            }
            return end + 1;
        }
    }
    if let Some((title, address)) = find_link(text, at) {
        let collected = run.clone();
        flush(spans, collected);
        push_span(
            spans,
            TextSpan { content: string_of(text, at + 1, title), style: link_style() },
        );
        push_span(spans, raw_span(" ".to_owned()));
        let shown = string_of(text, title + 2, address);
        push_span(
            spans,
            TextSpan { content: concat3("<", shown.as_str(), ">"), style: address_style() },
        );
        run.clear();
        proof {
            assert(highlight::span_views(spans@) =~= before + (first + piece_spans(
                text@,
                at as int,
                piece,
                no_color,
            )));
        }
        return address + 1;
    }
    if text[at] == '@' && is_word_start(text, at) {
        let end = find_mention_end(text, at + 1);
        if end > at + 1 {
            let collected = run.clone();
            flush(spans, collected);
            push_span(
                spans,
                TextSpan { content: string_of(text, at, end), style: mention_style() },
            );
            run.clear();
            proof {
                assert(highlight::span_views(spans@) =~= before + (first + piece_spans(
                    text@,
                    at as int,
                    piece,
                    no_color,
                )));
            }
            return end;
        }
    }
    if is_web_address(text, at) {
        let end = find_word_end(text, at);
        proof {
            reveal_strlit("http://");
            reveal_strlit("https://");
            let part = if search::occurs_at(text@, "http://"@, at as int) {
                "http://"@
            } else {
                "https://"@
            };
            assert(text@.subrange(at as int, at + part.len())[0] == part[0]);
            assert(text@[at as int] == 'h');
            assert(!strings::is_white_space('h'));
            assert(word_end(text@, at as int) == word_end(text@, at + 1));
            word_end_is_ahead(text@, at + 1);
        }
        let collected = run.clone();
        flush(spans, collected);
        push_span(spans, TextSpan { content: string_of(text, at, end), style: link_style() });
        run.clear();
        proof {
            assert(highlight::span_views(spans@) =~= before + (first + piece_spans(
                text@,
                at as int,
                piece,
                no_color,
            )));
        }
        return end;
    }
    run.push(text[at]);
    at + 1
}

proof fn word_end_is_ahead(text: Seq<char>, from: int)
    ensures
        from <= word_end(text, from),
    decreases text.len() - from,
{
    if from < text.len() && !strings::is_white_space(text[from]) {
        word_end_is_ahead(text, from + 1);
    }
}

/// Turns a line of running text into a styled line.
pub fn highlight_plain_line(line: &str, no_color: bool) -> (styled: TextLine)
    ensures
        styled@ == plain_line(line@, no_color),
{
    let chars = chars_of(line);
    let length: usize = chars.len();
    let mut spans: Vec<TextSpan> = Vec::new();
    let mut run: String = String::new();
    let mut index: usize = 0;
    let ghost all = spans_from(chars@, 0, Seq::empty(), no_color);
    proof {
        assert(highlight::span_views(spans@) =~= Seq::empty());
        assert(Seq::<highlight::SpanView>::empty() + all =~= all);
    }
    while index < length
        invariant
            index <= length,
            length == chars@.len(),
            highlight::span_views(spans@) + spans_from(chars@, index as int, run@, no_color) == all,
        decreases length - index,
    {
        let ghost at = index as int;
        let ghost piece = piece_at(chars@, at);
        let ghost before = highlight::span_views(spans@);
        let ghost collected = run@;
        index = push_piece(&mut spans, &chars, index, &mut run, no_color);
        proof {
            if !(piece is Character) {
                let shown = flushed(collected) + piece_spans(chars@, at, piece, no_color);
                let rest = spans_from(chars@, index as int, Seq::empty(), no_color);
                assert((before + shown) + rest =~= before + (shown + rest));
            }
        }
    }
    flush(&mut spans, run);
    if spans.len() == 0 {
        push_span(&mut spans, raw_span(String::new()));
        proof {
            assert(all =~= Seq::empty());
            assert(highlight::span_views(spans@) =~= seq![highlight::raw(Seq::empty())]);
        }
    }
    TextLine { spans, style: plain_style(), right_aligned: false }
}

/// Turns running text into styled lines.
pub fn highlight_plain_lines(text: &str, no_color: bool) -> (styled: Vec<TextLine>)
    ensures
        highlight::line_views(styled@) == plain_lines(text@, no_color),
{
    let rows = split(text, '\n');
    let ghost pieces = search::pieces(text@, '\n');
    let mut styled: Vec<TextLine> = Vec::new();
    let mut index: usize = 0;
    while index < rows.len()
        invariant
            index <= rows@.len(),
            search::texts(rows@) == pieces,
            styled@.len() == index,
            forall|i: int|
                0 <= i < index ==> (#[trigger] styled@[i])@ == plain_line(pieces[i], no_color),
        decreases rows@.len() - index,
    {
        assert(pieces[index as int] == rows@[index as int]@);
        styled.push(highlight_plain_line(rows[index].as_str(), no_color));
        index += 1;
    }
    proof {
        assert(highlight::line_views(styled@) =~= plain_lines(text@, no_color));
    }
    styled
}

proof fn ordinary_run(text: Seq<char>, at: int, no_color: bool)
    requires
        0 <= at <= text.len(),
        forall|i: int| 0 <= i < text.len() ==> #[trigger] piece_at(text, i) is Character,
    ensures
        spans_from(text, at, text.take(at), no_color) == flushed(text),
    decreases text.len() - at,
{
    if at < text.len() {
        assert(piece_at(text, at) is Character);
        assert(text.take(at).push(text[at]) =~= text.take(at + 1));
        ordinary_run(text, at + 1, no_color);
    } else {
        assert(text.take(at) =~= text);
    }
}

/// A line without backticks, square brackets, at signs and web addresses is shown as it is.
pub proof fn ordinary_text_is_unchanged(text: Seq<char>, no_color: bool)
    requires
        !text.contains('`'),
        !text.contains('['),
        !text.contains('@'),
        !search::contains_text(text, "http://"@),
        !search::contains_text(text, "https://"@),
    ensures
        plain_line(text, no_color).spans == seq![highlight::raw(text)],
{
    assert forall|i: int| 0 <= i < text.len() implies #[trigger] piece_at(text, i) is Character by {
        assert(text[i] != '`' && text[i] != '[' && text[i] != '@');
        assert(!search::occurs_at(text, "http://"@, i));
        assert(!search::occurs_at(text, "https://"@, i));
    }
    assert(text.take(0) =~= Seq::empty());
    ordinary_run(text, 0, no_color);
    if text.len() == 0 {
        assert(text =~= Seq::empty());
    }
}

} // verus!
