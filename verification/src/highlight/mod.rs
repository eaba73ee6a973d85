//! Message bodies as styled lines: fenced code in colour, and inline code, links, web addresses and
//! mentions picked out.

pub mod code;
pub mod inline;

use crate::highlight::code::{highlight_code_block, Highlighter};
use crate::highlight::inline::highlight_plain_lines;
use crate::lines;
use crate::lines::split_once;
use crate::palette::Color;
use crate::search;
use crate::search::{strip_prefix, trim};
use crate::strings;
use crate::strings::concat2;
use vstd::prelude::*;

verus! {

/// How a piece of text looks.
#[derive(Clone, Copy, Debug, PartialEq, Eq, Structural)]
pub struct TextStyle {
    pub fg: Option<Color>,
    pub bg: Option<Color>,
    pub bold: bool,
    pub dim: bool,
    pub underlined: bool,
}

/// The look of text that nothing was said about.
#[verifier::allow_in_spec]
pub fn plain_style() -> TextStyle
    returns
        (TextStyle { fg: None, bg: None, bold: false, dim: false, underlined: false }),
{
    TextStyle { fg: None, bg: None, bold: false, dim: false, underlined: false }
}

/// A piece of text with its look.
#[derive(Debug, PartialEq, Eq)]
pub struct TextSpan {
    pub content: String,
    pub style: TextStyle,
}

/// A line of pieces of text.
#[derive(Debug, PartialEq, Eq)]
pub struct TextLine {
    pub spans: Vec<TextSpan>,
    pub style: TextStyle,
    pub right_aligned: bool,
}

/// What a piece of text shows.
#[verifier::ext_equal]
pub struct SpanView {
    pub content: Seq<char>,
    pub style: TextStyle,
}

/// What a line shows.
#[verifier::ext_equal]
pub struct LineView {
    pub spans: Seq<SpanView>,
    pub style: TextStyle,
    pub right_aligned: bool,
}

impl View for TextSpan {
    type V = SpanView;

    open spec fn view(&self) -> SpanView {
        SpanView { content: self.content@, style: self.style }
    }
}

/// What some pieces of text show.
pub open spec fn span_views(spans: Seq<TextSpan>) -> Seq<SpanView> {
    Seq::new(spans.len(), |i: int| spans[i]@)
}

impl View for TextLine {
    type V = LineView;

    open spec fn view(&self) -> LineView {
        LineView {
            spans: span_views(self.spans@),
            style: self.style,
            right_aligned: self.right_aligned,
        }
    }
}

/// What some lines show.
pub open spec fn line_views(text: Seq<TextLine>) -> Seq<LineView> {
    Seq::new(text.len(), |i: int| text[i]@)
}

/// A piece of text that nothing was said about.
pub open spec fn raw(content: Seq<char>) -> SpanView {
    SpanView { content, style: plain_style() }
}

/// A piece of text that nothing was said about.
pub fn raw_span(content: String) -> (span: TextSpan)
    ensures
        span@ == raw(content@),
{
    TextSpan { content, style: plain_style() }
}

/// What follows a closing fence, without the line end right behind it.
pub open spec fn after_fence(text: Seq<char>) -> Seq<char> {
    if "\n"@.is_prefix_of(text) {
        text.skip("\n"@.len() as int)
    } else {
        text
    }
}

/// The lines of a body. A fence opens a code block only if the line ends behind the language; a
/// block that is not closed runs to the end.
pub open spec fn body_lines(text: Seq<char>, theme: Seq<char>, no_color: bool) -> Seq<LineView>
    decreases text.len(),
{
    match lines::cut_once(text, "```"@) {
        None => inline::plain_lines(text, no_color),
        Some((before, opened)) => inline::plain_lines(before, no_color) + match lines::cut_once(
            opened,
            "\n"@,
        ) {
            None => inline::plain_lines("```"@ + opened, no_color),
            Some((language, rest)) => match lines::cut_once(rest, "```"@) {
                None => code::code_block(search::trimmed(language), rest, theme, no_color),
                Some((block, behind)) => code::code_block(
                    search::trimmed(language),
                    block,
                    theme,
                    no_color,
                ) + if after_fence(behind).len() < text.len() {
                    body_lines(after_fence(behind), theme, no_color)
                } else {
                    Seq::empty()
                },
            },
        },
    }
}

/// Puts lines behind other lines.
pub fn append_lines(text: &mut Vec<TextLine>, more: Vec<TextLine>)
    ensures
        line_views(final(text)@) == line_views(old(text)@) + line_views(more@),
{
    let ghost all = more@;
    let ghost before = line_views(text@);
    proof {
        assert(line_views(text@) =~= before + line_views(all).take(0));
    }
    for line in it: more
        invariant
            it.seq() == all,
            line_views(text@) == before + line_views(all).take(it.index() as int),
    {
        let ghost sofar = text@;
        text.push(line);
        proof {
            assert(line_views(text@) =~= line_views(sofar).push(line@));
            assert(line_views(text@) =~= before + line_views(all).take(it.index() + 1));
        }
    }
    proof {
        assert(line_views(all).take(all.len() as int) =~= line_views(all));
    }
}

fn behind_fence(text: String) -> (rest: String)
    ensures
        rest@ == after_fence(text@),
{
    match strip_prefix(text.as_str(), "\n") {
        Some(rest) => rest,
        None => text,
    }
}

proof fn cuts_are_shorter(text: Seq<char>, separator: Seq<char>)
    requires
        separator.len() > 0,
    ensures
        lines::cut_once(text, separator) matches Some((left, right)) ==> left.len() + right.len()
            < text.len(),
{
    index_is_inside(text, separator, 0);
}

proof fn index_is_inside(text: Seq<char>, separator: Seq<char>, from: int)
    requires
        0 <= from,
    ensures
        lines::index_from(text, separator, from) matches Some(index) ==> from <= index
            <= text.len() - separator.len(),
    decreases text.len() - from,
{
    if from <= text.len() - separator.len() && from < text.len() && !search::occurs_at(
        text,
        separator,
        from,
    ) {
        index_is_inside(text, separator, from + 1);
    }
}

fn highlight_text(
    highlighter: &Highlighter,
    body: &str,
    theme: &str,
    no_color: bool,
) -> (text: Vec<TextLine>)
    requires
        code::has_theme(theme@),
    ensures
        line_views(text@) == body_lines(body@, theme@, no_color),
    decreases body@.len(),
{
    proof {
        reveal_strlit("```");
        reveal_strlit("\n");
        cuts_are_shorter(body@, "```"@);
    }
    let (before, opened) = match split_once(body, "```") {
        Some(sides) => sides,
        None => {
            return highlight_plain_lines(body, no_color);
        },
    };
    let mut text = highlight_plain_lines(before.as_str(), no_color);
    proof {
        cuts_are_shorter(opened@, "\n"@);
    }
    let (language, rest) = match split_once(opened.as_str(), "\n") {
        Some(sides) => sides,
        None => {
            let shown = concat2("```", opened.as_str());
            append_lines(&mut text, highlight_plain_lines(shown.as_str(), no_color));
            return text;
        },
    };
    let name = trim(language.as_str());
    proof {
        cuts_are_shorter(rest@, "```"@);
    }
    match split_once(rest.as_str(), "```") {
        Some((block, behind)) => {
            append_lines(
                &mut text,
                highlight_code_block(highlighter, name.as_str(), block.as_str(), theme, no_color),
            );
            let following = behind_fence(behind);
            let ghost shown = line_views(text@);
            append_lines(
                &mut text,
                highlight_text(highlighter, following.as_str(), theme, no_color),
            );
            proof {
                let first = inline::plain_lines(before@, no_color);
                let middle = code::code_block(name@, block@, theme@, no_color);
                let last = body_lines(following@, theme@, no_color);
                assert((first + middle) + last =~= first + (middle + last));
            }
        },
        None => {
            append_lines(
                &mut text,
                highlight_code_block(highlighter, name.as_str(), rest.as_str(), theme, no_color),
            );
        },
    }
    text
}

/// Turns a body into styled lines, in the theme that was asked for, if it is there.
pub fn highlight_body(
    highlighter: &Highlighter,
    body: &str,
    requested: &Option<String>,
    no_color: bool,
) -> (text: Vec<TextLine>)
    ensures
        line_views(text@) == body_lines(
            body@,
            code::chosen_theme(strings::held(*requested)),
            no_color,
        ),
{
    let theme = highlighter.theme_name(requested);
    highlight_text(highlighter, body, theme.as_str(), no_color)
}

} // verus!
