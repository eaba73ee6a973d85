//! Fenced code: finding the language, colouring the code and framing it.

use crate::highlight;
use crate::highlight::{plain_style, raw_span, TextLine, TextSpan, TextStyle};
use crate::lines;
use crate::palette::{code_background, Color};
use crate::search;
use crate::search::trim;
use crate::strings;
use crate::strings::{
    chars_of, concat3, decimal_usize, same_text, string_of, to_ascii_lowercase,
};
use syntect::easy::HighlightLines;
use syntect::highlighting::ThemeSet;
use syntect::parsing::SyntaxSet;
use vstd::prelude::*;

verus! {

/// The theme that is used if none is asked for.
pub const DEFAULT_THEME_NAME: &'static str = "base16-ocean.dark";

/// A block of more lines than this has its lines numbered.
pub const LINE_NUMBER_THRESHOLD: usize = 5;

/// The set of language definitions of the highlighting library.
#[verifier::external_type_specification]
#[verifier::external_body]
pub struct ExSyntaxSet(syntect::parsing::SyntaxSet);

/// The set of themes of the highlighting library.
#[verifier::external_type_specification]
#[verifier::external_body]
pub struct ExThemeSet(syntect::highlighting::ThemeSet);

/// Code that is being coloured, line by line, by the highlighting library.
#[verifier::external_type_specification]
#[verifier::external_body]
pub struct ExHighlightLines<'a>(syntect::easy::HighlightLines<'a>);

/// The languages and themes that come with the highlighting library. They are loaded once.
pub struct Highlighter {
    syntaxes: SyntaxSet,
    themes: ThemeSet,
}

/// `syntect::parsing::SyntaxSet::load_defaults_newlines`. Nothing is stated of the set.
#[verifier::external_body]
fn default_syntaxes() -> (syntaxes: SyntaxSet) {
    SyntaxSet::load_defaults_newlines()
}

/// `syntect::highlighting::ThemeSet::load_defaults`. Nothing is stated of the set.
#[verifier::external_body]
fn default_themes() -> (themes: ThemeSet) {
    ThemeSet::load_defaults()
}

/// A theme of the name comes with the highlighting library.
pub uninterp spec fn has_theme(name: Seq<char>) -> bool;

/// Looks a theme up in the default set of `syntect`, the only one that a [`Highlighter`] holds. The
/// result depends on the name alone and is named [`has_theme`]; the default theme is there.
#[verifier::external_body]
fn find_theme(highlighter: &Highlighter, name: &str) -> (found: bool)
    ensures
        found == has_theme(name@),
        name@ == DEFAULT_THEME_NAME@ ==> found,
{
    highlighter.themes.themes.contains_key(name)
}

/// A language of the name comes with the highlighting library.
pub uninterp spec fn has_language(name: Seq<char>) -> bool;

/// The name of the language that a token stands for.
pub uninterp spec fn token_language(token: Seq<char>) -> Option<Seq<char>>;

/// `syntect::parsing::SyntaxSet::find_syntax_by_token` in the default set, the only one that a
/// [`Highlighter`] holds. The language's name depends on the token alone and is named
/// [`token_language`]; the set has a language of that name.
#[verifier::external_body]
fn find_language(highlighter: &Highlighter, token: &str) -> (language: Option<String>)
    ensures
        strings::held(language) == token_language(token@),
        language matches Some(language) ==> has_language(language@),
{
    highlighter.syntaxes.find_syntax_by_token(token).map(|syntax| syntax.name.clone())
}

/// `syntect::parsing::SyntaxSet::find_syntax_plain_text`: the set's language of the name
/// `Plain Text`.
#[verifier::external_body]
fn plain_language(highlighter: &Highlighter) -> (language: String)
    ensures
        language@ == "Plain Text"@,
        has_language(language@),
{
    highlighter.syntaxes.find_syntax_plain_text().name.clone()
}

/// The name of the language that the first line of a text gives away.
pub uninterp spec fn first_line_language(line: Seq<char>) -> Option<Seq<char>>;

/// `syntect::parsing::SyntaxSet::find_syntax_by_first_line` in the default set, the only one that a
/// [`Highlighter`] holds. The language's name depends on the line alone and is named
/// [`first_line_language`]; the set has a language of that name.
#[verifier::external_body]
fn detect_language(highlighter: &Highlighter, line: &str) -> (language: Option<String>)
    ensures
        strings::held(language) == first_line_language(line@),
        language matches Some(language) ==> has_language(language@),
{
    highlighter.syntaxes.find_syntax_by_first_line(line).map(|syntax| syntax.name.clone())
}

/// A piece of code and its colour.
#[derive(Debug, PartialEq, Eq)]
pub struct CodeToken {
    pub text: String,
    pub red: u8,
    pub green: u8,
    pub blue: u8,
}

/// What a piece of code shows.
pub open spec fn token_view(token: CodeToken) -> (Seq<char>, (u8, u8, u8)) {
    (token.text@, (token.red, token.green, token.blue))
}

/// What the pieces of a line show.
pub open spec fn token_views(tokens: Seq<CodeToken>) -> Seq<(Seq<char>, (u8, u8, u8))> {
    Seq::new(tokens.len(), |i: int| token_view(tokens[i]))
}

/// What the pieces of some lines show.
pub open spec fn row_views(rows: Seq<Vec<CodeToken>>) -> Seq<Seq<(Seq<char>, (u8, u8, u8))>> {
    Seq::new(rows.len(), |i: int| token_views(rows[i]@))
}

/// The pieces of a line of code in a language, with their colours in a theme, after some earlier
/// lines; nothing if the line cannot be parsed.
pub uninterp spec fn line_tokens(
    language: Seq<char>,
    theme: Seq<char>,
    earlier: Seq<Seq<char>>,
    line: Seq<char>,
) -> Option<Seq<(Seq<char>, (u8, u8, u8))>>;

/// The colouring has read just these lines, in the language and with the theme.
pub uninterp spec fn has_read(
    state: HighlightLines,
    language: Seq<char>,
    theme: Seq<char>,
    lines: Seq<Seq<char>>,
) -> bool;

/// `syntect::easy::HighlightLines::new` with the language that
/// `syntect::parsing::SyntaxSet::find_syntax_by_name` finds and a theme, both of the default sets,
/// the only ones that a [`Highlighter`] holds. No line has been read.
#[verifier::external_body]
fn start_code<'a>(highlighter: &'a Highlighter, language: &str, theme: &str) -> (state:
    HighlightLines<'a>)
    requires
        has_language(language@),
        has_theme(theme@),
    ensures
        has_read(state, language@, theme@, Seq::empty()),
{
    let syntax = highlighter.syntaxes.find_syntax_by_name(language).unwrap();
    HighlightLines::new(syntax, &highlighter.themes.themes[theme])
}

/// `syntect::easy::HighlightLines::highlight_line`: the line is read, and its pieces depend on the
/// language, the theme, the lines that were read before and the line alone. They are named
/// [`line_tokens`]; how a line is taken apart is not stated.
#[verifier::external_body]
fn color_line(highlighter: &Highlighter, state: &mut HighlightLines<'_>, line: &str) -> (tokens:
    Option<Vec<CodeToken>>)
    ensures
        forall|language: Seq<char>, theme: Seq<char>, earlier: Seq<Seq<char>>| #[trigger]
            has_read(*old(state), language, theme, earlier) ==> has_read(
                *final(state),
                language,
                theme,
                earlier.push(line@),
            ) && line_tokens(language, theme, earlier, line@) == match tokens {
                Some(tokens) => Some(token_views(tokens@)),
                None => None,
            },
{
    let ranges = state.highlight_line(line, &highlighter.syntaxes).ok()?;
    Some(ranges.into_iter().map(|(style, text)| {
        let color = style.foreground;
        CodeToken { text: text.to_owned(), red: color.r, green: color.g, blue: color.b }
    }).collect())
}

/// The pieces of a line that could be parsed; else the line is one piece, in black.
pub open spec fn pieces_or_line(
    tokens: Option<Seq<(Seq<char>, (u8, u8, u8))>>,
    line: Seq<char>,
) -> Seq<(Seq<char>, (u8, u8, u8))> {
    match tokens {
        Some(tokens) => tokens,
        None => seq![(line, (0u8, 0u8, 0u8))],
    }
}

/// The pieces of a line that could be parsed; else the line is one piece, in black.
pub fn line_pieces(tokens: Option<Vec<CodeToken>>, line: &str) -> (pieces: Vec<CodeToken>)
    ensures
        token_views(pieces@) == pieces_or_line(
            match tokens {
                Some(tokens) => Some(token_views(tokens@)),
                None => None,
            },
            line@,
        ),
{
    match tokens {
        Some(tokens) => tokens,
        None => {
            let mut pieces: Vec<CodeToken> = Vec::new();
            pieces.push(CodeToken { text: line.to_owned(), red: 0, green: 0, blue: 0 });
            proof {
                assert(token_views(pieces@) =~= seq![(line@, (0u8, 0u8, 0u8))]);
            }
            pieces
        },
    }
}

/// The pieces of some lines of code in a language, with their colours in a theme, each line read
/// after those before it.
pub open spec fn colored_lines(
    rows: Seq<Seq<char>>,
    language: Seq<char>,
    theme: Seq<char>,
) -> Seq<Seq<(Seq<char>, (u8, u8, u8))>> {
    Seq::new(
        rows.len(),
        |i: int| pieces_or_line(line_tokens(language, theme, rows.take(i), rows[i]), rows[i]),
    )
}

/// The pieces of some code in a language, with their colours in a theme, line by line.
pub open spec fn colored_code(
    code: Seq<char>,
    language: Seq<char>,
    theme: Seq<char>,
) -> Seq<Seq<(Seq<char>, (u8, u8, u8))>> {
    colored_lines(lines::kept_lines(code), language, theme)
}

fn color_code(highlighter: &Highlighter, code: &str, language: &str, theme: &str) -> (rows: Vec<
    Vec<CodeToken>,
>)
    requires
        has_language(language@),
        has_theme(theme@),
    ensures
        row_views(rows@) == colored_code(code@, language@, theme@),
{
    let texts = lines::lines_with_endings(code);
    let ghost all = lines::kept_lines(code@);
    let ghost shown = colored_code(code@, language@, theme@);
    let mut state = start_code(highlighter, language, theme);
    let mut rows: Vec<Vec<CodeToken>> = Vec::new();
    let mut index: usize = 0;
    proof {
        assert(all.take(0) =~= Seq::empty());
        assert(search::texts(texts@).len() == texts@.len());
    }
    while index < texts.len()
        invariant
            index <= texts@.len(),
            search::texts(texts@) == all,
            all.len() == texts@.len(),
            shown == colored_lines(all, language@, theme@),
            has_read(state, language@, theme@, all.take(index as int)),
            rows@.len() == index,
            forall|i: int| 0 <= i < index ==> token_views((#[trigger] rows@[i])@) == shown[i],
        decreases texts@.len() - index,
    {
        let line = texts[index].as_str();
        proof {
            assert(all[index as int] == line@);
            assert(all.take(index + 1) =~= all.take(index as int).push(line@));
        }
        let tokens = color_line(highlighter, &mut state, line);
        rows.push(line_pieces(tokens, line));
        index += 1;
    }
    proof {
        assert(row_views(rows@) =~= shown);
    }
    rows
}

/// The language that a token stands for; plain text for an unknown token.
pub open spec fn language_or_plain(language: Option<Seq<char>>) -> Seq<char> {
    match language {
        Some(language) => language,
        None => "Plain Text"@,
    }
}

fn choose_language(highlighter: &Highlighter, token: &str) -> (language: String)
    ensures
        language@ == language_or_plain(token_language(token@)),
        has_language(language@),
{
    match find_language(highlighter, token) {
        Some(language) => language,
        None => plain_language(highlighter),
    }
}

impl Highlighter {
    /// Loads the languages and themes.
    pub fn new() -> Self {
        Highlighter { syntaxes: default_syntaxes(), themes: default_themes() }
    }

    /// The theme that was asked for, if it is not there.
    pub fn requested_theme_missing(&self, requested: &Option<String>) -> (missing: Option<String>)
        ensures
            strings::held(missing) == match asked_theme(strings::held(*requested)) {
                Some(name) => if has_theme(name) {
                    None
                } else {
                    Some(name)
                },
                None => None,
            },
    {
        match find_requested(requested) {
            Some(name) => if find_theme(self, name.as_str()) {
                None
            } else {
                Some(name)
            },
            None => None,
        }
    }

    /// The theme in use: the one that was asked for, if it is there, or else the default.
    pub fn theme_name(&self, requested: &Option<String>) -> (name: String)
        ensures
            name@ == chosen_theme(strings::held(*requested)),
            has_theme(name@),
    {
        match find_requested(requested) {
            Some(name) => if find_theme(self, name.as_str()) {
                name
            } else {
                let _ = find_theme(self, DEFAULT_THEME_NAME);
                DEFAULT_THEME_NAME.to_owned()
            },
            None => {
                let _ = find_theme(self, DEFAULT_THEME_NAME);
                DEFAULT_THEME_NAME.to_owned()
            },
        }
    }
}

/// The theme that a setting asks for; a blank setting asks for none.
pub open spec fn asked_theme(requested: Option<Seq<char>>) -> Option<Seq<char>> {
    match requested {
        Some(name) => if search::trimmed(name).len() == 0 {
            None
        } else {
            Some(name)
        },
        None => None,
    }
}

/// The theme in use.
pub open spec fn chosen_theme(requested: Option<Seq<char>>) -> Seq<char> {
    match asked_theme(requested) {
        Some(name) => if has_theme(name) {
            name
        } else {
            DEFAULT_THEME_NAME@
        },
        None => DEFAULT_THEME_NAME@,
    }
}

fn find_requested(requested: &Option<String>) -> (name: Option<String>)
    ensures
        strings::held(name) == asked_theme(strings::held(*requested)),
{
    match requested {
        Some(name) => if trim(name.as_str()).as_str().is_empty() {
            None
        } else {
            Some(name.clone())
        },
        None => None,
    }
}

/// The token that the highlighting library knows a language by.
pub open spec fn known_token(token: Seq<char>) -> Seq<char> {
    let name = strings::lower_ascii(search::trimmed(token));
    if name == "rs"@ {
        "rust"@
    } else if name == "py"@ {
        "python"@
    } else if name == "ts"@ || name == "tsx"@ || name == "typescript"@ {
        "ts"@
    } else if name == "js"@ || name == "jsx"@ || name == "javascript"@ {
        "js"@
    } else if name == "sh"@ || name == "shell"@ || name == "zsh"@ {
        "bash"@
    } else if name == "yml"@ {
        "yaml"@
    } else if name == ""@ {
        "txt"@
    } else {
        name
    }
}

/// The token that the highlighting library knows a language by.
pub fn normalize_lang(token: &str) -> (known: String)
    ensures
        known@ == known_token(token@),
{
    let name = to_ascii_lowercase(trim(token).as_str());
    let text = name.as_str();
    if same_text(text, "rs") {
        "rust".to_owned()
    } else if same_text(text, "py") {
        "python".to_owned()
    } else if same_text(text, "ts") || same_text(text, "tsx") || same_text(text, "typescript") {
        "ts".to_owned()
    } else if same_text(text, "js") || same_text(text, "jsx") || same_text(text, "javascript") {
        "js".to_owned()
    } else if same_text(text, "sh") || same_text(text, "shell") || same_text(text, "zsh") {
        "bash".to_owned()
    } else if same_text(text, "yml") {
        "yaml".to_owned()
    } else if same_text(text, "") {
        "txt".to_owned()
    } else {
        name
    }
}

/// A text without the line ends behind it.
pub open spec fn without_line_ends(text: Seq<char>) -> Seq<char>
    decreases text.len(),
{
    if text.len() > 0 && (text.last() == '\n' || text.last() == '\r') {
        without_line_ends(text.drop_last())
    } else {
        text
    }
}

fn cut_line_ends(text: &str) -> (rest: String)
    ensures
        rest@ == without_line_ends(text@),
{
    let chars = chars_of(text);
    let mut end: usize = chars.len();
    proof {
        assert(chars@.take(end as int) =~= text@);
    }
    while end > 0 && (chars[end - 1] == '\n' || chars[end - 1] == '\r')
        invariant
            end <= chars@.len(),
            without_line_ends(chars@.take(end as int)) == without_line_ends(text@),
        decreases end,
    {
        proof {
            assert(chars@.take(end as int).drop_last() =~= chars@.take(end - 1));
        }
        end -= 1;
    }
    let rest = string_of(&chars, 0, end);
    proof {
        assert(rest@ =~= chars@.take(end as int));
    }
    rest
}

/// A piece of code as it is shown.
pub open spec fn token_span(token: (Seq<char>, (u8, u8, u8))) -> highlight::SpanView {
    highlight::SpanView {
        content: without_line_ends(token.0),
        style: TextStyle {
            fg: Some(Color::Rgb(token.1.0, token.1.1, token.1.2)),
            ..plain_style()
        },
    }
}

/// Lines of coloured code as they are shown; code without lines is one empty line.
pub open spec fn colored_rows(rows: Seq<Seq<(Seq<char>, (u8, u8, u8))>>) -> Seq<
    Seq<highlight::SpanView>,
> {
    if rows.len() == 0 {
        seq![seq![highlight::raw(Seq::empty())]]
    } else {
        rows.map_values(
            |row: Seq<(Seq<char>, (u8, u8, u8))>|
                row.map_values(|token: (Seq<char>, (u8, u8, u8))| token_span(token)),
        )
    }
}

/// Lines of code without colours; code without lines is one empty line.
pub open spec fn plain_rows(code: Seq<char>) -> Seq<Seq<highlight::SpanView>> {
    let rows = lines::lines_of(code);
    if rows.len() == 0 {
        seq![seq![highlight::raw(Seq::empty())]]
    } else {
        rows.map_values(|row: Seq<char>| seq![highlight::raw(row)])
    }
}

/// What the pieces of some lines show.
pub open spec fn span_rows(rows: Seq<Vec<TextSpan>>) -> Seq<Seq<highlight::SpanView>> {
    Seq::new(rows.len(), |i: int| highlight::span_views(rows[i]@))
}

fn empty_rows() -> (rows: Vec<Vec<TextSpan>>)
    ensures
        span_rows(rows@) == seq![seq![highlight::raw(Seq::empty())]],
{
    let mut row: Vec<TextSpan> = Vec::new();
    row.push(raw_span(String::new()));
    proof {
        assert(highlight::span_views(row@) =~= seq![highlight::raw(Seq::empty())]);
    }
    let mut rows: Vec<Vec<TextSpan>> = Vec::new();
    rows.push(row);
    proof {
        assert(span_rows(rows@) =~= seq![seq![highlight::raw(Seq::empty())]]);
    }
    rows
}

fn show_row(tokens: &Vec<CodeToken>) -> (row: Vec<TextSpan>)
    ensures
        highlight::span_views(row@) == token_views(tokens@).map_values(
            |token: (Seq<char>, (u8, u8, u8))| token_span(token),
        ),
{
    let mut row: Vec<TextSpan> = Vec::new();
    let mut index: usize = 0;
    while index < tokens.len()
        invariant
            index <= tokens@.len(),
            row@.len() == index,
            forall|i: int|
                0 <= i < index ==> (#[trigger] row@[i])@ == token_span(token_view(tokens@[i])),
        decreases tokens@.len() - index,
    {
        let token = &tokens[index];
        let style = TextStyle {
            fg: Some(Color::Rgb(token.red, token.green, token.blue)),
            bg: None,
            bold: false,
            dim: false,
            underlined: false,
        };
        row.push(TextSpan { content: cut_line_ends(token.text.as_str()), style });
        index += 1;
    }
    proof {
        assert(highlight::span_views(row@) =~= token_views(tokens@).map_values(
            |token: (Seq<char>, (u8, u8, u8))| token_span(token),
        ));
    }
    row
}

/// Shows lines of coloured code.
pub fn show_tokens(tokens: &Vec<Vec<CodeToken>>) -> (rows: Vec<Vec<TextSpan>>)
    ensures
        span_rows(rows@) == colored_rows(row_views(tokens@)),
{
    if tokens.len() == 0 {
        return empty_rows();
    }
    let ghost shown = colored_rows(row_views(tokens@));
    let mut rows: Vec<Vec<TextSpan>> = Vec::new();
    let mut index: usize = 0;
    while index < tokens.len()
        invariant
            index <= tokens@.len(),
            0 < tokens@.len(),
            shown == colored_rows(row_views(tokens@)),
            rows@.len() == index,
            forall|i: int| 0 <= i < index ==> highlight::span_views((#[trigger] rows@[i])@) == shown[i],
        decreases tokens@.len() - index,
    {
        rows.push(show_row(&tokens[index]));
        index += 1;
    }
    proof {
        assert(span_rows(rows@) =~= shown);
    }
    rows
}

/// Shows lines of code without colours.
pub fn plain_code_lines(code: &str) -> (rows: Vec<Vec<TextSpan>>)
    ensures
        span_rows(rows@) == plain_rows(code@),
{
    let texts = lines::lines(code);
    if texts.len() == 0 {
        assert(search::texts(texts@).len() == 0);
        return empty_rows();
    }
    let ghost shown = plain_rows(code@);
    let ghost all = lines::lines_of(code@);
    assert(search::texts(texts@).len() == texts@.len());
    let mut rows: Vec<Vec<TextSpan>> = Vec::new();
    let mut index: usize = 0;
    while index < texts.len()
        invariant
            index <= texts@.len(),
            0 < texts@.len(),
            all == lines::lines_of(code@),
            search::texts(texts@) == all,
            shown == plain_rows(code@),
            rows@.len() == index,
            forall|i: int| 0 <= i < index ==> highlight::span_views((#[trigger] rows@[i])@) == shown[i],
        decreases texts@.len() - index,
    {
        let mut row: Vec<TextSpan> = Vec::new();
        row.push(raw_span(texts[index].clone()));
        proof {
            assert(all[index as int] == texts@[index as int]@);
            assert(highlight::span_views(row@) =~= shown[index as int]);
        }
        rows.push(row);
        index += 1;
    }
    proof {
        assert(span_rows(rows@) =~= shown);
    }
    rows
}

/// The look of the bar beside code.
#[verifier::allow_in_spec]
pub fn bar_style() -> TextStyle
    returns
        (TextStyle {
            fg: Some(Color::Cyan),
            bg: Some(Color::Rgb(30, 30, 46)),
            bold: false,
            dim: false,
            underlined: false,
        }),
{
    TextStyle {
        fg: Some(Color::Cyan),
        bg: Some(Color::Rgb(30, 30, 46)),
        bold: false,
        dim: false,
        underlined: false,
    }
}

/// The look of line numbers.
#[verifier::allow_in_spec]
pub fn number_style() -> TextStyle
    returns
        (TextStyle {
            fg: Some(Color::DarkGray),
            bg: Some(Color::Rgb(30, 30, 46)),
            bold: false,
            dim: false,
            underlined: false,
        }),
{
    TextStyle {
        fg: Some(Color::DarkGray),
        bg: Some(Color::Rgb(30, 30, 46)),
        bold: false,
        dim: false,
        underlined: false,
    }
}

/// The look of the badge above a block.
pub open spec fn badge_style(no_color: bool) -> TextStyle {
    if no_color {
        TextStyle { bold: true, ..plain_style() }
    } else {
        TextStyle {
            fg: Some(Color::Black),
            bg: Some(Color::Rgb(180, 180, 50)),
            bold: true,
            ..plain_style()
        }
    }
}

/// A number in three columns at least, with a rule behind it.
pub open spec fn gutter(number: nat) -> Seq<char> {
    let digits = strings::decimal(number);
    (if digits.len() == 1 {
        "  "@
    } else if digits.len() == 2 {
        " "@
    } else {
        ""@
    }) + digits + " │ "@
}

fn gutter_text(number: usize) -> (text: String)
    ensures
        text@ == gutter(number as nat),
{
    let digits = decimal_usize(number);
    let length: usize = strings::char_count(digits.as_str());
    let padding = if length == 1 {
        "  "
    } else if length == 2 {
        " "
    } else {
        ""
    };
    concat3(padding, digits.as_str(), " │ ")
}

/// A piece of text on the background of code.
pub open spec fn on_code(span: highlight::SpanView) -> highlight::SpanView {
    highlight::SpanView {
        content: span.content,
        style: TextStyle { bg: Some(code_background()), ..span.style },
    }
}

/// A line of a block: a bar, the number if lines are numbered, and the code.
pub open spec fn block_line(
    spans: Seq<highlight::SpanView>,
    number: nat,
    numbered: bool,
) -> highlight::LineView {
    let bar = seq![highlight::SpanView { content: "▊"@, style: bar_style() }];
    let head = if numbered {
        bar.push(highlight::SpanView { content: gutter(number), style: number_style() })
    } else {
        bar
    };
    highlight::LineView {
        spans: head + spans.map_values(|span: highlight::SpanView| on_code(span)),
        style: TextStyle { bg: Some(code_background()), ..plain_style() },
        right_aligned: false,
    }
}

/// The badge above a block.
pub open spec fn badge_line(label: Seq<char>, no_color: bool) -> highlight::LineView {
    highlight::LineView {
        spans: seq![
            highlight::SpanView { content: " "@ + label + " "@, style: badge_style(no_color) },
        ],
        style: plain_style(),
        right_aligned: true,
    }
}

/// A block: the badge, and the lines, which are numbered if there are more than a few.
pub open spec fn framed(
    rows: Seq<Seq<highlight::SpanView>>,
    label: Seq<char>,
    no_color: bool,
) -> Seq<highlight::LineView> {
    seq![badge_line(label, no_color)] + Seq::new(
        rows.len(),
        |i: int| block_line(rows[i], (i + 1) as nat, rows.len() > LINE_NUMBER_THRESHOLD),
    )
}

fn frame_line(spans: Vec<TextSpan>, number: usize, numbered: bool) -> (line: TextLine)
    ensures
        line@ == block_line(highlight::span_views(spans@), number as nat, numbered),
{
    let ghost all = spans@;
    let mut shown: Vec<TextSpan> = Vec::new();
    shown.push(TextSpan { content: "▊".to_owned(), style: bar_style() });
    if numbered {
        shown.push(TextSpan { content: gutter_text(number), style: number_style() });
    }
    let ghost head = highlight::span_views(shown@);
    let ghost code = highlight::span_views(all).map_values(
        |span: highlight::SpanView| on_code(span),
    );
    proof {
        let bar = seq![highlight::SpanView { content: "▊"@, style: bar_style() }];
        if numbered {
            assert(head =~= bar.push(
                highlight::SpanView { content: gutter(number as nat), style: number_style() },
            ));
        } else {
            assert(head =~= bar);
        }
        assert(head =~= head + code.take(0));
    }
    for span in it: spans
        invariant
            it.seq() == all,
            code == highlight::span_views(all).map_values(
                |span: highlight::SpanView| on_code(span),
            ),
            highlight::span_views(shown@) == head + code.take(it.index() as int),
    {
        let ghost before = highlight::span_views(shown@);
        let style = TextStyle { bg: Some(code_background()), ..span.style };
        let ghost piece = on_code(span@);
        shown.push(TextSpan { content: span.content, style });
        proof {
            assert(highlight::span_views(shown@) =~= before.push(piece));
            assert(code[it.index() as int] == piece);
            assert(highlight::span_views(shown@) =~= head + code.take(it.index() + 1));
        }
    }
    proof {
        assert(code.take(all.len() as int) =~= code);
    }
    TextLine {
        spans: shown,
        style: TextStyle {
            fg: None,
            bg: Some(code_background()),
            bold: false,
            dim: false,
            underlined: false,
        },
        right_aligned: false,
    }
}

/// Frames lines of code.
pub fn decorate_code_block(rows: Vec<Vec<TextSpan>>, label: &str, no_color: bool) -> (text: Vec<
    TextLine,
>)
    ensures
        highlight::line_views(text@) == framed(span_rows(rows@), label@, no_color),
{
    let ghost all = rows@;
    let ghost shown = framed(span_rows(all), label@, no_color);
    let numbered = rows.len() > LINE_NUMBER_THRESHOLD;
    let style = if no_color {
        TextStyle { fg: None, bg: None, bold: true, dim: false, underlined: false }
    } else {
        TextStyle {
            fg: Some(Color::Black),
            bg: Some(Color::Rgb(180, 180, 50)),
            bold: true,
            dim: false,
            underlined: false,
        }
    };
    let mut badge: Vec<TextSpan> = Vec::new();
    badge.push(TextSpan { content: concat3(" ", label, " "), style });
    let mut text: Vec<TextLine> = Vec::new();
    proof {
        assert(highlight::span_views(badge@) =~= badge_line(label@, no_color).spans);
    }
    text.push(TextLine { spans: badge, style: plain_style(), right_aligned: true });
    let mut number: usize = 0;
    let count: usize = rows.len();
    for row in it: rows
        invariant
            it.seq() == all,
            count == all.len(),
            number == it.index(),
            numbered == (all.len() > LINE_NUMBER_THRESHOLD),
            shown == framed(span_rows(all), label@, no_color),
            text@.len() == it.index() + 1,
            forall|i: int| 0 <= i < text@.len() ==> (#[trigger] text@[i])@ == shown[i],
    {
        number += 1;
        text.push(frame_line(row, number, numbered));
    }
    proof {
        assert(highlight::line_views(text@) =~= shown);
    }
    text
}

/// The first line of some code; empty if there is none.
pub open spec fn first_line(code: Seq<char>) -> Seq<char> {
    let rows = lines::lines_of(code);
    if rows.len() > 0 {
        rows[0]
    } else {
        ""@
    }
}

fn find_first_line(code: &str) -> (line: String)
    ensures
        line@ == first_line(code@),
{
    let rows = lines::lines(code);
    assert(search::texts(rows@).len() == rows@.len());
    if rows.len() > 0 {
        assert(search::texts(rows@)[0] == rows@[0]@);
        rows[0].clone()
    } else {
        "".to_owned()
    }
}

/// Code in a language, coloured unless colours are off.
pub open spec fn language_rows(
    code: Seq<char>,
    language: Seq<char>,
    theme: Seq<char>,
    no_color: bool,
) -> Seq<Seq<highlight::SpanView>> {
    if no_color {
        plain_rows(code)
    } else {
        colored_rows(colored_code(code, language, theme))
    }
}

fn tokenize_code_lines(
    highlighter: &Highlighter,
    code: &str,
    language: &str,
    theme: &str,
    no_color: bool,
) -> (rows: Vec<Vec<TextSpan>>)
    requires
        has_language(language@),
        has_theme(theme@),
    ensures
        span_rows(rows@) == language_rows(code@, language@, theme@, no_color),
{
    if no_color {
        plain_code_lines(code)
    } else {
        show_tokens(&color_code(highlighter, code, language, theme))
    }
}

/// A fenced block. Where no language is named, the first line may give it away; if it does not,
/// the code stays plain.
pub open spec fn code_block(
    language: Seq<char>,
    code: Seq<char>,
    theme: Seq<char>,
    no_color: bool,
) -> Seq<highlight::LineView> {
    let named = search::trimmed(language);
    if named.len() == 0 {
        match first_line_language(first_line(code)) {
            Some(name) => framed(
                language_rows(code, name, theme, no_color),
                "["@ + name + "] (auto)"@,
                no_color,
            ),
            None => framed(plain_rows(code), "[plain]"@, no_color),
        }
    } else {
        framed(
            language_rows(
                code,
                language_or_plain(token_language(known_token(named))),
                theme,
                no_color,
            ),
            "["@ + named + "]"@,
            no_color,
        )
    }
}

/// Turns a fenced block into styled lines.
pub(crate) fn highlight_code_block(
    highlighter: &Highlighter,
    language: &str,
    code: &str,
    theme: &str,
    no_color: bool,
) -> (text: Vec<TextLine>)
    requires
        has_theme(theme@),
    ensures
        highlight::line_views(text@) == code_block(language@, code@, theme@, no_color),
{
    let named = trim(language);
    if named.as_str().is_empty() {
        let first = find_first_line(code);
        match detect_language(highlighter, first.as_str()) {
            Some(name) => {
                let rows = tokenize_code_lines(highlighter, code, name.as_str(), theme, no_color);
                let label = concat3("[", name.as_str(), "] (auto)");
                decorate_code_block(rows, label.as_str(), no_color)
            },
            None => decorate_code_block(plain_code_lines(code), "[plain]", no_color),
        }
    } else {
        let known = normalize_lang(named.as_str());
        let name = choose_language(highlighter, known.as_str());
        let rows = tokenize_code_lines(highlighter, code, name.as_str(), theme, no_color);
        let label = concat3("[", named.as_str(), "]");
        decorate_code_block(rows, label.as_str(), no_color)
    }
}

/// A block has one line more than its code: the badge. Its lines are numbered exactly if there are
/// more than a few.
pub proof fn blocks_keep_their_lines(
    rows: Seq<Seq<highlight::SpanView>>,
    label: Seq<char>,
    no_color: bool,
    index: int,
)
    requires
        0 <= index < rows.len(),
    ensures
        framed(rows, label, no_color).len() == rows.len() + 1,
        framed(rows, label, no_color)[0] == badge_line(label, no_color),
        framed(rows, label, no_color)[index + 1].spans.len() == rows[index].len() + if rows.len()
            > LINE_NUMBER_THRESHOLD {
            2int
        } else {
            1int
        },
{
}

} // verus!
