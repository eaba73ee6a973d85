use agmsg_tui::highlight::code::{
    line_pieces, normalize_lang, CodeToken, Highlighter, DEFAULT_THEME_NAME,
};
use agmsg_tui::highlight::inline::{
    format_inline_code, highlight_plain_line, inline_code_background, parse_markdown_link,
};
use agmsg_tui::highlight::{highlight_body, TextLine};
use agmsg_tui::lines::lines_with_endings;
use agmsg_tui::palette::Color;

fn body_lines(body: &str) -> Vec<TextLine> {
    highlight_body(&Highlighter::new(), body, &None, false)
}

fn contents(line: &TextLine) -> Vec<&str> {
    line.spans.iter().map(|span| span.content.as_str()).collect()
}

fn label_text(lines: &[TextLine]) -> String {
    let label_line = lines
        .iter()
        .find(|line| line.right_aligned)
        .expect("label line present");
    contents(label_line).concat()
}

#[test]
fn rust_fence_highlights_with_multiple_styled_tokens() {
    let body = "before\n```rust\nfn main() {\n    let x = 1;\n}\n```\nafter";
    let lines = body_lines(body);
    let fn_line = lines
        .iter()
        .find(|line| line.spans.iter().any(|s| s.content.contains("fn")))
        .expect("highlighted fn line present");
    assert!(
        fn_line.spans.len() > 1,
        "expected tokenized spans, got {:?}",
        fn_line.spans
    );
}

#[test]
fn inline_code_url_and_mention_are_styled_separately() {
    let mention = "@chief-main";
    let text = format!("see `foo.rs` at https://example.com cc {mention}");
    let line = highlight_plain_line(&text, false);
    let contents = contents(&line);
    assert!(contents.contains(&"foo.rs"));
    assert!(contents.contains(&"https://example.com"));
    assert!(contents.contains(&mention));
}

#[test]
fn plain_body_without_fences_is_unchanged_text() {
    let lines = body_lines("just a normal message\nsecond line");
    assert_eq!(lines.len(), 2);
}

#[test]
fn long_code_block_gets_line_number_gutter() {
    let code = "one\ntwo\nthree\nfour\nfive\nsix";
    let body = format!("```rust\n{code}\n```");
    let lines = body_lines(&body);
    let first_content_line = lines
        .iter()
        .find(|line| line.spans.iter().any(|s| s.content.contains("one")))
        .expect("first content line present");
    let numbered = first_content_line
        .spans
        .iter()
        .any(|s| s.content == "  1 │ ");
    assert!(
        numbered,
        "expected line-number gutter span, got {:?}",
        first_content_line.spans
    );

    let last_content_line = lines
        .iter()
        .find(|line| line.spans.iter().any(|s| s.content.contains("six")))
        .expect("last content line present");
    let numbered_last = last_content_line
        .spans
        .iter()
        .any(|s| s.content == "  6 │ ");
    assert!(
        numbered_last,
        "expected line 6 gutter span, got {:?}",
        last_content_line.spans
    );
}

#[test]
fn short_code_block_has_no_line_numbers() {
    let body = "```rust\na\nb\nc\n```";
    let lines = body_lines(body);
    let has_gutter = lines
        .iter()
        .any(|line| line.spans.iter().any(|s| s.content.contains('│')));
    assert!(!has_gutter, "did not expect a line-number gutter on a short block");
}

#[test]
fn unlabeled_fence_detects_language_from_shebang() {
    let body = "```\n#!/usr/bin/env python3\nprint('hi')\n```";
    let label_text = label_text(&body_lines(body));
    assert!(
        label_text.contains("(auto)"),
        "expected auto-detected label, got {label_text:?}"
    );
}

#[test]
fn unlabeled_fence_with_no_match_falls_back_to_plain() {
    let body = "```\nsome unrecognizable gibberish 12345\n```";
    let label_text = label_text(&body_lines(body));
    assert!(label_text.contains("[plain]"), "expected [plain] label, got {label_text:?}");
}

#[test]
fn inline_code_span_has_expected_background_style() {
    let span = format_inline_code("foo.rs".to_owned(), false);
    assert_eq!(span.style.bg, Some(inline_code_background()));
    assert_eq!(span.style.fg, Some(Color::White));
}

#[test]
fn markdown_link_parses_title_and_url() {
    let parsed = parse_markdown_link("[agmsg conventions](https://example.com/docs)");
    assert_eq!(
        parsed,
        Some(("agmsg conventions".to_owned(), "https://example.com/docs".to_owned()))
    );
}

#[test]
fn markdown_link_renders_underlined_title_and_dim_url() {
    let line = highlight_plain_line("see [the doc](https://example.com/x) for details", false);
    let contents = contents(&line);
    assert!(contents.contains(&"the doc"));
    assert!(contents.contains(&"<https://example.com/x>"));
}

#[test]
fn non_link_brackets_are_left_as_plain_text() {
    let line = highlight_plain_line("array indexing: arr[0] not a link", false);
    let contents = contents(&line);
    assert!(contents.iter().any(|c| c.contains("arr[0]")));
}

#[test]
fn themes_that_are_not_there_are_noticed() {
    let highlighter = Highlighter::new();
    let odd = Some("no-such-theme".to_owned());
    assert_eq!(highlighter.requested_theme_missing(&odd), odd);
    assert_eq!(highlighter.theme_name(&odd), DEFAULT_THEME_NAME);
    let known = Some("InspiredGitHub".to_owned());
    assert_eq!(highlighter.requested_theme_missing(&known), None);
    assert_eq!(highlighter.theme_name(&known), "InspiredGitHub");
    assert_eq!(highlighter.requested_theme_missing(&None), None);
    assert_eq!(normalize_lang("PY"), normalize_lang("py"));
}

#[test]
fn words_with_accents_end_a_mention_late() {
    let line = highlight_plain_line("@café, hello", false);
    assert_eq!(line.spans[0].content, "@café");
}

#[test]
fn colored_code_takes_its_colors_from_the_theme() {
    let body = "```rust\nlet x = \"text\";\n```".to_owned();
    let highlighter = Highlighter::new();
    let dark = highlight_body(&highlighter, &body, &None, false);
    let light = highlight_body(&highlighter, &body, &Some("InspiredGitHub".to_owned()), false);
    assert_ne!(dark, light);
}

#[test]
fn lines_keep_their_ends() {
    assert_eq!(lines_with_endings("a\r\n\nb"), ["a\r\n", "\n", "b"]);
    assert_eq!(lines_with_endings("a\n"), ["a\n"]);
    assert!(lines_with_endings("").is_empty());
}

#[test]
fn a_line_that_cannot_be_parsed_is_one_black_piece() {
    let whole = line_pieces(None, "x y\n");
    assert_eq!(
        whole,
        [CodeToken { text: "x y\n".to_owned(), red: 0, green: 0, blue: 0 }]
    );
    let token = || CodeToken { text: "x".to_owned(), red: 1, green: 2, blue: 3 };
    assert_eq!(line_pieces(Some(vec![token()]), "x"), [token()]);
}

#[test]
fn the_lines_before_a_line_color_it() {
    let line = |body: &str| {
        let lines = body_lines(body);
        let shown = lines
            .into_iter()
            .find(|line| line.spans.iter().any(|span| span.content.contains("let")))
            .expect("the line");
        shown.spans.into_iter().map(|span| span.style.fg).collect::<Vec<_>>()
    };
    assert_ne!(
        line("```rust\n/*\nlet x = 1;\n*/\n```"),
        line("```rust\n\nlet x = 1;\n\n```")
    );
}

#[test]
fn an_unknown_language_is_colored_as_plain_text() {
    let mut unknown = body_lines("```nosuchlang\nlet x = 1;\n```");
    let mut plain = body_lines("```txt\nlet x = 1;\n```");
    assert_eq!(label_text(&unknown), " [nosuchlang] ");
    unknown.retain(|line| !line.right_aligned);
    plain.retain(|line| !line.right_aligned);
    assert_eq!(unknown, plain);
    assert!(unknown.iter().any(|line| contents(line).contains(&"let x = 1;")));
}
