use agmsg_tui::clipboard::{base64_encode, clipboard_sequence};
use agmsg_tui::color::agent_color;
use agmsg_tui::config::{resolve_palette, Cli, Environment, PaletteArg, Paths};
use agmsg_tui::palette::{
    apply_to_cells, axis_score_color, code_background, overall_score_color, remap_cell_safe,
    safe_agent_palette, safe_blue, safe_bluish_green, safe_vermillion, safe_yellow, strip_cell,
    CellColors, Color, PaletteConfig, PaletteMode,
};
use ratatui::buffer::Buffer;
use ratatui::layout::Rect;
use ratatui::style;

#[test]
fn base64_encoder_handles_padding_and_utf8() {
    assert_eq!(base64_encode(b""), "");
    assert_eq!(base64_encode(b"f"), "Zg==");
    assert_eq!(base64_encode(b"fo"), "Zm8=");
    assert_eq!(base64_encode(b"foo"), "Zm9v");
    assert_eq!(base64_encode("全文".as_bytes()), "5YWo5paH");
}

#[test]
fn the_clipboard_sequence_carries_the_encoded_body() {
    assert_eq!(clipboard_sequence("foo"), "\x1b]52;c;Zm9v\x07");
}

#[test]
fn same_name_always_maps_to_the_same_color() {
    let main = "chief-main";
    assert_eq!(
        agent_color(main, PaletteMode::Default),
        agent_color(main, PaletteMode::Default)
    );
    assert_eq!(
        agent_color("codex-worker", PaletteMode::Default),
        agent_color("codex-worker", PaletteMode::Default)
    );
}

#[test]
fn formula_matches_sum_of_bytes_mod_palette_len() {
    assert_eq!(agent_color("ab", PaletteMode::Default), Color::Magenta);
    assert_eq!(agent_color("a", PaletteMode::Default), Color::Yellow);
}

#[test]
fn safe_mode_never_returns_a_default_palette_color() {
    let main = "chief-main";
    for name in [main, "codex-worker", "opencode-review", "a", "ab", "zzz"] {
        let color = agent_color(name, PaletteMode::Safe);
        assert!(
            safe_agent_palette().contains(&color),
            "{name} mapped to {color:?}, not in the safe palette"
        );
    }
}

fn color_of(cell: style::Color) -> Color {
    match cell {
        style::Color::Reset => Color::Reset,
        style::Color::Black => Color::Black,
        style::Color::Red => Color::Red,
        style::Color::Green => Color::Green,
        style::Color::Yellow => Color::Yellow,
        style::Color::Blue => Color::Blue,
        style::Color::Magenta => Color::Magenta,
        style::Color::Cyan => Color::Cyan,
        style::Color::Gray => Color::Gray,
        style::Color::DarkGray => Color::DarkGray,
        style::Color::LightRed => Color::LightRed,
        style::Color::LightGreen => Color::LightGreen,
        style::Color::LightYellow => Color::LightYellow,
        style::Color::LightBlue => Color::LightBlue,
        style::Color::LightMagenta => Color::LightMagenta,
        style::Color::LightCyan => Color::LightCyan,
        style::Color::White => Color::White,
        style::Color::Rgb(r, g, b) => Color::Rgb(r, g, b),
        style::Color::Indexed(index) => Color::Indexed(index),
    }
}

fn shown(color: Color) -> style::Color {
    match color {
        Color::Reset => style::Color::Reset,
        Color::Black => style::Color::Black,
        Color::Red => style::Color::Red,
        Color::Green => style::Color::Green,
        Color::Yellow => style::Color::Yellow,
        Color::Blue => style::Color::Blue,
        Color::Magenta => style::Color::Magenta,
        Color::Cyan => style::Color::Cyan,
        Color::Gray => style::Color::Gray,
        Color::DarkGray => style::Color::DarkGray,
        Color::LightRed => style::Color::LightRed,
        Color::LightGreen => style::Color::LightGreen,
        Color::LightYellow => style::Color::LightYellow,
        Color::LightBlue => style::Color::LightBlue,
        Color::LightMagenta => style::Color::LightMagenta,
        Color::LightCyan => style::Color::LightCyan,
        Color::White => style::Color::White,
        Color::Rgb(r, g, b) => style::Color::Rgb(r, g, b),
        Color::Indexed(index) => style::Color::Indexed(index),
    }
}

fn recolor(buffer: &mut Buffer, change: fn(CellColors) -> CellColors) {
    for cell in &mut buffer.content {
        let colors = change(CellColors { fg: color_of(cell.fg), bg: color_of(cell.bg) });
        cell.set_fg(shown(colors.fg));
        cell.set_bg(shown(colors.bg));
    }
}

#[test]
fn strip_buffer_clears_color_but_keeps_modifier() {
    let mut buffer = Buffer::empty(Rect::new(0, 0, 1, 1));
    let cell = &mut buffer.content[0];
    cell.set_fg(style::Color::Red);
    cell.set_bg(style::Color::Blue);
    cell.modifier = style::Modifier::BOLD;

    recolor(&mut buffer, strip_cell);

    let cell = &buffer.content[0];
    assert_eq!(cell.fg, style::Color::Reset);
    assert_eq!(cell.bg, style::Color::Reset);
    assert_eq!(cell.modifier, style::Modifier::BOLD);
}

#[test]
fn strip_buffer_preserves_code_block_background_exception() {
    let mut buffer = Buffer::empty(Rect::new(0, 0, 1, 1));
    buffer.content[0].set_fg(style::Color::Cyan).set_bg(shown(code_background()));

    recolor(&mut buffer, strip_cell);

    assert_eq!(buffer.content[0].bg, shown(code_background()));
    assert_eq!(buffer.content[0].fg, style::Color::Cyan);
}

#[test]
fn safe_remap_replaces_red_green_and_cyan_with_okabe_ito_colors() {
    let mut buffer = Buffer::empty(Rect::new(0, 0, 1, 1));
    buffer.content[0].set_fg(style::Color::Red).set_bg(style::Color::Green);
    recolor(&mut buffer, remap_cell_safe);
    assert_eq!(buffer.content[0].fg, shown(safe_vermillion()));
    assert_eq!(buffer.content[0].bg, shown(safe_blue()));

    let mut buffer = Buffer::empty(Rect::new(0, 0, 1, 1));
    buffer.content[0].set_fg(style::Color::Cyan);
    recolor(&mut buffer, remap_cell_safe);
    assert_eq!(buffer.content[0].fg, shown(safe_yellow()));
}

#[test]
fn safe_remap_leaves_rgb_colors_untouched() {
    let mut buffer = Buffer::empty(Rect::new(0, 0, 1, 1));
    buffer.content[0].set_fg(shown(safe_bluish_green()));
    recolor(&mut buffer, remap_cell_safe);
    assert_eq!(buffer.content[0].fg, shown(safe_bluish_green()));
}

#[test]
fn overall_score_color_avoids_red_green_pair_in_safe_mode() {
    let high = overall_score_color(95, PaletteMode::Safe);
    let low = overall_score_color(10, PaletteMode::Safe);
    assert_ne!(high, Color::Red);
    assert_ne!(high, Color::Green);
    assert_ne!(low, Color::Red);
    assert_ne!(low, Color::Green);
    assert_ne!(high, low);
}

#[test]
fn cells_follow_the_settings() {
    let red = CellColors { fg: Color::Red, bg: Color::Reset };
    let mut cells = vec![red];
    apply_to_cells(&mut cells, PaletteConfig { no_color: false, mode: PaletteMode::Default });
    assert_eq!(cells, vec![red]);
    apply_to_cells(&mut cells, PaletteConfig { no_color: false, mode: PaletteMode::Safe });
    assert_eq!(cells[0].fg, safe_vermillion());
    apply_to_cells(&mut cells, PaletteConfig { no_color: true, mode: PaletteMode::Safe });
    assert_eq!(cells[0].fg, Color::Reset);
    assert_eq!(axis_score_color(10, PaletteMode::Default), Color::Green);
}

fn bare_cli() -> Cli {
    Cli {
        db: None,
        teams_dir: None,
        scripts_dir: None,
        audit_script: None,
        report_dir: None,
        diagnose: false,
        startup_probe: false,
        no_color: false,
        palette: None,
    }
}

fn bare_environment() -> Environment {
    Environment {
        home: Some("/home/me".to_owned()),
        db: None,
        teams_dir: None,
        scripts_dir: None,
        audit: None,
        report_dir: None,
        no_color: false,
        palette: None,
    }
}

#[test]
fn options_come_before_the_environment_and_the_defaults() {
    let mut cli = bare_cli();
    let mut environment = bare_environment();
    let paths = Paths::from_cli(&cli, &environment).expect("paths");
    assert_eq!(paths.db, "/home/me/.agents/skills/agmsg/db/messages.db");
    assert_eq!(paths.audit_script, "/home/me/bin/agmsg-audit");
    assert_eq!(paths.state_file, "/home/me/.config/agmsg-tui/state.json");
    environment.db = Some("/env.db".to_owned());
    assert_eq!(Paths::from_cli(&cli, &environment).expect("paths").db, "/env.db");
    cli.db = Some("/cli.db".to_owned());
    assert_eq!(Paths::from_cli(&cli, &environment).expect("paths").db, "/cli.db");
    environment.home = None;
    assert_eq!(
        Paths::from_cli(&cli, &environment),
        Err("HOME が設定されていません".to_owned())
    );
}

#[test]
fn the_palette_comes_from_options_or_the_environment() {
    let mut cli = bare_cli();
    let mut environment = bare_environment();
    assert_eq!(resolve_palette(&cli, &environment), (false, PaletteMode::Default));
    environment.palette = Some("safe".to_owned());
    environment.no_color = true;
    assert_eq!(resolve_palette(&cli, &environment), (true, PaletteMode::Safe));
    cli.palette = Some(PaletteArg::Default);
    assert_eq!(resolve_palette(&cli, &environment), (true, PaletteMode::Default));
}
