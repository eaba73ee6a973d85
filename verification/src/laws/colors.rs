//! Colours: who gets which, what a score looks like, and what is left without colours.

use crate::color;
use crate::palette;
use crate::palette::{CellColors, Color, PaletteConfig, PaletteMode};
use vstd::prelude::*;

verus! {

/// Every agent has one of eight colours, by the sum of the bytes of the name, which is the sum of its
/// parts' sums.
pub proof fn agents_share_eight_colors(bytes: Seq<u8>, more: Seq<u8>, name: Seq<char>)
    ensures
        color::byte_sum(bytes + more) == color::byte_sum(bytes) + color::byte_sum(more),
        bytes.len() == 1 ==> color::byte_sum(bytes) == bytes[0],
        0 <= color::color_index(name) < 8,
        color::byte_sum(vstd::utf8::encode_utf8(name)) % 8 == color::color_index(name),
    decreases more.len(),
{
    if more.len() == 0 {
        assert(bytes + more =~= bytes);
    } else {
        agents_share_eight_colors(bytes, more.drop_last(), name);
        assert((bytes + more).drop_last() =~= bytes + more.drop_last());
        assert((bytes + more).last() == more.last());
    }
    if bytes.len() == 1 {
        assert(color::byte_sum(bytes.drop_last()) == 0);
        assert(bytes.last() == bytes[0]);
    }
}

/// The eight colours differ from each other, with either palette, and are these.
pub proof fn agent_colors_differ(one: int, other: int)
    requires
        0 <= one < other < 8,
    ensures
        color::default_agent_color(one) != color::default_agent_color(other),
        palette::safe_agent_color(one) != palette::safe_agent_color(other),
        seq![
            Color::Cyan,
            Color::Yellow,
            Color::Green,
            Color::Magenta,
            Color::Blue,
            Color::LightRed,
            Color::LightBlue,
            Color::LightGreen,
        ][one] == color::default_agent_color(one),
        seq![
            Color::Rgb(230, 159, 0),
            Color::Rgb(86, 180, 233),
            Color::Rgb(0, 158, 115),
            Color::Rgb(240, 228, 66),
            Color::Rgb(0, 114, 178),
            Color::Rgb(213, 94, 0),
            Color::Rgb(204, 121, 167),
            Color::Gray,
        ][one] == palette::safe_agent_color(one),
        color::default_agent_color(7) == Color::LightGreen,
        palette::safe_agent_color(7) == Color::Gray,
{
}

/// A high score is green, a middle one yellow and a low one red; with the safe palette blue takes the
/// place of green and vermillion that of red.
pub proof fn scores_have_three_colors(score: u16, high: u16, middle: u16)
    requires
        middle < high,
    ensures
        palette::score_color(score, high, middle, PaletteMode::Default) == Color::Green <==> score
            >= high,
        palette::score_color(score, high, middle, PaletteMode::Default) == Color::Yellow <==> middle
            <= score < high,
        palette::score_color(score, high, middle, PaletteMode::Default) == Color::Red <==> score
            < middle,
        palette::score_color(score, high, middle, PaletteMode::Safe) == Color::Rgb(0, 114, 178)
            <==> score >= high,
        palette::score_color(score, high, middle, PaletteMode::Safe) == Color::Rgb(240, 228, 66)
            <==> middle <= score < high,
        palette::score_color(score, high, middle, PaletteMode::Safe) == Color::Rgb(213, 94, 0)
            <==> score < middle,
{
}

/// Without colours nothing but the background of code has one; the plain palette shows every colour
/// as it is, and the safe one changes red, green and cyan alone.
pub proof fn cells_are_shown_as_configured(cell: CellColors, mode: PaletteMode)
    ensures
        palette::shown_cell(cell, PaletteConfig { no_color: true, mode }) == if cell.bg == Color::Rgb(
            30,
            30,
            46,
        ) {
            cell
        } else {
            CellColors { fg: Color::Reset, bg: Color::Reset }
        },
        palette::shown_cell(
            cell,
            PaletteConfig { no_color: false, mode: PaletteMode::Default },
        ) == cell,
        cell.fg != Color::Red && cell.fg != Color::LightRed && cell.fg != Color::Green && cell.fg
            != Color::LightGreen && cell.fg != Color::Cyan ==> palette::shown_cell(
            cell,
            PaletteConfig { no_color: false, mode: PaletteMode::Safe },
        ).fg == cell.fg,
        palette::safe_color(Color::Red) == Color::Rgb(213, 94, 0),
        palette::safe_color(Color::LightRed) == Color::Rgb(230, 159, 0),
        palette::safe_color(Color::Green) == Color::Rgb(0, 114, 178),
        palette::safe_color(Color::LightGreen) == Color::Rgb(86, 180, 233),
        palette::safe_color(Color::Cyan) == Color::Rgb(240, 228, 66),
        palette::shown_cell(
            cell,
            PaletteConfig { no_color: false, mode: PaletteMode::Safe },
        ).bg == palette::safe_color(cell.bg),
        palette::shown_cell(
            cell,
            PaletteConfig { no_color: false, mode: PaletteMode::Safe },
        ).fg == palette::safe_color(cell.fg),
{
}

} // verus!
