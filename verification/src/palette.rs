//! Colours: switching them off, and a palette for colour-blind readers.

use vstd::prelude::*;

verus! {

/// A terminal colour.
#[derive(Clone, Copy, Debug, PartialEq, Eq, Structural)]
pub enum Color {
    Reset,
    Black,
    Red,
    Green,
    Yellow,
    Blue,
    Magenta,
    Cyan,
    Gray,
    DarkGray,
    LightRed,
    LightGreen,
    LightYellow,
    LightBlue,
    LightMagenta,
    LightCyan,
    White,
    Rgb(u8, u8, u8),
    Indexed(u8),
}

/// The palette in use.
#[derive(Clone, Copy, Debug, PartialEq, Eq, Structural)]
pub enum PaletteMode {
    Default,
    Safe,
}

/// The colour settings.
#[derive(Clone, Copy, Debug, PartialEq, Eq, Structural)]
pub struct PaletteConfig {
    pub no_color: bool,
    pub mode: PaletteMode,
}

impl Default for PaletteConfig {
    fn default() -> (config: Self)
        ensures
            config == (PaletteConfig { no_color: false, mode: PaletteMode::Default }),
    {
        PaletteConfig { no_color: false, mode: PaletteMode::Default }
    }
}

/// The orange of the Okabe–Ito palette.
#[verifier::allow_in_spec]
pub fn safe_orange() -> Color
    returns
        Color::Rgb(230, 159, 0),
{
    Color::Rgb(230, 159, 0)
}

/// The sky blue of the Okabe–Ito palette.
#[verifier::allow_in_spec]
pub fn safe_sky_blue() -> Color
    returns
        Color::Rgb(86, 180, 233),
{
    Color::Rgb(86, 180, 233)
}

/// The bluish green of the Okabe–Ito palette.
#[verifier::allow_in_spec]
pub fn safe_bluish_green() -> Color
    returns
        Color::Rgb(0, 158, 115),
{
    Color::Rgb(0, 158, 115)
}

/// The yellow of the Okabe–Ito palette.
#[verifier::allow_in_spec]
pub fn safe_yellow() -> Color
    returns
        Color::Rgb(240, 228, 66),
{
    Color::Rgb(240, 228, 66)
}

/// The blue of the Okabe–Ito palette.
#[verifier::allow_in_spec]
pub fn safe_blue() -> Color
    returns
        Color::Rgb(0, 114, 178),
{
    Color::Rgb(0, 114, 178)
}

/// The vermillion of the Okabe–Ito palette.
#[verifier::allow_in_spec]
pub fn safe_vermillion() -> Color
    returns
        Color::Rgb(213, 94, 0),
{
    Color::Rgb(213, 94, 0)
}

/// The reddish purple of the Okabe–Ito palette.
#[verifier::allow_in_spec]
pub fn safe_reddish_purple() -> Color
    returns
        Color::Rgb(204, 121, 167),
{
    Color::Rgb(204, 121, 167)
}

/// The background of code blocks.
#[verifier::allow_in_spec]
pub fn code_background() -> Color
    returns
        Color::Rgb(30, 30, 46),
{
    Color::Rgb(30, 30, 46)
}

/// How many colours agents are told apart by.
pub const AGENT_COLOR_COUNT: usize = 8;

/// The colour-blind safe colour at a position of the agents' palette.
pub open spec fn safe_agent_color(index: int) -> Color {
    if index == 0 {
        safe_orange()
    } else if index == 1 {
        safe_sky_blue()
    } else if index == 2 {
        safe_bluish_green()
    } else if index == 3 {
        safe_yellow()
    } else if index == 4 {
        safe_blue()
    } else if index == 5 {
        safe_vermillion()
    } else if index == 6 {
        safe_reddish_purple()
    } else {
        Color::Gray
    }
}

/// The colour-blind safe colours of agents.
pub fn safe_agent_palette() -> (palette: [Color; 8])
    ensures
        forall|i: int| 0 <= i < AGENT_COLOR_COUNT ==> #[trigger] palette@[i] == safe_agent_color(i),
{
    [
        safe_orange(),
        safe_sky_blue(),
        safe_bluish_green(),
        safe_yellow(),
        safe_blue(),
        safe_vermillion(),
        safe_reddish_purple(),
        Color::Gray,
    ]
}

/// The colour of a score that counts as high, middling or low.
pub open spec fn score_color(score: u16, high: u16, middle: u16, mode: PaletteMode) -> Color {
    match mode {
        PaletteMode::Default => if score >= high {
            Color::Green
        } else if score >= middle {
            Color::Yellow
        } else {
            Color::Red
        },
        PaletteMode::Safe => if score >= high {
            safe_blue()
        } else if score >= middle {
            safe_yellow()
        } else {
            safe_vermillion()
        },
    }
}

fn color_of_score(score: u16, high: u16, middle: u16, mode: PaletteMode) -> (color: Color)
    ensures
        color == score_color(score, high, middle, mode),
{
    match mode {
        PaletteMode::Default => if score >= high {
            Color::Green
        } else if score >= middle {
            Color::Yellow
        } else {
            Color::Red
        },
        PaletteMode::Safe => if score >= high {
            safe_blue()
        } else if score >= middle {
            safe_yellow()
        } else {
            safe_vermillion()
        },
    }
}

/// The colour of the overall audit score, out of a hundred.
pub fn overall_score_color(score: u16, mode: PaletteMode) -> (color: Color)
    ensures
        color == score_color(score, 90, 70, mode),
{
    color_of_score(score, 90, 70, mode)
}

/// The colour of the score of one audit axis, out of ten.
pub fn axis_score_color(score: u16, mode: PaletteMode) -> (color: Color)
    ensures
        color == score_color(score, 9, 7, mode),
{
    color_of_score(score, 9, 7, mode)
}

/// The colours of one cell of the screen.
#[derive(Clone, Copy, Debug, PartialEq, Eq, Structural)]
pub struct CellColors {
    pub fg: Color,
    pub bg: Color,
}

/// A colour as the safe palette shows it: the colours that tell danger and success apart, and that
/// of the focus, are replaced.
pub open spec fn safe_color(color: Color) -> Color {
    match color {
        Color::Red => safe_vermillion(),
        Color::LightRed => safe_orange(),
        Color::Green => safe_blue(),
        Color::LightGreen => safe_sky_blue(),
        Color::Cyan => safe_yellow(),
        other => other,
    }
}

/// A colour as the safe palette shows it.
pub fn remap_named(color: Color) -> (mapped: Color)
    ensures
        mapped == safe_color(color),
{
    match color {
        Color::Red => safe_vermillion(),
        Color::LightRed => safe_orange(),
        Color::Green => safe_blue(),
        Color::LightGreen => safe_sky_blue(),
        Color::Cyan => safe_yellow(),
        other => other,
    }
}

/// A cell without colours; the background of code blocks marks structure and stays.
pub open spec fn stripped(cell: CellColors) -> CellColors {
    if cell.bg == code_background() {
        cell
    } else {
        CellColors { fg: Color::Reset, bg: Color::Reset }
    }
}

/// A cell as the settings show it.
pub open spec fn shown_cell(cell: CellColors, config: PaletteConfig) -> CellColors {
    if config.no_color {
        stripped(cell)
    } else if config.mode == PaletteMode::Safe {
        CellColors { fg: safe_color(cell.fg), bg: safe_color(cell.bg) }
    } else {
        cell
    }
}

/// Takes the colours off a cell, but for code blocks.
pub fn strip_cell(cell: CellColors) -> (result: CellColors)
    ensures
        result == stripped(cell),
{
    if cell.bg == code_background() {
        cell
    } else {
        CellColors { fg: Color::Reset, bg: Color::Reset }
    }
}

/// Shows a cell in the safe palette.
pub fn remap_cell_safe(cell: CellColors) -> (result: CellColors)
    ensures
        result == (CellColors { fg: safe_color(cell.fg), bg: safe_color(cell.bg) }),
{
    CellColors { fg: remap_named(cell.fg), bg: remap_named(cell.bg) }
}

/// Applies the settings to a drawn frame.
pub fn apply_to_cells(cells: &mut Vec<CellColors>, config: PaletteConfig)
    ensures
        final(cells)@.len() == old(cells)@.len(),
        forall|i: int|
            0 <= i < old(cells)@.len() ==> #[trigger] final(cells)@[i] == shown_cell(
                old(cells)@[i],
                config,
            ),
{
    let ghost before = cells@;
    let mut index: usize = 0;
    while index < cells.len()
        invariant
            index <= cells@.len(),
            cells@.len() == before.len(),
            forall|i: int| 0 <= i < index ==> #[trigger] cells@[i] == shown_cell(before[i], config),
            forall|i: int| index <= i < cells@.len() ==> #[trigger] cells@[i] == before[i],
        decreases cells@.len() - index,
    {
        let cell = cells[index];
        let shown = if config.no_color {
            strip_cell(cell)
        } else if config.mode == PaletteMode::Safe {
            remap_cell_safe(cell)
        } else {
            cell
        };
        cells.set(index, shown);
        index += 1;
    }
}

/// The safe palette never shows the red and green that colour-blind readers cannot tell apart, and
/// showing a colour in it twice changes nothing more.
pub proof fn safe_palette_avoids_red_and_green(color: Color, score: u16, high: u16, middle: u16)
    ensures
        safe_color(color) != Color::Red,
        safe_color(color) != Color::Green,
        safe_color(safe_color(color)) == safe_color(color),
        score_color(score, high, middle, PaletteMode::Safe) != Color::Red,
        score_color(score, high, middle, PaletteMode::Safe) != Color::Green,
        safe_color(score_color(score, high, middle, PaletteMode::Safe)) == score_color(
            score,
            high,
            middle,
            PaletteMode::Safe,
        ),
{
}

} // verus!
