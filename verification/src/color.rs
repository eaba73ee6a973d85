//! The colour of an agent's name.

use crate::palette;
use crate::palette::{safe_agent_palette, Color, PaletteMode, AGENT_COLOR_COUNT};
use vstd::prelude::*;

verus! {

/// The colour at a position of the usual palette of agents.
pub open spec fn default_agent_color(index: int) -> Color {
    if index == 0 {
        Color::Cyan
    } else if index == 1 {
        Color::Yellow
    } else if index == 2 {
        Color::Green
    } else if index == 3 {
        Color::Magenta
    } else if index == 4 {
        Color::Blue
    } else if index == 5 {
        Color::LightRed
    } else if index == 6 {
        Color::LightBlue
    } else {
        Color::LightGreen
    }
}

fn default_palette() -> (palette: [Color; 8])
    ensures
        forall|i: int|
            0 <= i < AGENT_COLOR_COUNT ==> #[trigger] palette@[i] == default_agent_color(i),
{
    [
        Color::Cyan,
        Color::Yellow,
        Color::Green,
        Color::Magenta,
        Color::Blue,
        Color::LightRed,
        Color::LightBlue,
        Color::LightGreen,
    ]
}

/// The sum of some bytes.
pub open spec fn byte_sum(bytes: Seq<u8>) -> nat
    decreases bytes.len(),
{
    if bytes.len() == 0 {
        0
    } else {
        byte_sum(bytes.drop_last()) + bytes.last() as nat
    }
}

/// The position of a name's colour: the sum of the bytes of the name, modulo the number of
/// colours.
pub open spec fn color_index(name: Seq<char>) -> int {
    byte_sum(vstd::utf8::encode_utf8(name)) as int % AGENT_COLOR_COUNT as int
}

/// The colour of an agent's name.
pub open spec fn agent_color_of(name: Seq<char>, mode: PaletteMode) -> Color {
    match mode {
        PaletteMode::Default => default_agent_color(color_index(name)),
        PaletteMode::Safe => palette::safe_agent_color(color_index(name)),
    }
}

/// The colour of an agent's name.
pub fn agent_color(name: &str, mode: PaletteMode) -> (color: Color)
    ensures
        color == agent_color_of(name@, mode),
{
    let bytes = name.as_bytes();
    let total: usize = bytes.len();
    let mut sum: usize = 0;
    let mut index: usize = 0;
    proof {
        assert(bytes@.take(0) =~= Seq::empty());
    }
    while index < total
        invariant
            index <= total,
            total == bytes@.len(),
            sum == byte_sum(bytes@.take(index as int)) % 8,
        decreases total - index,
    {
        proof {
            assert(bytes@.take(index + 1).drop_last() =~= bytes@.take(index as int));
        }
        sum = (sum + bytes[index] as usize) % AGENT_COLOR_COUNT;
        index += 1;
    }
    proof {
        assert(bytes@.take(index as int) =~= bytes@);
    }
    match mode {
        PaletteMode::Default => default_palette()[sum],
        PaletteMode::Safe => safe_agent_palette()[sum],
    }
}

/// In the safe palette no agent has one of the colours that the palette replaces.
pub proof fn safe_agents_need_no_remap(name: Seq<char>)
    ensures
        palette::safe_color(agent_color_of(name, PaletteMode::Safe)) == agent_color_of(
            name,
            PaletteMode::Safe,
        ),
{
}

} // verus!
