//! The colours of the overlay, as numbers `0xRRGGBB`.

use vstd::prelude::*;

use crate::blocks::BlockColors;
use crate::blocks::Level;
use crate::blocks::Rgb;

verus! {

pub const BACKGROUND: u32 = 0x0b0b0d;

pub const TEXT_PRIMARY: u32 = 0xf1f1f1;

pub const TEXT_SECONDARY: u32 = 0xa9a9ad;

pub const TEXT_DISABLED: u32 = 0x6a6a70;

pub const ACCENT: u32 = 0x3fd0d8;

pub const ACCENT_WARN: u32 = 0xf2a33c;

pub const ACCENT_CRITICAL: u32 = 0xe85c5c;

/// The colours of a block that has none of its own.
pub const DEFAULT_HEADER: u32 = 0xf1f1f1;

pub const DEFAULT_LABELS: u32 = 0xa9a9ad;

pub const DEFAULT_VALUES: u32 = 0xf1f1f1;

pub const DEFAULT_ACCENT: u32 = 0x3fd0d8;

/// The colours of the settings window.
pub const WINDOW_BACKGROUND: u32 = 0x0e1116;

pub const WINDOW_PANEL: u32 = 0x12161d;

pub const CARD: u32 = 0x151a22;

pub const CARD_STROKE: u32 = 0x242c38;

pub const FIELD: u32 = 0x0f1319;

pub const SWITCH_OFF: u32 = 0x3a4250;

/// A colour as a number.
pub open spec fn color_number(color: Rgb) -> nat {
    (color.0[0] * 0x1_0000 + color.0[1] * 0x100 + color.0[2]) as nat
}

pub fn rgb(color: Rgb) -> (r: u32)
    ensures
        r == color_number(color),
        r < 0x100_0000,
{
    color.0[0] as u32 * 0x1_0000 + color.0[1] as u32 * 0x100 + color.0[2] as u32
}

/// The channels of a colour.
pub fn to_rgb(color: u32) -> (r: Rgb)
    requires
        color < 0x100_0000,
    ensures
        color_number(r) == color,
{
    Rgb(
        [(color / 0x1_0000) as u8, (color / 0x100 % 0x100) as u8, (color % 0x100) as u8],
    )
}

/// Two colours with one number are one colour.
pub proof fn law_colors_have_numbers_of_their_own(a: Rgb, b: Rgb)
    requires
        color_number(a) == color_number(b),
    ensures
        a == b,
{
    assert(a.0[0] == b.0[0] && a.0[1] == b.0[1] && a.0[2] == b.0[2]);
    assert(a.0 =~= b.0);
}

/// The colours of a block after the settings.
#[derive(Debug, Clone, Copy, PartialEq, Eq, Structural)]
pub struct Palette {
    pub header: u32,
    pub labels: u32,
    pub values: u32,
    pub accent: u32,
}

/// A colour of the settings, or that of the theme.
pub open spec fn picked(color: Option<Rgb>, standard: u32) -> u32 {
    match color {
        Some(color) => color_number(color) as u32,
        None => standard,
    }
}

pub open spec fn palette_of(colors: BlockColors) -> Palette {
    Palette {
        header: picked(colors.header, DEFAULT_HEADER),
        labels: picked(colors.labels, DEFAULT_LABELS),
        values: picked(colors.values, DEFAULT_VALUES),
        accent: picked(colors.accent, DEFAULT_ACCENT),
    }
}

fn pick(color: Option<Rgb>, standard: u32) -> (r: u32)
    ensures
        r == picked(color, standard),
{
    match color {
        Some(color) => rgb(color),
        None => standard,
    }
}

impl Palette {
    pub fn of(colors: &BlockColors) -> (r: Palette)
        ensures
            r == palette_of(*colors),
    {
        Palette {
            header: pick(colors.header, DEFAULT_HEADER),
            labels: pick(colors.labels, DEFAULT_LABELS),
            values: pick(colors.values, DEFAULT_VALUES),
            accent: pick(colors.accent, DEFAULT_ACCENT),
        }
    }
}

/// The colour of a value by its level.
pub open spec fn level_color(level: Option<Level>, normal: u32) -> u32 {
    match level {
        Some(Level::Critical) => ACCENT_CRITICAL,
        Some(Level::Warn) => ACCENT_WARN,
        None => normal,
    }
}

pub fn for_level(level: Option<Level>, normal: u32) -> (r: u32)
    ensures
        r == level_color(level, normal),
{
    match level {
        Some(Level::Critical) => ACCENT_CRITICAL,
        Some(Level::Warn) => ACCENT_WARN,
        None => normal,
    }
}

/// A colour after something was typed: it counts as soon as it is a colour.
pub fn typed_color(value: Option<Rgb>, text: &str) -> (r: Option<Rgb>)
    ensures
        r == (match crate::blocks::color_of(text@) {
            Some(color) => Some(color),
            None => value,
        }),
{
    match Rgb::parse(text) {
        Some(color) => Some(color),
        None => value,
    }
}

/// The colour that a field shows: the own one, or that of the theme.
pub fn current_color(value: Option<Rgb>, theme_color: u32) -> (r: Rgb)
    requires
        theme_color < 0x100_0000,
    ensures
        color_number(r) == (match value {
            Some(color) => color_number(color),
            None => theme_color as nat,
        }),
        value is Some ==> r == value->0,
{
    match value {
        Some(color) => color,
        None => to_rgb(theme_color),
    }
}

/// A colour that is typed takes effect as soon as it is one; until then the colour stays.
pub proof fn law_typed_colors_take_effect(value: Option<Rgb>, text: &str, r: Option<Rgb>)
    requires
        call_ensures(typed_color, (value, text), r),
    ensures
        crate::blocks::color_of(text@) is Some ==> r == crate::blocks::color_of(text@),
        crate::blocks::color_of(text@) is None ==> r == value,
{
}

/// A chosen colour goes before the one of the theme.
pub proof fn law_chosen_colors_go_first(color: Rgb, standard: u32)
    ensures
        picked(Some(color), standard) == 0x1_0000 * color.0@[0] + 0x100 * color.0@[1] + color.0@[2],
        picked(None, standard) == standard,
{
}

} // verus!
