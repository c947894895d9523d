//! Terminal colors and text styles, as the clock draws them.
//!
//! A `Style` holds an optional foreground and background color and two sets
//! of text modifiers: the ones the style turns on and the ones it turns off.
//! Modifier sets are bit masks over the flags below.
use vstd::prelude::*;

verus! {

/// Bold text.
pub const BOLD: u16 = 0x001;

/// Faint text.
pub const DIM: u16 = 0x002;

/// Italic text.
pub const ITALIC: u16 = 0x004;

/// Underlined text.
pub const UNDERLINED: u16 = 0x008;

/// Slowly blinking text.
pub const SLOW_BLINK: u16 = 0x010;

/// Rapidly blinking text.
pub const RAPID_BLINK: u16 = 0x020;

/// Foreground and background swapped.
pub const REVERSED: u16 = 0x040;

/// Hidden text.
pub const HIDDEN: u16 = 0x080;

/// Struck-through text.
pub const CROSSED_OUT: u16 = 0x100;

/// A terminal color.
#[derive(Clone, Copy, Debug, PartialEq, Eq, Structural)]
pub enum Color {
    Reset,
    Black,
    Red,
    Green,
    Yellow,
    Blue,
    Magenta,
    Cyan,
    Gray,
    DarkGray,
    LightRed,
    LightGreen,
    LightYellow,
    LightBlue,
    LightMagenta,
    LightCyan,
    White,
    Rgb(u8, u8, u8),
    Indexed(u8),
}

/// A text style: colors and the modifiers it adds and removes.
#[derive(Clone, Copy, Debug, PartialEq, Eq, Structural)]
pub struct Style {
    pub fg: Option<Color>,
    pub bg: Option<Color>,
    pub add_modifier: u16,
    pub sub_modifier: u16,
}

/// Whether the modifier set `set` holds every flag of `flags`.
pub open spec fn holds_modifiers(set: u16, flags: u16) -> bool {
    set & flags == flags
}

/// Whether the modifier set `set` holds every flag of `flags`.
pub fn has_modifiers(set: u16, flags: u16) -> (b: bool)
    ensures
        b == holds_modifiers(set, flags),
{
    set & flags == flags
}

/// The style that changes nothing.
pub open spec fn plain_style() -> Style {
    Style { fg: None, bg: None, add_modifier: 0, sub_modifier: 0 }
}

/// The style with the foreground set to `c`.
pub open spec fn with_fg(s: Style, c: Color) -> Style {
    Style { fg: Some(c), ..s }
}

/// The style with the background set to `c`.
pub open spec fn with_bg(s: Style, c: Color) -> Style {
    Style { bg: Some(c), ..s }
}

/// The style that turns the flags `m` on.
pub open spec fn adding(s: Style, m: u16) -> Style {
    Style { add_modifier: s.add_modifier | m, sub_modifier: s.sub_modifier & !m, ..s }
}

/// The style that turns the flags `m` off.
pub open spec fn removing(s: Style, m: u16) -> Style {
    Style { add_modifier: s.add_modifier & !m, sub_modifier: s.sub_modifier | m, ..s }
}

impl Style {
    /// The style that changes nothing.
    pub fn new() -> (s: Style)
        ensures
            s == plain_style(),
    {
        Style { fg: None, bg: None, add_modifier: 0, sub_modifier: 0 }
    }

    /// This style with the foreground color `c`.
    pub fn fg(self, c: Color) -> (s: Style)
        ensures
            s == with_fg(self, c),
    {
        Style { fg: Some(c), ..self }
    }

    /// This style with the background color `c`.
    pub fn bg(self, c: Color) -> (s: Style)
        ensures
            s == with_bg(self, c),
    {
        Style { bg: Some(c), ..self }
    }

    /// This style, turning the flags `m` on.
    pub fn add_modifier(self, m: u16) -> (s: Style)
        ensures
            s == adding(self, m),
    {
        Style { add_modifier: self.add_modifier | m, sub_modifier: self.sub_modifier & !m, ..self }
    }

    /// This style, turning the flags `m` off.
    pub fn remove_modifier(self, m: u16) -> (s: Style)
        ensures
            s == removing(self, m),
    {
        Style { add_modifier: self.add_modifier & !m, sub_modifier: self.sub_modifier | m, ..self }
    }
}

/// The color that an SGR color code names: 30 to 37 are the eight basic
/// colors (bright variants when `bright`), anything else resets.
pub open spec fn spec_ansi_color(value: u16, bright: bool) -> Color {
    if !bright {
        if value == 30 {
            Color::Black
        } else if value == 31 {
            Color::Red
        } else if value == 32 {
            Color::Green
        } else if value == 33 {
            Color::Yellow
        } else if value == 34 {
            Color::Blue
        } else if value == 35 {
            Color::Magenta
        } else if value == 36 {
            Color::Cyan
        } else if value == 37 {
            Color::Gray
        } else {
            Color::Reset
        }
    } else {
        if value == 30 {
            Color::DarkGray
        } else if value == 31 {
            Color::LightRed
        } else if value == 32 {
            Color::LightGreen
        } else if value == 33 {
            Color::LightYellow
        } else if value == 34 {
            Color::LightBlue
        } else if value == 35 {
            Color::LightMagenta
        } else if value == 36 {
            Color::LightCyan
        } else if value == 37 {
            Color::White
        } else {
            Color::Reset
        }
    }
}

/// The color that an SGR color code names.
pub fn ansi_color(value: u16, bright: bool) -> (c: Color)
    ensures
        c == spec_ansi_color(value, bright),
{
    match (value, bright) {
        (30, false) => Color::Black,
        (31, false) => Color::Red,
        (32, false) => Color::Green,
        (33, false) => Color::Yellow,
        (34, false) => Color::Blue,
        (35, false) => Color::Magenta,
        (36, false) => Color::Cyan,
        (37, false) => Color::Gray,
        (30, true) => Color::DarkGray,
        (31, true) => Color::LightRed,
        (32, true) => Color::LightGreen,
        (33, true) => Color::LightYellow,
        (34, true) => Color::LightBlue,
        (35, true) => Color::LightMagenta,
        (36, true) => Color::LightCyan,
        (37, true) => Color::White,
        _ => Color::Reset,
    }
}

/// The style with the flags `modifier` turned off.
pub fn remove_sgr_modifier(style: Style, modifier: u16) -> (s: Style)
    ensures
        s == removing(style, modifier),
{
    style.remove_modifier(modifier)
}

} // verus!
