//! Clock mode: the time text, the date header, how large the clock is drawn
//! and where, and the widgets under it.
use vstd::prelude::*;

use crate::config::ClockWidgetConfig;
use crate::layout::{
    clock_height_budget, clock_height_for_size, clock_size_for_area, fits,
    layout_length_then_rest, spec_clock_height, spec_clock_height_budget, spec_clock_size,
    split_length_then_rest, within, Rect,
};
use crate::style::Style;
use crate::text::{decimal, push_char, push_decimal};
use crate::widgets::{laid_out, scrolled_at, scrolled_to_bottom, scrolled_to_top, ClockWidgets};

verus! {

/// A wall-clock date and time, as the program reads it.
#[derive(Clone, Copy, Debug, PartialEq, Eq, Structural)]
pub struct LocalDateTime {
    pub year: i32,
    pub month: u32,
    pub day: u32,
    pub hour: u32,
    pub minute: u32,
    pub second: u32,
    pub nanosecond: u32,
}

// ---------------------------------------------------------------------------
// chrono formatting
/// What chrono writes for the date `year`-`month`-`day` with the pattern
/// `pattern`, or `None` when that is no date.
pub uninterp spec fn chrono_date_header(
    year: i32,
    month: u32,
    day: u32,
    pattern: Seq<char>,
) -> Option<Seq<char>>;

/// What chrono writes for the time `hour`:`minute`:`second` and
/// `nanosecond` with the pattern `pattern`, or `None` when that is no time.
pub uninterp spec fn chrono_time_text(
    hour: u32,
    minute: u32,
    second: u32,
    nanosecond: u32,
    pattern: Seq<char>,
) -> Option<Seq<char>>;

/// The pattern of the date over the clock, such as `Sunday, June 7 2026`.
pub open spec fn date_header_pattern() -> Seq<char> {
    "%A, %B %-d %Y"@
}

/// The patterns the clock writes its time with: with seconds, and with
/// minutes only.
pub open spec fn is_time_pattern(pattern: Seq<char>) -> bool {
    pattern == "%H:%M:%S"@ || pattern == "%H:%M"@
}

/// chrono's `NaiveDate::from_ymd_opt`, then `format(pattern)`: the text is
/// named, not stated. The pattern is the header's, whose specifiers chrono
/// knows (an unknown one would make `to_string` panic).
#[verifier::external_body]
fn date_header_text(year: i32, month: u32, day: u32, pattern: &str) -> (r: Option<String>)
    requires
        pattern@ == date_header_pattern(),
    ensures
        match r {
            Some(s) => chrono_date_header(year, month, day, pattern@) == Some(s@),
            None => chrono_date_header(year, month, day, pattern@) is None,
        },
{
    match chrono::NaiveDate::from_ymd_opt(year, month, day) {
        Some(date) => Some(date.format(pattern).to_string()),
        None => None,
    }
}

/// chrono's `NaiveTime::from_hms_nano_opt`, then `format(pattern)`: the text
/// is named, not stated. The patterns are those the clock uses, whose
/// specifiers chrono knows (an unknown one would make `to_string` panic).
#[verifier::external_body]
fn time_text(hour: u32, minute: u32, second: u32, nanosecond: u32, pattern: &str) -> (r: Option<
    String,
>)
    requires
        is_time_pattern(pattern@),
    ensures
        match r {
            Some(s) => chrono_time_text(hour, minute, second, nanosecond, pattern@) == Some(s@),
            None => chrono_time_text(hour, minute, second, nanosecond, pattern@) is None,
        },
{
    match chrono::NaiveTime::from_hms_nano_opt(hour, minute, second, nanosecond) {
        Some(time) => Some(time.format(pattern).to_string()),
        None => None,
    }
}

// ---------------------------------------------------------------------------
// Header and time
/// The header over the clock: the date in words, then the time zone's name
/// when one is set.
pub open spec fn spec_clock_header(date: Seq<char>, timezone: Option<Seq<char>>) -> Seq<char> {
    match timezone {
        Some(tz) => date + seq![' '] + tz,
        None => date,
    }
}

/// The header over the clock for the date of `now`, such as
/// `Sunday, June 7 2026 America/New_York`; `None` when `now` holds no date.
pub fn format_clock_header(now: LocalDateTime, timezone: Option<&str>) -> (r: Option<String>)
    ensures
        match chrono_date_header(now.year, now.month, now.day, date_header_pattern()) {
            Some(date) => r matches Some(h) && h@ == spec_clock_header(
                date,
                match timezone {
                    Some(tz) => Some(tz@),
                    None => None,
                },
            ),
            None => r is None,
        },
{
    let pattern = "%A, %B %-d %Y";
    proof {
        reveal_strlit("%A, %B %-d %Y");
    }
    let mut title = match date_header_text(now.year, now.month, now.day, pattern) {
        Some(t) => t,
        None => return None,
    };
    if let Some(tz) = timezone {
        push_char(&mut title, ' ');
        title.append(tz);
    }
    Some(title)
}

/// The pattern of the clock's time before any tenths of a second: with
/// seconds, else minutes only.
pub open spec fn spec_time_pattern(show_millis: bool, show_secs: bool) -> Seq<char> {
    if show_millis || show_secs {
        "%H:%M:%S"@
    } else {
        "%H:%M"@
    }
}

/// The tenths of a second in `nanosecond` (a leap second's past the first
/// second counted as in chrono, from the start of that second).
pub open spec fn tenths(nanosecond: u32) -> nat {
    ((nanosecond % 1_000_000_000) / 100_000_000) as nat
}

/// The clock's time text for `now`: hours, minutes and seconds (or hours
/// and minutes), then, with tenths shown, a point and the tenths of a
/// second; `None` when `now` holds no time.
pub open spec fn spec_clock_time(now: LocalDateTime, show_millis: bool, show_secs: bool) -> Option<
    Seq<char>,
> {
    match chrono_time_text(
        now.hour,
        now.minute,
        now.second,
        now.nanosecond,
        spec_time_pattern(show_millis, show_secs),
    ) {
        Some(t) => Some(
            if show_millis {
                t + seq!['.'] + decimal(tenths(now.nanosecond))
            } else {
                t
            },
        ),
        None => None,
    }
}

/// The clock's time text for `now`; `None` when `now` holds no time.
pub fn clock_time_text(now: LocalDateTime, show_millis: bool, show_secs: bool) -> (r: Option<
    String,
>)
    ensures
        match spec_clock_time(now, show_millis, show_secs) {
            Some(t) => r matches Some(s) && s@ == t,
            None => r is None,
        },
{
    let pattern = if show_millis || show_secs {
        "%H:%M:%S"
    } else {
        "%H:%M"
    };
    proof {
        reveal_strlit("%H:%M:%S");
        reveal_strlit("%H:%M");
    }
    let mut text = match time_text(now.hour, now.minute, now.second, now.nanosecond, pattern) {
        Some(t) => t,
        None => return None,
    };
    if show_millis {
        push_char(&mut text, '.');
        push_decimal(&mut text, ((now.nanosecond % 1_000_000_000) / 100_000_000) as u64);
    }
    Some(text)
}

// ---------------------------------------------------------------------------
// Layout with widgets
/// Where the clock and the widgets go, and the clock's size.
#[derive(Clone, Copy, Debug, PartialEq, Eq, Structural)]
pub struct ClockWidgetsLayout {
    pub clock_area: Rect,
    pub widgets_area: Rect,
    pub clock_size: u16,
}

/// The rows the clock takes above the widgets: what its size needs, at most
/// half the area.
pub open spec fn spec_clock_rows(area: Rect, text_len: nat, has_header: bool) -> u16 {
    let budget = spec_clock_height_budget(area.height);
    let size = spec_clock_size(text_len, Rect { height: budget, ..area }, has_header);
    let h = spec_clock_height(size, has_header);
    let h1 = if h < budget {
        h
    } else {
        budget
    };
    if h1 < area.height {
        h1
    } else {
        area.height
    }
}

/// The clock's size and its rows and the widgets' rows in `area`: the
/// clock is sized for the top half, takes the rows its size needs (at most
/// that half), and the widgets get the rest.
pub open spec fn spec_clock_widgets_layout(area: Rect, text_len: nat, has_header: bool) -> ClockWidgetsLayout {
    let budget = spec_clock_height_budget(area.height);
    let size = spec_clock_size(text_len, Rect { height: budget, ..area }, has_header);
    let parts = layout_length_then_rest(area, spec_clock_rows(area, text_len, has_header));
    ClockWidgetsLayout { clock_area: parts.0, widgets_area: parts.1, clock_size: size }
}

/// The clock never takes more than the top half of an area of two rows or
/// more (one row of a one-row area), so the widgets keep the rest.
pub proof fn clock_rows_stay_in_the_top_half(area: Rect, text_len: nat, has_header: bool)
    ensures
        spec_clock_rows(area, text_len, has_header) <= area.height,
        area.height >= 2 ==> spec_clock_rows(area, text_len, has_header) <= area.height / 2,
        area.height == 1 ==> spec_clock_rows(area, text_len, has_header) <= 1,
{
}

/// Splits `area` between a clock of `text_len` glyphs and the widgets.
pub fn clock_widgets_layout(area: Rect, text_len: usize, has_header: bool) -> (r: ClockWidgetsLayout)
    requires
        fits(area),
        text_len <= usize::MAX / 6,
    ensures
        r == spec_clock_widgets_layout(area, text_len as nat, has_header),
        r.clock_area == (Rect { height: spec_clock_rows(area, text_len as nat, has_header), ..area }),
        r.widgets_area == (Rect {
            y: (area.y + spec_clock_rows(area, text_len as nat, has_header)) as u16,
            height: (area.height - spec_clock_rows(area, text_len as nat, has_header)) as u16,
            ..area
        }),
        fits(r.clock_area) && fits(r.widgets_area),
{
    let budget = clock_height_budget(area.height);
    let sizing_area = Rect { height: budget, ..area };
    let clock_size = clock_size_for_area(text_len, sizing_area, has_header);
    let h = clock_height_for_size(clock_size, has_header);
    let h1 = if h < budget {
        h
    } else {
        budget
    };
    let clock_height = if h1 < area.height {
        h1
    } else {
        area.height
    };
    let (clock_area, widgets_area) = split_length_then_rest(area, clock_height);
    ClockWidgetsLayout { clock_area, widgets_area, clock_size }
}

// ---------------------------------------------------------------------------
// Centering text
/// The columns and rows of one glyph of a clock font.
#[derive(Clone, Copy, Debug, PartialEq, Eq, Structural)]
pub struct FontMetrics {
    pub char_width: u16,
    pub char_height: u16,
}

/// The glyph size of the bricks font at size `size`: 6 columns and 5 rows
/// per size step.
pub fn bricks_font(size: u16) -> (f: FontMetrics)
    ensures
        f.char_width == crate::layout::sat_add16(0, 6 * size),
        f.char_height == crate::layout::sat_add16(0, 5 * size),
{
    let w: u32 = 6 * size as u32;
    let h: u32 = 5 * size as u32;
    FontMetrics {
        char_width: if w > u16::MAX as u32 {
            u16::MAX
        } else {
            w as u16
        },
        char_height: if h > u16::MAX as u32 {
            u16::MAX
        } else {
            h as u16
        },
    }
}

/// Text drawn in a large clock font.
#[derive(Debug)]
pub struct ClockText {
    pub text: String,
    pub font: FontMetrics,
    pub style: Style,
}

/// Columns between two glyphs of clock text.
pub const CHARACTER_SPACING: u16 = 2;

/// The columns and rows clock text takes: its glyphs side by side with
/// spacing between them (at most `u16::MAX` columns; the glyph count is
/// taken modulo 65536, as a `u16`), one glyph tall.
pub open spec fn spec_text_size(char_count: nat, font: FontMetrics) -> (u16, u16) {
    let count = char_count % 65536;
    if count == 0 {
        (0, font.char_height)
    } else {
        let char_width = crate::layout::sat_add16(font.char_width as int, 2);
        let width = crate::layout::sat_add16(0, count * char_width);
        ((if width >= 2 {
            width - 2
        } else {
            0
        }) as u16, font.char_height)
    }
}

impl ClockText {
    /// Clock text in the given font and style.
    pub fn new(text: String, font: FontMetrics, style: Style) -> (t: ClockText)
        ensures
            t.text == text,
            t.font == font,
            t.style == style,
    {
        ClockText { text, font, style }
    }

    /// The columns and rows the text takes.
    pub fn size(&self) -> (r: (u16, u16))
        ensures
            r == spec_text_size(self.text@.len(), self.font),
    {
        let n = self.text.as_str().unicode_len();
        let char_count: u16 = (n % 65536) as u16;
        let height = self.font.char_height;
        if char_count == 0 {
            return (0, height);
        }
        let char_width = self.font.char_width.saturating_add(CHARACTER_SPACING);
        assert(char_count as u32 * char_width as u32 <= 65535 * 65535) by (nonlinear_arith)
            requires
                0 <= char_count <= 65535,
                0 <= char_width <= 65535,
        ;
        let product: u32 = char_count as u32 * char_width as u32;
        let width: u16 = if product > u16::MAX as u32 {
            u16::MAX
        } else {
            product as u16
        };
        (width.saturating_sub(CHARACTER_SPACING), height)
    }
}

/// Where centered clock text and the lines over and under it go.
#[derive(Clone, Copy, Debug, PartialEq, Eq, Structural)]
pub struct CenteredLayout {
    pub text_area: Rect,
    pub header_area: Option<Rect>,
    pub footer_area: Option<Rect>,
}

/// The area of a one-line text of `len` bytes, centered across `area` on
/// row `top`.
pub open spec fn spec_line_area(area: Rect, len: nat, top: int) -> Rect {
    let l: int = (len % 65536) as int;
    Rect {
        x: (area.x + crate::layout::sat_sub(area.width as int, l) / 2) as u16,
        y: top as u16,
        width: (if l < area.width {
            l
        } else {
            area.width as int
        }) as u16,
        height: (if area.height < 1 {
            area.height as int
        } else {
            1
        }) as u16,
    }
}

/// Where text of size `text_size` goes, centered in `area`, with an
/// optional header line of `header_len` bytes two rows above it and an
/// optional footer line of `footer_len` bytes one row under it. With a
/// header and exactly two free rows above, the text moves down one row when
/// there is room; a line that does not fit is left out.
pub open spec fn spec_centered_layout(
    area: Rect,
    text_size: (u16, u16),
    header_len: Option<nat>,
    footer_len: Option<nat>,
) -> CenteredLayout {
    let t0 = Rect {
        x: (area.x + crate::layout::sat_sub(area.width as int, text_size.0 as int) / 2) as u16,
        y: (area.y + crate::layout::sat_sub(area.height as int, text_size.1 as int) / 2) as u16,
        width: if text_size.0 < area.width {
            text_size.0
        } else {
            area.width
        },
        height: if text_size.1 < area.height {
            text_size.1
        } else {
            area.height
        },
    };
    let area_bottom = crate::layout::sat_add16(area.y as int, area.height as int);
    let t0_bottom = crate::layout::sat_add16(t0.y as int, t0.height as int);
    let t = if header_len is Some && area.y + 2 == t0.y && t0_bottom < area_bottom {
        Rect { y: (t0.y + 1) as u16, ..t0 }
    } else {
        t0
    };
    let t_bottom = crate::layout::sat_add16(t.y as int, t.height as int);
    CenteredLayout {
        text_area: t,
        header_area: match header_len {
            Some(len) => if area.y + 2 <= t.y {
                Some(spec_line_area(area, len, t.y - 2))
            } else {
                None
            },
            None => None,
        },
        footer_area: match footer_len {
            Some(len) => if area_bottom >= t_bottom + 2 {
                Some(spec_line_area(area, len, t_bottom + 1))
            } else {
                None
            },
            None => None,
        },
    }
}

/// Centered clock text stays within its area, and so do the header and
/// footer lines: the header above the text with a free row between, the
/// footer under it with a free row between.
pub proof fn centered_layout_stays_in_the_area(
    area: Rect,
    text_size: (u16, u16),
    header_len: Option<nat>,
    footer_len: Option<nat>,
)
    requires
        fits(area),
    ensures
        ({
            let l = spec_centered_layout(area, text_size, header_len, footer_len);
            &&& within(l.text_area, area)
            &&& l.header_area matches Some(h) ==> within(h, area) && h.y + h.height + 1
                <= l.text_area.y
            &&& l.footer_area matches Some(f) ==> within(f, area) && f.y >= l.text_area.y
                + l.text_area.height + 1
        }),
{
}

/// The bottom edge of the text centered in `area`, with a header line or
/// without.
pub open spec fn centered_text_bottom(area: Rect, text_size: (u16, u16), has_header: bool) -> int {
    let t = spec_centered_layout(
        area,
        text_size,
        if has_header {
            Some(0nat)
        } else {
            None
        },
        None,
    ).text_area;
    t.y + t.height
}

fn line_area(area: Rect, len: usize, top: u16) -> (r: Rect)
    requires
        fits(area),
    ensures
        r == spec_line_area(area, len as nat, top as int),
{
    let l: u16 = (len % 65536) as u16;
    Rect {
        x: area.x + area.width.saturating_sub(l) / 2,
        y: top,
        width: if l < area.width {
            l
        } else {
            area.width
        },
        height: if area.height < 1 {
            area.height
        } else {
            1
        },
    }
}

/// Where clock text of size `text_size` and its header and footer lines go
/// in `area`.
pub fn centered_layout(
    area: Rect,
    text_size: (u16, u16),
    header_len: Option<usize>,
    footer_len: Option<usize>,
) -> (r: CenteredLayout)
    requires
        fits(area),
        header_len is Some ==> area.y + 2 <= u16::MAX,
        footer_len is Some ==> centered_text_bottom(area, text_size, header_len is Some) + 2
            <= u16::MAX,
    ensures
        r == spec_centered_layout(
            area,
            text_size,
            match header_len {
                Some(l) => Some(l as nat),
                None => None,
            },
            match footer_len {
                Some(l) => Some(l as nat),
                None => None,
            },
        ),
{
    let mut text_area = Rect {
        x: area.x + area.width.saturating_sub(text_size.0) / 2,
        y: area.y + area.height.saturating_sub(text_size.1) / 2,
        width: if text_size.0 < area.width {
            text_size.0
        } else {
            area.width
        },
        height: if text_size.1 < area.height {
            text_size.1
        } else {
            area.height
        },
    };
    let area_bottom = area.y.saturating_add(area.height);
    if header_len.is_some() && area.y + 2 == text_area.y && text_area.y.saturating_add(
        text_area.height,
    ) < area_bottom {
        text_area.y = text_area.y + 1;
    }
    let text_bottom = text_area.y.saturating_add(text_area.height);
    let header_area = match header_len {
        Some(len) => if area.y + 2 <= text_area.y {
            Some(line_area(area, len, text_area.y - 2))
        } else {
            None
        },
        None => None,
    };
    let footer_area = match footer_len {
        Some(len) => if area_bottom >= text_bottom + 2 {
            Some(line_area(area, len, text_bottom + 1))
        } else {
            None
        },
        None => None,
    };
    CenteredLayout { text_area, header_area, footer_area }
}

// ---------------------------------------------------------------------------
// Clock mode
/// Clock mode's settings and widgets.
#[derive(Debug)]
pub struct Clock {
    pub size: u16,
    pub style: Style,
    pub show_date: bool,
    pub show_millis: bool,
    pub show_secs: bool,
    /// The name of the time zone shown, if not the local one.
    pub timezone: Option<String>,
    pub widgets: ClockWidgets,
}

/// What the clock draws at one moment: the time text, the header, the
/// size and area of the clock; the widgets have been laid out under it.
#[derive(Debug)]
pub struct ClockFrame {
    pub time_text: String,
    pub header: Option<String>,
    pub clock_area: Rect,
    pub clock_size: u16,
}

/// Whether the clock can draw a frame at `now`: `now` holds a time, and a
/// date when the date is shown; with widgets, the time text is short
/// enough to size the clock by.
pub open spec fn frame_possible(clock: Clock, now: LocalDateTime) -> bool {
    match spec_clock_time(now, clock.show_millis, clock.show_secs) {
        Some(t) => {
            &&& clock.show_date ==> chrono_date_header(
                now.year,
                now.month,
                now.day,
                date_header_pattern(),
            ) is Some
            &&& clock.widgets.widgets@.len() > 0 ==> t.len() <= usize::MAX / 6
        },
        None => false,
    }
}

impl Clock {
    /// Clock mode with its settings, its widgets configured at `now_ms` and
    /// the widget themes.
    #[allow(clippy::too_many_arguments)]
    pub fn new(
        size: u16,
        style: Style,
        show_date: bool,
        show_millis: bool,
        show_secs: bool,
        timezone: Option<String>,
        widgets: Vec<ClockWidgetConfig>,
        themes: Vec<String>,
        now_ms: u64,
    ) -> (c: Clock)
        ensures
            c.size == size,
            c.style == style,
            c.show_date == show_date,
            c.show_millis == show_millis,
            c.show_secs == show_secs,
            c.timezone == timezone,
            c.widgets.widgets@.len() == widgets@.len(),
            forall|i: int|
                0 <= i < widgets@.len() ==> crate::widgets::configured(
                    #[trigger] c.widgets.widgets@[i],
                    widgets@[i],
                    now_ms,
                ),
            c.widgets.themes.deep_view() == crate::widgets::normalized_themes(themes.deep_view()),
            c.widgets.theme_index == 0,
            c.widgets.active_widget is None,
    {
        Clock {
            size,
            style,
            show_date,
            show_millis,
            show_secs,
            timezone,
            widgets: ClockWidgets::new(widgets, themes, now_ms),
        }
    }

    /// Scrolls the widget under the cell (`column`, `row`) by `delta` rows.
    pub fn scroll_widget_at(&mut self, column: u16, row: u16, delta: i16)
        ensures
            *final(self) == (Clock { widgets: final(self).widgets, ..*old(self) }),
            scrolled_at(old(self).widgets, final(self).widgets, column, row, delta),
    {
        self.widgets.scroll_at(column, row, delta);
    }

    /// Scrolls the active widget to the top.
    pub fn scroll_active_widget_to_top(&mut self)
        ensures
            *final(self) == (Clock { widgets: final(self).widgets, ..*old(self) }),
            scrolled_to_top(old(self).widgets, final(self).widgets),
    {
        self.widgets.scroll_active_to_top();
    }

    /// Scrolls the active widget to the bottom.
    pub fn scroll_active_widget_to_bottom(&mut self)
        ensures
            *final(self) == (Clock { widgets: final(self).widgets, ..*old(self) }),
            scrolled_to_bottom(old(self).widgets, final(self).widgets),
    {
        self.widgets.scroll_active_to_bottom();
    }

    /// What to draw in `area` at `now`: the time text in the clock's
    /// pattern and the date header (when shown). Without widgets the clock
    /// takes the whole area at its own size; with widgets it is sized for
    /// the top half and the widgets are laid out in the rest. `None` when
    /// `now` holds no date or time (or its time text is too long to size).
    pub fn layout(&mut self, area: Rect, now: LocalDateTime) -> (r: Option<ClockFrame>)
        requires
            fits(area),
        ensures
            r is Some == frame_possible(*old(self), now),
            r matches Some(f) ==> {
                &&& spec_clock_time(now, old(self).show_millis, old(self).show_secs) == Some(
                    f.time_text@,
                )
                &&& (f.header is Some) == old(self).show_date
                &&& f.header matches Some(h) ==> (chrono_date_header(
                    now.year,
                    now.month,
                    now.day,
                    date_header_pattern(),
                ) matches Some(d) && h@ == spec_clock_header(
                    d,
                    match old(self).timezone {
                        Some(t) => Some(t@),
                        None => None,
                    },
                ))
                &&& (old(self).widgets.widgets@.len() == 0 ==> f.clock_area == area && f.clock_size
                    == old(self).size)
                &&& (old(self).widgets.widgets@.len() > 0 ==> {
                    let l = spec_clock_widgets_layout(area, f.time_text@.len(), old(self).show_date);
                    &&& f.clock_area == l.clock_area
                    &&& f.clock_size == l.clock_size
                })
            },
            final(self).size == old(self).size,
            final(self).style == old(self).style,
            final(self).show_date == old(self).show_date,
            final(self).show_millis == old(self).show_millis,
            final(self).show_secs == old(self).show_secs,
            final(self).timezone == old(self).timezone,
            r matches Some(f) ==> (old(self).widgets.widgets@.len() > 0 ==> laid_out(
                old(self).widgets,
                final(self).widgets,
                spec_clock_widgets_layout(area, f.time_text@.len(), old(self).show_date).widgets_area,
                area,
            )),
            r is None || old(self).widgets.widgets@.len() == 0 ==> final(self).widgets == old(
                self,
            ).widgets,
    {
        let time_text = match clock_time_text(now, self.show_millis, self.show_secs) {
            Some(t) => t,
            None => return None,
        };
        let header = if self.show_date {
            let tz = match &self.timezone {
                Some(t) => Some(t.as_str()),
                None => None,
            };
            match format_clock_header(now, tz) {
                Some(h) => Some(h),
                None => return None,
            }
        } else {
            None
        };
        if self.widgets.is_empty() {
            return Some(ClockFrame { time_text, header, clock_area: area, clock_size: self.size });
        }
        let text_len = time_text.as_str().unicode_len();
        if text_len > usize::MAX / 6 {
            return None;
        }
        let layout = clock_widgets_layout(area, text_len, header.is_some());
        self.widgets.render(layout.widgets_area, area);
        Some(
            ClockFrame {
                time_text,
                header,
                clock_area: layout.clock_area,
                clock_size: layout.clock_size,
            },
        )
    }
}

} // verus!
