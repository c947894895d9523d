//! Screen geometry: rectangles of terminal cells, how large the clock is
//! drawn, and how tall widget text is.
use vstd::prelude::*;

use crate::ansi::{spec_widget_text, widget_text, SpanView, StyledLine};
use crate::style::{plain_style, Style};

verus! {

/// A rectangle of terminal cells.
#[derive(Clone, Copy, Debug, PartialEq, Eq, Structural)]
pub struct Rect {
    pub x: u16,
    pub y: u16,
    pub width: u16,
    pub height: u16,
}

/// The empty rectangle at the origin.
pub open spec fn empty_rect() -> Rect {
    Rect { x: 0, y: 0, width: 0, height: 0 }
}

/// Whether the right and bottom edges of `r` are on the screen's
/// coordinates.
pub open spec fn fits(r: Rect) -> bool {
    r.x + r.width <= u16::MAX && r.y + r.height <= u16::MAX
}

/// Whether `r` lies within `area`.
pub open spec fn within(r: Rect, area: Rect) -> bool {
    &&& area.x <= r.x
    &&& r.x + r.width <= area.x + area.width
    &&& area.y <= r.y
    &&& r.y + r.height <= area.y + area.height
}

/// Whether `a` and `b` share no cell: one lies wholly left of, right of,
/// above or below the other.
pub open spec fn disjoint(a: Rect, b: Rect) -> bool {
    ||| a.x + a.width <= b.x
    ||| b.x + b.width <= a.x
    ||| a.y + a.height <= b.y
    ||| b.y + b.height <= a.y
}

/// The padded part of an area lies within it.
pub proof fn padded_lies_within(r: Rect)
    requires
        fits(r),
    ensures
        within(spec_padded(r), r),
        fits(spec_padded(r)),
{
}

/// Whether the cell (`column`, `row`) lies in `r` (whose edges are cut at
/// `u16::MAX`).
pub open spec fn spec_contains(r: Rect, column: u16, row: u16) -> bool {
    &&& r.x <= column
    &&& column < sat_add16(r.x as int, r.width as int)
    &&& r.y <= row
    &&& row < sat_add16(r.y as int, r.height as int)
}

impl Default for Rect {
    fn default() -> (r: Rect)
        ensures
            r == empty_rect(),
    {
        Rect { x: 0, y: 0, width: 0, height: 0 }
    }
}

impl Rect {
    /// A rectangle; the width and height are cut so that the edges stay on
    /// the screen's coordinates.
    pub fn new(x: u16, y: u16, width: u16, height: u16) -> (r: Rect)
        ensures
            r.x == x,
            r.y == y,
            r.width == if width <= u16::MAX - x {
                width
            } else {
                (u16::MAX - x) as u16
            },
            r.height == if height <= u16::MAX - y {
                height
            } else {
                (u16::MAX - y) as u16
            },
            fits(r),
    {
        let max_width = u16::MAX - x;
        let max_height = u16::MAX - y;
        Rect {
            x,
            y,
            width: if width > max_width {
                max_width
            } else {
                width
            },
            height: if height > max_height {
                max_height
            } else {
                height
            },
        }
    }
}

/// Whether the cell (`column`, `row`) lies in `area`.
pub fn rect_contains(area: Rect, column: u16, row: u16) -> (b: bool)
    ensures
        b == spec_contains(area, column, row),
{
    column >= area.x && column < area.x.saturating_add(area.width) && row >= area.y && row
        < area.y.saturating_add(area.height)
}

/// The part of `area` inside a one-cell margin on each side that is more
/// than two cells long.
pub open spec fn spec_padded(area: Rect) -> Rect {
    let xp: int = if area.width > 2 {
        1
    } else {
        0
    };
    let yp: int = if area.height > 2 {
        1
    } else {
        0
    };
    Rect {
        x: (area.x + xp) as u16,
        y: (area.y + yp) as u16,
        width: (area.width - 2 * xp) as u16,
        height: (area.height - 2 * yp) as u16,
    }
}

/// `area` inside a one-cell margin on each side that is more than two cells
/// long.
pub fn padded_widget_area(area: Rect) -> (r: Rect)
    requires
        fits(area),
    ensures
        r == spec_padded(area),
        fits(r),
{
    let x_padding: u16 = if area.width > 2 {
        1
    } else {
        0
    };
    let y_padding: u16 = if area.height > 2 {
        1
    } else {
        0
    };
    Rect {
        x: area.x + x_padding,
        y: area.y + y_padding,
        width: area.width.saturating_sub(x_padding * 2),
        height: area.height.saturating_sub(y_padding * 2),
    }
}

// ---------------------------------------------------------------------------
// Clock size
/// Columns of one clock glyph at size 1.
pub const CLOCK_GLYPH_COLUMNS: usize = 6;

/// Rows of one clock glyph at size 1.
pub const CLOCK_GLYPH_ROWS: usize = 5;

/// Columns between two clock glyphs.
pub const CLOCK_CHARACTER_SPACING: u16 = 2;

/// Columns kept free beside the clock.
pub const CLOCK_HORIZONTAL_MARGIN: u16 = 4;

/// Rows kept free around a clock with a header line.
pub const CLOCK_HEADER_VERTICAL_PADDING: u16 = 4;

/// Rows kept free around a clock without a header line.
pub const CLOCK_NO_HEADER_VERTICAL_PADDING: u16 = 2;

/// Rows kept free around the clock.
pub open spec fn spec_vertical_padding(has_header: bool) -> u16 {
    if has_header {
        4
    } else {
        2
    }
}

/// Rows kept free around the clock: more when a header line is shown.
pub fn clock_vertical_padding(has_header: bool) -> (r: u16)
    ensures
        r == spec_vertical_padding(has_header),
{
    if has_header {
        CLOCK_HEADER_VERTICAL_PADDING
    } else {
        CLOCK_NO_HEADER_VERTICAL_PADDING
    }
}

/// `a + b`, or `u16::MAX` where that is larger.
pub open spec fn sat_add16(a: int, b: int) -> int {
    if a + b > u16::MAX {
        u16::MAX as int
    } else {
        a + b
    }
}

/// `a - b`, or 0 where that is negative.
pub open spec fn sat_sub(a: int, b: int) -> int {
    if a >= b {
        a - b
    } else {
        0
    }
}

/// `a * b`, or `u16::MAX` where that is larger.
fn saturating_mul16(a: u16, b: u16) -> (r: u16)
    ensures
        r == sat_add16(0, a * b),
{
    assert((a as int) * (b as int) <= 65535 * 65535) by (nonlinear_arith)
        requires
            0 <= a <= 65535,
            0 <= b <= 65535,
    ;
    let p = a as u32 * b as u32;
    if p > u16::MAX as u32 {
        u16::MAX
    } else {
        p as u16
    }
}

/// The rows that a clock of size `size` takes, padding included.
pub open spec fn spec_clock_height(size: u16, has_header: bool) -> u16 {
    sat_add16(sat_add16(0, size * 5), spec_vertical_padding(has_header) as int) as u16
}

/// The rows that a clock of size `size` takes, padding included (at most
/// `u16::MAX`).
pub fn clock_height_for_size(size: u16, has_header: bool) -> (h: u16)
    ensures
        h == spec_clock_height(size, has_header),
{
    saturating_mul16(size, CLOCK_GLYPH_ROWS as u16).saturating_add(clock_vertical_padding(has_header))
}

/// The size at which a clock of `text_len` glyphs fits `area`: the largest
/// size whose glyphs, spacing and margins fit the width and whose rows and
/// padding fit the height, and at least 1.
pub open spec fn spec_clock_size(text_len: nat, area: Rect, has_header: bool) -> u16 {
    if text_len == 0 {
        1
    } else {
        let spacing = if 2 * ((text_len - 1) % 65536) > u16::MAX {
            u16::MAX as int
        } else {
            2 * ((text_len - 1) % 65536)
        };
        let width_budget = sat_sub(area.width as int, sat_add16(spacing, 4));
        let width_size = width_budget / (6 * text_len as int);
        let height_size = sat_sub(area.height as int, spec_vertical_padding(has_header) as int)
            / 5;
        let size = if width_size < height_size {
            width_size
        } else {
            height_size
        };
        if size < 1 {
            1
        } else {
            size as u16
        }
    }
}

/// The size at which a clock of `text_len` glyphs fits `area`.
pub fn clock_size_for_area(text_len: usize, area: Rect, has_header: bool) -> (size: u16)
    requires
        text_len <= usize::MAX / 6,
    ensures
        size == spec_clock_size(text_len as nat, area, has_header),
{
    if text_len == 0 {
        return 1;
    }
    let wrapped: u16 = ((text_len - 1) % 65536) as u16;
    let spacing = saturating_mul16(CLOCK_CHARACTER_SPACING, wrapped);
    let width_budget = area.width.saturating_sub(spacing.saturating_add(CLOCK_HORIZONTAL_MARGIN))
        as usize;
    let width_size = width_budget / (CLOCK_GLYPH_COLUMNS * text_len);
    let height_budget = area.height.saturating_sub(clock_vertical_padding(has_header)) as usize;
    let height_size = height_budget / CLOCK_GLYPH_ROWS;
    let size = if width_size < height_size {
        width_size
    } else {
        height_size
    };
    assert(size <= u16::MAX) by {
        assert(height_size <= height_budget);
    }
    if size < 1 {
        1
    } else {
        size as u16
    }
}

/// Whether a clock of `text_len` glyphs at size `size` fits `area`: its
/// glyphs, the spacing between them and the side margins fit the width,
/// and its rows and padding fit the height.
pub open spec fn clock_fits(text_len: nat, area: Rect, size: int, has_header: bool) -> bool {
    &&& 6 * text_len * size + 2 * (text_len - 1) + 4 <= area.width
    &&& 5 * size + spec_vertical_padding(has_header) <= area.height
}

/// The clock's size is the largest that fits the area: no larger size
/// fits, and whenever any size fits, the one chosen does.
pub proof fn clock_size_is_the_largest_that_fits(
    text_len: nat,
    area: Rect,
    has_header: bool,
    size: int,
)
    requires
        text_len >= 1,
        size >= 1,
    ensures
        clock_fits(text_len, area, size, has_header) ==> size <= spec_clock_size(
            text_len,
            area,
            has_header,
        ),
        clock_fits(text_len, area, 1, has_header) ==> clock_fits(
            text_len,
            area,
            spec_clock_size(text_len, area, has_header) as int,
            has_header,
        ),
{
    let pad = spec_vertical_padding(has_header) as int;
    let height_size = sat_sub(area.height as int, pad) / 5;
    if clock_fits(text_len, area, 1, has_header) {
        assert(6 * text_len <= 6 * text_len * 1);
        let n = text_len as int;
        assert(n <= 10922);
        assert((n - 1) % 65536 == n - 1);
        let spacing = 2 * (n - 1);
        let width_budget = area.width as int - (spacing + 4);
        assert(sat_sub(area.width as int, sat_add16(spacing, 4)) == width_budget);
        let width_size = width_budget / (6 * n);
        let chosen = if width_size < height_size {
            width_size
        } else {
            height_size
        };
        assert(width_size >= 1) by (nonlinear_arith)
            requires
                width_budget >= 6 * n,
                n >= 1,
                width_size == width_budget / (6 * n),
        ;
        assert(height_size >= 1);
        assert(spec_clock_size(text_len, area, has_header) as int == chosen);
        assert(6 * n * chosen <= width_budget) by (nonlinear_arith)
            requires
                n >= 1,
                0 <= chosen <= width_size,
                width_size == width_budget / (6 * n),
                width_budget >= 0,
        ;
        assert(clock_fits(text_len, area, chosen, has_header));
        if clock_fits(text_len, area, size, has_header) {
            assert(width_size >= size) by (nonlinear_arith)
                requires
                    6 * n * size <= width_budget,
                    n >= 1,
                    width_size == width_budget / (6 * n),
            ;
        }
    } else if clock_fits(text_len, area, size, has_header) {
        assert(6 * text_len * size >= 6 * text_len) by (nonlinear_arith)
            requires
                size >= 1,
        ;
    }
}

/// The most rows the clock may take above widgets: half the area, and at
/// least one row of a non-empty area.
pub open spec fn spec_clock_height_budget(area_height: u16) -> u16 {
    if area_height == 0 {
        0
    } else if area_height / 2 < 1 {
        1
    } else {
        (area_height / 2) as u16
    }
}

/// The most rows the clock may take above widgets.
pub fn clock_height_budget(area_height: u16) -> (h: u16)
    ensures
        h == spec_clock_height_budget(area_height),
{
    if area_height == 0 {
        0
    } else {
        let half = area_height / 2;
        if half < 1 {
            1
        } else {
            half
        }
    }
}

// ---------------------------------------------------------------------------
// ratatui layouts
/// The two rows into which ratatui's `Layout` splits `area` for the
/// constraints `[Length(length), Min(0)]`, top to bottom.
pub uninterp spec fn layout_length_then_rest(area: Rect, length: u16) -> (Rect, Rect);

/// The columns into which ratatui's `Layout` splits `area` for `count`
/// constraints `Ratio(1, count)`, left to right.
pub uninterp spec fn layout_equal_columns(area: Rect, count: u32) -> Seq<Rect>;

/// ratatui's vertical `Layout` with the constraints `[Length(length),
/// Min(0)]`, on an area whose edges are on the screen. Where the rows
/// start and end is named. The source shows that a vertical split keeps the
/// area's columns and that a row's bottom edge is a `u16`; and, when the
/// length fits the area, that the first row is the top `length` rows and
/// the second the rest: the constraint solver meets the strong `Length`
/// exactly, and `Min(0)` (which the default `Flex::Start` grows to fill)
/// takes what is left.
#[verifier::external_body]
pub(crate) fn split_length_then_rest(area: Rect, length: u16) -> (r: (Rect, Rect))
    requires
        fits(area),
    ensures
        r == layout_length_then_rest(area, length),
        r.0.x == area.x && r.0.width == area.width && r.0.y + r.0.height <= u16::MAX,
        r.1.x == area.x && r.1.width == area.width && r.1.y + r.1.height <= u16::MAX,
        length <= area.height ==> r.0 == (Rect { height: length, ..area }) && r.1 == (Rect {
            y: (area.y + length) as u16,
            height: (area.height - length) as u16,
            ..area
        }),
{
    let chunks = ratatui::layout::Layout::default().direction(
        ratatui::layout::Direction::Vertical,
    ).constraints(
        [ratatui::layout::Constraint::Length(length), ratatui::layout::Constraint::Min(0)],
    ).split(ratatui::layout::Rect::new(area.x, area.y, area.width, area.height));
    (
        Rect { x: chunks[0].x, y: chunks[0].y, width: chunks[0].width, height: chunks[0].height },
        Rect { x: chunks[1].x, y: chunks[1].y, width: chunks[1].width, height: chunks[1].height },
    )
}

/// ratatui's horizontal `Layout` with `count` constraints `Ratio(1, count)`,
/// on an area whose edges are on the screen. Where the columns start and
/// end is named (the constraint solver decides it). The source shows one
/// column per constraint, each keeping the area's rows; every solver
/// variable is required to lie within the area, each column to start no
/// later than it ends, and the gaps between columns are held at the
/// layout's spacing, 0, so the columns lie within the area, left to right,
/// none overlapping the next (rounding keeps that order).
#[verifier::external_body]
pub(crate) fn split_equal_columns(area: Rect, count: u32) -> (r: Vec<Rect>)
    requires
        fits(area),
    ensures
        r@ == layout_equal_columns(area, count),
        r@.len() == count,
        forall|k: int|
            0 <= k < r@.len() ==> {
                &&& #[trigger] r@[k].y == area.y
                &&& r@[k].height == area.height
                &&& area.x <= r@[k].x
                &&& r@[k].x + r@[k].width <= area.x + area.width
                &&& r@[k].x + r@[k].width <= u16::MAX
            },
        forall|k: int, l: int|
            0 <= k < l < r@.len() ==> #[trigger] r@[k].x + r@[k].width <= #[trigger] r@[l].x,
{
    ratatui::layout::Layout::default().direction(ratatui::layout::Direction::Horizontal).constraints(
        (0..count).map(|_| ratatui::layout::Constraint::Ratio(1, count)),
    ).split(ratatui::layout::Rect::new(area.x, area.y, area.width, area.height)).iter().map(
        |c| Rect { x: c.x, y: c.y, width: c.width, height: c.height },
    ).collect()
}

// ---------------------------------------------------------------------------
// Text height
/// The number of terminal columns that ratatui gives the text `s`
/// (`Span::width`, its Unicode display width).
pub uninterp spec fn display_width(s: Seq<char>) -> usize;

/// Whether every character of `s` is printable ASCII (space to `~`).
pub open spec fn is_printable_ascii(s: Seq<char>) -> bool {
    forall|i: int| 0 <= i < s.len() ==> ' ' <= #[trigger] s[i] <= '~'
}

/// ratatui's `Span::width` of a span with the content `s`: unicode-width's
/// `str::width`. The width of other text is named; the source
/// (`tables::width_in_str`) gives each printable ASCII character one
/// column.
#[verifier::external_body]
fn span_width(s: &str) -> (w: usize)
    ensures
        w == display_width(s@),
        is_printable_ascii(s@) ==> w == s@.len(),
{
    ratatui::text::Span::raw(s).width()
}

/// `a + b`, or `usize::MAX` where that is larger.
pub open spec fn sat_add_usize(a: int, b: int) -> int {
    if a + b > usize::MAX {
        usize::MAX as int
    } else {
        a + b
    }
}

/// The columns a line takes: the widths of its spans added up (at most
/// `usize::MAX`).
pub open spec fn line_width(l: Seq<SpanView>) -> int
    decreases l.len(),
{
    if l.len() == 0 {
        0
    } else {
        sat_add_usize(line_width(l.drop_last()), display_width(l.last().0) as int)
    }
}

/// The rows a line takes when wrapped at `width` columns; an empty line
/// takes one row.
pub open spec fn line_rows(l: Seq<SpanView>, width: int) -> int {
    let w = if line_width(l) < 1 {
        1
    } else {
        line_width(l)
    };
    (w + width - 1) / width
}

/// The rows that lines take when wrapped at `width` columns (at most
/// `usize::MAX`).
pub open spec fn text_rows(lines: Seq<Seq<SpanView>>, width: int) -> int
    decreases lines.len(),
{
    if lines.len() == 0 {
        0
    } else {
        sat_add_usize(text_rows(lines.drop_last(), width), line_rows(lines.last(), width))
    }
}

/// The rows a widget's text takes when wrapped at `width` columns (a width
/// of 0 counts as 1), at most `u16::MAX`.
pub open spec fn spec_widget_text_height(title: Seq<char>, output: Seq<char>, width: u16) -> u16 {
    let w: int = if width < 1 {
        1
    } else {
        width as int
    };
    let rows = text_rows(spec_widget_text(title, output, plain_style()), w);
    if rows > u16::MAX {
        u16::MAX
    } else {
        rows as u16
    }
}

fn styled_line_width(line: &StyledLine) -> (w: usize)
    ensures
        w == line_width(line@),
{
    let mut w: usize = 0;
    let mut i: usize = 0;
    while i < line.spans.len()
        invariant
            i <= line.spans.len(),
            w == line_width(line@.take(i as int)),
        decreases line.spans.len() - i,
    {
        assert(line@.take(i + 1).drop_last() == line@.take(i as int));
        w = w.saturating_add(span_width(line.spans[i].content.as_str()));
        i += 1;
    }
    assert(line@.take(i as int) == line@);
    w
}

/// The rows a widget's text takes when wrapped at `width` columns.
pub fn widget_text_height(title: &str, output: &str, width: u16) -> (h: u16)
    ensures
        h == spec_widget_text_height(title@, output@, width),
{
    let width: usize = if width < 1 {
        1
    } else {
        width as usize
    };
    let lines = widget_text(title, output, Style::new());
    let ghost lv = crate::ansi::lines_view(lines@);
    let mut total: usize = 0;
    let mut i: usize = 0;
    while i < lines.len()
        invariant
            i <= lines.len(),
            1 <= width,
            lv == crate::ansi::lines_view(lines@),
            total == text_rows(lv.take(i as int), width as int),
        decreases lines.len() - i,
    {
        assert(lv.take(i + 1).drop_last() == lv.take(i as int));
        let lw = styled_line_width(&lines[i]);
        let lw1 = if lw < 1 {
            1
        } else {
            lw
        };
        assert((lw1 - 1) / (width as int) <= lw1 - 1) by (nonlinear_arith)
            requires
                width >= 1,
                lw1 >= 1,
        ;
        let rows = (lw1 - 1) / width + 1;
        assert(rows == (lw1 + width - 1) / (width as int)) by (nonlinear_arith)
            requires
                width >= 1,
                lw1 >= 1,
                rows == (lw1 - 1) / (width as int) + 1,
        ;
        total = total.saturating_add(rows);
        i += 1;
    }
    assert(lv.take(i as int) == lv);
    if total > u16::MAX as usize {
        u16::MAX
    } else {
        total as u16
    }
}

/// The rows a full-width widget band needs to show all its text: the text
/// wrapped at the band's inner width, and the two padding rows.
pub open spec fn spec_bottom_widget_height(title: Seq<char>, output: Seq<char>, band_width: u16) -> u16 {
    let xp: int = if band_width > 2 {
        1
    } else {
        0
    };
    let content = if band_width - 2 * xp < 1 {
        1
    } else {
        band_width - 2 * xp
    };
    sat_add16(spec_widget_text_height(title, output, content as u16) as int, 2) as u16
}

/// The rows a full-width widget band needs to show all its text.
pub fn bottom_widget_height(title: &str, output: &str, band_width: u16) -> (h: u16)
    ensures
        h == spec_bottom_widget_height(title@, output@, band_width),
{
    let x_padding: u16 = if band_width > 2 {
        1
    } else {
        0
    };
    let inner = band_width.saturating_sub(x_padding * 2);
    let content_width = if inner < 1 {
        1
    } else {
        inner
    };
    widget_text_height(title, output, content_width).saturating_add(2)
}

} // verus!
