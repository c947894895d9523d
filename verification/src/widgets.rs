//! Clock widgets: commands whose output is shown under the clock, refreshed
//! on a schedule, themed, scrollable and laid out in a row and in
//! full-width bands.
//!
//! This is the widgets' state and every decision about it. Running the
//! commands is left to the program: `start_due` says which commands to run
//! now, and `receive_output` takes what one of them printed. Times are
//! milliseconds on the program's monotonic clock.
use vstd::prelude::*;

use crate::config::{
    ClockWidgetConfig, WidgetPosition, DEFAULT_WIDGET_REFRESH_SECS, DEFAULT_WIDGET_TIMEOUT_SECS,
};
use crate::layout::{
    bottom_widget_height, disjoint, empty_rect, fits, layout_equal_columns, padded_lies_within,
    padded_widget_area, rect_contains, sat_sub, spec_bottom_widget_height, spec_contains,
    spec_padded, spec_widget_text_height, split_equal_columns, widget_text_height, within, Rect,
};
use crate::text::{trim, trimmed};

verus! {

/// Widgets in the row on a terminal that is about as wide as tall.
pub const SQUARE_TERMINAL_WIDGETS: usize = 2;

/// Widgets in the row on a wide terminal.
pub const WIDE_TERMINAL_WIDGETS: usize = 4;

/// Widgets in the row on an ultrawide terminal.
pub const ULTRAWIDE_TERMINAL_WIDGETS: usize = 6;

/// Rows the widget row keeps when full-width bands are shown under it.
pub const MIN_WIDGET_ROW_HEIGHT: u16 = 8;

/// The fewest rows a full-width band is shown with; below this it is hidden.
pub const MIN_BOTTOM_WIDGET_HEIGHT: u16 = 3;

/// A widget's state.
#[derive(Debug)]
pub struct ClockWidget {
    pub title: Option<String>,
    pub command: Vec<String>,
    pub refresh_secs: u64,
    pub timeout_secs: u64,
    pub position: WidgetPosition,
    pub output: String,
    pub running: bool,
    pub visible: bool,
    pub scroll: u16,
    pub next_run: u64,
    pub rerun_requested: bool,
}

/// A command to run for a widget.
#[derive(Debug)]
pub struct WidgetJob {
    pub index: usize,
    pub command: Vec<String>,
    pub timeout_secs: u64,
    pub theme: String,
}

/// All widgets, where they were last drawn, which one the mouse last
/// scrolled, and the themes the commands are told to use.
#[derive(Debug)]
pub struct ClockWidgets {
    pub widgets: Vec<ClockWidget>,
    pub viewports: Vec<Rect>,
    pub active_widget: Option<usize>,
    pub themes: Vec<String>,
    pub theme_index: usize,
}

// ---------------------------------------------------------------------------
// One widget
/// The title a widget shows: its own, else its program's name, else
/// `widget`. An empty title stays empty.
pub open spec fn spec_title(w: ClockWidget) -> Seq<char> {
    match w.title {
        Some(t) => t@,
        None => if w.command@.len() > 0 {
            w.command@[0]@
        } else {
            "widget"@
        },
    }
}

/// How far a widget drawn in `area` can scroll: the rows its text takes at
/// the area's width, less the area's rows.
pub open spec fn spec_max_scroll(w: ClockWidget, area: Rect) -> u16 {
    sat_sub(
        spec_widget_text_height(spec_title(w), w.output@, area.width) as int,
        area.height as int,
    ) as u16
}

/// `a` and `b`, the smaller.
pub open spec fn min16(a: u16, b: u16) -> u16 {
    if a < b {
        a
    } else {
        b
    }
}

/// The text a widget shows while its command has not answered.
pub open spec fn loading_text() -> Seq<char> {
    "Loading..."@
}

impl ClockWidget {
    /// The title the widget shows.
    pub fn title(&self) -> (t: String)
        ensures
            t@ == spec_title(*self),
    {
        match &self.title {
            Some(t) => t.clone(),
            None => if self.command.len() > 0 {
                self.command[0].clone()
            } else {
                String::from_str("widget")
            },
        }
    }

    /// How far the widget can scroll when drawn in `area`.
    pub fn max_scroll(&self, area: Rect) -> (m: u16)
        ensures
            m == spec_max_scroll(*self, area),
    {
        let title = self.title();
        widget_text_height(title.as_str(), self.output.as_str(), area.width).saturating_sub(
            area.height,
        )
    }

    /// Scrolls by `delta` rows (down when positive), stopping at 0 and at
    /// `u16::MAX`.
    pub fn scroll_by(&mut self, delta: i16)
        ensures
            final(self).scroll == if delta < 0 {
                sat_sub(old(self).scroll as int, -delta) as u16
            } else {
                crate::layout::sat_add16(old(self).scroll as int, delta as int) as u16
            },
            *final(self) == (ClockWidget { scroll: final(self).scroll, ..*old(self) }),
    {
        if delta < 0 {
            let magnitude: u16 = (-(delta as i32)) as u16;
            self.scroll = self.scroll.saturating_sub(magnitude);
        } else {
            self.scroll = self.scroll.saturating_add(delta as u16);
        }
    }

    /// Keeps the scroll within what the widget can scroll in `area`.
    pub fn clamp_scroll(&mut self, area: Rect)
        ensures
            *final(self) == (ClockWidget {
                scroll: min16(old(self).scroll, spec_max_scroll(*old(self), area)),
                ..*old(self)
            }),
    {
        let m = self.max_scroll(area);
        if m < self.scroll {
            self.scroll = m;
        }
    }

    /// Keeps the scroll within the rows of the widget's text at width 1,
    /// less one.
    pub fn clamp_scroll_to_output(&mut self)
        ensures
            *final(self) == (ClockWidget {
                scroll: min16(
                    old(self).scroll,
                    sat_sub(
                        spec_widget_text_height(spec_title(*old(self)), old(self).output@, 1)
                            as int,
                        1,
                    ) as u16,
                ),
                ..*old(self)
            }),
    {
        let title = self.title();
        let line_count = widget_text_height(title.as_str(), self.output.as_str(), 1);
        let m = line_count.saturating_sub(1);
        if m < self.scroll {
            self.scroll = m;
        }
    }
}

// ---------------------------------------------------------------------------
// Settings
/// `secs`, or `default` where `secs` is 0.
pub open spec fn spec_duration_or_default(secs: u64, default: u64) -> u64 {
    if secs == 0 {
        default
    } else {
        secs
    }
}

/// A number of seconds from the config, or the default where it is 0.
pub fn duration_or_default(secs: u64, default: u64) -> (r: u64)
    ensures
        r == spec_duration_or_default(secs, default),
{
    if secs == 0 {
        default
    } else {
        secs
    }
}

/// The theme names, trimmed, without the empty ones, in order.
pub open spec fn normalized_themes(themes: Seq<Seq<char>>) -> Seq<Seq<char>>
    decreases themes.len(),
{
    if themes.len() == 0 {
        Seq::empty()
    } else {
        let rest = normalized_themes(themes.drop_last());
        let t = trimmed(themes.last());
        if t.len() > 0 {
            rest.push(t)
        } else {
            rest
        }
    }
}

/// The theme names, trimmed, without the empty ones.
pub fn normalize_themes(themes: Vec<String>) -> (r: Vec<String>)
    ensures
        r.deep_view() == normalized_themes(themes.deep_view()),
{
    let mut r: Vec<String> = Vec::new();
    let mut i: usize = 0;
    while i < themes.len()
        invariant
            i <= themes.len(),
            r.deep_view() == normalized_themes(themes.deep_view().take(i as int)),
        decreases themes.len() - i,
    {
        assert(themes.deep_view().take(i + 1).drop_last() == themes.deep_view().take(i as int));
        let t = trim(themes[i].as_str());
        if !t.as_str().is_empty() {
            r.push(t);
        }
        assert(r.deep_view() =~= normalized_themes(themes.deep_view().take(i + 1)));
        i += 1;
    }
    assert(themes.deep_view().take(i as int) == themes.deep_view());
    r
}

/// The state of a widget that has just been configured at time `now`.
pub open spec fn configured(w: ClockWidget, c: ClockWidgetConfig, now: u64) -> bool {
    &&& w.title == c.title
    &&& w.command == c.command
    &&& w.refresh_secs == spec_duration_or_default(c.refresh_secs, DEFAULT_WIDGET_REFRESH_SECS)
    &&& w.timeout_secs == spec_duration_or_default(c.timeout_secs, DEFAULT_WIDGET_TIMEOUT_SECS)
    &&& w.position == c.position
    &&& w.output@ == loading_text()
    &&& !w.running
    &&& !w.visible
    &&& w.scroll == 0
    &&& w.next_run == now
    &&& !w.rerun_requested
}

/// The name of the theme the commands are told to use: the current one,
/// or `default` when there is none.
pub open spec fn spec_current_theme(ws: ClockWidgets) -> Seq<char> {
    if ws.theme_index < ws.themes@.len() {
        ws.themes@[ws.theme_index as int]@
    } else {
        "default"@
    }
}

impl ClockWidgets {
    /// The widgets of `configs`, none shown yet, each due to run at `now`,
    /// and the normalized themes, starting at the first.
    pub fn new(configs: Vec<ClockWidgetConfig>, themes: Vec<String>, now: u64) -> (r: Self)
        ensures
            r.widgets@.len() == configs@.len(),
            forall|i: int|
                0 <= i < configs@.len() ==> configured(#[trigger] r.widgets@[i], configs@[i], now),
            r.viewports@.len() == 0,
            r.active_widget is None,
            r.themes.deep_view() == normalized_themes(themes.deep_view()),
            r.theme_index == 0,
    {
        let themes = normalize_themes(themes);
        let mut widgets: Vec<ClockWidget> = Vec::new();
        let ghost cs = configs@;
        let mut configs = configs;
        while configs.len() > 0
            invariant
                widgets@.len() + configs@.len() == cs.len(),
                configs@ == cs.subrange(widgets@.len() as int, cs.len() as int),
                forall|i: int|
                    0 <= i < widgets@.len() ==> configured(#[trigger] widgets@[i], cs[i], now),
            decreases configs@.len(),
        {
            let ghost k = widgets@.len();
            let config = configs.remove(0);
            assert(config == cs[k as int]);
            widgets.push(
                ClockWidget {
                    title: config.title,
                    command: config.command,
                    refresh_secs: duration_or_default(
                        config.refresh_secs,
                        DEFAULT_WIDGET_REFRESH_SECS,
                    ),
                    timeout_secs: duration_or_default(
                        config.timeout_secs,
                        DEFAULT_WIDGET_TIMEOUT_SECS,
                    ),
                    position: config.position,
                    output: String::from_str("Loading..."),
                    running: false,
                    visible: false,
                    scroll: 0,
                    next_run: now,
                    rerun_requested: false,
                },
            );
            assert(configs@ =~= cs.subrange(widgets@.len() as int, cs.len() as int));
        }
        ClockWidgets {
            widgets,
            viewports: Vec::new(),
            active_widget: None,
            themes,
            theme_index: 0,
        }
    }

    /// Whether there are no widgets.
    pub fn is_empty(&self) -> (b: bool)
        ensures
            b == (self.widgets@.len() == 0),
    {
        self.widgets.len() == 0
    }

    /// The theme the commands are told to use.
    pub fn current_theme(&self) -> (t: String)
        ensures
            t@ == spec_current_theme(*self),
    {
        if self.theme_index < self.themes.len() {
            self.themes[self.theme_index].clone()
        } else {
            String::from_str("default")
        }
    }
}

// ---------------------------------------------------------------------------
// Themes, schedule and output
/// The time `secs` seconds after `now`, in milliseconds, or `u64::MAX`
/// where that is later.
pub open spec fn spec_deadline(now: u64, secs: u64) -> u64 {
    if now + secs * 1000 > u64::MAX {
        u64::MAX
    } else {
        (now + secs * 1000) as u64
    }
}

fn deadline(now: u64, secs: u64) -> (t: u64)
    ensures
        t == spec_deadline(now, secs),
{
    let ms: u128 = secs as u128 * 1000;
    let t: u128 = now as u128 + ms;
    if t > u64::MAX as u128 {
        u64::MAX
    } else {
        t as u64
    }
}

/// Whether a widget's command is to be started at `now`: it is shown, not
/// running, and due.
pub open spec fn is_due(w: ClockWidget, now: u64) -> bool {
    w.visible && !w.running && w.next_run <= now
}

/// The indices below `n` of the widgets whose commands start at `now`, in
/// order.
pub open spec fn due_indices(ws: Seq<ClockWidget>, now: u64, n: int) -> Seq<int>
    decreases n,
{
    if n <= 0 {
        Seq::empty()
    } else {
        let r = due_indices(ws, now, n - 1);
        if is_due(ws[n - 1], now) {
            r.push(n - 1)
        } else {
            r
        }
    }
}

/// Whether `new` is `old` after the theme moved on at `now`: with fewer
/// than two themes nothing changes; otherwise the next theme is current,
/// every shown widget goes back to "Loading..." at the top, and every widget
/// is due again: now, or, while its command runs, as soon as that ends.
pub open spec fn theme_cycled(old: ClockWidgets, new: ClockWidgets, now: u64) -> bool {
    &&& old.themes@.len() <= 1 ==> new == old
    &&& old.themes@.len() > 1 ==> {
        &&& new.theme_index == (old.theme_index + 1) % (old.themes@.len() as int)
        &&& new.themes == old.themes
        &&& new.viewports == old.viewports
        &&& new.active_widget == old.active_widget
        &&& new.widgets@.len() == old.widgets@.len()
        &&& forall|i: int|
            0 <= i < old.widgets@.len() ==> {
                let w = #[trigger] old.widgets@[i];
                let v = new.widgets@[i];
                &&& v.output@ == if w.visible {
                    loading_text()
                } else {
                    w.output@
                }
                &&& v.scroll == if w.visible {
                    0
                } else {
                    w.scroll
                }
                &&& v.rerun_requested == (w.rerun_requested || w.running)
                &&& v.next_run == if w.running {
                    w.next_run
                } else {
                    now
                }
                &&& v == (ClockWidget {
                    output: v.output,
                    scroll: v.scroll,
                    rerun_requested: v.rerun_requested,
                    next_run: v.next_run,
                    ..w
                })
            }
    }
}

/// Whether `new` is `old` after widget `index` gave `output` at `now`: it
/// stops running; when a rerun was asked for, the output is dropped and the
/// widget is due at once, else it shows the output and is due again after
/// its refresh interval; its scroll is kept within the new text. Nothing
/// else changes, and an index out of range changes nothing.
pub open spec fn output_received(
    old: ClockWidgets,
    new: ClockWidgets,
    index: usize,
    output: String,
    now: u64,
) -> bool {
    &&& new.themes == old.themes
    &&& new.theme_index == old.theme_index
    &&& new.viewports == old.viewports
    &&& new.active_widget == old.active_widget
    &&& new.widgets@.len() == old.widgets@.len()
    &&& forall|j: int|
        0 <= j < old.widgets@.len() && j != index ==> #[trigger] new.widgets@[j]
            == old.widgets@[j]
    &&& index < old.widgets@.len() ==> {
        let w = old.widgets@[index as int];
        let v = new.widgets@[index as int];
        let shown = if w.rerun_requested {
            w.output
        } else {
            output
        };
        &&& v.output == shown
        &&& !v.running
        &&& !v.rerun_requested
        &&& v.next_run == if w.rerun_requested {
            now
        } else {
            spec_deadline(now, w.refresh_secs)
        }
        &&& v.scroll == min16(
            w.scroll,
            sat_sub(spec_widget_text_height(spec_title(w), shown@, 1) as int, 1) as u16,
        )
        &&& v == (ClockWidget {
            output: v.output,
            running: false,
            rerun_requested: false,
            next_run: v.next_run,
            scroll: v.scroll,
            ..w
        })
    }
}

/// Whether `new` is `old` with the widgets due at `now` marked as running,
/// and nothing else changed.
pub open spec fn marked_running(old: ClockWidgets, new: ClockWidgets, now: u64) -> bool {
    &&& new.themes == old.themes
    &&& new.theme_index == old.theme_index
    &&& new.viewports == old.viewports
    &&& new.active_widget == old.active_widget
    &&& new.widgets@.len() == old.widgets@.len()
    &&& forall|j: int|
        0 <= j < old.widgets@.len() ==> #[trigger] new.widgets@[j] == (ClockWidget {
            running: old.widgets@[j].running || is_due(old.widgets@[j], now),
            ..old.widgets@[j]
        })
}

/// Whether `jobs` are the commands to run at `now`: one per widget due, in
/// order, each with the widget's command and timeout and the current
/// theme.
pub open spec fn due_jobs(ws: ClockWidgets, jobs: Seq<WidgetJob>, now: u64) -> bool {
    &&& jobs.map_values(|job: WidgetJob| job.index as int) == due_indices(
        ws.widgets@,
        now,
        ws.widgets@.len() as int,
    )
    &&& forall|k: int|
        0 <= k < jobs.len() ==> {
            let job = #[trigger] jobs[k];
            &&& job.index < ws.widgets@.len()
            &&& job.command.deep_view() == ws.widgets@[job.index as int].command.deep_view()
            &&& job.timeout_secs == ws.widgets@[job.index as int].timeout_secs
            &&& job.theme@ == spec_current_theme(ws)
        }
}

/// A widget's command runs again `refresh_secs` seconds after its output
/// came back, not sooner: with no rerun asked for, the widget that gave
/// output at `now` (milliseconds) is next due at `now + 1000 *
/// refresh_secs` (at the clock's last millisecond, past its end), shows
/// that output, and is not due at any earlier time. With a rerun asked for, it keeps its text and
/// is due at once.
pub proof fn output_schedules_the_next_run_after_the_refresh_interval(
    old: ClockWidgets,
    new: ClockWidgets,
    index: usize,
    output: String,
    now: u64,
    t: u64,
)
    requires
        output_received(old, new, index, output, now),
        index < old.widgets@.len(),
    ensures
        !old.widgets@[index as int].rerun_requested ==> new.widgets@[index as int].output == output,
        !old.widgets@[index as int].rerun_requested && now + 1000
            * old.widgets@[index as int].refresh_secs <= u64::MAX ==> new.widgets@[index as int].next_run
            == now + 1000 * old.widgets@[index as int].refresh_secs,
        !old.widgets@[index as int].rerun_requested && now + 1000
            * old.widgets@[index as int].refresh_secs > u64::MAX ==> new.widgets@[index as int].next_run
            == u64::MAX,
        !old.widgets@[index as int].rerun_requested && t < now + 1000
            * old.widgets@[index as int].refresh_secs && t < u64::MAX ==> !is_due(
            new.widgets@[index as int],
            t,
        ),
        old.widgets@[index as int].rerun_requested ==> new.widgets@[index as int].output
            == old.widgets@[index as int].output && new.widgets@[index as int].next_run == now,
        !new.widgets@[index as int].running,
{
    let w = old.widgets@[index as int];
    let v = new.widgets@[index as int];
    assert(v == (ClockWidget {
        output: v.output,
        running: false,
        rerun_requested: false,
        next_run: v.next_run,
        scroll: v.scroll,
        ..w
    }));
    assert(w.refresh_secs * 1000 == 1000 * w.refresh_secs);
}

/// No command runs twice at once: a widget whose command was started is
/// not due again, at any time, until its output comes back.
pub proof fn started_commands_are_not_due_again(
    old: ClockWidgets,
    new: ClockWidgets,
    now: u64,
    later: u64,
    j: int,
)
    requires
        marked_running(old, new, now),
        0 <= j < old.widgets@.len(),
        is_due(old.widgets@[j], now),
    ensures
        new.widgets@[j].running,
        !is_due(new.widgets@[j], later),
{
    assert(new.widgets@[j] == (ClockWidget {
        running: old.widgets@[j].running || is_due(old.widgets@[j], now),
        ..old.widgets@[j]
    }));
}

/// When the theme changes while a widget's command runs, what that command
/// prints under the old theme is never shown: when it comes back, the
/// widget keeps its text and is due at once, so its command runs again
/// with the new theme if the widget is shown.
pub proof fn output_of_the_old_theme_is_dropped(
    a: ClockWidgets,
    b: ClockWidgets,
    c: ClockWidgets,
    now: u64,
    later: u64,
    output: String,
    i: usize,
)
    requires
        a.themes@.len() > 1,
        theme_cycled(a, b, now),
        i < a.widgets@.len(),
        a.widgets@[i as int].running,
        output_received(b, c, i, output, later),
    ensures
        c.widgets@[i as int].output == b.widgets@[i as int].output,
        c.widgets@[i as int].next_run == later,
        !c.widgets@[i as int].running,
        is_due(c.widgets@[i as int], later) == a.widgets@[i as int].visible,
{
    let w = a.widgets@[i as int];
    assert(b.widgets@[i as int].rerun_requested);
    assert(b.widgets@[i as int].visible == w.visible);
}

/// `Shift+T` moves the commands on to the theme after the current one in
/// the list, and from the last back to the first.
pub proof fn theme_moves_to_the_next_and_wraps(
    a: ClockWidgets,
    b: ClockWidgets,
    now: u64,
)
    requires
        theme_cycled(a, b, now),
        a.themes@.len() > 1,
        a.theme_index < a.themes@.len(),
    ensures
        a.theme_index + 1 < a.themes@.len() ==> spec_current_theme(b)
            == a.themes@[a.theme_index + 1]@,
        a.theme_index + 1 == a.themes@.len() ==> spec_current_theme(b) == a.themes@[0]@,
{
    let n = a.themes@.len() as int;
    let i = a.theme_index as int;
    if i + 1 < n {
        vstd::arithmetic::div_mod::lemma_small_mod((i + 1) as nat, n as nat);
    } else {
        vstd::arithmetic::div_mod::lemma_mod_self_0(n);
    }
}

/// `Home` undoes a scroll: scrolling the widget under a cell and then going
/// back to the top leaves that widget as it was, scrolled to the top, and
/// active.
pub proof fn home_undoes_a_scroll(
    a: ClockWidgets,
    b: ClockWidgets,
    c: ClockWidgets,
    column: u16,
    row: u16,
    delta: i16,
    i: int,
)
    requires
        scrolled_at(a, b, column, row, delta),
        scrolled_to_top(b, c),
        0 <= i < a.viewports@.len(),
        i < a.widgets@.len(),
        spec_contains(a.viewports@[i], column, row),
        forall|j: int| 0 <= j < i ==> !spec_contains(#[trigger] a.viewports@[j], column, row),
    ensures
        c.active_widget == Some(i as usize),
        c.widgets@[i] == (ClockWidget { scroll: 0, ..a.widgets@[i] }),
        forall|j: int| 0 <= j < a.widgets@.len() && j != i ==> #[trigger] c.widgets@[j] == a.widgets@[j],
{
    assert(b.active_widget == Some(i as usize));
    assert(b.widgets@[i] == (ClockWidget { scroll: b.widgets@[i].scroll, ..a.widgets@[i] }));
    assert(c.widgets@[i] == (ClockWidget { scroll: 0, ..b.widgets@[i] }));
    assert forall|j: int| 0 <= j < a.widgets@.len() && j != i implies #[trigger] c.widgets@[j]
        == a.widgets@[j] by {
        assert(b.widgets@[j] == a.widgets@[j]);
        assert(j < a.widgets.len() && i < a.widgets.len());
        assert((j as usize) as int == j && (i as usize) as int == i);
        assert(b.active_widget != Some(j as usize));
        assert(c.widgets@[j] == b.widgets@[j]);
    }
}

impl ClockWidgets {
    /// Moves to the next theme, at `now`. With fewer than two themes nothing
    /// changes. Otherwise every shown widget goes back to "Loading..." at
    /// the top, and every widget is due again: now, or, while its command
    /// runs, as soon as that ends (the output it gives is then dropped).
    pub fn cycle_theme(&mut self, now: u64)
        ensures
            theme_cycled(*old(self), *final(self), now),
    {
        if self.themes.len() <= 1 {
            return;
        }
        let n = self.themes.len();
        let i = self.theme_index;
        proof {
            vstd::arithmetic::div_mod::lemma_add_mod_noop(i as int, 1, n as int);
            vstd::arithmetic::div_mod::lemma_mod_bound(i as int, n as int);
            assert(1int % (n as int) == 1) by {
                vstd::arithmetic::div_mod::lemma_small_mod(1, n as nat);
            }
        }
        self.theme_index = (i % n + 1) % n;
        let ghost before = self.widgets@;
        let ghost mid = *self;
        let mut i: usize = 0;
        while i < self.widgets.len()
            invariant
                self.themes == mid.themes,
                self.theme_index == mid.theme_index,
                self.viewports == mid.viewports,
                self.active_widget == mid.active_widget,
                self.widgets@.len() == before.len(),
                i <= before.len(),
                forall|j: int|
                    i <= j < before.len() ==> #[trigger] self.widgets@[j] == before[j],
                forall|j: int|
                    0 <= j < i ==> {
                        let w = #[trigger] before[j];
                        let v = self.widgets@[j];
                        &&& v.output@ == if w.visible {
                            loading_text()
                        } else {
                            w.output@
                        }
                        &&& v.scroll == if w.visible {
                            0
                        } else {
                            w.scroll
                        }
                        &&& v.rerun_requested == (w.rerun_requested || w.running)
                        &&& v.next_run == if w.running {
                            w.next_run
                        } else {
                            now
                        }
                        &&& v == (ClockWidget {
                            output: v.output,
                            scroll: v.scroll,
                            rerun_requested: v.rerun_requested,
                            next_run: v.next_run,
                            ..w
                        })
                    },
            decreases before.len() - i,
        {
            if self.widgets[i].visible {
                self.widgets[i].output = String::from_str("Loading...");
                self.widgets[i].scroll = 0;
            }
            if self.widgets[i].running {
                self.widgets[i].rerun_requested = true;
            } else {
                self.widgets[i].next_run = now;
            }
            i += 1;
        }
    }

    /// Takes what the command of widget `index` printed, at `now`. The
    /// widget stops running; when a rerun was asked for (the theme changed
    /// meanwhile), the output is dropped and the widget is due at once, else
    /// it shows the output and is due again after its refresh interval. The
    /// scroll is kept within the new text. An index out of range changes
    /// nothing.
    pub fn receive_output(&mut self, index: usize, output: String, now: u64)
        ensures
            output_received(*old(self), *final(self), index, output, now),
    {
        if index >= self.widgets.len() {
            return;
        }
        if !self.widgets[index].rerun_requested {
            self.widgets[index].output = output;
        }
        self.widgets[index].clamp_scroll_to_output();
        self.widgets[index].running = false;
        if self.widgets[index].rerun_requested {
            self.widgets[index].rerun_requested = false;
            self.widgets[index].next_run = now;
        } else {
            let refresh = self.widgets[index].refresh_secs;
            self.widgets[index].next_run = deadline(now, refresh);
        }
    }

    /// Marks the widgets whose commands start at `now` as running, and says
    /// which commands to run: one job per shown, idle widget that is due, in
    /// order, each with the widget's command and timeout and the current
    /// theme.
    pub fn start_due(&mut self, now: u64) -> (jobs: Vec<WidgetJob>)
        ensures
            marked_running(*old(self), *final(self), now),
            due_jobs(*old(self), jobs@, now),
    {
        let theme = self.current_theme();
        let ghost before = self.widgets@;
        let ghost old_self = *self;
        let mut jobs: Vec<WidgetJob> = Vec::new();
        let mut i: usize = 0;
        while i < self.widgets.len()
            invariant
                self.themes == old_self.themes,
                self.theme_index == old_self.theme_index,
                self.viewports == old_self.viewports,
                self.active_widget == old_self.active_widget,
                self.widgets@.len() == before.len(),
                i <= before.len(),
                theme@ == spec_current_theme(old_self),
                forall|j: int|
                    i <= j < before.len() ==> #[trigger] self.widgets@[j] == before[j],
                forall|j: int|
                    0 <= j < i ==> #[trigger] self.widgets@[j] == (ClockWidget {
                        running: before[j].running || is_due(before[j], now),
                        ..before[j]
                    }),
                jobs@.map_values(|job: WidgetJob| job.index as int) == due_indices(
                    before,
                    now,
                    i as int,
                ),
                forall|k: int|
                    0 <= k < jobs@.len() ==> {
                        let job = #[trigger] jobs@[k];
                        &&& job.index < i
                        &&& job.command.deep_view() == before[job.index as int].command.deep_view()
                        &&& job.timeout_secs == before[job.index as int].timeout_secs
                        &&& job.theme@ == theme@
                    },
            decreases before.len() - i,
        {
            let ghost prev = jobs@;
            if self.widgets[i].visible && !self.widgets[i].running && self.widgets[i].next_run
                <= now {
                self.widgets[i].running = true;
                let command = self.widgets[i].command.clone();
                proof {
                    vstd::std_specs::vec::vec_clone_deep_view_proof(
                        before[i as int].command,
                        command,
                    );
                }
                jobs.push(
                    WidgetJob {
                        index: i,
                        command,
                        timeout_secs: self.widgets[i].timeout_secs,
                        theme: theme.clone(),
                    },
                );
                assert(jobs@.map_values(|job: WidgetJob| job.index as int) =~= prev.map_values(
                    |job: WidgetJob| job.index as int,
                ).push(i as int));
            }
            i += 1;
        }
        jobs
    }
}

// ---------------------------------------------------------------------------
// Scrolling
/// Whether `new` is `old` after a scroll of `delta` rows at the cell
/// (`column`, `row`): the first widget drawn there becomes the active one
/// and is scrolled, saturating at 0 and at `u16::MAX`; nothing else
/// changes, and where no widget was drawn nothing changes at all.
pub open spec fn scrolled_at(old: ClockWidgets, new: ClockWidgets, column: u16, row: u16, delta: i16) -> bool {
    &&& new.themes == old.themes
    &&& new.theme_index == old.theme_index
    &&& new.viewports == old.viewports
    &&& new.widgets@.len() == old.widgets@.len()
    &&& (forall|j: int|
        0 <= j < old.viewports@.len() ==> !spec_contains(#[trigger] old.viewports@[j], column, row))
        ==> new == old
    &&& forall|i: int|
        0 <= i < old.viewports@.len() && spec_contains(old.viewports@[i], column, row) && (forall|
            j: int,
        |
            0 <= j < i ==> !spec_contains(#[trigger] old.viewports@[j], column, row)) ==> {
            &&& new.active_widget == Some(i as usize)
            &&& forall|j: int|
                0 <= j < old.widgets@.len() && j != i ==> #[trigger] new.widgets@[j]
                    == old.widgets@[j]
            &&& i < old.widgets@.len() ==> new.widgets@[i].scroll == if delta < 0 {
                sat_sub(old.widgets@[i].scroll as int, -delta) as u16
            } else {
                crate::layout::sat_add16(old.widgets@[i].scroll as int, delta as int) as u16
            }
            &&& i < old.widgets@.len() ==> new.widgets@[i] == (ClockWidget {
                scroll: new.widgets@[i].scroll,
                ..old.widgets@[i]
            })
        }
}

/// Whether `new` is `old` with its active widget scrolled back to the top.
pub open spec fn scrolled_to_top(old: ClockWidgets, new: ClockWidgets) -> bool {
    &&& new.themes == old.themes
    &&& new.theme_index == old.theme_index
    &&& new.viewports == old.viewports
    &&& new.active_widget == old.active_widget
    &&& new.widgets@.len() == old.widgets@.len()
    &&& forall|j: int|
        0 <= j < old.widgets@.len() ==> #[trigger] new.widgets@[j] == if old.active_widget == Some(
            j as usize,
        ) {
            ClockWidget { scroll: 0, ..old.widgets@[j] }
        } else {
            old.widgets@[j]
        }
}

/// Whether `new` is `old` with its active widget scrolled to the end of its
/// text, as last drawn.
pub open spec fn scrolled_to_bottom(old: ClockWidgets, new: ClockWidgets) -> bool {
    &&& new.themes == old.themes
    &&& new.theme_index == old.theme_index
    &&& new.viewports == old.viewports
    &&& new.active_widget == old.active_widget
    &&& new.widgets@.len() == old.widgets@.len()
    &&& forall|j: int|
        0 <= j < old.widgets@.len() ==> #[trigger] new.widgets@[j] == if old.active_widget == Some(
            j as usize,
        ) && j < old.viewports@.len() {
            ClockWidget {
                scroll: spec_max_scroll(old.widgets@[j], old.viewports@[j]),
                ..old.widgets@[j]
            }
        } else {
            old.widgets@[j]
        }
}

impl ClockWidgets {
    /// The first widget whose last drawn area holds the cell (`column`,
    /// `row`), if any.
    pub fn hit_test(&self, column: u16, row: u16) -> (r: Option<usize>)
        ensures
            match r {
                Some(i) => {
                    &&& i < self.viewports@.len()
                    &&& spec_contains(self.viewports@[i as int], column, row)
                    &&& forall|j: int|
                        0 <= j < i ==> !spec_contains(#[trigger] self.viewports@[j], column, row)
                },
                None => forall|j: int|
                    0 <= j < self.viewports@.len() ==> !spec_contains(
                        #[trigger] self.viewports@[j],
                        column,
                        row,
                    ),
            },
    {
        let mut i: usize = 0;
        while i < self.viewports.len()
            invariant
                i <= self.viewports@.len(),
                forall|j: int| 0 <= j < i ==> !spec_contains(#[trigger] self.viewports@[j], column, row),
            decreases self.viewports@.len() - i,
        {
            if rect_contains(self.viewports[i], column, row) {
                return Some(i);
            }
            i += 1;
        }
        None
    }

    /// Scrolls the widget under the cell (`column`, `row`) by `delta` rows
    /// and makes it the active widget; elsewhere nothing changes.
    pub fn scroll_at(&mut self, column: u16, row: u16, delta: i16)
        ensures
            scrolled_at(*old(self), *final(self), column, row, delta),
    {
        if let Some(index) = self.hit_test(column, row) {
            self.active_widget = Some(index);
            if index < self.widgets.len() {
                self.widgets[index].scroll_by(delta);
            }
        }
    }

    /// Scrolls the active widget back to the top.
    pub fn scroll_active_to_top(&mut self)
        ensures
            scrolled_to_top(*old(self), *final(self)),
    {
        if let Some(index) = self.active_widget {
            if index < self.widgets.len() {
                self.widgets[index].scroll = 0;
            }
        }
    }

    /// Scrolls the active widget to the end of its text, as drawn last.
    pub fn scroll_active_to_bottom(&mut self)
        ensures
            scrolled_to_bottom(*old(self), *final(self)),
    {
        if let Some(index) = self.active_widget {
            if index < self.widgets.len() && index < self.viewports.len() {
                let area = self.viewports[index];
                let m = self.widgets[index].max_scroll(area);
                self.widgets[index].scroll = m;
            }
        }
    }
}

// ---------------------------------------------------------------------------
// How many widgets fit in the row
/// How many widgets the row holds on a terminal of the size of `area`: 2
/// when it is about as wide as tall, 4 when wide, 6 when ultrawide.
///
/// Terminal cells are about twice as tall as wide, so the terminal looks
/// `width / (2 * height)` times as wide as tall; the thresholds are 1.5 and
/// 2.2, written here in whole numbers: `width < 3 * height` and
/// `5 * width < 22 * height`.
pub open spec fn spec_max_widgets(area: Rect) -> int {
    let h: int = if area.height < 1 {
        1
    } else {
        area.height as int
    };
    if area.width < 3 * h {
        2
    } else if 5 * area.width < 22 * h {
        4
    } else {
        6
    }
}

/// A wider terminal of the same height never holds fewer widgets in the
/// row, and every terminal holds between two and six.
pub proof fn wider_terminals_hold_at_least_as_many_widgets(narrow: Rect, wide: Rect)
    requires
        narrow.height == wide.height,
        narrow.width <= wide.width,
    ensures
        2 <= spec_max_widgets(narrow) <= spec_max_widgets(wide) <= 6,
{
}

/// How many widgets the row holds on a terminal of the size of `area`.
pub fn max_widgets_for_area(area: Rect) -> (n: usize)
    ensures
        n == spec_max_widgets(area),
{
    let height: u64 = if area.height < 1 {
        1
    } else {
        area.height as u64
    };
    let width = area.width as u64;
    if width < 3 * height {
        SQUARE_TERMINAL_WIDGETS
    } else if 5 * width < 22 * height {
        WIDE_TERMINAL_WIDGETS
    } else {
        ULTRAWIDE_TERMINAL_WIDGETS
    }
}

/// How many of `configured_count` row widgets are shown on a terminal of the
/// size of `area`.
pub fn visible_widget_count(area: Rect, configured_count: usize) -> (n: usize)
    ensures
        n == if configured_count < spec_max_widgets(area) {
            configured_count as int
        } else {
            spec_max_widgets(area)
        },
{
    let m = max_widgets_for_area(area);
    if configured_count < m {
        configured_count
    } else {
        m
    }
}

// ---------------------------------------------------------------------------
// Layout
/// The indices below `n` of the widgets in position `pos`, in order.
pub open spec fn indices_at(ws: Seq<ClockWidget>, pos: WidgetPosition, n: int) -> Seq<int>
    decreases n,
{
    if n <= 0 {
        Seq::empty()
    } else {
        let r = indices_at(ws, pos, n - 1);
        if ws[n - 1].position == pos {
            r.push(n - 1)
        } else {
            r
        }
    }
}

/// The indices are those of widgets in position `pos`, below `n`, rising.
pub proof fn lemma_indices_at(ws: Seq<ClockWidget>, pos: WidgetPosition, n: int)
    requires
        0 <= n <= ws.len(),
    ensures
        forall|k: int|
            0 <= k < indices_at(ws, pos, n).len() ==> {
                let i = #[trigger] indices_at(ws, pos, n)[k];
                &&& 0 <= i < n
                &&& ws[i].position == pos
            },
        forall|k1: int, k2: int|
            0 <= k1 < k2 < indices_at(ws, pos, n).len() ==> #[trigger] indices_at(ws, pos, n)[k1]
                < #[trigger] indices_at(ws, pos, n)[k2],
        indices_at(ws, pos, n).len() <= n,
    decreases n,
{
    if n > 0 {
        lemma_indices_at(ws, pos, n - 1);
    }
}

/// The widgets in the row that are shown: as many as the terminal holds.
pub open spec fn spec_row_count(ws: Seq<ClockWidget>, terminal: Rect) -> int {
    let n = indices_at(ws, WidgetPosition::Auto, ws.len() as int).len() as int;
    if n < spec_max_widgets(terminal) {
        n
    } else {
        spec_max_widgets(terminal)
    }
}

/// The numbers added up.
pub open spec fn seq_sum(s: Seq<int>) -> int
    decreases s.len(),
{
    if s.len() == 0 {
        0
    } else {
        seq_sum(s.drop_last()) + s.last()
    }
}

/// The rows given to each full-width band, in order: what it needs, as far
/// as the budget left allows, or nothing (the band is hidden) when that is
/// under the fewest rows a band is shown with.
pub open spec fn band_grants(needs: Seq<int>, budget: int) -> Seq<int>
    decreases needs.len(),
{
    if needs.len() == 0 {
        Seq::empty()
    } else {
        let g = band_grants(needs.drop_last(), budget);
        let room = sat_sub(budget, seq_sum(g));
        let granted = if needs.last() < room {
            needs.last()
        } else {
            room
        };
        g.push(
            if granted < MIN_BOTTOM_WIDGET_HEIGHT {
                0
            } else {
                granted
            },
        )
    }
}

/// The bands never take more than the budget, and none takes a negative
/// number of rows.
pub proof fn lemma_band_grants(needs: Seq<int>, budget: int)
    requires
        budget >= 0,
        forall|k: int| 0 <= k < needs.len() ==> #[trigger] needs[k] >= 0,
    ensures
        band_grants(needs, budget).len() == needs.len(),
        seq_sum(band_grants(needs, budget)) <= budget,
        forall|k: int|
            0 <= k < needs.len() ==> 0 <= #[trigger] band_grants(needs, budget)[k] <= needs[k],
    decreases needs.len(),
{
    if needs.len() > 0 {
        lemma_band_grants(needs.drop_last(), budget);
        let g = band_grants(needs.drop_last(), budget);
        assert(band_grants(needs, budget).drop_last() == g);
        assert forall|k: int| 0 <= k < needs.len() implies 0 <= #[trigger] band_grants(
            needs,
            budget,
        )[k] <= needs[k] by {
            if k < needs.len() - 1 {
                assert(band_grants(needs, budget)[k] == g[k]);
                assert(needs.drop_last()[k] == needs[k]);
            }
        }
    }
}

/// The sums of the first `k` numbers grow with `k` when none is negative.
pub proof fn lemma_prefix_sums(s: Seq<int>, k: int)
    requires
        0 <= k <= s.len(),
        forall|j: int| 0 <= j < s.len() ==> #[trigger] s[j] >= 0,
    ensures
        0 <= seq_sum(s.take(k)) <= seq_sum(s),
        k < s.len() ==> seq_sum(s.take(k + 1)) == seq_sum(s.take(k)) + s[k],
    decreases s.len(),
{
    if k < s.len() {
        assert(s.take(k + 1).drop_last() == s.take(k));
    }
    if s.len() > 0 {
        if k == s.len() {
            assert(s.take(k) == s);
            lemma_prefix_sums(s.drop_last(), 0);
        } else {
            lemma_prefix_sums(s.drop_last(), k);
            assert(s.drop_last().take(k) == s.take(k));
        }
    } else {
        assert(s.take(k) == s);
    }
}

/// The rows each full-width band needs to show all its text.
pub open spec fn band_needs(ws: Seq<ClockWidget>, idx: Seq<int>, width: u16) -> Seq<int> {
    idx.map_values(
        |i: int| spec_bottom_widget_height(spec_title(ws[i]), ws[i].output@, width) as int,
    )
}

/// The plan after the first `k` row widgets got their columns.
pub open spec fn plan_rows(
    plan: Seq<Option<Rect>>,
    idx: Seq<int>,
    chunks: Seq<Rect>,
    k: int,
) -> Seq<Option<Rect>>
    decreases k,
{
    if k <= 0 {
        plan
    } else {
        plan_rows(plan, idx, chunks, k - 1).update(idx[k - 1], Some(spec_padded(chunks[k - 1])))
    }
}

/// The band of band number `k`: full width, from `top` down past the bands
/// before it.
pub open spec fn band_rect(area: Rect, top: int, gs: Seq<int>, k: int) -> Rect {
    Rect {
        x: area.x,
        y: (top + seq_sum(gs.take(k))) as u16,
        width: area.width,
        height: gs[k] as u16,
    }
}

/// The plan after the first `k` bands were placed; a band given no rows is
/// hidden.
pub open spec fn plan_bands(
    plan: Seq<Option<Rect>>,
    idx: Seq<int>,
    gs: Seq<int>,
    area: Rect,
    top: int,
    k: int,
) -> Seq<Option<Rect>>
    decreases k,
{
    if k <= 0 {
        plan
    } else {
        let p = plan_bands(plan, idx, gs, area, top, k - 1);
        if gs[k - 1] == 0 {
            p
        } else {
            p.update(idx[k - 1], Some(spec_padded(band_rect(area, top, gs, k - 1))))
        }
    }
}

/// Where each widget is drawn in `area` on a terminal of the size of
/// `terminal`, or `None` when it is hidden. The row widgets share the top
/// of the area in equal columns, as many as the terminal holds; under them
/// each full-width widget gets a band as tall as its text needs, as far as
/// the rows left allow (the row keeps at least `MIN_WIDGET_ROW_HEIGHT` rows
/// when it shows any widget); every area is inset by its padding.
pub open spec fn spec_render_plan(ws: Seq<ClockWidget>, area: Rect, terminal: Rect) -> Seq<
    Option<Rect>,
> {
    let none = Seq::new(ws.len(), |i: int| None::<Rect>);
    if area.height == 0 || area.width == 0 {
        none
    } else {
        let rows = indices_at(ws, WidgetPosition::Auto, ws.len() as int);
        let bottoms = indices_at(ws, WidgetPosition::Bottom, ws.len() as int);
        let rc = spec_row_count(ws, terminal);
        let budget = if rc > 0 {
            sat_sub(area.height as int, MIN_WIDGET_ROW_HEIGHT as int)
        } else {
            area.height as int
        };
        let gs = band_grants(band_needs(ws, bottoms, area.width), budget);
        let row_area = Rect { height: (area.height - seq_sum(gs)) as u16, ..area };
        let p1 = if rc > 0 && row_area.height > 0 {
            plan_rows(none, rows, layout_equal_columns(row_area, rc as u32), rc)
        } else {
            none
        };
        plan_bands(p1, bottoms, gs, area, area.y + row_area.height, gs.len() as int)
    }
}

/// A widget after it was laid out by `p`: shown in the area `p` gives it,
/// with its scroll kept within what that area can scroll, or hidden.
pub open spec fn rendered(w: ClockWidget, p: Option<Rect>) -> ClockWidget {
    match p {
        Some(r) => ClockWidget { visible: true, scroll: min16(w.scroll, spec_max_scroll(w, r)), ..w },
        None => ClockWidget { visible: false, ..w },
    }
}

/// The area a widget was last drawn in, or the empty area.
pub open spec fn viewport_of(p: Option<Rect>) -> Rect {
    match p {
        Some(r) => r,
        None => empty_rect(),
    }
}

/// Updating the plan at indices outside `idx[..k]` leaves the rest alone.
pub proof fn lemma_plan_rows_frame(plan: Seq<Option<Rect>>, idx: Seq<int>, chunks: Seq<Rect>, k: int, j: int)
    requires
        0 <= k <= idx.len(),
        forall|m: int| 0 <= m < idx.len() ==> 0 <= #[trigger] idx[m] < plan.len(),
        forall|m: int| 0 <= m < k ==> #[trigger] idx[m] != j,
        0 <= j < plan.len(),
    ensures
        plan_rows(plan, idx, chunks, k).len() == plan.len(),
        plan_rows(plan, idx, chunks, k)[j] == plan[j],
    decreases k,
{
    if k > 0 {
        lemma_plan_rows_frame(plan, idx, chunks, k - 1, j);
    }
}

pub proof fn lemma_plan_rows_len(plan: Seq<Option<Rect>>, idx: Seq<int>, chunks: Seq<Rect>, k: int)
    requires
        0 <= k <= idx.len(),
        forall|m: int| 0 <= m < idx.len() ==> 0 <= #[trigger] idx[m] < plan.len(),
    ensures
        plan_rows(plan, idx, chunks, k).len() == plan.len(),
    decreases k,
{
    if k > 0 {
        lemma_plan_rows_len(plan, idx, chunks, k - 1);
    }
}

pub proof fn lemma_plan_bands_frame(
    plan: Seq<Option<Rect>>,
    idx: Seq<int>,
    gs: Seq<int>,
    area: Rect,
    top: int,
    k: int,
    j: int,
)
    requires
        0 <= k <= idx.len(),
        k <= gs.len(),
        forall|m: int| 0 <= m < idx.len() ==> 0 <= #[trigger] idx[m] < plan.len(),
        forall|m: int| 0 <= m < k ==> #[trigger] idx[m] != j,
        0 <= j < plan.len(),
    ensures
        plan_bands(plan, idx, gs, area, top, k).len() == plan.len(),
        plan_bands(plan, idx, gs, area, top, k)[j] == plan[j],
    decreases k,
{
    if k > 0 {
        lemma_plan_bands_frame(plan, idx, gs, area, top, k - 1, j);
    }
}

pub proof fn lemma_plan_bands_len(
    plan: Seq<Option<Rect>>,
    idx: Seq<int>,
    gs: Seq<int>,
    area: Rect,
    top: int,
    k: int,
)
    requires
        0 <= k <= idx.len(),
        forall|m: int| 0 <= m < idx.len() ==> 0 <= #[trigger] idx[m] < plan.len(),
    ensures
        plan_bands(plan, idx, gs, area, top, k).len() == plan.len(),
    decreases k,
{
    if k > 0 {
        lemma_plan_bands_len(plan, idx, gs, area, top, k - 1);
    }
}

/// Only the row widgets that the terminal holds are shown in the row: a
/// row widget that is drawn is one of the first `spec_row_count` of them.
/// Full-width widgets take no place in the row.
pub proof fn only_the_first_row_widgets_are_shown(
    ws: Seq<ClockWidget>,
    area: Rect,
    terminal: Rect,
    i: int,
)
    requires
        0 <= i < ws.len(),
        ws[i].position == WidgetPosition::Auto,
        spec_render_plan(ws, area, terminal)[i] is Some,
    ensures
        exists|k: int|
            0 <= k < spec_row_count(ws, terminal) && #[trigger] indices_at(
                ws,
                WidgetPosition::Auto,
                ws.len() as int,
            )[k] == i,
{
    let n = ws.len() as int;
    lemma_indices_at(ws, WidgetPosition::Auto, n);
    lemma_indices_at(ws, WidgetPosition::Bottom, n);
    let none = Seq::new(ws.len(), |j: int| None::<Rect>);
    if !(area.height == 0 || area.width == 0) {
        let rows = indices_at(ws, WidgetPosition::Auto, n);
        let bottoms = indices_at(ws, WidgetPosition::Bottom, n);
        let rc = spec_row_count(ws, terminal);
        let budget = if rc > 0 {
            sat_sub(area.height as int, MIN_WIDGET_ROW_HEIGHT as int)
        } else {
            area.height as int
        };
        let needs = band_needs(ws, bottoms, area.width);
        lemma_band_grants(needs, budget);
        let gs = band_grants(needs, budget);
        let row_area = Rect { height: (area.height - seq_sum(gs)) as u16, ..area };
        let chunks = layout_equal_columns(row_area, rc as u32);
        let p1 = if rc > 0 && row_area.height > 0 {
            plan_rows(none, rows, chunks, rc)
        } else {
            none
        };
        if rc > 0 && row_area.height > 0 {
            lemma_plan_rows_len(none, rows, chunks, rc);
        }
        assert forall|m: int| 0 <= m < bottoms.len() implies #[trigger] bottoms[m] != i by {
            assert(ws[bottoms[m]].position == WidgetPosition::Bottom);
        }
        lemma_plan_bands_frame(
            p1,
            bottoms,
            gs,
            area,
            area.y + row_area.height,
            gs.len() as int,
            i,
        );
        if rc > 0 && row_area.height > 0 {
            if forall|k: int| 0 <= k < rc ==> #[trigger] rows[k] != i {
                lemma_plan_rows_frame(none, rows, chunks, rc, i);
            }
        }
    }
}

/// With the indices rising, the band of each index is the one placed for
/// it, or what the plan held where it got no rows.
pub proof fn lemma_plan_bands_at(
    plan: Seq<Option<Rect>>,
    idx: Seq<int>,
    gs: Seq<int>,
    area: Rect,
    top: int,
    n: int,
    k: int,
)
    requires
        0 <= k < n <= idx.len(),
        n <= gs.len(),
        forall|m: int| 0 <= m < idx.len() ==> 0 <= #[trigger] idx[m] < plan.len(),
        forall|m1: int, m2: int| 0 <= m1 < m2 < idx.len() ==> #[trigger] idx[m1] < #[trigger] idx[m2],
    ensures
        plan_bands(plan, idx, gs, area, top, n)[idx[k]] == if gs[k] == 0 {
            plan[idx[k]]
        } else {
            Some(spec_padded(band_rect(area, top, gs, k)))
        },
    decreases n,
{
    lemma_plan_bands_len(plan, idx, gs, area, top, n - 1);
    if k == n - 1 {
        assert forall|m: int| 0 <= m < n - 1 implies #[trigger] idx[m] != idx[k] by {
            assert(idx[m] < idx[k]);
        }
        lemma_plan_bands_frame(plan, idx, gs, area, top, n - 1, idx[k]);
    } else {
        assert(idx[k] < idx[n - 1]);
        lemma_plan_bands_at(plan, idx, gs, area, top, n - 1, k);
    }
}

/// A full-width widget that is drawn gets a band of the area's full width
/// (less its padding) under the row, within the area; while the row shows
/// widgets it keeps at least `MIN_WIDGET_ROW_HEIGHT` rows of the area (all
/// of them in a smaller area).
pub proof fn bands_lie_under_the_row(ws: Seq<ClockWidget>, area: Rect, terminal: Rect, i: int)
    requires
        0 <= i < ws.len(),
        ws[i].position == WidgetPosition::Bottom,
        fits(area),
        spec_render_plan(ws, area, terminal)[i] is Some,
    ensures
        exists|band: Rect|
            {
                &&& spec_render_plan(ws, area, terminal)[i] == Some(spec_padded(band))
                &&& band.x == area.x
                &&& band.width == area.width
                &&& area.y <= band.y
                &&& band.y + band.height <= area.y + area.height
                &&& spec_row_count(ws, terminal) > 0 ==> band.y >= area.y + min16(
                    area.height,
                    MIN_WIDGET_ROW_HEIGHT,
                )
            },
{
    let n = ws.len() as int;
    lemma_indices_at(ws, WidgetPosition::Auto, n);
    lemma_indices_at(ws, WidgetPosition::Bottom, n);
    let none = Seq::new(ws.len(), |j: int| None::<Rect>);
    let rows = indices_at(ws, WidgetPosition::Auto, n);
    let bottoms = indices_at(ws, WidgetPosition::Bottom, n);
    let rc = spec_row_count(ws, terminal);
    let budget = if rc > 0 {
        sat_sub(area.height as int, MIN_WIDGET_ROW_HEIGHT as int)
    } else {
        area.height as int
    };
    let needs = band_needs(ws, bottoms, area.width);
    lemma_band_grants(needs, budget);
    let gs = band_grants(needs, budget);
    let row_area = Rect { height: (area.height - seq_sum(gs)) as u16, ..area };
    let chunks = layout_equal_columns(row_area, rc as u32);
    let p1 = if rc > 0 && row_area.height > 0 {
        plan_rows(none, rows, chunks, rc)
    } else {
        none
    };
    if rc > 0 && row_area.height > 0 {
        lemma_plan_rows_len(none, rows, chunks, rc);
    }
    let top = area.y + row_area.height;
    // The widget is one of the full-width ones.
    if forall|m: int| 0 <= m < bottoms.len() ==> #[trigger] bottoms[m] != i {
        lemma_plan_bands_frame(p1, bottoms, gs, area, top, gs.len() as int, i);
        if rc > 0 && row_area.height > 0 {
            assert forall|m: int| 0 <= m < rc implies #[trigger] rows[m] != i by {
                assert(ws[rows[m]].position == WidgetPosition::Auto);
            }
            lemma_plan_rows_frame(none, rows, chunks, rc, i);
        }
        assert(false);
    }
    let k = choose|m: int| 0 <= m < bottoms.len() && #[trigger] bottoms[m] == i;
    lemma_plan_bands_at(p1, bottoms, gs, area, top, gs.len() as int, k);
    if gs[k] == 0 {
        if rc > 0 && row_area.height > 0 {
            assert forall|m: int| 0 <= m < rc implies #[trigger] rows[m] != i by {
                assert(ws[rows[m]].position == WidgetPosition::Auto);
            }
            lemma_plan_rows_frame(none, rows, chunks, rc, i);
        }
        assert(false);
    }
    lemma_prefix_sums(gs, k);
    lemma_prefix_sums(gs, k + 1);
    let band = band_rect(area, top, gs, k);
    assert(seq_sum(gs) <= budget <= area.height);
    assert(row_area.height == area.height - seq_sum(gs));
    assert(0 <= gs[k] <= needs[k] <= u16::MAX);
    assert(band.y == top + seq_sum(gs.take(k)));
    assert(band.height == gs[k]);
    assert(band.y + band.height <= area.y + area.height);
    assert(spec_render_plan(ws, area, terminal)[i] == Some(spec_padded(band)));
    assert(rc > 0 ==> band.y >= area.y + min16(area.height, MIN_WIDGET_ROW_HEIGHT));
}

/// A widget that the layout hides is neither run nor scrolled: its command
/// is never due, and no cell falls in the area it was last drawn in.
pub proof fn hidden_widgets_neither_run_nor_hit(
    w: ClockWidget,
    placement: Option<Rect>,
    now: u64,
    column: u16,
    row: u16,
)
    requires
        placement is None,
    ensures
        !is_due(rendered(w, placement), now),
        !spec_contains(viewport_of(placement), column, row),
{
}

/// Whether `new` is `old` laid out in `area` on a terminal of the size of
/// `terminal`: each widget shown where the plan puts it (its scroll kept
/// within that area) or hidden, and each area it was drawn in kept for hit
/// testing; the themes and the active widget stay.
pub open spec fn laid_out(old: ClockWidgets, new: ClockWidgets, area: Rect, terminal: Rect) -> bool {
    &&& new.themes == old.themes
    &&& new.theme_index == old.theme_index
    &&& new.active_widget == old.active_widget
    &&& new.widgets@.len() == old.widgets@.len()
    &&& new.viewports@.len() == old.widgets@.len()
    &&& forall|i: int|
        0 <= i < old.widgets@.len() ==> #[trigger] new.widgets@[i] == rendered(
            old.widgets@[i],
            spec_render_plan(old.widgets@, area, terminal)[i],
        )
    &&& forall|i: int|
        0 <= i < old.widgets@.len() ==> #[trigger] new.viewports@[i] == viewport_of(
            spec_render_plan(old.widgets@, area, terminal)[i],
        )
}

/// The row of widgets in the layout of `ws` in `area`: the top of the
/// area, above the rows the full-width bands are given.
pub open spec fn plan_row_area(ws: Seq<ClockWidget>, area: Rect, terminal: Rect) -> Rect {
    let bottoms = indices_at(ws, WidgetPosition::Bottom, ws.len() as int);
    let rc = spec_row_count(ws, terminal);
    let budget = if rc > 0 {
        sat_sub(area.height as int, MIN_WIDGET_ROW_HEIGHT as int)
    } else {
        area.height as int
    };
    let gs = band_grants(band_needs(ws, bottoms, area.width), budget);
    Rect { height: (area.height - seq_sum(gs)) as u16, ..area }
}

/// Whether the columns that ratatui gives the row, when it has any, lie
/// within the row as tall as it, left to right without overlapping.
pub open spec fn row_columns_within(ws: Seq<ClockWidget>, area: Rect, terminal: Rect) -> bool {
    let rc = spec_row_count(ws, terminal);
    let row = plan_row_area(ws, area, terminal);
    let cs = layout_equal_columns(row, rc as u32);
    rc > 0 && row.height > 0 ==> {
        &&& forall|k: int|
            0 <= k < rc ==> #[trigger] within(cs[k], row) && cs[k].height == row.height
        &&& forall|k: int, l: int|
            0 <= k < l < rc ==> #[trigger] cs[k].x + cs[k].width <= #[trigger] cs[l].x
    }
}

/// A band is given no rows, or at least the fewest it is shown with.
pub proof fn lemma_band_grants_shown(needs: Seq<int>, budget: int, k: int)
    requires
        0 <= k < needs.len(),
    ensures
        band_grants(needs, budget)[k] == 0 || band_grants(needs, budget)[k]
            >= MIN_BOTTOM_WIDGET_HEIGHT,
    decreases needs.len(),
{
    lemma_band_grants_len(needs.drop_last(), budget);
    let g = band_grants(needs.drop_last(), budget);
    if k < needs.len() - 1 {
        lemma_band_grants_shown(needs.drop_last(), budget, k);
        assert(band_grants(needs, budget)[k] == g[k]);
    } else {
        assert(band_grants(needs, budget)[k] == band_grants(needs, budget).last());
    }
}

/// There is one grant per band.
pub proof fn lemma_band_grants_len(needs: Seq<int>, budget: int)
    ensures
        band_grants(needs, budget).len() == needs.len(),
    decreases needs.len(),
{
    if needs.len() > 0 {
        lemma_band_grants_len(needs.drop_last(), budget);
    }
}

/// The sums of the first numbers grow with how many are taken, when none
/// is negative.
pub proof fn lemma_prefix_sums_grow(s: Seq<int>, a: int, b: int)
    requires
        0 <= a <= b <= s.len(),
        forall|j: int| 0 <= j < s.len() ==> #[trigger] s[j] >= 0,
    ensures
        seq_sum(s.take(a)) <= seq_sum(s.take(b)),
    decreases b - a,
{
    if a < b {
        lemma_prefix_sums(s, b - 1);
        lemma_prefix_sums_grow(s, a, b - 1);
    }
}

/// With the indices rising, the place of each of the first `n` indices is
/// its column, padded.
pub proof fn lemma_plan_rows_at(
    plan: Seq<Option<Rect>>,
    idx: Seq<int>,
    chunks: Seq<Rect>,
    n: int,
    k: int,
)
    requires
        0 <= k < n <= idx.len(),
        forall|m: int| 0 <= m < idx.len() ==> 0 <= #[trigger] idx[m] < plan.len(),
        forall|m1: int, m2: int| 0 <= m1 < m2 < idx.len() ==> #[trigger] idx[m1] < #[trigger] idx[m2],
    ensures
        plan_rows(plan, idx, chunks, n)[idx[k]] == Some(spec_padded(chunks[k])),
    decreases n,
{
    lemma_plan_rows_len(plan, idx, chunks, n - 1);
    if k < n - 1 {
        assert(idx[k] < idx[n - 1]);
        lemma_plan_rows_at(plan, idx, chunks, n - 1, k);
    }
}

/// Where a shown widget is: a row widget in its column of the row, padded;
/// a full-width widget in its band, padded.
proof fn lemma_place_of(ws: Seq<ClockWidget>, area: Rect, terminal: Rect, i: int) -> (k: int)
    requires
        0 <= i < ws.len(),
        spec_render_plan(ws, area, terminal)[i] is Some,
    ensures
        ({
            let n = ws.len() as int;
            let rows = indices_at(ws, WidgetPosition::Auto, n);
            let bottoms = indices_at(ws, WidgetPosition::Bottom, n);
            let rc = spec_row_count(ws, terminal);
            let row = plan_row_area(ws, area, terminal);
            let budget = if rc > 0 {
                sat_sub(area.height as int, MIN_WIDGET_ROW_HEIGHT as int)
            } else {
                area.height as int
            };
            let gs = band_grants(band_needs(ws, bottoms, area.width), budget);
            let plan = spec_render_plan(ws, area, terminal);
            &&& area.height > 0 && area.width > 0
            &&& ws[i].position == WidgetPosition::Auto ==> {
                &&& 0 <= k < rc
                &&& rows[k] == i
                &&& row.height > 0
                &&& plan[i] == Some(spec_padded(layout_equal_columns(row, rc as u32)[k]))
            }
            &&& ws[i].position == WidgetPosition::Bottom ==> {
                &&& 0 <= k < bottoms.len()
                &&& bottoms[k] == i
                &&& gs[k] > 0
                &&& plan[i] == Some(spec_padded(band_rect(area, area.y + row.height, gs, k)))
            }
        }),
{
    let n = ws.len() as int;
    lemma_indices_at(ws, WidgetPosition::Auto, n);
    lemma_indices_at(ws, WidgetPosition::Bottom, n);
    let none = Seq::new(ws.len(), |j: int| None::<Rect>);
    let rows = indices_at(ws, WidgetPosition::Auto, n);
    let bottoms = indices_at(ws, WidgetPosition::Bottom, n);
    let rc = spec_row_count(ws, terminal);
    let budget = if rc > 0 {
        sat_sub(area.height as int, MIN_WIDGET_ROW_HEIGHT as int)
    } else {
        area.height as int
    };
    let needs = band_needs(ws, bottoms, area.width);
    let gs = band_grants(needs, budget);
    let row = plan_row_area(ws, area, terminal);
    let chunks = layout_equal_columns(row, rc as u32);
    let plan = spec_render_plan(ws, area, terminal);
    if area.height == 0 || area.width == 0 {
        assert(plan[i] == None::<Rect>);
        return 0;
    }
    lemma_band_grants(needs, budget);
    let p1 = if rc > 0 && row.height > 0 {
        plan_rows(none, rows, chunks, rc)
    } else {
        none
    };
    if rc > 0 && row.height > 0 {
        lemma_plan_rows_len(none, rows, chunks, rc);
    }
    let top = area.y + row.height;
    assert(plan == plan_bands(p1, bottoms, gs, area, top, gs.len() as int));
    if ws[i].position == WidgetPosition::Auto {
        assert forall|m: int| 0 <= m < bottoms.len() implies #[trigger] bottoms[m] != i by {
            assert(ws[bottoms[m]].position == WidgetPosition::Bottom);
        }
        lemma_plan_bands_frame(p1, bottoms, gs, area, top, gs.len() as int, i);
        if !(rc > 0 && row.height > 0) {
            assert(false);
        }
        if forall|m: int| 0 <= m < rc ==> #[trigger] rows[m] != i {
            lemma_plan_rows_frame(none, rows, chunks, rc, i);
            assert(false);
        }
        let k = choose|m: int| 0 <= m < rc && #[trigger] rows[m] == i;
        lemma_plan_rows_at(none, rows, chunks, rc, k);
        k
    } else {
        assert(ws[i].position == WidgetPosition::Bottom);
        if forall|m: int| 0 <= m < bottoms.len() ==> #[trigger] bottoms[m] != i {
            lemma_plan_bands_frame(p1, bottoms, gs, area, top, gs.len() as int, i);
            if rc > 0 && row.height > 0 {
                assert forall|m: int| 0 <= m < rc implies #[trigger] rows[m] != i by {
                    assert(ws[rows[m]].position == WidgetPosition::Auto);
                }
                lemma_plan_rows_frame(none, rows, chunks, rc, i);
            }
            assert(false);
        }
        let k = choose|m: int| 0 <= m < bottoms.len() && #[trigger] bottoms[m] == i;
        lemma_plan_bands_at(p1, bottoms, gs, area, top, gs.len() as int, k);
        if gs[k] == 0 {
            if rc > 0 && row.height > 0 {
                assert forall|m: int| 0 <= m < rc implies #[trigger] rows[m] != i by {
                    assert(ws[rows[m]].position == WidgetPosition::Auto);
                }
                lemma_plan_rows_frame(none, rows, chunks, rc, i);
            }
            assert(false);
        }
        k
    }
}

/// A shown widget lies within the area; a row widget above the bands, a
/// full-width widget in its band, between the sums of the rows given to
/// the bands before it and up to it.
proof fn lemma_place_within(ws: Seq<ClockWidget>, area: Rect, terminal: Rect, w: int) -> (k: int)
    requires
        fits(area),
        row_columns_within(ws, area, terminal),
        0 <= w < ws.len(),
        spec_render_plan(ws, area, terminal)[w] is Some,
    ensures
        ({
            let n = ws.len() as int;
            let bottoms = indices_at(ws, WidgetPosition::Bottom, n);
            let rc = spec_row_count(ws, terminal);
            let budget = if rc > 0 {
                sat_sub(area.height as int, MIN_WIDGET_ROW_HEIGHT as int)
            } else {
                area.height as int
            };
            let gs = band_grants(band_needs(ws, bottoms, area.width), budget);
            let top = area.y + plan_row_area(ws, area, terminal).height;
            let r = spec_render_plan(ws, area, terminal)[w]->0;
            &&& within(r, area)
            &&& r.height > 0
            &&& ws[w].position == WidgetPosition::Auto ==> r.y + r.height <= top
            &&& ws[w].position == WidgetPosition::Auto ==> {
                &&& 0 <= k < rc
                &&& indices_at(ws, WidgetPosition::Auto, n)[k] == w
                &&& within(
                    r,
                    layout_equal_columns(plan_row_area(ws, area, terminal), rc as u32)[k],
                )
            }
            &&& ws[w].position == WidgetPosition::Bottom ==> {
                &&& 0 <= k < bottoms.len()
                &&& bottoms[k] == w
                &&& top + seq_sum(gs.take(k)) <= r.y
                &&& r.y + r.height <= top + seq_sum(gs.take(k + 1))
            }
        }),
{
    let n = ws.len() as int;
    lemma_indices_at(ws, WidgetPosition::Bottom, n);
    let bottoms = indices_at(ws, WidgetPosition::Bottom, n);
    let rc = spec_row_count(ws, terminal);
    let budget = if rc > 0 {
        sat_sub(area.height as int, MIN_WIDGET_ROW_HEIGHT as int)
    } else {
        area.height as int
    };
    let needs = band_needs(ws, bottoms, area.width);
    lemma_band_grants(needs, budget);
    let gs = band_grants(needs, budget);
    let row = plan_row_area(ws, area, terminal);
    let top = area.y + row.height;
    assert(seq_sum(gs) <= budget <= area.height);
    assert forall|m: int| 0 <= m < gs.len() implies #[trigger] gs[m] >= 0 by {}
    lemma_prefix_sums(gs, 0);
    assert(within(row, area));
    let k = lemma_place_of(ws, area, terminal, w);
    if ws[w].position == WidgetPosition::Auto {
        let c = layout_equal_columns(row, rc as u32)[k];
        assert(within(c, row));
        padded_lies_within(c);
    } else {
        assert(ws[w].position == WidgetPosition::Bottom);
        lemma_prefix_sums(gs, k);
        lemma_prefix_sums(gs, k + 1);
        let b = band_rect(area, top, gs, k);
        assert(0 <= gs[k] <= needs[k] <= u16::MAX);
        assert(b.y == top + seq_sum(gs.take(k)));
        assert(b.height == gs[k]);
        lemma_band_grants_shown(needs, budget, k);
        padded_lies_within(b);
    }
    k
}

/// Every widget the layout shows lies within the area, and no two shown
/// widgets share a cell: the row widgets lie in ratatui's columns, left to
/// right (see `split_equal_columns`), the bands under the row and one
/// under another.
pub proof fn shown_widgets_lie_within_the_area_and_apart(
    ws: Seq<ClockWidget>,
    area: Rect,
    terminal: Rect,
    i: int,
    j: int,
)
    requires
        fits(area),
        row_columns_within(ws, area, terminal),
        0 <= i < ws.len(),
        0 <= j < ws.len(),
        spec_render_plan(ws, area, terminal)[i] is Some,
        spec_render_plan(ws, area, terminal)[j] is Some,
    ensures
        within(spec_render_plan(ws, area, terminal)[i]->0, area),
        spec_render_plan(ws, area, terminal)[i]->0.height > 0,
        i != j ==> disjoint(
            spec_render_plan(ws, area, terminal)[i]->0,
            spec_render_plan(ws, area, terminal)[j]->0,
        ),
{
    let n = ws.len() as int;
    lemma_indices_at(ws, WidgetPosition::Bottom, n);
    let bottoms = indices_at(ws, WidgetPosition::Bottom, n);
    let rc = spec_row_count(ws, terminal);
    let budget = if rc > 0 {
        sat_sub(area.height as int, MIN_WIDGET_ROW_HEIGHT as int)
    } else {
        area.height as int
    };
    let needs = band_needs(ws, bottoms, area.width);
    lemma_band_grants(needs, budget);
    let gs = band_grants(needs, budget);
    let ki = lemma_place_within(ws, area, terminal, i);
    let kj = lemma_place_within(ws, area, terminal, j);
    if i != j && ws[i].position == WidgetPosition::Bottom && ws[j].position
        == WidgetPosition::Bottom {
        assert(ki != kj);
        assert forall|m: int| 0 <= m < gs.len() implies #[trigger] gs[m] >= 0 by {}
        if ki < kj {
            lemma_prefix_sums_grow(gs, ki + 1, kj);
        } else {
            lemma_prefix_sums_grow(gs, kj + 1, ki);
        }
    }
    if i != j && ws[i].position == WidgetPosition::Bottom && ws[j].position
        != WidgetPosition::Bottom {
        lemma_prefix_sums(gs, ki);
    }
    if i != j && ws[j].position == WidgetPosition::Bottom && ws[i].position
        != WidgetPosition::Bottom {
        lemma_prefix_sums(gs, kj);
    }
    if i != j && ws[i].position == WidgetPosition::Auto && ws[j].position
        == WidgetPosition::Auto {
        assert(ki != kj);
        let row = plan_row_area(ws, area, terminal);
        let cs = layout_equal_columns(row, rc as u32);
        if ki < kj {
            assert(cs[ki].x + cs[ki].width <= cs[kj].x);
        } else {
            assert(cs[kj].x + cs[kj].width <= cs[ki].x);
        }
    }
}

/// After a layout, a widget is shown exactly when its area is not the
/// empty one, every shown widget's area lies within the area laid out, and
/// no two shown widgets' areas share a cell.
proof fn lemma_laid_out_apart(old: ClockWidgets, new: ClockWidgets, area: Rect, terminal: Rect)
    requires
        laid_out(old, new, area, terminal),
        fits(area),
        row_columns_within(old.widgets@, area, terminal),
    ensures
        shown_within_and_apart(new, area),
{
    let ws = old.widgets@;
    let plan = spec_render_plan(ws, area, terminal);
    assert forall|i: int, j: int|
        0 <= i < new.widgets@.len() && 0 <= j < new.widgets@.len() && #[trigger] new.widgets@[i].visible
            && #[trigger] new.widgets@[j].visible implies within(new.viewports@[i], area) && (i
        != j ==> disjoint(new.viewports@[i], new.viewports@[j])) by {
        assert(new.widgets@[i] == rendered(ws[i], plan[i]));
        assert(new.widgets@[j] == rendered(ws[j], plan[j]));
        assert(plan[i] is Some && plan[j] is Some);
        shown_widgets_lie_within_the_area_and_apart(ws, area, terminal, i, j);
    }
    assert forall|i: int| 0 <= i < new.widgets@.len() implies (#[trigger] new.widgets@[i].visible
        <==> new.viewports@[i] != empty_rect()) by {
        assert(new.widgets@[i] == rendered(ws[i], plan[i]));
        if plan[i] is Some {
            shown_widgets_lie_within_the_area_and_apart(ws, area, terminal, i, i);
        }
    }
}

/// Whether a widget of `ws` is shown exactly when it was drawn in a
/// non-empty area, each shown widget was drawn within `area`, and no two
/// shown widgets were drawn in areas that share a cell.
pub open spec fn shown_within_and_apart(ws: ClockWidgets, area: Rect) -> bool {
    &&& forall|i: int|
        0 <= i < ws.widgets@.len() ==> (#[trigger] ws.widgets@[i].visible <==> ws.viewports@[i]
            != empty_rect())
    &&& forall|i: int, j: int|
        0 <= i < ws.widgets@.len() && 0 <= j < ws.widgets@.len() && #[trigger] ws.widgets@[i].visible
            && #[trigger] ws.widgets@[j].visible ==> within(ws.viewports@[i], area) && (i != j
            ==> disjoint(ws.viewports@[i], ws.viewports@[j]))
}

impl ClockWidgets {
    /// Hides every widget and forgets where widgets were drawn.
    fn reset_layout(&mut self)
        ensures
            final(self).themes == old(self).themes,
            final(self).theme_index == old(self).theme_index,
            final(self).active_widget == old(self).active_widget,
            final(self).widgets@.len() == old(self).widgets@.len(),
            final(self).viewports@.len() == old(self).widgets@.len(),
            forall|j: int|
                0 <= j < old(self).widgets@.len() ==> #[trigger] final(self).widgets@[j] == rendered(
                    old(self).widgets@[j],
                    None,
                ),
            forall|j: int|
                0 <= j < old(self).widgets@.len() ==> #[trigger] final(self).viewports@[j]
                    == empty_rect(),
    {
        let ghost ws = self.widgets@;
        let ghost old_self = *self;
        let n = self.widgets.len();
        let mut viewports: Vec<Rect> = Vec::new();
        let mut i: usize = 0;
        while i < n
            invariant
                n == ws.len(),
                self.themes == old_self.themes,
                self.theme_index == old_self.theme_index,
                self.active_widget == old_self.active_widget,
                self.widgets@.len() == n,
                viewports@.len() == i,
                i <= n,
                forall|j: int| 0 <= j < i ==> #[trigger] viewports@[j] == empty_rect(),
                forall|j: int|
                    0 <= j < n ==> #[trigger] self.widgets@[j] == if j < i {
                        rendered(ws[j], None)
                    } else {
                        ws[j]
                    },
            decreases n - i,
        {
            viewports.push(Rect::default());
            self.widgets[i].visible = false;
            i += 1;
        }
        self.viewports = viewports;
    }

    /// The indices of the widgets in position `pos`, in order.
    fn indices_of(&self, pos: WidgetPosition) -> (r: Vec<usize>)
        ensures
            r@.map_values(|x: usize| x as int) == indices_at(
                self.widgets@,
                pos,
                self.widgets@.len() as int,
            ),
    {
        let ghost ws = self.widgets@;
        let mut r: Vec<usize> = Vec::new();
        let mut i: usize = 0;
        while i < self.widgets.len()
            invariant
                ws == self.widgets@,
                i <= ws.len(),
                r@.map_values(|x: usize| x as int) == indices_at(ws, pos, i as int),
            decreases ws.len() - i,
        {
            if self.widgets[i].position == pos {
                r.push(i);
            }
            assert(r@.map_values(|x: usize| x as int) =~= indices_at(ws, pos, i + 1));
            i += 1;
        }
        r
    }

    /// The rows each full-width band gets, and their sum.
    fn band_heights(&self, bottom_indices: &Vec<usize>, width: u16, budget: u16) -> (r: (
        Vec<u16>,
        u16,
    ))
        requires
            forall|m: int|
                0 <= m < bottom_indices@.len() ==> #[trigger] bottom_indices@[m]
                    < self.widgets@.len(),
        ensures
            r.0@.map_values(|h: u16| h as int) == band_grants(
                band_needs(
                    self.widgets@,
                    bottom_indices@.map_values(|x: usize| x as int),
                    width,
                ),
                budget as int,
            ),
            r.1 == seq_sum(
                band_grants(
                    band_needs(
                        self.widgets@,
                        bottom_indices@.map_values(|x: usize| x as int),
                        width,
                    ),
                    budget as int,
                ),
            ),
            r.1 <= budget,
    {
        let ghost ws = self.widgets@;
        let ghost needs = band_needs(ws, bottom_indices@.map_values(|x: usize| x as int), width);
        let mut heights: Vec<u16> = Vec::new();
        let mut total: u16 = 0;
        let mut k: usize = 0;
        while k < bottom_indices.len()
            invariant
                ws == self.widgets@,
                needs == band_needs(ws, bottom_indices@.map_values(|x: usize| x as int), width),
                forall|m: int|
                    0 <= m < bottom_indices@.len() ==> #[trigger] bottom_indices@[m] < ws.len(),
                k <= bottom_indices@.len(),
                needs.len() == bottom_indices@.len(),
                heights@.map_values(|h: u16| h as int) == band_grants(needs.take(k as int), budget as int),
                total == seq_sum(band_grants(needs.take(k as int), budget as int)),
                total <= budget,
            decreases bottom_indices@.len() - k,
        {
            let index = bottom_indices[k];
            assert(bottom_indices@.map_values(|x: usize| x as int)[k as int] == index as int);
            let title = self.widgets[index].title();
            let needed = bottom_widget_height(
                title.as_str(),
                self.widgets[index].output.as_str(),
                width,
            );
            assert(needed == needs[k as int]);
            assert(needs.take(k + 1).drop_last() == needs.take(k as int));
            let room = budget.saturating_sub(total);
            let granted = if needed < room {
                needed
            } else {
                room
            };
            let ghost prev = heights@;
            let ghost g0 = band_grants(needs.take(k as int), budget as int);
            let ghost g1 = band_grants(needs.take(k + 1), budget as int);
            let ghost elem: int = if granted < MIN_BOTTOM_WIDGET_HEIGHT {
                0
            } else {
                granted as int
            };
            assert(needs.take(k + 1).last() == needs[k as int]);
            assert(g1 == g0.push(elem));
            assert(g1.drop_last() == g0);
            assert(seq_sum(g1) == seq_sum(g0) + elem);
            if granted < MIN_BOTTOM_WIDGET_HEIGHT {
                heights.push(0);
            } else {
                heights.push(granted);
                total = total + granted;
            }
            assert(heights@.map_values(|h: u16| h as int) =~= prev.map_values(|h: u16| h as int).push(elem));
            k += 1;
        }
        assert(needs.take(k as int) == needs);
        (heights, total)
    }

    /// Shows widget `index` in `viewport`, keeping its scroll within what
    /// the viewport can scroll.
    fn place(&mut self, index: usize, viewport: Rect, Ghost(w0): Ghost<ClockWidget>)
        requires
            index < old(self).widgets@.len(),
            index < old(self).viewports@.len(),
            old(self).widgets@[index as int] == rendered(w0, None),
        ensures
            final(self).themes == old(self).themes,
            final(self).theme_index == old(self).theme_index,
            final(self).active_widget == old(self).active_widget,
            final(self).widgets@.len() == old(self).widgets@.len(),
            final(self).viewports@.len() == old(self).viewports@.len(),
            final(self).widgets@[index as int] == rendered(w0, Some(viewport)),
            final(self).viewports@[index as int] == viewport,
            forall|j: int|
                0 <= j < old(self).widgets@.len() && j != index ==> #[trigger] final(self).widgets@[j]
                    == old(self).widgets@[j],
            forall|j: int|
                0 <= j < old(self).viewports@.len() && j != index
                    ==> #[trigger] final(self).viewports@[j] == old(self).viewports@[j],
    {
        self.viewports[index] = viewport;
        self.widgets[index].visible = true;
        let ghost shown = self.widgets@[index as int];
        assert(spec_max_scroll(shown, viewport) == spec_max_scroll(w0, viewport));
        self.widgets[index].clamp_scroll(viewport);
    }

    /// Lays the widgets out in `area` on a terminal of the size of
    /// `terminal_area` (see `spec_render_plan`): each widget is shown or
    /// hidden, remembers where it is drawn (hidden ones the empty area, so
    /// that the mouse never finds them), and keeps its scroll within what
    /// that area can scroll. The program then draws each shown widget's text
    /// in its area.
    #[verifier::rlimit(60)]
    pub fn render(&mut self, area: Rect, terminal_area: Rect)
        requires
            fits(area),
        ensures
            laid_out(*old(self), *final(self), area, terminal_area),
            shown_within_and_apart(*final(self), area),
            area.width == 0 || area.height == 0 ==> forall|i: int|
                0 <= i < final(self).widgets@.len() ==> !(#[trigger] final(self).widgets@[i]).visible,
    {
        let ghost ws = self.widgets@;
        let ghost old_self = *self;
        let n = self.widgets.len();
        let ghost none = Seq::new(n as nat, |i: int| None::<Rect>);
        let row_indices = self.indices_of(WidgetPosition::Auto);
        let bottom_indices = self.indices_of(WidgetPosition::Bottom);
        let ghost rows = indices_at(ws, WidgetPosition::Auto, n as int);
        let ghost bottoms = indices_at(ws, WidgetPosition::Bottom, n as int);
        proof {
            lemma_indices_at(ws, WidgetPosition::Auto, n as int);
            lemma_indices_at(ws, WidgetPosition::Bottom, n as int);
        }
        assert(row_indices@.len() == rows.len());
        assert(bottom_indices@.len() == bottoms.len());
        let row_count = visible_widget_count(terminal_area, row_indices.len());
        let ghost rc = spec_row_count(ws, terminal_area);
        let bottom_budget = if row_count > 0 {
            area.height.saturating_sub(MIN_WIDGET_ROW_HEIGHT)
        } else {
            area.height
        };
        assert forall|m: int| 0 <= m < bottom_indices@.len() implies #[trigger] bottom_indices@[m] < n by {
            assert(bottom_indices@[m] as int == bottoms[m]);
        }
        let (bottom_heights, bottom_total) = self.band_heights(
            &bottom_indices,
            area.width,
            bottom_budget,
        );
        let ghost gs = band_grants(band_needs(ws, bottoms, area.width), bottom_budget as int);
        proof {
            let needs = band_needs(ws, bottoms, area.width);
            assert forall|k: int| 0 <= k < needs.len() implies #[trigger] needs[k] >= 0 by {}
            lemma_band_grants(needs, bottom_budget as int);
            assert forall|m: int| 0 <= m < gs.len() implies #[trigger] gs[m] >= 0 by {}
            lemma_prefix_sums(gs, gs.len() as int);
        }
        self.reset_layout();
        if area.height == 0 || area.width == 0 {
            return;
        }
        let row_area = Rect { height: area.height - bottom_total, ..area };
        let ghost top = area.y + row_area.height;
        let ghost p1 = if rc > 0 && row_area.height > 0 {
            plan_rows(none, rows, layout_equal_columns(row_area, rc as u32), rc)
        } else {
            none
        };
        // The row.

        assert(row_area == plan_row_area(ws, area, terminal_area));
        if row_count > 0 && row_area.height > 0 {
            let chunks = split_equal_columns(row_area, row_count as u32);
            let ghost cs = layout_equal_columns(row_area, rc as u32);
            assert forall|m: int| 0 <= m < rc implies #[trigger] within(cs[m], row_area)
                && cs[m].height == row_area.height by {
                assert(chunks@[m].y == row_area.y);
            }
            assert forall|m: int, l: int| 0 <= m < l < rc implies #[trigger] cs[m].x + cs[m].width
                <= #[trigger] cs[l].x by {
                assert(chunks@[m].x + chunks@[m].width <= chunks@[l].x);
            }
            let mut k: usize = 0;
            while k < row_count
                invariant
                    row_columns_within(ws, area, terminal_area),
                    n == ws.len(),
                    self.themes == old_self.themes,
                    self.theme_index == old_self.theme_index,
                    self.active_widget == old_self.active_widget,
                    none == Seq::new(n as nat, |i: int| None::<Rect>),
                    self.widgets@.len() == n,
                    self.viewports@.len() == n,
                    row_indices@.map_values(|x: usize| x as int) == rows,
                    forall|m: int|
                        0 <= m < rows.len() ==> 0 <= #[trigger] rows[m] < n,
                    forall|m1: int, m2: int|
                        0 <= m1 < m2 < rows.len() ==> #[trigger] rows[m1] < #[trigger] rows[m2],
                    row_count == rc,
                    rc <= rows.len(),
                    chunks@ == cs,
                    chunks@.len() == row_count,
                    forall|m: int|
                        0 <= m < cs.len() ==> {
                            &&& #[trigger] cs[m].y == row_area.y
                            &&& cs[m].height == row_area.height
                            &&& cs[m].x + cs[m].width <= u16::MAX
                        },
                    fits(area),
                    row_area.y == area.y,
                    row_area.height <= area.height,
                    k <= row_count,
                    plan_rows(none, rows, cs, k as int).len() == n,
                    forall|j: int|
                        0 <= j < n ==> #[trigger] self.widgets@[j] == rendered(
                            ws[j],
                            plan_rows(none, rows, cs, k as int)[j],
                        ),
                    forall|j: int|
                        0 <= j < n ==> #[trigger] self.viewports@[j] == viewport_of(
                            plan_rows(none, rows, cs, k as int)[j],
                        ),
                decreases row_count - k,
            {
                let index = row_indices[k];
                assert(index as int == rows[k as int]);
                proof {
                    assert forall|m: int| 0 <= m < k implies #[trigger] rows[m] != rows[k as int] by {}
                    lemma_plan_rows_frame(none, rows, cs, k as int, index as int);
                    lemma_plan_rows_len(none, rows, cs, k + 1);
                }
                assert(plan_rows(none, rows, cs, k as int)[index as int] == None::<Rect>);
                let viewport = padded_widget_area(chunks[k]);
                self.place(index, viewport, Ghost(ws[index as int]));
                proof {
                    assert forall|j: int| 0 <= j < n implies #[trigger] self.widgets@[j] == rendered(
                        ws[j],
                        plan_rows(none, rows, cs, k + 1)[j],
                    ) && self.viewports@[j] == viewport_of(plan_rows(none, rows, cs, k + 1)[j]) by {
                        if j != index {
                            assert(plan_rows(none, rows, cs, k + 1)[j] == plan_rows(
                                none,
                                rows,
                                cs,
                                k as int,
                            )[j]);
                        }
                    }
                }
                k += 1;
            }
        }
        proof {
            if rc > 0 && row_area.height > 0 {
                lemma_plan_rows_len(none, rows, layout_equal_columns(row_area, rc as u32), rc);
            }
            assert forall|j: int|
                0 <= j < n && ws[j].position == WidgetPosition::Bottom implies #[trigger] p1[j]
                == None::<Rect> by {
                if rc > 0 && row_area.height > 0 {
                    let cs = layout_equal_columns(row_area, rc as u32);
                    assert forall|m: int| 0 <= m < rc implies #[trigger] rows[m] != j by {
                        assert(ws[rows[m]].position == WidgetPosition::Auto);
                    }
                    lemma_plan_rows_frame(none, rows, cs, rc, j);
                }
            }
        }
        // The full-width bands.

        let mut bottom_y = area.y + row_area.height;
        let mut k: usize = 0;
        while k < bottom_heights.len()
            invariant
                row_columns_within(ws, area, terminal_area),
                n == ws.len(),
                self.themes == old_self.themes,
                self.theme_index == old_self.theme_index,
                self.active_widget == old_self.active_widget,
                self.widgets@.len() == n,
                self.viewports@.len() == n,
                p1.len() == n,
                forall|j: int|
                    0 <= j < n && ws[j].position == WidgetPosition::Bottom ==> #[trigger] p1[j]
                        == None::<Rect>,
                bottom_indices@.map_values(|x: usize| x as int) == bottoms,
                forall|m: int|
                    0 <= m < bottoms.len() ==> {
                        &&& 0 <= #[trigger] bottoms[m] < n
                        &&& ws[bottoms[m]].position == WidgetPosition::Bottom
                    },
                forall|m1: int, m2: int|
                    0 <= m1 < m2 < bottoms.len() ==> #[trigger] bottoms[m1] < #[trigger] bottoms[m2],
                bottom_heights@.map_values(|h: u16| h as int) == gs,
                gs.len() == bottoms.len(),
                forall|m: int| 0 <= m < gs.len() ==> #[trigger] gs[m] >= 0,
                top + seq_sum(gs) == area.y + area.height,
                fits(area),
                k <= gs.len(),
                bottom_y == top + seq_sum(gs.take(k as int)),
                plan_bands(p1, bottoms, gs, area, top, k as int).len() == n,
                forall|j: int|
                    0 <= j < n ==> #[trigger] self.widgets@[j] == rendered(
                        ws[j],
                        plan_bands(p1, bottoms, gs, area, top, k as int)[j],
                    ),
                forall|j: int|
                    0 <= j < n ==> #[trigger] self.viewports@[j] == viewport_of(
                        plan_bands(p1, bottoms, gs, area, top, k as int)[j],
                    ),
            decreases gs.len() - k,
        {
            let height = bottom_heights[k];
            assert(height as int == gs[k as int]);
            proof {
                lemma_prefix_sums(gs, k as int);
                lemma_prefix_sums(gs, k + 1);
                lemma_plan_bands_len(p1, bottoms, gs, area, top, k + 1);
            }
            if height != 0 {
                let index = bottom_indices[k];
                assert(index as int == bottoms[k as int]);
                proof {
                    assert forall|m: int| 0 <= m < k implies #[trigger] bottoms[m] != bottoms[k as int] by {}
                    lemma_plan_bands_frame(p1, bottoms, gs, area, top, k as int, index as int);
                }
                assert(plan_bands(p1, bottoms, gs, area, top, k as int)[index as int] == None::<Rect>);
                let band = Rect { x: area.x, y: bottom_y, width: area.width, height };
                bottom_y = bottom_y + height;
                assert(band == band_rect(area, top, gs, k as int));
                let viewport = padded_widget_area(band);
                self.place(index, viewport, Ghost(ws[index as int]));
                proof {
                    assert forall|j: int| 0 <= j < n implies #[trigger] self.widgets@[j] == rendered(
                        ws[j],
                        plan_bands(p1, bottoms, gs, area, top, k + 1)[j],
                    ) && self.viewports@[j] == viewport_of(
                        plan_bands(p1, bottoms, gs, area, top, k + 1)[j],
                    ) by {
                        if j != index {
                            assert(plan_bands(p1, bottoms, gs, area, top, k + 1)[j] == plan_bands(
                                p1,
                                bottoms,
                                gs,
                                area,
                                top,
                                k as int,
                            )[j]);
                        }
                    }
                }
            }
            k += 1;
        }
        proof {
            lemma_laid_out_apart(old_self, *self, area, terminal_area);
        }
    }
}

/// No normalized theme name is empty, and there are no more of them than
/// names given.
pub proof fn normalized_themes_are_nonempty(themes: Seq<Seq<char>>)
    ensures
        normalized_themes(themes).len() <= themes.len(),
        forall|k: int|
            0 <= k < normalized_themes(themes).len() ==> #[trigger] normalized_themes(themes)[k].len()
                > 0,
    decreases themes.len(),
{
    if themes.len() > 0 {
        normalized_themes_are_nonempty(themes.drop_last());
    }
}

} // verus!
