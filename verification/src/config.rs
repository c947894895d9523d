//! The settings that `config.toml` holds, with their defaults. Reading the
//! file is left to the program; these are the values it fills.
use vstd::prelude::*;

verus! {

/// How often a widget's command runs when its config gives 0 or nothing:
/// every fifteen minutes.
pub const DEFAULT_WIDGET_REFRESH_SECS: u64 = 900;

/// How long a widget's command may run when its config gives 0 or nothing.
pub const DEFAULT_WIDGET_TIMEOUT_SECS: u64 = 30;

/// Where a clock widget is drawn.
#[derive(Clone, Copy, Debug, PartialEq, Eq, Structural)]
pub enum WidgetPosition {
    /// In the row of widgets under the clock.
    Auto,
    /// In a full-width band under the row.
    Bottom,
}

/// `[default]`: the mode, color and size the clock starts with.
#[derive(Debug)]
pub struct DefaultConfig {
    pub mode: String,
    pub color: String,
    pub size: u16,
}

/// `[clock]`: what clock mode shows.
#[derive(Debug)]
pub struct ClockConfig {
    pub show_date: bool,
    pub show_seconds: bool,
    pub show_millis: bool,
    /// The name of the time zone, such as `America/New_York`.
    pub timezone: Option<String>,
    pub widgets: Vec<ClockWidgetConfig>,
    pub widget_themes: Vec<String>,
}

/// `[[clock.widgets]]`: a command whose output is shown under the clock.
#[derive(Debug)]
pub struct ClockWidgetConfig {
    pub title: Option<String>,
    pub command: Vec<String>,
    pub refresh_secs: u64,
    pub timeout_secs: u64,
    pub position: WidgetPosition,
}

/// `[timer]`: the timer's durations and behavior.
#[derive(Debug)]
pub struct TimerConfig {
    pub durations: Vec<String>,
    pub titles: Vec<String>,
    pub repeat: bool,
    pub show_millis: bool,
    pub start_paused: bool,
    pub auto_quit: bool,
    pub execute: Vec<String>,
}

/// `[stopwatch]`: nothing to set yet.
#[derive(Debug)]
pub struct StopwatchConfig {}

/// `[countdown]`: the target time and behavior of countdown mode.
#[derive(Debug)]
pub struct CountdownConfig {
    pub time: Option<String>,
    pub title: Option<String>,
    pub show_millis: bool,
    pub continue_on_zero: bool,
    pub reverse: bool,
}

/// The whole config file.
#[derive(Debug)]
pub struct Config {
    pub default: DefaultConfig,
    pub clock: ClockConfig,
    pub timer: TimerConfig,
    pub stopwatch: StopwatchConfig,
    pub countdown: CountdownConfig,
}

/// The mode the clock starts in: `clock`.
pub fn default_mode() -> (s: String)
    ensures
        s@ == "clock"@,
{
    String::from_str("clock")
}

/// The clock's color: `green`.
pub fn default_color() -> (s: String)
    ensures
        s@ == "green"@,
{
    String::from_str("green")
}

/// The clock's size: 1.
pub fn default_size() -> (n: u16)
    ensures
        n == 1,
{
    1
}

/// `true`, for flags that are on unless turned off.
pub fn default_true() -> (b: bool)
    ensures
        b,
{
    true
}

/// `false`, for flags that are off unless turned on.
pub fn default_false() -> (b: bool)
    ensures
        !b,
{
    false
}

/// The timer's durations: 25 minutes of work, then a 5 minute break.
pub fn default_timer_durations() -> (v: Vec<String>)
    ensures
        v.deep_view() == seq!["25m"@, "5m"@],
{
    let mut v = Vec::new();
    v.push(String::from_str("25m"));
    v.push(String::from_str("5m"));
    assert(v.deep_view() =~= seq!["25m"@, "5m"@]);
    v
}

/// The widget themes that `Shift+T` cycles through: `default`, then `nerv`.
pub fn default_widget_themes() -> (v: Vec<String>)
    ensures
        v.deep_view() == seq!["default"@, "nerv"@],
{
    let mut v = Vec::new();
    v.push(String::from_str("default"));
    v.push(String::from_str("nerv"));
    assert(v.deep_view() =~= seq!["default"@, "nerv"@]);
    v
}

/// How often a widget's command runs by default, in seconds.
pub fn default_widget_refresh_secs() -> (n: u64)
    ensures
        n == DEFAULT_WIDGET_REFRESH_SECS,
{
    DEFAULT_WIDGET_REFRESH_SECS
}

/// How long a widget's command may run by default, in seconds.
pub fn default_widget_timeout_secs() -> (n: u64)
    ensures
        n == DEFAULT_WIDGET_TIMEOUT_SECS,
{
    DEFAULT_WIDGET_TIMEOUT_SECS
}

impl Default for DefaultConfig {
    fn default() -> (c: Self)
        ensures
            c.mode@ == "clock"@,
            c.color@ == "green"@,
            c.size == 1,
    {
        DefaultConfig { mode: default_mode(), color: default_color(), size: default_size() }
    }
}

impl Default for ClockConfig {
    fn default() -> (c: Self)
        ensures
            c.show_date,
            c.show_seconds,
            !c.show_millis,
            c.timezone is None,
            c.widgets@.len() == 0,
            c.widget_themes.deep_view() == seq!["default"@, "nerv"@],
    {
        ClockConfig {
            show_date: default_true(),
            show_seconds: default_true(),
            show_millis: default_false(),
            timezone: None,
            widgets: Vec::new(),
            widget_themes: default_widget_themes(),
        }
    }
}

impl Default for TimerConfig {
    fn default() -> (c: Self)
        ensures
            c.durations.deep_view() == seq!["25m"@, "5m"@],
            c.titles@.len() == 0,
            !c.repeat,
            c.show_millis,
            !c.start_paused,
            !c.auto_quit,
            c.execute@.len() == 0,
    {
        TimerConfig {
            durations: default_timer_durations(),
            titles: Vec::new(),
            repeat: false,
            show_millis: default_true(),
            start_paused: false,
            auto_quit: false,
            execute: Vec::new(),
        }
    }
}

impl Default for StopwatchConfig {
    fn default() -> (c: Self) {
        StopwatchConfig {  }
    }
}

impl Default for CountdownConfig {
    fn default() -> (c: Self)
        ensures
            c.time is None,
            c.title is None,
            !c.show_millis,
            !c.continue_on_zero,
            !c.reverse,
    {
        CountdownConfig {
            time: None,
            title: None,
            show_millis: false,
            continue_on_zero: false,
            reverse: false,
        }
    }
}

} // verus!
