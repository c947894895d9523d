//! The app: its modes, the times it reads from the command line and the
//! config, and how the command line and the config combine into the mode it
//! starts in.
use vstd::prelude::*;

use chrono::{Datelike, TimeZone, Timelike};

use crate::clock::{Clock, LocalDateTime};
use crate::config::{default_widget_themes, ClockWidgetConfig, Config};
use crate::duration::{duration_in_range, parsed_duration_is_in_range, DurationFormat};
use crate::settings::{
    configured_timer_durations, default_timer_nanos, parse_color, parsed_durations,
    spec_parse_color, str_eq,
};
use crate::style::{plain_style, with_fg, Color, Style};
use crate::text::{trim, trimmed};
use crate::widgets::{
    configured, due_jobs, marked_running, normalized_themes, output_received, scrolled_at,
    scrolled_to_bottom, scrolled_to_top, theme_cycled, WidgetJob,
};

verus! {

/// An instant: seconds since the Unix epoch and the nanoseconds past them.
#[derive(Clone, Copy, Debug, PartialEq, Eq, Structural)]
pub struct Timestamp {
    pub secs: i64,
    pub nanos: u32,
}

// ---------------------------------------------------------------------------
// chrono parsing
/// The time (hour, minute, second, nanosecond) that chrono's
/// `NaiveTime::parse_from_str` reads from `s` with `pattern`, if any.
pub uninterp spec fn chrono_parsed_time(s: Seq<char>, pattern: Seq<char>) -> Option<
    (u32, u32, u32, u32),
>;

/// The date (year, month, day) that chrono's `NaiveDate::parse_from_str`
/// reads from `s` with `pattern`, if any.
pub uninterp spec fn chrono_parsed_date(s: Seq<char>, pattern: Seq<char>) -> Option<
    (i32, u32, u32),
>;

/// The date and time that chrono's `NaiveDateTime::parse_from_str` reads
/// from `s` with `pattern`, if any.
pub uninterp spec fn chrono_parsed_date_time(s: Seq<char>, pattern: Seq<char>) -> Option<
    LocalDateTime,
>;

/// The instant that chrono's `DateTime::parse_from_rfc3339` reads from `s`,
/// if any.
pub uninterp spec fn chrono_parsed_rfc3339(s: Seq<char>) -> Option<Timestamp>;

/// How chrono writes a date and time (`NaiveDateTime`'s `Display`), if the
/// fields make one.
pub uninterp spec fn chrono_naive_text(dt: LocalDateTime) -> Option<Seq<char>>;

/// chrono's `NaiveTime::parse_from_str`: what it reads is named.
#[verifier::external_body]
fn parse_time_with(s: &str, pattern: &str) -> (r: Option<(u32, u32, u32, u32)>)
    ensures
        r == chrono_parsed_time(s@, pattern@),
{
    match chrono::NaiveTime::parse_from_str(s, pattern) {
        Ok(t) => Some((t.hour(), t.minute(), t.second(), t.nanosecond())),
        Err(_) => None,
    }
}

/// chrono's `NaiveDate::parse_from_str`: what it reads is named.
#[verifier::external_body]
fn parse_date(s: &str, pattern: &str) -> (r: Option<(i32, u32, u32)>)
    ensures
        r == chrono_parsed_date(s@, pattern@),
{
    match chrono::NaiveDate::parse_from_str(s, pattern) {
        Ok(d) => Some((d.year(), d.month(), d.day())),
        Err(_) => None,
    }
}

/// chrono's `NaiveDateTime::parse_from_str`: what it reads is named.
#[verifier::external_body]
fn parse_date_time(s: &str, pattern: &str) -> (r: Option<LocalDateTime>)
    ensures
        r == chrono_parsed_date_time(s@, pattern@),
{
    match chrono::NaiveDateTime::parse_from_str(s, pattern) {
        Ok(t) => Some(
            LocalDateTime {
                year: t.year(),
                month: t.month(),
                day: t.day(),
                hour: t.hour(),
                minute: t.minute(),
                second: t.second(),
                nanosecond: t.nanosecond(),
            },
        ),
        Err(_) => None,
    }
}

/// chrono's `DateTime::parse_from_rfc3339`: the instant it reads is named.
#[verifier::external_body]
fn parse_rfc3339(s: &str) -> (r: Option<Timestamp>)
    ensures
        r == chrono_parsed_rfc3339(s@),
{
    match chrono::DateTime::parse_from_rfc3339(s) {
        Ok(t) => Some(Timestamp { secs: t.timestamp(), nanos: t.timestamp_subsec_nanos() }),
        Err(_) => None,
    }
}

/// chrono's `Display` of the `NaiveDateTime` with the fields of `dt`
/// (`None` when they make no date and time): the text is named.
#[verifier::external_body]
fn naive_text(dt: LocalDateTime) -> (r: Option<String>)
    ensures
        match r {
            Some(s) => chrono_naive_text(dt) == Some(s@),
            None => chrono_naive_text(dt) is None,
        },
{
    match chrono::NaiveDate::from_ymd_opt(dt.year, dt.month, dt.day) {
        Some(d) => match d.and_hms_nano_opt(dt.hour, dt.minute, dt.second, dt.nanosecond) {
            Some(t) => Some(t.to_string()),
            None => None,
        },
        None => None,
    }
}

/// Today's date (year, month, day) in the local time zone, from chrono's
/// `Local::now`. Which date it is depends on the clock and the time zone,
/// so that is not stated; chrono's dates have a month from 1 to 12 and a
/// day from 1 to 31.
#[verifier::external_body]
fn local_today() -> (r: (i32, u32, u32))
    ensures
        1 <= r.1 <= 12,
        1 <= r.2 <= 31,
{
    let d = chrono::Local::now().date_naive();
    (d.year(), d.month(), d.day())
}

/// What a wall-clock date and time is in the local time zone.
#[derive(Clone, Copy, Debug, PartialEq, Eq, Structural)]
pub enum LocalConversion {
    /// One instant.
    Single(Timestamp),
    /// Two instants: the clocks were turned back.
    Ambiguous,
    /// No instant: the clocks were turned forward, or the fields make no
    /// date and time.
    Missing,
}

/// The days from 1970-01-01 to the date `year`-`month`-`day` of the
/// proleptic Gregorian calendar (negative before it).
pub open spec fn days_from_civil(year: int, month: int, day: int) -> int {
    let y = if month <= 2 {
        year - 1
    } else {
        year
    };
    let era = y / 400;
    let yoe = y - era * 400;
    let mp = (month + 9) % 12;
    let doy = (153 * mp + 2) / 5 + day - 1;
    let doe = yoe * 365 + yoe / 4 - yoe / 100 + doy;
    era * 146097 + doe - 719468
}

/// The seconds since the Unix epoch that the wall-clock date and time `dt`
/// would be at UTC (leap seconds not counted).
pub open spec fn wall_clock_seconds(dt: LocalDateTime) -> int {
    days_from_civil(dt.year as int, dt.month as int, dt.day as int) * 86400 + dt.hour * 3600
        + dt.minute * 60 + dt.second
}

/// Whether `t` is an instant that the wall-clock time `dt` can stand for
/// in some time zone: the same fraction of a second, and less than a day
/// away from `dt` read as UTC, as a zone's offset is under a day.
pub open spec fn within_a_day_of(t: Timestamp, dt: LocalDateTime) -> bool {
    &&& t.nanos == dt.nanosecond
    &&& wall_clock_seconds(dt) - 86400 < t.secs < wall_clock_seconds(dt) + 86400
}

/// chrono's `Local.from_local_datetime` for the date and time with the
/// fields of `dt`. Which instant it gives, and whether one, depends on the
/// machine's time zone, so that is not stated; the source shows that a
/// single instant is `dt` less the zone's offset, which is under a day
/// (`FixedOffset::east_opt`), with the same fraction of a second.
#[verifier::external_body]
fn local_conversion(dt: LocalDateTime) -> (r: LocalConversion)
    ensures
        r matches LocalConversion::Single(t) ==> within_a_day_of(t, dt),
{
    let naive = match chrono::NaiveDate::from_ymd_opt(dt.year, dt.month, dt.day) {
        Some(d) => d.and_hms_nano_opt(dt.hour, dt.minute, dt.second, dt.nanosecond),
        None => None,
    };
    match naive {
        Some(n) => match chrono::Local.from_local_datetime(&n) {
            chrono::LocalResult::Single(t) => LocalConversion::Single(
                Timestamp { secs: t.timestamp(), nanos: t.timestamp_subsec_nanos() },
            ),
            chrono::LocalResult::Ambiguous(_, _) => LocalConversion::Ambiguous,
            chrono::LocalResult::None => LocalConversion::Missing,
        },
        None => LocalConversion::Missing,
    }
}

// ---------------------------------------------------------------------------
// Reading times
/// The text shown for a date and time in an error: chrono's text, or
/// nothing when there is none.
pub open spec fn shown_text(text: Option<Seq<char>>) -> Seq<char> {
    match text {
        Some(t) => t,
        None => Seq::empty(),
    }
}

/// An optional string taken by its characters.
pub open spec fn text_view(text: Option<String>) -> Option<Seq<char>> {
    match text {
        Some(s) => Some(s@),
        None => None,
    }
}

/// A result whose error is a string, with the error taken by its
/// characters.
pub open spec fn result_view(r: Result<Timestamp, String>) -> Result<Timestamp, Seq<char>> {
    match r {
        Ok(t) => Ok(t),
        Err(m) => Err(m@),
    }
}

/// The local instant for a date and time, given how the local time zone
/// maps it (`conversion`) and chrono's text for it (`text`): the one
/// instant, else an error naming the time as ambiguous or missing.
pub open spec fn spec_local_datetime(
    conversion: LocalConversion,
    text: Option<Seq<char>>,
) -> Result<Timestamp, Seq<char>> {
    match conversion {
        LocalConversion::Single(t) => Ok(t),
        LocalConversion::Ambiguous => Err("Ambiguous local time: "@ + shown_text(text)),
        LocalConversion::Missing => Err("Invalid local time: "@ + shown_text(text)),
    }
}

/// Whether `m` is the error for the date and time `dt` when the local time
/// zone has no single instant for it.
pub open spec fn local_time_error(m: Seq<char>, dt: LocalDateTime) -> bool {
    ||| m == "Ambiguous local time: "@ + shown_text(chrono_naive_text(dt))
    ||| m == "Invalid local time: "@ + shown_text(chrono_naive_text(dt))
}

/// The local instant for a date and time, from how the local time zone
/// maps it and chrono's text for it.
pub fn local_datetime_from(conversion: LocalConversion, text: Option<String>) -> (r: Result<
    Timestamp,
    String,
>)
    ensures
        result_view(r) == spec_local_datetime(conversion, text_view(text)),
{
    let shown = match text {
        Some(t) => t,
        None => String::new(),
    };
    match conversion {
        LocalConversion::Single(t) => Ok(t),
        LocalConversion::Ambiguous => {
            let mut m = String::from_str("Ambiguous local time: ");
            m.append(shown.as_str());
            Err(m)
        },
        LocalConversion::Missing => {
            let mut m = String::from_str("Invalid local time: ");
            m.append(shown.as_str());
            Err(m)
        },
    }
}

/// The local instant for the date and time `date_time`, less than a day
/// from it read as UTC and with its fraction of a second; an error, which
/// shows chrono's text for it, when the local time zone has no single
/// instant for it. Which times those are depends on the machine.
pub fn local_datetime(date_time: LocalDateTime) -> (r: Result<Timestamp, String>)
    ensures
        r matches Ok(t) ==> within_a_day_of(t, date_time),
        r matches Err(m) ==> local_time_error(m@, date_time),
{
    let conversion = local_conversion(date_time);
    let text = naive_text(date_time);
    let ghost viewed = text_view(text);
    let r = local_datetime_from(conversion, text);
    assert(viewed == chrono_naive_text(date_time));
    r
}

/// Which reading of a time text applies: the first that chrono accepts of
/// `%H:%M` today, `%H:%M:%S` today, `%Y-%m-%d` at midnight,
/// `%Y-%m-%d %H:%M:%S`, and RFC 3339.
#[derive(Clone, Copy, Debug, PartialEq, Eq, Structural)]
pub enum TimeReading {
    /// A time of day, today.
    Today(u32, u32, u32, u32),
    /// A date, at midnight.
    Midnight(i32, u32, u32),
    /// A date and time in the local time zone.
    Local(LocalDateTime),
    /// An instant with its own offset.
    Exact(Timestamp),
    /// None of these.
    Unreadable,
}

/// The reading of the trimmed time text `t`.
pub open spec fn spec_time_reading(t: Seq<char>) -> TimeReading {
    if let Some((h, m, s, n)) = chrono_parsed_time(t, "%H:%M"@) {
        TimeReading::Today(h, m, s, n)
    } else if let Some((h, m, s, n)) = chrono_parsed_time(t, "%H:%M:%S"@) {
        TimeReading::Today(h, m, s, n)
    } else if let Some((y, mo, d)) = chrono_parsed_date(t, "%Y-%m-%d"@) {
        TimeReading::Midnight(y, mo, d)
    } else if let Some(dt) = chrono_parsed_date_time(t, "%Y-%m-%d %H:%M:%S"@) {
        TimeReading::Local(dt)
    } else if let Some(ts) = chrono_parsed_rfc3339(t) {
        TimeReading::Exact(ts)
    } else {
        TimeReading::Unreadable
    }
}

/// Which reading of the time text `t` applies.
pub fn time_reading(t: &str) -> (r: TimeReading)
    ensures
        r == spec_time_reading(t@),
{
    if let Some((h, m, s, n)) = parse_time_with(t, "%H:%M") {
        return TimeReading::Today(h, m, s, n);
    }
    if let Some((h, m, s, n)) = parse_time_with(t, "%H:%M:%S") {
        return TimeReading::Today(h, m, s, n);
    }
    if let Some((y, mo, d)) = parse_date(t, "%Y-%m-%d") {
        return TimeReading::Midnight(y, mo, d);
    }
    if let Some(dt) = parse_date_time(t, "%Y-%m-%d %H:%M:%S") {
        return TimeReading::Local(dt);
    }
    if let Some(ts) = parse_rfc3339(t) {
        return TimeReading::Exact(ts);
    }
    TimeReading::Unreadable
}

/// Midnight at the start of the date `year`-`month`-`day`.
pub open spec fn midnight(year: i32, month: u32, day: u32) -> LocalDateTime {
    LocalDateTime { year, month, day, hour: 0, minute: 0, second: 0, nanosecond: 0 }
}

/// Whether `t` is an instant that the reading can give, whatever the local
/// time zone: the RFC 3339 instant itself; for a local reading, an instant
/// within a day of its wall-clock time with the same fraction of a second
/// (for a time of day, on some date).
pub open spec fn reading_instant(reading: TimeReading, t: Timestamp) -> bool {
    match reading {
        TimeReading::Exact(ts) => t == ts,
        TimeReading::Local(dt) => within_a_day_of(t, dt),
        TimeReading::Midnight(y, mo, d) => within_a_day_of(t, midnight(y, mo, d)),
        TimeReading::Today(h, mi, sec, n) => exists|dt: LocalDateTime|
            #[trigger] within_a_day_of(t, dt) && dt.hour == h && dt.minute == mi && dt.second
                == sec && dt.nanosecond == n,
        TimeReading::Unreadable => false,
    }
}

/// Reads the countdown's target time: `20:00` or `20:00:00` today,
/// `2022-12-25` at midnight or `2022-12-25 20:00:00` in the local time
/// zone, or an RFC 3339 time such as `2022-12-25T20:00:00-04:00`. Text that
/// is none of these is an error; a local time the time zone skips or
/// repeats is an error too, and which times those are depends on the
/// machine.
pub fn parse_datetime(s: &str) -> (r: Result<Timestamp, String>)
    ensures
        match spec_time_reading(trimmed(s@)) {
            TimeReading::Unreadable => r matches Err(m) && m@ == "Invalid time format"@,
            TimeReading::Exact(ts) => r == Ok::<Timestamp, String>(ts),
            TimeReading::Local(dt) => r matches Err(m) ==> local_time_error(m@, dt),
            TimeReading::Midnight(y, mo, d) => r matches Err(m) ==> local_time_error(
                m@,
                midnight(y, mo, d),
            ),
            TimeReading::Today(h, mi, sec, n) => r matches Err(m) ==> exists|dt: LocalDateTime|
                #[trigger] local_time_error(m@, dt) && dt.hour == h && dt.minute == mi && dt.second
                    == sec && dt.nanosecond == n,
        },
        r matches Ok(t) ==> reading_instant(spec_time_reading(trimmed(s@)), t),
{
    let t = trim(s);
    match time_reading(t.as_str()) {
        TimeReading::Today(h, m, sec, n) => {
            let (y, mo, d) = local_today();
            local_datetime(
                LocalDateTime {
                    year: y,
                    month: mo,
                    day: d,
                    hour: h,
                    minute: m,
                    second: sec,
                    nanosecond: n,
                },
            )
        },
        TimeReading::Midnight(y, mo, d) => local_datetime(
            LocalDateTime {
                year: y,
                month: mo,
                day: d,
                hour: 0,
                minute: 0,
                second: 0,
                nanosecond: 0,
            },
        ),
        TimeReading::Local(dt) => local_datetime(dt),
        TimeReading::Exact(ts) => Ok(ts),
        TimeReading::Unreadable => Err(String::from_str("Invalid time format")),
    }
}

// ---------------------------------------------------------------------------
// Modes
/// The mode the app runs in, as the command line or the config gives it.
#[derive(Debug)]
pub enum Mode {
    /// The current time, in the local time zone or the one named.
    Clock { timezone: Option<String>, no_date: bool, no_seconds: bool, millis: bool },
    /// Timers that count down the durations (in nanoseconds) in turn.
    Timer {
        durations: Vec<i128>,
        titles: Vec<String>,
        repeat: bool,
        no_millis: bool,
        paused: bool,
        auto_quit: bool,
        execute: Vec<String>,
    },
    /// The time since it was started.
    Stopwatch,
    /// The time to (or since) an instant.
    Countdown {
        time: Timestamp,
        title: Option<String>,
        continue_on_zero: bool,
        reverse: bool,
        millis: bool,
    },
}

/// A mode with its strings taken by their characters and its durations as
/// integers.
pub enum ModeView {
    Clock { timezone: Option<Seq<char>>, no_date: bool, no_seconds: bool, millis: bool },
    Timer {
        durations: Seq<int>,
        titles: Seq<Seq<char>>,
        repeat: bool,
        no_millis: bool,
        paused: bool,
        auto_quit: bool,
        execute: Seq<Seq<char>>,
    },
    Stopwatch,
    Countdown {
        time: Timestamp,
        title: Option<Seq<char>>,
        continue_on_zero: bool,
        reverse: bool,
        millis: bool,
    },
}

/// Durations in nanoseconds, as integers.
pub open spec fn nanos_view(v: Seq<i128>) -> Seq<int> {
    v.map_values(|n: i128| n as int)
}

impl View for Mode {
    type V = ModeView;

    open spec fn view(&self) -> ModeView {
        match self {
            Mode::Clock { timezone, no_date, no_seconds, millis } => ModeView::Clock {
                timezone: text_view(*timezone),
                no_date: *no_date,
                no_seconds: *no_seconds,
                millis: *millis,
            },
            Mode::Timer { durations, titles, repeat, no_millis, paused, auto_quit, execute } => {
                ModeView::Timer {
                    durations: nanos_view(durations@),
                    titles: titles.deep_view(),
                    repeat: *repeat,
                    no_millis: *no_millis,
                    paused: *paused,
                    auto_quit: *auto_quit,
                    execute: execute.deep_view(),
                }
            },
            Mode::Stopwatch => ModeView::Stopwatch,
            Mode::Countdown { time, title, continue_on_zero, reverse, millis } => {
                ModeView::Countdown {
                    time: *time,
                    title: text_view(*title),
                    continue_on_zero: *continue_on_zero,
                    reverse: *reverse,
                    millis: *millis,
                }
            },
        }
    }
}

/// The mode the app starts in when neither the command line nor the config
/// names one: the clock, with everything shown as configured.
pub open spec fn plain_clock_mode() -> ModeView {
    ModeView::Clock { timezone: None, no_date: false, no_seconds: false, millis: false }
}

/// The timer's durations from the config: those that read as durations,
/// else 25 and 5 minutes.
pub open spec fn configured_timer_nanos(texts: Seq<Seq<char>>) -> Seq<int> {
    if parsed_durations(texts).len() > 0 {
        parsed_durations(texts)
    } else {
        nanos_view(default_timer_nanos())
    }
}

/// Whether `t` may be the countdown's target time read from the config's
/// `time` (`time`), with `now` the current time: the time read when it is
/// an RFC 3339 time, `now` when there is none or it cannot be read. A
/// local time is an instant that its reading can give (see
/// `reading_instant`), or `now` where the local time zone skips or repeats
/// it.
pub open spec fn countdown_time_from(time: Option<Seq<char>>, now: Timestamp, t: Timestamp) -> bool {
    match time {
        None => t == now,
        Some(s) => match spec_time_reading(trimmed(s)) {
            TimeReading::Unreadable => t == now,
            TimeReading::Exact(ts) => t == ts,
            reading => t == now || reading_instant(reading, t),
        },
    }
}

/// The mode the config's `[default]` names, with its settings from the
/// config: `timer`, `stopwatch` and `countdown` by name, the clock for any
/// other name. `countdown_time` is the countdown's target time.
pub open spec fn spec_mode_from_config(config: Config, countdown_time: Timestamp) -> ModeView {
    if config.default.mode@ == "timer"@ {
        ModeView::Timer {
            durations: configured_timer_nanos(config.timer.durations.deep_view()),
            titles: config.timer.titles.deep_view(),
            repeat: config.timer.repeat,
            no_millis: !config.timer.show_millis,
            paused: config.timer.start_paused,
            auto_quit: config.timer.auto_quit,
            execute: config.timer.execute.deep_view(),
        }
    } else if config.default.mode@ == "stopwatch"@ {
        ModeView::Stopwatch
    } else if config.default.mode@ == "countdown"@ {
        ModeView::Countdown {
            time: countdown_time,
            title: text_view(config.countdown.title),
            continue_on_zero: config.countdown.continue_on_zero,
            reverse: config.countdown.reverse,
            millis: config.countdown.show_millis,
        }
    } else {
        ModeView::Clock {
            timezone: text_view(config.clock.timezone),
            no_date: !config.clock.show_date,
            no_seconds: !config.clock.show_seconds,
            millis: config.clock.show_millis,
        }
    }
}

/// Each duration read from the timer config is a valid, non-negative
/// duration.
pub proof fn parsed_durations_are_valid(texts: Seq<Seq<char>>)
    ensures
        forall|k: int|
            0 <= k < parsed_durations(texts).len() ==> 0 <= #[trigger] parsed_durations(texts)[k]
                && duration_in_range(parsed_durations(texts)[k]),
    decreases texts.len(),
{
    if texts.len() > 0 {
        parsed_durations_are_valid(texts.drop_last());
        parsed_duration_is_in_range(texts.last());
        let rest = parsed_durations(texts.drop_last());
        assert forall|k: int| 0 <= k < parsed_durations(texts).len() implies 0 <= #[trigger] parsed_durations(
            texts,
        )[k] && duration_in_range(parsed_durations(texts)[k]) by {
            if k < rest.len() {
                assert(parsed_durations(texts)[k] == rest[k]);
            }
        }
    }
}

/// The timer always has a duration to count down, and each one is a
/// valid, non-negative duration, whatever the config says.
pub proof fn configured_timer_durations_are_valid(texts: Seq<Seq<char>>)
    ensures
        configured_timer_nanos(texts).len() > 0,
        forall|k: int|
            0 <= k < configured_timer_nanos(texts).len() ==> 0 <= #[trigger] configured_timer_nanos(
                texts,
            )[k] && duration_in_range(configured_timer_nanos(texts)[k]),
{
    parsed_durations_are_valid(texts);
}

/// A copy of the strings `v`.
pub fn copy_strings(v: &Vec<String>) -> (r: Vec<String>)
    ensures
        r.deep_view() == v.deep_view(),
{
    let mut r: Vec<String> = Vec::new();
    let mut i: usize = 0;
    while i < v.len()
        invariant
            i <= v.len(),
            r.deep_view() == v.deep_view().take(i as int),
        decreases v.len() - i,
    {
        let c = v[i].clone();
        assert(c@ == v.deep_view()[i as int]);
        let ghost before = r.deep_view();
        r.push(c);
        assert(r.deep_view() =~= before.push(c@));
        assert(v.deep_view().take(i + 1) =~= v.deep_view().take(i as int).push(c@));
        i += 1;
    }
    assert(v.deep_view().take(i as int) =~= v.deep_view());
    r
}

/// A copy of the durations `v`.
pub fn copy_durations(v: &Vec<i128>) -> (r: Vec<i128>)
    ensures
        r@ == v@,
{
    let mut r: Vec<i128> = Vec::new();
    let mut i: usize = 0;
    while i < v.len()
        invariant
            i <= v.len(),
            r@ == v@.take(i as int),
        decreases v.len() - i,
    {
        r.push(v[i]);
        assert(r@ =~= v@.take(i + 1));
        i += 1;
    }
    assert(v@.take(i as int) =~= v@);
    r
}

/// A copy of the optional string `s`.
pub fn copy_text(s: &Option<String>) -> (r: Option<String>)
    ensures
        text_view(r) == text_view(*s),
{
    match s {
        Some(t) => Some(t.clone()),
        None => None,
    }
}

/// The countdown's target time from the config's `time`: the time it
/// reads, or `now` when there is none or it cannot be read.
pub fn default_countdown_time(time: &Option<String>, now: Timestamp) -> (t: Timestamp)
    ensures
        countdown_time_from(text_view(*time), now, t),
{
    match time {
        Some(s) => match parse_datetime(s.as_str()) {
            Ok(t) => t,
            Err(_) => now,
        },
        None => now,
    }
}

/// The mode the config's `[default]` names, with its settings from the
/// config; `countdown_time` is the countdown's target time.
pub fn mode_from_config(config: &Config, countdown_time: Timestamp) -> (m: Mode)
    ensures
        m@ == spec_mode_from_config(*config, countdown_time),
{
    let name = config.default.mode.as_str();
    if str_eq(name, "timer") {
        let durations = configured_timer_durations(&config.timer);
        Mode::Timer {
            durations,
            titles: copy_strings(&config.timer.titles),
            repeat: config.timer.repeat,
            no_millis: !config.timer.show_millis,
            paused: config.timer.start_paused,
            auto_quit: config.timer.auto_quit,
            execute: copy_strings(&config.timer.execute),
        }
    } else if str_eq(name, "stopwatch") {
        Mode::Stopwatch
    } else if str_eq(name, "countdown") {
        Mode::Countdown {
            time: countdown_time,
            title: copy_text(&config.countdown.title),
            continue_on_zero: config.countdown.continue_on_zero,
            reverse: config.countdown.reverse,
            millis: config.countdown.show_millis,
        }
    } else {
        Mode::Clock {
            timezone: copy_text(&config.clock.timezone),
            no_date: !config.clock.show_date,
            no_seconds: !config.clock.show_seconds,
            millis: config.clock.show_millis,
        }
    }
}

// ---------------------------------------------------------------------------
// The app
/// Timer mode's settings.
#[derive(Debug)]
pub struct Timer {
    pub size: u16,
    pub style: Style,
    /// The durations counted down in turn, in nanoseconds.
    pub durations: Vec<i128>,
    pub titles: Vec<String>,
    pub repeat: bool,
    pub format: DurationFormat,
    /// Whether the timer is paused; it starts paused when asked to.
    pub paused: bool,
    pub auto_quit: bool,
    /// The command run when the timer ends.
    pub execute: Vec<String>,
}

/// Stopwatch mode's settings.
#[derive(Debug)]
pub struct Stopwatch {
    pub size: u16,
    pub style: Style,
    /// Whether the stopwatch is paused; it starts running.
    pub paused: bool,
}

/// Countdown mode's settings.
#[derive(Debug)]
pub struct Countdown {
    pub size: u16,
    pub style: Style,
    pub time: Timestamp,
    pub title: Option<String>,
    pub continue_on_zero: bool,
    pub reverse: bool,
    pub format: DurationFormat,
}

/// The app: the mode, color and size the command line gives (each filled
/// from the config when it gives none), and the mode that runs.
#[derive(Debug)]
pub struct App {
    pub mode: Option<Mode>,
    pub color: Option<Color>,
    pub size: Option<u16>,
    pub clock: Option<Clock>,
    pub timer: Option<Timer>,
    pub stopwatch: Option<Stopwatch>,
    pub countdown: Option<Countdown>,
}

/// The clock's size when neither the command line nor the config sets one.
pub const DEFAULT_CLOCK_SIZE: u16 = 1;

/// A key the app reacts to.
#[derive(Clone, Copy, Debug, PartialEq, Eq, Structural)]
pub enum Key {
    Home,
    End,
    Char(char),
    Other,
}

/// The color from the config: its `color` when that reads as a color, else
/// green; green without a config.
pub open spec fn configured_color(config: Option<Config>) -> Color {
    match config {
        Some(c) => match spec_parse_color(c.default.color@) {
            Ok(color) => color,
            Err(_) => Color::Green,
        },
        None => Color::Green,
    }
}

/// The size from the config: its `size` when that is positive, else 1.
pub open spec fn configured_size(config: Option<Config>) -> u16 {
    match config {
        Some(c) => if c.default.size > 0 {
            c.default.size
        } else {
            DEFAULT_CLOCK_SIZE
        },
        None => DEFAULT_CLOCK_SIZE,
    }
}

/// Whether the config shows the date (it does without a config).
pub open spec fn config_shows_date(config: Option<Config>) -> bool {
    match config {
        Some(c) => c.clock.show_date,
        None => true,
    }
}

/// Whether the config shows the seconds (it does without a config).
pub open spec fn config_shows_seconds(config: Option<Config>) -> bool {
    match config {
        Some(c) => c.clock.show_seconds,
        None => true,
    }
}

/// Whether the config shows fractional seconds on the clock.
pub open spec fn config_shows_clock_millis(config: Option<Config>) -> bool {
    match config {
        Some(c) => c.clock.show_millis,
        None => false,
    }
}

/// The config's time zone for the clock.
pub open spec fn config_timezone(config: Option<Config>) -> Option<Seq<char>> {
    match config {
        Some(c) => text_view(c.clock.timezone),
        None => None,
    }
}

/// The config's clock widgets.
pub open spec fn config_widgets(config: Option<Config>) -> Seq<ClockWidgetConfig> {
    match config {
        Some(c) => c.clock.widgets@,
        None => Seq::empty(),
    }
}

/// The config's widget themes (`default` and `nerv` without a config).
pub open spec fn config_themes(config: Option<Config>) -> Seq<Seq<char>> {
    match config {
        Some(c) => c.clock.widget_themes.deep_view(),
        None => seq!["default"@, "nerv"@],
    }
}

/// The config's timer flags: repeat, start paused, quit when done.
pub open spec fn config_timer_flags(config: Option<Config>) -> (bool, bool, bool) {
    match config {
        Some(c) => (c.timer.repeat, c.timer.start_paused, c.timer.auto_quit),
        None => (false, false, false),
    }
}

/// The config's countdown flags: go on past zero, count up, show
/// fractional seconds.
pub open spec fn config_countdown_flags(config: Option<Config>) -> (bool, bool, bool) {
    match config {
        Some(c) => (c.countdown.continue_on_zero, c.countdown.reverse, c.countdown.show_millis),
        None => (false, false, false),
    }
}

/// The mode that runs: the one set, else the plain clock.
pub open spec fn running_mode(mode: Option<Mode>) -> ModeView {
    match mode {
        Some(m) => m@,
        None => plain_clock_mode(),
    }
}

/// Whether `v` is the mode that the config's `[default]` gives, at `now`.
pub open spec fn is_config_mode(v: ModeView, config: Config, now: Timestamp) -> bool {
    match v {
        ModeView::Countdown { time, .. } => {
            &&& countdown_time_from(text_view(config.countdown.time), now, time)
            &&& v == spec_mode_from_config(config, time)
        },
        _ => v == spec_mode_from_config(config, now),
    }
}

/// The format of a duration: with deciseconds, or without.
pub open spec fn duration_format(millis: bool) -> DurationFormat {
    if millis {
        DurationFormat::HourMinSecDeci
    } else {
        DurationFormat::HourMinSec
    }
}

/// Whether `c` is clock mode with these settings, its widgets configured
/// from `widgets` at `now_ms` and its themes from `themes`.
pub open spec fn is_clock(
    c: Clock,
    size: u16,
    style: Style,
    show_date: bool,
    show_millis: bool,
    show_secs: bool,
    timezone: Option<Seq<char>>,
    widgets: Seq<ClockWidgetConfig>,
    themes: Seq<Seq<char>>,
    now_ms: u64,
) -> bool {
    &&& c.size == size
    &&& c.style == style
    &&& c.show_date == show_date
    &&& c.show_millis == show_millis
    &&& c.show_secs == show_secs
    &&& text_view(c.timezone) == timezone
    &&& c.widgets.widgets@.len() == widgets.len()
    &&& forall|i: int|
        0 <= i < widgets.len() ==> configured(#[trigger] c.widgets.widgets@[i], widgets[i], now_ms)
    &&& c.widgets.themes.deep_view() == normalized_themes(themes)
    &&& c.widgets.theme_index == 0
    &&& c.widgets.active_widget is None
}

/// Whether the running parts of `app` are those of its mode, with its
/// color and size and what the config adds to the mode's settings: a
/// setting that is on in either is on; one that is off in either is off.
pub open spec fn runs_mode(app: App, config: Option<Config>, now_ms: u64) -> bool {
    let size = app.size.unwrap();
    let style = with_fg(plain_style(), app.color.unwrap());
    match running_mode(app.mode) {
        ModeView::Clock { timezone, no_date, no_seconds, millis } => {
            &&& app.timer is None && app.stopwatch is None && app.countdown is None
            &&& app.clock matches Some(c) && is_clock(
                c,
                size,
                style,
                !no_date && config_shows_date(config),
                millis || config_shows_clock_millis(config),
                !no_seconds && config_shows_seconds(config),
                match timezone {
                    Some(t) => Some(t),
                    None => config_timezone(config),
                },
                config_widgets(config),
                config_themes(config),
                now_ms,
            )
        },
        ModeView::Timer { durations, titles, repeat, no_millis, paused, auto_quit, execute } => {
            let (cfg_repeat, cfg_paused, cfg_quit) = config_timer_flags(config);
            &&& app.clock is None && app.stopwatch is None && app.countdown is None
            &&& app.timer matches Some(t) && {
                &&& t.size == size
                &&& t.style == style
                &&& nanos_view(t.durations@) == durations
                &&& t.titles.deep_view() == titles
                &&& t.repeat == (repeat || cfg_repeat)
                &&& t.format == duration_format(!no_millis)
                &&& t.paused == (paused || cfg_paused)
                &&& t.auto_quit == (auto_quit || cfg_quit)
                &&& t.execute.deep_view() == execute
            }
        },
        ModeView::Stopwatch => {
            &&& app.clock is None && app.timer is None && app.countdown is None
            &&& app.stopwatch == Some(Stopwatch { size, style, paused: false })
        },
        ModeView::Countdown { time, title, continue_on_zero, reverse, millis } => {
            let (cfg_continue, cfg_reverse, cfg_millis) = config_countdown_flags(config);
            &&& app.clock is None && app.timer is None && app.stopwatch is None
            &&& app.countdown matches Some(c) && {
                &&& c.size == size
                &&& c.style == style
                &&& c.time == time
                &&& text_view(c.title) == title
                &&& c.continue_on_zero == (continue_on_zero || cfg_continue)
                &&& c.reverse == (reverse || cfg_reverse)
                &&& c.format == duration_format(millis || cfg_millis)
            }
        },
    }
}

/// The color from the config: its `color` when that reads as a color, else
/// green.
pub fn color_from_config(config: &Option<Config>) -> (c: Color)
    ensures
        c == configured_color(*config),
{
    match config {
        Some(c) => match parse_color(c.default.color.as_str()) {
            Ok(color) => color,
            Err(_) => Color::Green,
        },
        None => Color::Green,
    }
}

/// The size from the config: its `size` when positive, else 1.
pub fn size_from_config(config: &Option<Config>) -> (n: u16)
    ensures
        n == configured_size(*config),
{
    match config {
        Some(c) => if c.default.size > 0 {
            c.default.size
        } else {
            DEFAULT_CLOCK_SIZE
        },
        None => DEFAULT_CLOCK_SIZE,
    }
}

impl App {
    /// An app with what the command line gives: a mode, a color and a size,
    /// each of them optional; nothing runs yet.
    pub fn new(mode: Option<Mode>, color: Option<Color>, size: Option<u16>) -> (app: App)
        ensures
            app.mode == mode,
            app.color == color,
            app.size == size,
            app.clock is None && app.timer is None && app.stopwatch is None && app.countdown
                is None,
    {
        App { mode, color, size, clock: None, timer: None, stopwatch: None, countdown: None }
    }

    /// Starts the mode with the config (`None` when there is none): the
    /// mode, color and size the command line left out come from the config,
    /// and the mode's settings combine both. `now` is the current time and
    /// `now_ms` the monotonic time at which the clock's widgets are due.
    pub fn init_app(&mut self, config: Option<Config>, now: Timestamp, now_ms: u64)
        ensures
            old(self).mode is Some ==> final(self).mode == old(self).mode,
            old(self).mode is None && config is None ==> final(self).mode is None,
            old(self).mode is None && config is Some ==> (final(self).mode matches Some(m)
                && is_config_mode(m@, config.unwrap(), now)),
            final(self).color == Some(
                match old(self).color {
                    Some(c) => c,
                    None => configured_color(config),
                },
            ),
            final(self).size == Some(
                match old(self).size {
                    Some(n) => n,
                    None => configured_size(config),
                },
            ),
            runs_mode(*final(self), config, now_ms),
    {
        self.clock = None;
        self.timer = None;
        self.stopwatch = None;
        self.countdown = None;
        if self.mode.is_none() {
            self.mode = match &config {
                Some(c) => {
                    let time = if str_eq(c.default.mode.as_str(), "countdown") {
                        default_countdown_time(&c.countdown.time, now)
                    } else {
                        now
                    };
                    Some(mode_from_config(c, time))
                },
                None => None,
            };
        }
        if self.color.is_none() {
            self.color = Some(color_from_config(&config));
        }
        if self.size.is_none() {
            self.size = Some(size_from_config(&config));
        }
        let color = match self.color {
            Some(c) => c,
            None => Color::Green,
        };
        let size = match self.size {
            Some(n) => n,
            None => DEFAULT_CLOCK_SIZE,
        };
        let style = Style::new().fg(color);
        let ghost cfg = config;
        let (show_date, show_seconds, clock_millis) = match &config {
            Some(c) => (c.clock.show_date, c.clock.show_seconds, c.clock.show_millis),
            None => (true, true, false),
        };
        let (repeat_cfg, paused_cfg, quit_cfg) = match &config {
            Some(c) => (c.timer.repeat, c.timer.start_paused, c.timer.auto_quit),
            None => (false, false, false),
        };
        let (continue_cfg, reverse_cfg, millis_cfg) = match &config {
            Some(c) => (c.countdown.continue_on_zero, c.countdown.reverse, c.countdown.show_millis),
            None => (false, false, false),
        };
        let (widgets, themes, tz_cfg) = match config {
            Some(c) => (c.clock.widgets, c.clock.widget_themes, c.clock.timezone),
            None => (Vec::new(), default_widget_themes(), None),
        };
        assert(widgets@ == config_widgets(cfg));
        assert(themes.deep_view() == config_themes(cfg));
        assert(text_view(tz_cfg) == config_timezone(cfg));
        match &self.mode {
            None => {
                self.clock = Some(
                    Clock::new(
                        size,
                        style,
                        show_date,
                        clock_millis,
                        show_seconds,
                        tz_cfg,
                        widgets,
                        themes,
                        now_ms,
                    ),
                );
            },
            Some(Mode::Clock { timezone, no_date, no_seconds, millis }) => {
                let tz = match timezone {
                    Some(t) => Some(t.clone()),
                    None => tz_cfg,
                };
                let clock = Clock::new(
                    size,
                    style,
                    !*no_date && show_date,
                    *millis || clock_millis,
                    !*no_seconds && show_seconds,
                    tz,
                    widgets,
                    themes,
                    now_ms,
                );
                self.clock = Some(clock);
            },
            Some(
                Mode::Timer { durations, titles, repeat, no_millis, paused, auto_quit, execute },
            ) => {
                let format = if *no_millis {
                    DurationFormat::HourMinSec
                } else {
                    DurationFormat::HourMinSecDeci
                };
                let timer = Timer {
                    size,
                    style,
                    durations: copy_durations(durations),
                    titles: copy_strings(titles),
                    repeat: *repeat || repeat_cfg,
                    format,
                    paused: *paused || paused_cfg,
                    auto_quit: *auto_quit || quit_cfg,
                    execute: copy_strings(execute),
                };
                self.timer = Some(timer);
            },
            Some(Mode::Stopwatch) => {
                self.stopwatch = Some(Stopwatch { size, style, paused: false });
            },
            Some(Mode::Countdown { time, title, continue_on_zero, reverse, millis }) => {
                let countdown = Countdown {
                    size,
                    style,
                    time: *time,
                    title: copy_text(title),
                    continue_on_zero: *continue_on_zero || continue_cfg,
                    reverse: *reverse || reverse_cfg,
                    format: if *millis || millis_cfg {
                        DurationFormat::HourMinSecDeci
                    } else {
                        DurationFormat::HourMinSec
                    },
                };
                self.countdown = Some(countdown);
            },
        }
    }
}

impl App {
    /// Switches to `mode` and starts it, as `init_app` does.
    pub fn set_mode(&mut self, mode: Mode, config: Option<Config>, now: Timestamp, now_ms: u64)
        ensures
            final(self).mode == Some(mode),
            final(self).color == Some(
                match old(self).color {
                    Some(c) => c,
                    None => configured_color(config),
                },
            ),
            final(self).size == Some(
                match old(self).size {
                    Some(n) => n,
                    None => configured_size(config),
                },
            ),
            runs_mode(*final(self), config, now_ms),
    {
        self.mode = Some(mode);
        self.init_app(config, now, now_ms);
    }

    /// Reacts to a key at `now_ms`: in clock mode `Home` and `End` scroll
    /// the active widget to its top and bottom, and `T` (Shift+T) moves the
    /// widgets to the next theme; in timer and stopwatch mode the space bar
    /// pauses and resumes. Other keys change nothing.
    pub fn on_key(&mut self, key: Key, now_ms: u64)
        ensures
            final(self).mode == old(self).mode,
            final(self).color == old(self).color,
            final(self).size == old(self).size,
            final(self).countdown == old(self).countdown,
            match old(self).clock {
                Some(c) => {
                    &&& final(self).timer == old(self).timer
                    &&& final(self).stopwatch == old(self).stopwatch
                    &&& final(self).clock matches Some(n) && match key {
                        Key::Home => n == (Clock { widgets: n.widgets, ..c }) && scrolled_to_top(
                            c.widgets,
                            n.widgets,
                        ),
                        Key::End => n == (Clock { widgets: n.widgets, ..c }) && scrolled_to_bottom(
                            c.widgets,
                            n.widgets,
                        ),
                        Key::Char('T') => n == (Clock { widgets: n.widgets, ..c }) && theme_cycled(
                            c.widgets,
                            n.widgets,
                            now_ms,
                        ),
                        _ => n == c,
                    }
                },
                None => {
                    &&& final(self).clock is None
                    &&& match old(self).timer {
                        Some(t) => {
                            &&& final(self).stopwatch == old(self).stopwatch
                            &&& final(self).timer == Some(
                                if key == Key::Char(' ') {
                                    Timer { paused: !t.paused, ..t }
                                } else {
                                    t
                                },
                            )
                        },
                        None => {
                            &&& final(self).timer is None
                            &&& match old(self).stopwatch {
                                Some(w) => final(self).stopwatch == Some(
                                    if key == Key::Char(' ') {
                                        Stopwatch { paused: !w.paused, ..w }
                                    } else {
                                        w
                                    },
                                ),
                                None => final(self).stopwatch is None,
                            }
                        },
                    }
                },
            },
    {
        if let Some(clock) = &mut self.clock {
            match key {
                Key::Home => clock.scroll_active_widget_to_top(),
                Key::End => clock.scroll_active_widget_to_bottom(),
                Key::Char('T') => clock.widgets.cycle_theme(now_ms),
                _ => {},
            }
        } else if let Some(timer) = &mut self.timer {
            if key == Key::Char(' ') {
                timer.paused = !timer.paused;
            }
        } else if let Some(stopwatch) = &mut self.stopwatch {
            if key == Key::Char(' ') {
                stopwatch.paused = !stopwatch.paused;
            }
        }
    }

    /// In clock mode, marks the widgets whose commands are due at `now_ms`
    /// as running and says which commands to run; outside clock mode there
    /// are none.
    pub fn tick(&mut self, now_ms: u64) -> (jobs: Vec<WidgetJob>)
        ensures
            final(self).mode == old(self).mode,
            final(self).color == old(self).color,
            final(self).size == old(self).size,
            final(self).timer == old(self).timer,
            final(self).stopwatch == old(self).stopwatch,
            final(self).countdown == old(self).countdown,
            match old(self).clock {
                Some(c) => {
                    &&& final(self).clock matches Some(n) && n == (Clock { widgets: n.widgets, ..c })
                        && marked_running(c.widgets, n.widgets, now_ms)
                    &&& due_jobs(c.widgets, jobs@, now_ms)
                },
                None => final(self).clock is None && jobs@.len() == 0,
            },
    {
        if let Some(clock) = &mut self.clock {
            clock.widgets.start_due(now_ms)
        } else {
            Vec::new()
        }
    }

    /// In clock mode, hands widget `index` the output its command printed,
    /// at `now_ms`; outside clock mode nothing changes.
    pub fn receive_widget_output(&mut self, index: usize, output: String, now_ms: u64)
        ensures
            final(self).mode == old(self).mode,
            final(self).color == old(self).color,
            final(self).size == old(self).size,
            final(self).timer == old(self).timer,
            final(self).stopwatch == old(self).stopwatch,
            final(self).countdown == old(self).countdown,
            match old(self).clock {
                Some(c) => final(self).clock matches Some(n) && n == (Clock {
                    widgets: n.widgets,
                    ..c
                }) && output_received(c.widgets, n.widgets, index, output, now_ms),
                None => final(self).clock is None,
            },
    {
        if let Some(clock) = &mut self.clock {
            clock.widgets.receive_output(index, output, now_ms);
        }
    }

    /// Scrolls the clock widget under the cell (`column`, `row`) by `delta`
    /// rows; outside clock mode nothing changes.
    pub fn on_mouse_scroll(&mut self, column: u16, row: u16, delta: i16)
        ensures
            final(self).mode == old(self).mode,
            final(self).color == old(self).color,
            final(self).size == old(self).size,
            final(self).timer == old(self).timer,
            final(self).stopwatch == old(self).stopwatch,
            final(self).countdown == old(self).countdown,
            match old(self).clock {
                Some(c) => final(self).clock matches Some(n) && n == (Clock {
                    widgets: n.widgets,
                    ..c
                }) && scrolled_at(c.widgets, n.widgets, column, row, delta),
                None => final(self).clock is None,
            },
    {
        if let Some(clock) = &mut self.clock {
            clock.scroll_widget_at(column, row, delta);
        }
    }
}

} // verus!
