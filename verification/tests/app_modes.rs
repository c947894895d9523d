use clock_tui::app::{App, Key, Mode, Stopwatch, Timestamp};
use clock_tui::clock::LocalDateTime;
use clock_tui::config::{
    ClockConfig, ClockWidgetConfig, Config, CountdownConfig, DefaultConfig, StopwatchConfig,
    TimerConfig, WidgetPosition,
};
use clock_tui::layout::Rect;
use clock_tui::duration::DurationFormat;
use clock_tui::style::{Color, Style};

fn config(mode: &str, color: &str, size: u16) -> Config {
    Config {
        default: DefaultConfig { mode: mode.to_string(), color: color.to_string(), size },
        clock: ClockConfig::default(),
        timer: TimerConfig::default(),
        stopwatch: StopwatchConfig::default(),
        countdown: CountdownConfig::default(),
    }
}

fn now() -> Timestamp {
    Timestamp { secs: 1_700_000_000, nanos: 0 }
}

#[test]
fn without_config_the_plain_green_clock_runs() {
    let mut app = App::new(None, None, None);
    app.init_app(None, now(), 0);
    assert!(app.mode.is_none());
    assert_eq!(app.color, Some(Color::Green));
    assert_eq!(app.size, Some(1));
    let clock = app.clock.as_ref().unwrap();
    assert!(clock.show_date && clock.show_secs && !clock.show_millis);
    assert_eq!(clock.style, Style::new().fg(Color::Green));
    assert_eq!(clock.widgets.themes, vec!["default".to_string(), "nerv".to_string()]);
    assert!(app.timer.is_none() && app.stopwatch.is_none() && app.countdown.is_none());
}

#[test]
fn config_color_and_size_fill_what_the_command_line_leaves_out() {
    let mut app = App::new(None, None, None);
    app.init_app(Some(config("clock", "LightBlue", 3)), now(), 0);
    assert_eq!(app.color, Some(Color::LightBlue));
    assert_eq!(app.size, Some(3));

    let mut app = App::new(None, Some(Color::Red), Some(2));
    app.init_app(Some(config("clock", "LightBlue", 3)), now(), 0);
    assert_eq!(app.color, Some(Color::Red));
    assert_eq!(app.size, Some(2));
    assert_eq!(app.clock.as_ref().unwrap().size, 2);

    let mut app = App::new(None, None, None);
    app.init_app(Some(config("clock", "#xyzxyz", 0)), now(), 0);
    assert_eq!(app.color, Some(Color::Green));
    assert_eq!(app.size, Some(1));
}

#[test]
fn config_timer_mode_uses_the_durations_that_parse() {
    let mut c = config("timer", "green", 1);
    c.timer.durations = vec!["bad".to_string(), "10s".to_string()];
    c.timer.titles = vec!["Tea".to_string()];
    c.timer.show_millis = false;
    c.timer.repeat = true;
    let mut app = App::new(None, None, None);
    app.init_app(Some(c), now(), 0);
    let timer = app.timer.as_ref().unwrap();
    assert_eq!(timer.durations, vec![10_000_000_000i128]);
    assert_eq!(timer.titles, vec!["Tea".to_string()]);
    assert!(timer.repeat);
    assert_eq!(timer.format, DurationFormat::HourMinSec);
    assert!(matches!(app.mode, Some(Mode::Timer { no_millis: true, .. })));
    assert!(app.clock.is_none());
}

#[test]
fn command_line_flags_and_config_flags_combine() {
    let mut c = config("clock", "green", 1);
    c.clock.show_millis = true;
    c.clock.show_date = false;
    let mode = Mode::Clock { timezone: None, no_date: false, no_seconds: true, millis: false };
    let mut app = App::new(Some(mode), None, None);
    c.clock.timezone = Some("Europe/Paris".to_string());
    app.init_app(Some(c), now(), 0);
    let clock = app.clock.as_ref().unwrap();
    assert!(clock.show_millis);
    assert!(!clock.show_date);
    assert!(!clock.show_secs);
    assert_eq!(clock.timezone.as_deref(), Some("Europe/Paris"));
}

#[test]
fn config_countdown_mode_reads_its_target_time() {
    let mut c = config("countdown", "green", 1);
    c.countdown.time = Some("2022-12-25T20:00:00-04:00".to_string());
    c.countdown.show_millis = true;
    let mut app = App::new(None, None, None);
    app.init_app(Some(c), now(), 0);
    let countdown = app.countdown.as_ref().unwrap();
    assert_eq!(countdown.time, Timestamp { secs: 1672012800, nanos: 0 });
    assert_eq!(countdown.format, DurationFormat::HourMinSecDeci);

    let mut c = config("countdown", "green", 1);
    c.countdown.time = Some("whenever".to_string());
    let mut app = App::new(None, None, None);
    app.init_app(Some(c), now(), 0);
    assert_eq!(app.countdown.as_ref().unwrap().time, now());
}

#[test]
fn space_pauses_the_timer_and_the_stopwatch() {
    let mut app = App::new(None, None, None);
    app.set_mode(Mode::Stopwatch, None, now(), 0);
    assert_eq!(
        app.stopwatch.as_ref().map(|s| (s.size, s.paused)),
        Some((1, false))
    );
    app.on_key(Key::Char(' '), 0);
    assert!(app.stopwatch.as_ref().unwrap().paused);
    app.on_key(Key::Char('x'), 0);
    assert!(app.stopwatch.as_ref().unwrap().paused);
    app.on_key(Key::Char(' '), 0);
    assert!(!app.stopwatch.as_ref().unwrap().paused);

    let timer = Mode::Timer {
        durations: vec![],
        titles: vec![],
        repeat: false,
        no_millis: false,
        paused: true,
        auto_quit: false,
        execute: vec![],
    };
    app.set_mode(timer, None, now(), 0);
    assert!(app.stopwatch.is_none());
    assert!(app.timer.as_ref().unwrap().paused);
    app.on_key(Key::Char(' '), 0);
    assert!(!app.timer.as_ref().unwrap().paused);
}

#[test]
fn stopwatch_mode_starts_running() {
    let mut app = App::new(Some(Mode::Stopwatch), Some(Color::Cyan), Some(4));
    app.init_app(None, now(), 0);
    let expected = Stopwatch { size: 4, style: Style::new().fg(Color::Cyan), paused: false };
    let got = app.stopwatch.as_ref().unwrap();
    assert_eq!((got.size, got.style, got.paused), (expected.size, expected.style, expected.paused));
}

#[test]
fn clock_widgets_run_once_they_are_shown() {
    let mut c = config("clock", "green", 1);
    c.clock.widgets = vec![ClockWidgetConfig {
        title: Some("Up".to_string()),
        command: vec!["uptime".to_string()],
        refresh_secs: 60,
        timeout_secs: 5,
        position: WidgetPosition::Auto,
    }];
    let mut app = App::new(None, None, None);
    app.init_app(Some(c), now(), 0);
    assert!(app.tick(0).is_empty());

    let area = Rect::new(0, 0, 120, 40);
    let t = LocalDateTime {
        year: 2026,
        month: 6,
        day: 7,
        hour: 1,
        minute: 41,
        second: 24,
        nanosecond: 0,
    };
    let frame = app.clock.as_mut().unwrap().layout(area, t).unwrap();
    assert_eq!(frame.time_text, "01:41:24");
    assert_eq!(frame.header.as_deref(), Some("Sunday, June 7 2026"));

    let jobs = app.tick(0);
    assert_eq!(jobs.len(), 1);
    assert_eq!(jobs[0].command, vec!["uptime".to_string()]);
    assert_eq!(jobs[0].timeout_secs, 5);
    assert_eq!(jobs[0].theme, "default");

    app.receive_widget_output(0, "up 3 days".to_string(), 10);
    assert_eq!(app.clock.as_ref().unwrap().widgets.widgets[0].output, "up 3 days");
    assert!(app.tick(10).is_empty());
    assert_eq!(app.tick(60_010).len(), 1);
}

#[test]
fn shift_t_cycles_the_widget_themes_in_clock_mode() {
    let mut c = config("clock", "green", 1);
    c.clock.widgets = vec![ClockWidgetConfig {
        title: Some("Up".to_string()),
        command: vec!["uptime".to_string()],
        refresh_secs: 60,
        timeout_secs: 5,
        position: WidgetPosition::Auto,
    }];
    let mut app = App::new(None, None, None);
    app.init_app(Some(c), now(), 0);
    assert_eq!(app.clock.as_ref().unwrap().widgets.current_theme(), "default");
    app.on_key(Key::Char('t'), 5);
    assert_eq!(app.clock.as_ref().unwrap().widgets.current_theme(), "default");
    app.on_key(Key::Char('T'), 5);
    assert_eq!(app.clock.as_ref().unwrap().widgets.current_theme(), "nerv");
    assert_eq!(app.clock.as_ref().unwrap().widgets.widgets[0].next_run, 5);
    app.on_key(Key::Char('T'), 6);
    assert_eq!(app.clock.as_ref().unwrap().widgets.current_theme(), "default");
}
