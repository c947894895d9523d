use clock_tui::app::{local_datetime, parse_datetime};
use clock_tui::clock::LocalDateTime;
use clock_tui::config::TimerConfig;
use clock_tui::duration::parse_duration;
use clock_tui::settings::{
    configured_timer_durations, default_timer_config_durations, parse_color, parse_size,
    parse_timezone,
};
use clock_tui::style::Color;

fn nanos(d: chrono::Duration) -> i128 {
    d.num_nanoseconds().unwrap() as i128
}

#[test]
fn parse_duration_accepts_supported_units() {
    assert_eq!(parse_duration("10s").unwrap(), nanos(chrono::Duration::seconds(10)));
    assert_eq!(parse_duration("5M").unwrap(), nanos(chrono::Duration::minutes(5)));
    assert_eq!(parse_duration("2h").unwrap(), nanos(chrono::Duration::hours(2)));
    assert_eq!(parse_duration("1D").unwrap(), nanos(chrono::Duration::days(1)));
}

#[test]
fn parse_duration_rejects_invalid_or_overflowing_values() {
    assert!(parse_duration("10").is_err());
    assert!(parse_duration("abc").is_err());
    assert!(parse_duration("999999999999999999999999999999999999999d").is_err());
}

#[test]
fn configured_timer_durations_falls_back_when_all_values_are_invalid() {
    let config = TimerConfig {
        durations: vec!["bad".to_string()],
        ..TimerConfig::default()
    };

    assert_eq!(
        configured_timer_durations(&config),
        default_timer_config_durations()
    );
}

#[test]
fn parse_size_rejects_zero() {
    assert_eq!(parse_size("1"), Ok(1));
    assert!(parse_size("0").is_err());
}

#[test]
fn parse_color_accepts_names_and_hex_values() {
    assert_eq!(parse_color("LightCyan"), Ok(Color::LightCyan));
    assert_eq!(parse_color("#e63946"), Ok(Color::Rgb(230, 57, 70)));
    assert!(parse_color("#xyzxyz").is_err());
}

#[test]
fn parse_timezone_reports_invalid_names() {
    assert!(parse_timezone("America/New_York").is_ok());
    assert!(parse_timezone("Nowhere/Missing").is_err());
}

#[test]
fn parse_datetime_accepts_dates_and_rejects_invalid_values() {
    assert!(parse_datetime("2026-01-01").is_ok());
    assert!(parse_datetime("not a date").is_err());
}

#[test]
fn parse_datetime_reads_rfc3339_times_exactly() {
    let t = parse_datetime("  2022-12-25T20:00:00-04:00 ").unwrap();
    assert_eq!(t.secs, 1672012800);
    assert_eq!(t.nanos, 0);
    assert_eq!(parse_datetime("tomorrow").unwrap_err(), "Invalid time format");
}

#[test]
fn local_datetime_is_within_a_day_of_the_wall_clock() {
    let dt = LocalDateTime {
        year: 2022,
        month: 12,
        day: 25,
        hour: 20,
        minute: 0,
        second: 0,
        nanosecond: 5,
    };
    match local_datetime(dt) {
        Ok(t) => {
            assert_eq!(t.nanos, 5);
            assert!((t.secs - 1_671_998_400).abs() < 86_400);
        }
        Err(m) => assert!(m.ends_with("2022-12-25 20:00:00.000000005")),
    }
    let bad = LocalDateTime { month: 13, ..dt };
    assert!(local_datetime(bad).is_err());
}

#[test]
fn durations_in_other_digits_are_too_large() {
    assert_eq!(parse_duration("\u{661}\u{662}s").unwrap_err(), "Duration is too large: \u{661}\u{662}s");
    assert_eq!(parse_duration("x2s").unwrap_err(), "x2s is not a valid duration");
    assert_eq!(parse_duration("12x").unwrap_err(), "12x is not a valid duration");
}

#[test]
fn local_dates_read_within_a_day_of_midnight() {
    let t = parse_datetime(" 2026-01-01 ").unwrap();
    assert_eq!(t.nanos, 0);
    assert!((t.secs - 1_767_225_600).abs() < 86_400);
}
