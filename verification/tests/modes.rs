use clock_tui::duration::{format_duration, should_flash, DurationFormat};

fn nanos(d: chrono::Duration) -> i128 {
    d.num_nanoseconds().unwrap() as i128
}

#[test]
fn format_duration_supports_deciseconds() {
    assert_eq!(
        format_duration(
            nanos(chrono::Duration::milliseconds(65_432)),
            DurationFormat::HourMinSecDeci
        ),
        "1:05.4"
    );
}

#[test]
fn format_duration_supports_no_fractional_seconds() {
    assert_eq!(
        format_duration(nanos(chrono::Duration::seconds(65)), DurationFormat::HourMinSec),
        "1:05"
    );
}

#[test]
fn format_duration_supports_hours_days_and_negative_values() {
    let duration = chrono::Duration::days(1)
        + chrono::Duration::hours(2)
        + chrono::Duration::minutes(3)
        + chrono::Duration::seconds(4);

    assert_eq!(
        format_duration(nanos(duration), DurationFormat::HourMinSecDeci),
        "1:02:03:04.0"
    );
    assert_eq!(
        format_duration(nanos(-chrono::Duration::seconds(65)), DurationFormat::HourMinSecDeci),
        "-1:05.0"
    );
}

#[test]
fn should_flash_uses_first_half_of_each_second() {
    assert!(should_flash(nanos(chrono::Duration::milliseconds(-499))));
    assert!(!should_flash(nanos(chrono::Duration::milliseconds(-500))));
}
