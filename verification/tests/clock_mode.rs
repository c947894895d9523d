use chrono::{Datelike, Timelike};
use clock_tui::clock::{
    bricks_font, clock_widgets_layout, format_clock_header, Clock, ClockText, LocalDateTime,
};
use clock_tui::layout::Rect;
use clock_tui::style::Style;

#[test]
fn widgets_get_extra_height_when_width_limits_square_clock() {
    let layout = clock_widgets_layout(Rect::new(0, 0, 80, 80), 8, true);

    assert_eq!(layout.clock_size, 1);
    assert_eq!(layout.clock_area.height, 9);
    assert_eq!(layout.widgets_area.height, 71);
}

#[test]
fn wide_clock_height_is_capped_to_top_half() {
    let layout = clock_widgets_layout(Rect::new(0, 0, 500, 50), 8, true);

    assert_eq!(layout.clock_size, 4);
    assert!(layout.clock_area.height <= 25);
    assert_eq!(layout.clock_area.height, 24);
    assert_eq!(layout.widgets_area.height, 26);
}

#[test]
fn clock_layout_leaves_vertical_breathing_without_header() {
    let layout = clock_widgets_layout(Rect::new(0, 0, 500, 50), 8, false);

    assert_eq!(layout.clock_size, 4);
    assert_eq!(layout.clock_area.height, 22);
    assert_eq!(layout.widgets_area.height, 28);
}

#[test]
fn clock_layout_handles_tiny_areas() {
    let layout = clock_widgets_layout(Rect::new(0, 0, 10, 1), 8, true);

    assert_eq!(layout.clock_area.height, 1);
    assert_eq!(layout.widgets_area.height, 0);
}

fn local(now: chrono::NaiveDateTime) -> LocalDateTime {
    LocalDateTime {
        year: now.year(),
        month: now.month(),
        day: now.day(),
        hour: now.hour(),
        minute: now.minute(),
        second: now.second(),
        nanosecond: now.nanosecond(),
    }
}

#[test]
fn clock_header_uses_friendly_date_format() {
    let now = local(
        chrono::NaiveDateTime::parse_from_str("2026-06-07 01:41:24", "%Y-%m-%d %H:%M:%S").unwrap(),
    );

    assert_eq!(format_clock_header(now, None).unwrap(), "Sunday, June 7 2026");
    assert_eq!(
        format_clock_header(now, Some(chrono_tz::America::New_York.name())).unwrap(),
        "Sunday, June 7 2026 America/New_York"
    );
}

#[test]
fn empty_clock_text_has_zero_width() {
    let font = bricks_font(1);
    let text = ClockText::new(String::new(), font, Style::new());

    assert_eq!(text.size(), (0, 5));
}

#[test]
fn clock_frame_needs_a_real_date_and_time() {
    let mut clock = Clock::new(
        2,
        Style::new(),
        true,
        false,
        true,
        Some("America/New_York".to_string()),
        vec![],
        vec![],
        0,
    );
    let area = Rect::new(0, 0, 80, 24);
    let now = LocalDateTime {
        year: 2026,
        month: 6,
        day: 7,
        hour: 1,
        minute: 41,
        second: 24,
        nanosecond: 0,
    };
    let frame = clock.layout(area, now).unwrap();
    assert_eq!(frame.time_text, "01:41:24");
    assert_eq!(frame.header.as_deref(), Some("Sunday, June 7 2026 America/New_York"));
    assert_eq!(frame.clock_size, 2);
    assert!(clock.layout(area, LocalDateTime { hour: 25, ..now }).is_none());
    assert!(clock.layout(area, LocalDateTime { month: 13, ..now }).is_none());
    clock.show_date = false;
    assert!(clock.layout(area, LocalDateTime { month: 13, ..now }).is_some());
}

#[test]
fn clock_text_shows_tenths_of_a_second() {
    let mut clock = Clock::new(1, Style::new(), false, true, true, None, vec![], vec![], 0);
    let area = Rect::new(0, 0, 80, 24);
    let now = LocalDateTime {
        year: 2026,
        month: 6,
        day: 7,
        hour: 1,
        minute: 41,
        second: 24,
        nanosecond: 567_000_000,
    };
    let frame = clock.layout(area, now).unwrap();
    assert_eq!(frame.time_text, "01:41:24.5");
    assert!(frame.header.is_none());
    clock.show_millis = false;
    clock.show_secs = false;
    assert_eq!(clock.layout(area, now).unwrap().time_text, "01:41");
}
