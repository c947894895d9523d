use clock_tui::ansi::{ansi_lines, apply_sgr_sequence};
use clock_tui::clock::centered_layout;
use clock_tui::command::{command_step, CommandAction, CommandEvent};
use clock_tui::config::{
    ClockWidgetConfig, WidgetPosition, DEFAULT_WIDGET_REFRESH_SECS, DEFAULT_WIDGET_TIMEOUT_SECS,
};
use clock_tui::duration::{format_duration, parse_duration, should_flash, DurationFormat};
use clock_tui::layout::{clock_height_for_size, clock_size_for_area, Rect};
use clock_tui::output::{append_capped, MAX_WIDGET_OUTPUT_BYTES};
use clock_tui::settings::parse_size;
use clock_tui::style::{Color, Style, BOLD};
use clock_tui::widgets::ClockWidgets;

fn text_of(action: &CommandAction) -> Option<(&'static str, String)> {
    match action {
        CommandAction::Show { text } => Some(("show", text.clone())),
        CommandAction::Stop { text } => Some(("stop", text.clone())),
        CommandAction::Kill { text } => Some(("kill", text.clone())),
        CommandAction::Poll => None,
    }
}

fn widget(title: &str) -> ClockWidgetConfig {
    ClockWidgetConfig {
        title: Some(title.to_string()),
        command: vec![title.to_string()],
        refresh_secs: DEFAULT_WIDGET_REFRESH_SECS,
        timeout_secs: DEFAULT_WIDGET_TIMEOUT_SECS,
        position: WidgetPosition::Auto,
    }
}

#[test]
fn command_steps_decide_what_a_widget_shows() {
    let show = |e: CommandEvent, t: u64| text_of(&command_step(e, t));
    assert_eq!(show(CommandEvent::NoCommand, 30), Some(("show", "[error] missing command".into())));
    assert_eq!(
        show(
            CommandEvent::SpawnFailed { program: "ghx".into(), error: "not found".into() },
            30
        ),
        Some(("show", "[error] failed to start ghx: not found".into()))
    );
    assert_eq!(show(CommandEvent::Cancelled, 30), Some(("stop", "[cancelled]".into())));
    assert_eq!(
        show(CommandEvent::PollFailed { error: "gone".into() }, 30),
        Some(("kill", "[error] failed to wait for command: gone".into()))
    );
    assert_eq!(
        show(CommandEvent::StatusFailed { error: "gone".into() }, 30),
        Some(("show", "[error] failed to wait for command: gone".into()))
    );
    assert_eq!(
        show(
            CommandEvent::Exited { success: true, stdout: b"ok\r\n".to_vec(), stderr: vec![] },
            30
        ),
        Some(("show", "ok".into()))
    );
    assert_eq!(
        show(
            CommandEvent::Exited { success: false, stdout: vec![], stderr: b"boom\n".to_vec() },
            30
        ),
        Some(("show", "[error] boom".into()))
    );
    assert_eq!(show(CommandEvent::Running { elapsed_ms: 29_999 }, 30), None);
    assert_eq!(
        show(CommandEvent::Running { elapsed_ms: 30_000 }, 30),
        Some(("stop", "[timeout] command exceeded 30s".into()))
    );
}

#[test]
fn plain_output_keeps_its_lines_in_the_base_style() {
    let base = Style::new().fg(Color::Cyan);
    let lines = ansi_lines("first\n\nthird", base);
    assert_eq!(lines.len(), 3);
    assert_eq!(lines[0].spans.len(), 1);
    assert_eq!(lines[0].spans[0].content, "first");
    assert_eq!(lines[0].spans[0].style, base);
    assert!(lines[1].spans.is_empty());
    assert_eq!(lines[2].spans[0].content, "third");
}

#[test]
fn sgr_reset_goes_back_to_the_base_style() {
    let base = Style::new().fg(Color::Cyan);
    let bold = Style::new().fg(Color::Red).add_modifier(BOLD);
    assert_eq!(apply_sgr_sequence(bold, base, ""), base);
    assert_eq!(apply_sgr_sequence(bold, base, "0"), base);
}

#[test]
fn negative_durations_are_signed_and_flash_alike() {
    let n: i128 = 3_723_400_000_000;
    let pos = format_duration(n, DurationFormat::HourMinSecDeci);
    assert_eq!(pos, "1:02:03.4");
    assert_eq!(format_duration(-n, DurationFormat::HourMinSecDeci), format!("-{pos}"));
    assert_eq!(should_flash(-1_250_000_000), should_flash(1_250_000_000));
    assert_eq!(should_flash(-1_750_000_000), should_flash(1_750_000_000));
}

#[test]
fn parsed_values_are_in_range() {
    assert_eq!(parse_size("0").unwrap_err(), "Clock size must be at least 1");
    assert_eq!(parse_size("12"), Ok(12));
    let max = parse_duration("9223372036854775d");
    assert!(max.is_err());
    assert_eq!(parse_duration("106751991167d").unwrap(), 106_751_991_167i128 * 86_400 * 1_000_000_000);
}

#[test]
fn clock_size_is_the_largest_that_fits() {
    let area = Rect::new(0, 0, 80, 20);
    let size = clock_size_for_area(8, area, true);
    let fits = |s: u16| {
        6 * 8 * s as u32 + 2 * 7 + 4 <= area.width as u32
            && clock_height_for_size(s, true) <= area.height
    };
    assert!(fits(size));
    assert!(!fits(size + 1));
}

#[test]
fn centered_text_and_lines_stay_inside() {
    let area = Rect::new(2, 3, 40, 12);
    let l = centered_layout(area, (30, 5), Some(20), Some(10));
    let inside = |r: Rect| {
        r.x >= area.x
            && r.x + r.width <= area.x + area.width
            && r.y >= area.y
            && r.y + r.height <= area.y + area.height
    };
    assert!(inside(l.text_area));
    let h = l.header_area.unwrap();
    let f = l.footer_area.unwrap();
    assert!(inside(h) && h.y + h.height < l.text_area.y);
    assert!(inside(f) && f.y > l.text_area.y + l.text_area.height);
}

#[test]
fn started_commands_do_not_start_again_until_they_report() {
    let mut widgets = ClockWidgets::new(vec![widget("one"), widget("two")], vec![], 0);
    let area = Rect::new(0, 0, 80, 20);
    widgets.render(area, area);
    let jobs = widgets.start_due(0);
    assert_eq!(jobs.len(), 2);
    assert!(widgets.start_due(10_000_000).is_empty());
    widgets.receive_output(0, "done".to_string(), 5);
    assert_eq!(widgets.widgets[0].output, "done");
    let again = widgets.start_due(5 + DEFAULT_WIDGET_REFRESH_SECS * 1000);
    assert_eq!(again.len(), 1);
    assert_eq!(again[0].index, 0);
}

#[test]
fn output_of_the_old_theme_is_dropped() {
    let themes = vec!["default".to_string(), "nerv".to_string()];
    let mut widgets = ClockWidgets::new(vec![widget("one")], themes, 0);
    let area = Rect::new(0, 0, 80, 20);
    widgets.render(area, area);
    let jobs = widgets.start_due(0);
    assert_eq!(jobs[0].theme, "default");
    widgets.cycle_theme(100);
    widgets.receive_output(0, "printed for default".to_string(), 200);
    assert_eq!(widgets.widgets[0].output, "Loading...");
    let rerun = widgets.start_due(200);
    assert_eq!(rerun.len(), 1);
    assert_eq!(rerun[0].theme, "nerv");
}

#[test]
fn appending_never_goes_past_the_limit() {
    let mut output = vec![b'x'; MAX_WIDGET_OUTPUT_BYTES - 3];
    let chunk = [b'y'; 10];
    append_capped(&mut output, &chunk, 10);
    assert_eq!(output.len(), MAX_WIDGET_OUTPUT_BYTES);
    append_capped(&mut output, &chunk, 10);
    assert_eq!(output.len(), MAX_WIDGET_OUTPUT_BYTES);
}

#[test]
fn shown_widgets_lie_inside_and_bands_keep_apart() {
    let mut configs = vec![widget("one"), widget("two")];
    for title in ["health", "disk"] {
        configs.push(ClockWidgetConfig { position: WidgetPosition::Bottom, ..widget(title) });
    }
    let mut widgets = ClockWidgets::new(configs, vec![], 0);
    for w in widgets.widgets.iter_mut() {
        w.output = "a\nb\nc".to_string();
    }
    let area = Rect::new(3, 4, 100, 40);
    widgets.render(area, area);
    let n = widgets.widgets.len();
    let inside = |r: Rect| {
        r.x >= area.x
            && r.x + r.width <= area.x + area.width
            && r.y >= area.y
            && r.y + r.height <= area.y + area.height
    };
    let apart = |a: Rect, b: Rect| {
        a.x + a.width <= b.x || b.x + b.width <= a.x || a.y + a.height <= b.y || b.y + b.height <= a.y
    };
    for i in 0..n {
        let v = widgets.viewports[i];
        assert_eq!(widgets.widgets[i].visible, v != Rect::new(0, 0, 0, 0));
        if !widgets.widgets[i].visible {
            continue;
        }
        assert!(inside(v));
        for j in 0..n {
            let bottom = widgets.widgets[i].position == WidgetPosition::Bottom
                || widgets.widgets[j].position == WidgetPosition::Bottom;
            if i != j && widgets.widgets[j].visible && bottom {
                assert!(apart(v, widgets.viewports[j]));
            }
        }
    }
    assert!(widgets.widgets.iter().all(|w| w.visible));
}
