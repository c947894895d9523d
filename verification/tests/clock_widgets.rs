use std::io::Read;

use clock_tui::ansi::{ansi_lines, widget_text};
use clock_tui::config::{
    ClockWidgetConfig, WidgetPosition, DEFAULT_WIDGET_REFRESH_SECS, DEFAULT_WIDGET_TIMEOUT_SECS,
};
use clock_tui::layout::{
    clock_height_for_size, clock_size_for_area, widget_text_height, Rect,
    CLOCK_CHARACTER_SPACING, CLOCK_GLYPH_COLUMNS,
};
use clock_tui::output::{format_output, MAX_WIDGET_OUTPUT_BYTES};
use clock_tui::style::{has_modifiers, Color, Style, BOLD, CROSSED_OUT, DIM, ITALIC, UNDERLINED};
use clock_tui::widgets::{
    max_widgets_for_area, visible_widget_count, ClockWidgets, MIN_WIDGET_ROW_HEIGHT,
    ULTRAWIDE_TERMINAL_WIDGETS,
};

fn widget_config(title: &str) -> ClockWidgetConfig {
    ClockWidgetConfig {
        title: Some(title.to_string()),
        command: vec![title.to_string()],
        refresh_secs: DEFAULT_WIDGET_REFRESH_SECS,
        timeout_secs: DEFAULT_WIDGET_TIMEOUT_SECS,
        position: WidgetPosition::Auto,
    }
}

fn bottom_widget_config(title: &str) -> ClockWidgetConfig {
    ClockWidgetConfig {
        position: WidgetPosition::Bottom,
        ..widget_config(title)
    }
}

fn default_themes() -> Vec<String> {
    vec!["default".to_string(), "nerv".to_string()]
}

fn numbered_lines(count: usize) -> String {
    (0..count)
        .map(|index| format!("line {index}"))
        .collect::<Vec<_>>()
        .join("\n")
}

#[test]
fn max_widgets_follows_terminal_aspect_ratio() {
    assert_eq!(max_widgets_for_area(Rect::new(0, 0, 100, 50)), 2);
    assert_eq!(max_widgets_for_area(Rect::new(0, 0, 160, 45)), 4);
    assert_eq!(max_widgets_for_area(Rect::new(0, 0, 240, 50)), 6);
}

#[test]
fn visible_widgets_never_exceed_configured_count() {
    let area = Rect::new(0, 0, 240, 50);
    assert_eq!(visible_widget_count(area, 0), 0);
    assert_eq!(visible_widget_count(area, 3), 3);
    assert_eq!(visible_widget_count(area, 10), 6);
}

#[test]
fn empty_title_suppresses_title_line() {
    let untitled = widget_text("", "hello\nworld", Style::new());
    assert_eq!(untitled.len(), 2);

    let titled = widget_text("Health", "hello\nworld", Style::new());
    assert_eq!(titled.len(), 3);

    assert_eq!(widget_text_height("", "one\ntwo", 80), 2);
}

#[test]
fn widget_title_distinguishes_empty_omitted_and_missing() {
    let widgets = ClockWidgets::new(
        vec![
            ClockWidgetConfig {
                title: Some(String::new()),
                command: vec!["self-header".to_string()],
                refresh_secs: DEFAULT_WIDGET_REFRESH_SECS,
                timeout_secs: DEFAULT_WIDGET_TIMEOUT_SECS,
                position: WidgetPosition::Auto,
            },
            ClockWidgetConfig {
                title: None,
                command: vec!["fallback-command".to_string()],
                refresh_secs: DEFAULT_WIDGET_REFRESH_SECS,
                timeout_secs: DEFAULT_WIDGET_TIMEOUT_SECS,
                position: WidgetPosition::Auto,
            },
            ClockWidgetConfig {
                title: None,
                command: Vec::new(),
                refresh_secs: DEFAULT_WIDGET_REFRESH_SECS,
                timeout_secs: DEFAULT_WIDGET_TIMEOUT_SECS,
                position: WidgetPosition::Auto,
            },
        ],
        default_themes(),
        0,
    );

    assert_eq!(widgets.widgets[0].title(), "");
    assert_eq!(widgets.widgets[1].title(), "fallback-command");
    assert_eq!(widgets.widgets[2].title(), "widget");
}

#[test]
fn bottom_widget_renders_full_width_under_the_row() {
    let mut widgets = ClockWidgets::new(
        vec![
            widget_config("one"),
            widget_config("two"),
            bottom_widget_config("health"),
        ],
        default_themes(),
        0,
    );
    widgets.widgets[2].output = numbered_lines(4);
    let area = Rect::new(0, 2, 80, 38);
    let terminal_area = Rect::new(0, 0, 80, 40);

    widgets.render(area, terminal_area);

    // row widgets side by side on top
    assert!(widgets.widgets[0].visible);
    assert!(widgets.widgets[1].visible);
    assert_eq!(widgets.viewports[0].y, widgets.viewports[1].y);
    assert!(widgets.viewports[1].x > widgets.viewports[0].x);

    // bottom widget: full band width, below the row, sized to content
    assert!(widgets.widgets[2].visible);
    let bottom = widgets.viewports[2];
    assert!(bottom.y > widgets.viewports[0].y);
    // band width minus padding
    assert_eq!(bottom.width, area.width - 2);
    // title + 4 output lines
    assert_eq!(bottom.height, 5);
    // band ends at the bottom edge of the widget area
    assert_eq!(bottom.y + bottom.height + 1, area.y + area.height);
}

#[test]
fn bottom_widgets_do_not_count_against_row_widget_limit() {
    let mut configs = (0..ULTRAWIDE_TERMINAL_WIDGETS)
        .map(|index| widget_config(&format!("row-{index}")))
        .collect::<Vec<_>>();
    configs.push(bottom_widget_config("health"));
    let mut widgets = ClockWidgets::new(configs, default_themes(), 0);
    widgets.widgets[ULTRAWIDE_TERMINAL_WIDGETS].output = "ok".to_string();
    let area = Rect::new(0, 0, 240, 50);

    widgets.render(area, area);

    assert_eq!(widgets.widgets.len(), ULTRAWIDE_TERMINAL_WIDGETS + 1);
    assert!(widgets
        .widgets
        .iter()
        .take(ULTRAWIDE_TERMINAL_WIDGETS)
        .all(|widget| widget.visible));
    assert!(widgets.widgets[ULTRAWIDE_TERMINAL_WIDGETS].visible);
    assert!(widgets.viewports[ULTRAWIDE_TERMINAL_WIDGETS].y > widgets.viewports[0].y);
}

#[test]
fn bottom_widget_alone_takes_band_without_row() {
    let mut widgets = ClockWidgets::new(vec![bottom_widget_config("health")], default_themes(), 0);
    widgets.widgets[0].output = numbered_lines(3);
    let area = Rect::new(0, 0, 60, 30);

    widgets.render(area, area);

    assert!(widgets.widgets[0].visible);
    let viewport = widgets.viewports[0];
    assert_eq!(viewport.height, 4); // title + 3 lines
    assert_eq!(viewport.y + viewport.height + 1, area.height);
}

#[test]
fn bottom_widget_is_capped_by_min_row_height() {
    let mut widgets = ClockWidgets::new(
        vec![widget_config("one"), bottom_widget_config("health")],
        default_themes(),
        0,
    );
    widgets.widgets[1].output = numbered_lines(100);
    let area = Rect::new(0, 0, 80, 20);

    widgets.render(area, area);

    // the row keeps its minimum height even with oversized bottom output
    assert!(widgets.viewports[0].height >= MIN_WIDGET_ROW_HEIGHT - 2);
    let bottom = widgets.viewports[1];
    assert!(bottom.height <= area.height - MIN_WIDGET_ROW_HEIGHT);
    assert!(widgets.widgets[1].visible);
}

#[test]
fn hidden_bottom_widget_does_not_run_or_hit_test() {
    let mut widgets = ClockWidgets::new(
        vec![widget_config("one"), bottom_widget_config("health")],
        default_themes(),
        0,
    );
    widgets.widgets[1].output = numbered_lines(5);
    // area too small to grant the bottom widget its minimum height
    let area = Rect::new(0, 0, 40, 9);

    widgets.render(area, area);

    assert!(!widgets.widgets[1].visible);
    assert_eq!(widgets.viewports[1], Rect::default());
    assert_eq!(widgets.hit_test(5, 5), Some(0));
}

#[test]
fn widget_hit_testing_uses_last_rendered_viewports() {
    let mut widgets = ClockWidgets::new(
        vec![widget_config("one"), widget_config("two")],
        default_themes(),
        0,
    );

    widgets.render(Rect::new(0, 2, 40, 8), Rect::new(0, 0, 40, 10));

    assert_eq!(widgets.viewports.len(), 2);
    assert_eq!(widgets.hit_test(1, 3), Some(0));
    assert_eq!(widgets.hit_test(21, 3), Some(1));
    assert_eq!(widgets.hit_test(0, 0), None);
}

#[test]
fn widget_scroll_clamps_and_home_end_target_active_widget() {
    let mut widgets = ClockWidgets::new(
        vec![widget_config("one"), widget_config("two")],
        default_themes(),
        0,
    );
    widgets.widgets[0].output = numbered_lines(20);
    widgets.widgets[1].output = numbered_lines(20);
    widgets.render(Rect::new(0, 0, 40, 8), Rect::new(0, 0, 40, 8));

    widgets.scroll_at(1, 1, 50);
    widgets.render(Rect::new(0, 0, 40, 8), Rect::new(0, 0, 40, 8));
    assert_eq!(widgets.active_widget, Some(0));
    assert_eq!(
        widgets.widgets[0].scroll,
        widgets.widgets[0].max_scroll(widgets.viewports[0])
    );
    assert_eq!(widgets.widgets[1].scroll, 0);

    widgets.scroll_active_to_top();
    assert_eq!(widgets.widgets[0].scroll, 0);
    widgets.scroll_active_to_bottom();
    assert_eq!(
        widgets.widgets[0].scroll,
        widgets.widgets[0].max_scroll(widgets.viewports[0])
    );
}

#[test]
fn widget_text_height_saturates_for_large_wrapped_lines() {
    let output = "x".repeat(u16::MAX as usize + 1);

    assert_eq!(widget_text_height("huge", &output, 1), u16::MAX);
}

#[test]
fn clock_size_fits_width_and_height() {
    let area = Rect::new(0, 0, 80, 20);
    let size = clock_size_for_area(8, area, true);
    let width = 8 * (CLOCK_GLYPH_COLUMNS as u16 * size + CLOCK_CHARACTER_SPACING)
        - CLOCK_CHARACTER_SPACING;
    let height = clock_height_for_size(size, true);

    assert!(width <= area.width);
    assert!(height <= area.height);
}

#[test]
fn cycling_theme_refreshes_visible_widgets_and_ignores_single_theme() {
    let mut widgets = ClockWidgets::new(
        vec![widget_config("one"), widget_config("hidden")],
        default_themes(),
        0,
    );
    let area = Rect::new(0, 0, 40, 8);
    widgets.render(area, area);
    widgets.widgets[0].output = "old".to_string();
    widgets.widgets[0].next_run = 61_000;
    widgets.widgets[1].visible = false;
    widgets.widgets[1].output = "old hidden".to_string();
    widgets.widgets[1].next_run = 61_000;

    let now = 1_000;
    widgets.cycle_theme(now);

    assert_eq!(widgets.current_theme(), "nerv");
    assert_eq!(widgets.widgets[0].output, "Loading...");
    assert!(widgets.widgets[0].next_run <= now);
    assert_eq!(widgets.widgets[1].output, "old hidden");
    assert!(widgets.widgets[1].next_run <= now);

    let mut single = ClockWidgets::new(vec![widget_config("one")], vec!["only".to_string()], 0);
    single.render(area, area);
    single.widgets[0].output = "old".to_string();
    single.cycle_theme(now);
    assert_eq!(single.current_theme(), "only");
    assert_eq!(single.widgets[0].output, "old");
}

#[test]
fn clock_size_leaves_vertical_breathing_without_header() {
    let area = Rect::new(0, 0, 500, 25);
    let size = clock_size_for_area(8, area, false);
    let height = clock_height_for_size(size, false);

    assert!(height <= area.height);
    assert_eq!(size, 4);
}

#[test]
fn clock_size_handles_tiny_areas() {
    assert_eq!(clock_size_for_area(8, Rect::new(0, 0, 1, 1), true), 1);
}

#[test]
fn widget_output_preserves_ansi_for_rendering() {
    let output = format_output(true, b"\x1b[2mok\x1b[0m\r\n".to_vec(), Vec::new());

    assert_eq!(output, "\x1b[2mok\x1b[0m");
}

#[test]
fn ansi_lines_render_sgr_as_styled_spans() {
    let lines = ansi_lines(
        "\x1b[2m19 projects checked\x1b[0m\n\x1b[36m\x1b[1mrepo/name\x1b[0m",
        Style::new(),
    );

    assert_eq!(lines.len(), 2);
    assert_eq!(lines[0].spans[0].content, "19 projects checked");
    assert!(has_modifiers(lines[0].spans[0].style.add_modifier, DIM));
    assert_eq!(lines[1].spans[0].content, "repo/name");
    assert_eq!(lines[1].spans[0].style.fg, Some(Color::Cyan));
    assert!(has_modifiers(lines[1].spans[0].style.add_modifier, BOLD));
}

#[test]
fn ansi_lines_skip_osc_terminated_by_st() {
    let lines = ansi_lines(
        "\x1b]8;;https://example.test\x1b\\repo/name\x1b]8;;\x1b\\ ok",
        Style::new(),
    );

    assert_eq!(lines.len(), 1);
    assert_eq!(lines[0].spans[0].content, "repo/name ok");
}

#[test]
fn ansi_lines_render_common_sgr_attributes() {
    let lines = ansi_lines(
        "\x1b[3;4;9;42;48;5;196mstyled\x1b[23;24;29;49m plain",
        Style::new(),
    );

    assert_eq!(lines.len(), 1);
    assert_eq!(lines[0].spans[0].content, "styled");
    assert_eq!(lines[0].spans[0].style.bg, Some(Color::Indexed(196)));
    assert!(has_modifiers(
        lines[0].spans[0].style.add_modifier,
        ITALIC | UNDERLINED | CROSSED_OUT
    ));
    assert_eq!(lines[0].spans[1].content, " plain");
    assert_eq!(lines[0].spans[1].style.bg, None);
    assert!(!has_modifiers(
        lines[0].spans[1].style.add_modifier,
        ITALIC | UNDERLINED | CROSSED_OUT
    ));
}

#[test]
fn widget_output_reader_caps_large_outputs() {
    let input = vec![b'a'; MAX_WIDGET_OUTPUT_BYTES + 1024];
    let mut reader = std::io::Cursor::new(input);
    let mut output = Vec::new();
    let mut buffer = [0u8; 8 * 1024];
    loop {
        let read = reader.read(&mut buffer).unwrap();
        if read == 0 {
            break;
        }
        clock_tui::output::append_capped(&mut output, &buffer, read);
    }

    assert_eq!(output.len(), MAX_WIDGET_OUTPUT_BYTES);
}
