use wf_echo::app::App;
use wf_echo::flow::Flow;
use wf_echo::time::Timestamp;
use wf_echo::ui::{
    centered_rect, detail_popup_text, footer_text, help_text, one_line_preview, status_line,
    screen_bands, table_rows, table_selection, table_title, Rect, Tone,
};

fn flow(pipeline: &str, direction: &str, rendered: &str) -> Flow {
    Flow {
        pipeline: pipeline.to_string(),
        direction: direction.to_string(),
        at: Timestamp::from_parts(1704164645, 5_000_000).unwrap(),
        format: "hex".to_string(),
        rendered: rendered.to_string(),
    }
}

#[test]
fn preview_keeps_short_first_line() {
    assert_eq!(one_line_preview("hello\nworld", 80), "hello");
    assert_eq!(one_line_preview("crlf\r\nnext", 80), "crlf");
    assert_eq!(one_line_preview("", 80), "");
}

#[test]
fn preview_cuts_long_lines_with_ellipsis() {
    assert_eq!(one_line_preview("abcdefgh", 5), "abcd…");
    assert_eq!(one_line_preview("abcde", 5), "abcde");
    assert_eq!(one_line_preview("ab", 0), "…");
    assert_eq!(one_line_preview("ééééé", 3), "éé…");
}

#[test]
fn table_rows_show_direction_time_and_preview() {
    let app = App::new(
        "l".to_string(),
        vec![flow("p", "Outbound", "line1\nline2"), flow("q", "INBOUND", "x")],
    );
    let rows = table_rows(&app);
    assert_eq!(rows.len(), 2);
    assert!(rows[0].outbound);
    assert_eq!(rows[0].direction, "OUT");
    assert_eq!(rows[0].preview, "line1");
    assert_eq!(rows[0].time, "03:04:05.005");
    assert!(!rows[1].outbound);
    assert_eq!(rows[1].direction, "IN");
}

#[test]
fn title_counts_all_flows() {
    let mut app = App::new("l".to_string(), vec![flow("p", "x", ""), flow("q", "x", "")]);
    assert_eq!(table_title(&app), " echo — 2 flows [following] ");
    app.toggle_follow();
    assert_eq!(table_title(&app), " echo — 2 flows [browsing] ");
    let many: Vec<Flow> = (0..12).map(|_| flow("p", "x", "")).collect();
    let app = App::new("l".to_string(), many);
    assert_eq!(table_title(&app), " echo — 12 flows [following] ");
}

#[test]
fn selection_is_hidden_for_an_empty_list() {
    let app = App::new("l".to_string(), Vec::new());
    assert_eq!(table_selection(&app), None);
    let app = App::new("l".to_string(), vec![flow("p", "x", "")]);
    assert_eq!(table_selection(&app), Some(0));
}

#[test]
fn status_line_cases() {
    let mut app = App::new("l".to_string(), Vec::new());
    let s = status_line(&app);
    assert_eq!(s.tone, Tone::Red);
    assert_eq!(
        s.text,
        "no flows yet — waiting for traffic through a WraithFlow pipeline with capture_log enabled"
    );
    app.mode = wf_echo::app::Mode::Filter;
    app.filter_text = "ab".to_string();
    let s = status_line(&app);
    assert_eq!(s.text, "filter: ab_");
    assert_eq!(s.tone, Tone::Cyan);
    let mut app = App::new("l".to_string(), vec![flow("p", "x", "")]);
    assert_eq!(status_line(&app).text, "");
    app.status = Some("reloaded.".to_string());
    assert_eq!(status_line(&app).text, "reloaded.");
}

#[test]
fn footer_names_the_follow_key() {
    let mut app = App::new("l".to_string(), Vec::new());
    assert_eq!(
        footer_text(&app),
        "j/k nav  enter/l details  /  filter  f pause  R reload  ? help  q quit"
    );
    app.toggle_follow();
    assert!(footer_text(&app).contains("f follow"));
}

#[test]
fn detail_popup_is_empty_without_selection() {
    let app = App::new("l".to_string(), Vec::new());
    assert_eq!(detail_popup_text(&app), "");
    let app = App::new("l".to_string(), vec![flow("p", "x", "r")]);
    assert!(detail_popup_text(&app).starts_with("pipeline: p\n"));
}

#[test]
fn help_has_one_line_per_binding() {
    let h = help_text();
    assert_eq!(h.lines().count(), 7);
    assert!(h.starts_with("j/k, ↑/↓   move"));
    assert!(h.ends_with("q, Esc     quit (Esc closes a popup first)"));
}

#[test]
fn centered_rect_is_in_the_middle() {
    let r = centered_rect(50, 50, Rect { x: 0, y: 0, width: 100, height: 100 });
    assert_eq!(r, Rect { x: 25, y: 25, width: 50, height: 50 });
    let full = centered_rect(100, 100, Rect { x: 3, y: 4, width: 40, height: 20 });
    assert_eq!(full, Rect { x: 3, y: 4, width: 40, height: 20 });
}

#[test]
fn centered_popup_stays_inside_an_offset_area() {
    let area = Rect { x: 7, y: 3, width: 81, height: 27 };
    let r = centered_rect(60, 55, area);
    assert!(r.x >= area.x && r.x + r.width <= area.x + area.width);
    assert!(r.y >= area.y && r.y + r.height <= area.y + area.height);
    assert!(r.width > 0 && r.height > 0);
}

#[test]
fn centered_rect_takes_width_from_x_and_height_from_y() {
    let r = centered_rect(60, 50, Rect { x: 0, y: 0, width: 100, height: 100 });
    assert_eq!(r, Rect { x: 20, y: 25, width: 60, height: 50 });
    let q = centered_rect(60, 55, Rect { x: 7, y: 3, width: 81, height: 27 });
    assert_eq!((q.x, q.width), (23, 49));
}

#[test]
fn screen_bands_give_the_table_all_but_two_rows() {
    let (table, status, footer) = screen_bands(Rect { x: 2, y: 1, width: 80, height: 24 });
    assert_eq!(table, Rect { x: 2, y: 1, width: 80, height: 22 });
    assert_eq!(status, Rect { x: 2, y: 23, width: 80, height: 1 });
    assert_eq!(footer, Rect { x: 2, y: 24, width: 80, height: 1 });
}

#[test]
fn screen_bands_stay_inside_a_tiny_screen() {
    let area = Rect { x: 0, y: 0, width: 10, height: 3 };
    let (a, b, c) = screen_bands(area);
    for r in [a, b, c] {
        assert!(r.y + r.height <= 3);
        assert_eq!((r.x, r.width), (0, 10));
    }
}
