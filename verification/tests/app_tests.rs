use wf_echo::app::{App, Mode};
use wf_echo::flow::Flow;
use wf_echo::time::Timestamp;

fn flow(pipeline: &str, secs: i64, rendered: &str) -> Flow {
    Flow {
        pipeline: pipeline.to_string(),
        direction: "INBOUND".to_string(),
        at: Timestamp::from_parts(secs, 0).unwrap(),
        format: "compact".to_string(),
        rendered: rendered.to_string(),
    }
}

fn sample() -> Vec<Flow> {
    vec![
        flow("Alpha-Gateway", 1, "GET /index"),
        flow("beta", 3, "POST /Login"),
        flow("gamma", 2, "nothing here"),
    ]
}

#[test]
fn new_app_lists_everything_newest_first() {
    let app = App::new("/tmp/log".to_string(), sample());
    let names: Vec<&str> = app.flows.iter().map(|f| f.pipeline.as_str()).collect();
    assert_eq!(names, vec!["beta", "gamma", "Alpha-Gateway"]);
    assert_eq!(app.filtered, vec![0, 1, 2]);
    assert_eq!(app.selected, 0);
    assert!(app.follow_live);
    assert_eq!(app.mode, Mode::Normal);
    assert_eq!(app.log_path_for_polling(), "/tmp/log");
}

#[test]
fn filter_matches_pipeline_or_rendering_ignoring_case() {
    let mut app = App::new("l".to_string(), sample());
    app.filter_text = "LOGIN".to_string();
    app.apply_sort_and_filter();
    assert_eq!(app.filtered, vec![0]);
    app.filter_text = "gateway".to_string();
    app.apply_sort_and_filter();
    assert_eq!(app.filtered, vec![2]);
    app.filter_text = "zzz".to_string();
    app.apply_sort_and_filter();
    assert!(app.filtered.is_empty());
    assert_eq!(app.selected, 0);
    assert!(app.selected_flow().is_none());
}

#[test]
fn selection_is_pulled_back_into_a_shorter_list() {
    let mut app = App::new("l".to_string(), sample());
    app.selected = 2;
    app.filter_text = "a".to_string();
    app.apply_sort_and_filter();
    assert_eq!(app.filtered, vec![0, 1, 2]);
    assert_eq!(app.selected, 2);
    app.filter_text = "beta".to_string();
    app.apply_sort_and_filter();
    assert_eq!(app.selected, 0);
}

#[test]
fn next_and_previous_wrap_around() {
    let mut app = App::new("l".to_string(), sample());
    app.previous();
    assert_eq!(app.selected, 2);
    app.next();
    assert_eq!(app.selected, 0);
    app.next();
    app.next();
    assert_eq!(app.selected, 2);
    app.next();
    assert_eq!(app.selected, 0);
}

#[test]
fn moving_in_an_empty_list_does_nothing() {
    let mut app = App::new("l".to_string(), Vec::new());
    app.next();
    app.previous();
    assert_eq!(app.selected, 0);
}

#[test]
fn follow_mode_jumps_to_the_newest_on_reload() {
    let mut app = App::new("l".to_string(), sample());
    app.selected = 2;
    let mut more = sample();
    more.push(flow("delta", 9, ""));
    app.reload(more);
    assert_eq!(app.selected, 0);
    assert_eq!(app.selected_flow().unwrap().pipeline, "delta");
}

#[test]
fn browse_mode_keeps_the_selected_flow_on_reload() {
    let mut app = App::new("l".to_string(), sample());
    app.toggle_follow();
    assert!(!app.follow_live);
    app.selected = 1;
    assert_eq!(app.selected_flow().unwrap().pipeline, "gamma");
    let mut more = sample();
    more.push(flow("delta", 9, ""));
    more.push(flow("epsilon", 8, ""));
    app.reload(more);
    assert_eq!(app.selected, 3);
    assert_eq!(app.selected_flow().unwrap().pipeline, "gamma");
}

#[test]
fn browse_mode_clamps_when_the_flow_is_gone() {
    let mut app = App::new("l".to_string(), sample());
    app.toggle_follow();
    app.selected = 2;
    app.reload(vec![flow("only", 1, "")]);
    assert_eq!(app.selected, 0);
    assert_eq!(app.selected_flow().unwrap().pipeline, "only");
}

#[test]
fn toggle_follow_reports_the_mode() {
    let mut app = App::new("l".to_string(), sample());
    app.toggle_follow();
    assert_eq!(
        app.status.as_deref(),
        Some("browsing — new traffic won't move your selection")
    );
    app.toggle_follow();
    assert!(app.follow_live);
    assert_eq!(app.status.as_deref(), Some("following live traffic"));
}

#[test]
fn selected_flow_follows_the_list() {
    let mut app = App::new("l".to_string(), sample());
    app.filter_text = "index".to_string();
    app.apply_sort_and_filter();
    assert_eq!(app.selected_flow().unwrap().pipeline, "Alpha-Gateway");
}
