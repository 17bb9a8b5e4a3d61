use wf_echo::app::{App, Mode};
use wf_echo::flow::Flow;
use wf_echo::input::{handle_detail, handle_filter, handle_help, handle_key, handle_normal, Effect, KeyCode};
use wf_echo::time::Timestamp;

fn flow(pipeline: &str, secs: i64) -> Flow {
    Flow {
        pipeline: pipeline.to_string(),
        direction: "OUTBOUND".to_string(),
        at: Timestamp::from_parts(secs, 0).unwrap(),
        format: "compact".to_string(),
        rendered: String::new(),
    }
}

fn app() -> App {
    App::new("log".to_string(), vec![flow("one", 1), flow("two", 2)])
}

#[test]
fn quit_keys() {
    let mut a = app();
    assert_eq!(handle_normal(&mut a, KeyCode::Char('q'), false), Effect::Nothing);
    assert!(a.should_quit);
    let mut b = app();
    handle_normal(&mut b, KeyCode::Esc, false);
    assert!(b.should_quit);
    let mut c = app();
    handle_normal(&mut c, KeyCode::Char('c'), false);
    assert!(!c.should_quit);
    handle_normal(&mut c, KeyCode::Char('c'), true);
    assert!(c.should_quit);
}

#[test]
fn navigation_keys() {
    let mut a = app();
    handle_normal(&mut a, KeyCode::Char('j'), false);
    assert_eq!(a.selected, 1);
    handle_normal(&mut a, KeyCode::Down, false);
    assert_eq!(a.selected, 0);
    handle_normal(&mut a, KeyCode::Up, false);
    assert_eq!(a.selected, 1);
    handle_normal(&mut a, KeyCode::Char('k'), false);
    assert_eq!(a.selected, 0);
}

#[test]
fn mode_keys() {
    let mut a = app();
    handle_normal(&mut a, KeyCode::Char('/'), false);
    assert_eq!(a.mode, Mode::Filter);
    let mut b = app();
    handle_normal(&mut b, KeyCode::Char('?'), false);
    assert_eq!(b.mode, Mode::Help);
    handle_help(&mut b, KeyCode::Char('x'));
    assert_eq!(b.mode, Mode::Help);
    handle_help(&mut b, KeyCode::Char('?'));
    assert_eq!(b.mode, Mode::Normal);
    let mut c = app();
    handle_normal(&mut c, KeyCode::Enter, false);
    assert_eq!(c.mode, Mode::Detail);
    handle_detail(&mut c, KeyCode::Char('l'));
    assert_eq!(c.mode, Mode::Normal);
}

#[test]
fn detail_needs_a_selected_flow() {
    let mut a = App::new("log".to_string(), Vec::new());
    handle_normal(&mut a, KeyCode::Char('l'), false);
    assert_eq!(a.mode, Mode::Normal);
}

#[test]
fn reload_key_asks_for_a_reload() {
    let mut a = app();
    assert_eq!(handle_normal(&mut a, KeyCode::Char('R'), false), Effect::Reload);
    a.reload_requested(vec![flow("three", 3)]);
    assert_eq!(a.status.as_deref(), Some("reloaded."));
    assert_eq!(a.flows.len(), 1);
}

#[test]
fn follow_key_toggles() {
    let mut a = app();
    handle_normal(&mut a, KeyCode::Char('f'), false);
    assert!(!a.follow_live);
}

#[test]
fn filter_editing() {
    let mut a = app();
    a.mode = Mode::Filter;
    handle_filter(&mut a, KeyCode::Char('t'));
    handle_filter(&mut a, KeyCode::Char('w'));
    assert_eq!(a.filter_text, "tw");
    assert_eq!(a.filtered, vec![0]);
    handle_filter(&mut a, KeyCode::Backspace);
    assert_eq!(a.filter_text, "t");
    assert_eq!(a.filtered, vec![0]);
    handle_filter(&mut a, KeyCode::Enter);
    assert_eq!(a.mode, Mode::Normal);
    assert_eq!(a.filter_text, "t");
    a.mode = Mode::Filter;
    handle_filter(&mut a, KeyCode::Esc);
    assert_eq!(a.filter_text, "");
    assert_eq!(a.filtered, vec![0, 1]);
    assert_eq!(a.mode, Mode::Normal);
}

#[test]
fn backspace_on_empty_filter_keeps_it_empty() {
    let mut a = app();
    handle_filter(&mut a, KeyCode::Backspace);
    assert_eq!(a.filter_text, "");
}

#[test]
fn handle_key_dispatches_by_mode() {
    let mut a = app();
    a.mode = Mode::Filter;
    assert_eq!(handle_key(&mut a, KeyCode::Char('q'), false), Effect::Nothing);
    assert_eq!(a.filter_text, "q");
    assert!(!a.should_quit);
    a.mode = Mode::Normal;
    assert_eq!(handle_key(&mut a, KeyCode::Char('R'), false), Effect::Reload);
    a.mode = Mode::Detail;
    handle_key(&mut a, KeyCode::Char('q'), false);
    assert_eq!(a.mode, Mode::Normal);
    assert!(!a.should_quit);
}

#[test]
fn reload_key_in_browse_mode_keeps_the_selected_flow() {
    let mut a = app();
    handle_normal(&mut a, KeyCode::Char('f'), false);
    handle_normal(&mut a, KeyCode::Down, false);
    assert_eq!(a.flows[a.filtered[a.selected]].pipeline, "one");
    assert_eq!(handle_key(&mut a, KeyCode::Char('R'), false), Effect::Reload);
    a.reload_requested(vec![flow("one", 1), flow("two", 2), flow("three", 3)]);
    assert_eq!(a.selected, 2);
    assert_eq!(a.flows[a.filtered[a.selected]].pipeline, "one");
    assert_eq!(a.status.as_deref(), Some("reloaded."));
}

#[test]
fn reload_key_when_following_selects_the_newest() {
    let mut a = app();
    handle_normal(&mut a, KeyCode::Down, false);
    a.reload_requested(vec![flow("one", 1), flow("three", 3)]);
    assert_eq!(a.selected, 0);
    assert_eq!(a.flows[0].pipeline, "three");
}

#[test]
fn help_mode_keys_go_to_the_help_handler() {
    let mut a = app();
    a.mode = Mode::Help;
    assert_eq!(handle_key(&mut a, KeyCode::Char('j'), false), Effect::Nothing);
    assert_eq!(a.selected, 0);
    assert_eq!(a.mode, Mode::Help);
    handle_key(&mut a, KeyCode::Char('?'), false);
    assert_eq!(a.mode, Mode::Normal);
}
