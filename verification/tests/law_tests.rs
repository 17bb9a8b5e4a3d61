use wf_echo::app::App;
use wf_echo::flow::{sort_newest_first, Flow};
use wf_echo::input::{handle_filter, handle_key, KeyCode};
use wf_echo::time::Timestamp;
use wf_echo::ui::one_line_preview;

fn flow(pipeline: &str, secs: i64) -> Flow {
    Flow {
        pipeline: pipeline.to_string(),
        direction: "OUTBOUND".to_string(),
        at: Timestamp::from_parts(secs, 0).unwrap(),
        format: "f".to_string(),
        rendered: String::new(),
    }
}

fn names(v: &[Flow]) -> Vec<String> {
    v.iter().map(|f| f.pipeline.clone()).collect()
}

#[test]
fn sorting_twice_equals_sorting_once() {
    let once = sort_newest_first(vec![flow("a", 1), flow("b", 3), flow("c", 1), flow("d", 2)]);
    let before = names(&once);
    let twice = sort_newest_first(once);
    assert_eq!(names(&twice), before);
}

#[test]
fn next_then_previous_returns() {
    let mut app = App::new("l".to_string(), vec![flow("a", 1), flow("b", 2), flow("c", 3)]);
    for start in 0..3 {
        app.selected = start;
        app.next();
        app.previous();
        assert_eq!(app.selected, start);
        app.previous();
        app.next();
        assert_eq!(app.selected, start);
    }
}

#[test]
fn toggling_twice_restores_follow_mode() {
    let mut app = App::new("l".to_string(), vec![flow("a", 1)]);
    app.toggle_follow();
    app.toggle_follow();
    assert!(app.follow_live);
}

#[test]
fn follow_selects_newest_after_reload() {
    let mut app = App::new("l".to_string(), vec![flow("a", 1)]);
    app.reload(vec![flow("old", 1), flow("new", 7), flow("mid", 4)]);
    assert_eq!(app.selected_flow().unwrap().pipeline, "new");
}

#[test]
fn preview_never_exceeds_its_width() {
    for w in 1..10 {
        let p = one_line_preview("a fairly long first line\nsecond", w);
        assert!(p.chars().count() <= w);
    }
}

#[test]
fn typing_then_deleting_restores_the_list() {
    let mut app = App::new("l".to_string(), vec![flow("apple", 1), flow("pear", 2)]);
    app.filter_text = "p".to_string();
    app.apply_sort_and_filter();
    let listed = app.filtered.clone();
    handle_filter(&mut app, KeyCode::Char('l'));
    assert_eq!(app.filtered, vec![1]);
    handle_filter(&mut app, KeyCode::Backspace);
    assert_eq!(app.filter_text, "p");
    assert_eq!(app.filtered, listed);
}

#[test]
fn as_many_next_calls_as_entries_return_to_the_start() {
    let mut a = App::new("log".to_string(), vec![flow("a", 1), flow("b", 2), flow("c", 3)]);
    a.next();
    let start = a.selected;
    for _ in 0..a.filtered.len() {
        a.next();
        assert!(a.selected < a.filtered.len());
    }
    assert_eq!(a.selected, start);
}

#[test]
fn no_operation_changes_the_polled_log_path() {
    let mut a = App::new("/var/log/captures.jsonl".to_string(), vec![flow("a", 1)]);
    a.reload(vec![flow("b", 2), flow("c", 3)]);
    a.apply_sort_and_filter();
    a.next();
    a.previous();
    a.toggle_follow();
    handle_key(&mut a, KeyCode::Char('/'), false);
    handle_key(&mut a, KeyCode::Char('x'), false);
    a.reload_requested(vec![]);
    assert_eq!(a.log_path_for_polling(), "/var/log/captures.jsonl");
}
