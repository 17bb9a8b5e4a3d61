use wf_echo::app::detail_lines;
use wf_echo::flow::{capture_lines, keep_parsed, sort_newest_first, Flow};
use wf_echo::time::Timestamp;

fn ts(secs: i64, nanos: u32) -> Timestamp {
    Timestamp::from_parts(secs, nanos).unwrap()
}

fn flow(pipeline: &str, secs: i64, rendered: &str) -> Flow {
    Flow {
        pipeline: pipeline.to_string(),
        direction: "OUTBOUND".to_string(),
        at: ts(secs, 0),
        format: "compact".to_string(),
        rendered: rendered.to_string(),
    }
}

/// Builds a flow from one capture-log line the way the viewer reads it.
fn parse_line(line: &str) -> Option<Flow> {
    let v: serde_json::Value = serde_json::from_str(line).ok()?;
    let at = chrono::DateTime::parse_from_rfc3339(v.get("at")?.as_str()?).ok()?;
    Some(Flow {
        pipeline: v.get("pipeline")?.as_str()?.to_string(),
        direction: v.get("direction")?.as_str()?.to_string(),
        at: Timestamp::from_parts(at.timestamp(), at.timestamp_subsec_nanos())?,
        format: v.get("format")?.as_str()?.to_string(),
        rendered: v.get("rendered")?.as_str()?.to_string(),
    })
}

fn read_log(raw: &str) -> Vec<Flow> {
    let lines = capture_lines(raw);
    keep_parsed(lines.iter().map(|l| parse_line(l)).collect())
}

#[test]
fn capture_line_of_the_proxy_parses() {
    let raw = "{\"pipeline\":\"http-gateway\",\"direction\":\"OUTBOUND\",\"at\":\"2026-09-17T22:09:10.448920208+00:00\",\"format\":\"compact\",\"rendered\":\"[OUTBOUND] 53B \\\"hello\\\"\"}\n";
    let flows = read_log(raw);
    assert_eq!(flows.len(), 1);
    assert_eq!(flows[0].pipeline, "http-gateway");
    assert_eq!(flows[0].direction, "OUTBOUND");
    assert_eq!(flows[0].format, "compact");
    assert_eq!(flows[0].at.secs(), 1789682950);
    assert_eq!(flows[0].at.nanos(), 448920208);
}

#[test]
fn malformed_lines_are_skipped_not_fatal() {
    let flows = read_log("not json\n{\"broken\":\n");
    assert!(flows.is_empty());
}

#[test]
fn empty_log_has_no_flows() {
    assert!(read_log("").is_empty());
}

#[test]
fn capture_lines_skip_blank_lines_and_strip_crlf() {
    let lines = capture_lines("a\r\n\n  \t\nb\rc\n\u{a0}\nlast");
    assert_eq!(lines, vec!["a".to_string(), "b\rc".to_string(), "last".to_string()]);
}

#[test]
fn capture_lines_keep_a_trailing_bare_carriage_return() {
    let lines = capture_lines("x\r");
    assert_eq!(lines, vec!["x\r".to_string()]);
}

#[test]
fn keep_parsed_drops_unparsed_in_order() {
    let out = keep_parsed(vec![None, Some(flow("a", 1, "")), None, Some(flow("b", 2, ""))]);
    assert_eq!(out.len(), 2);
    assert_eq!(out[0].pipeline, "a");
    assert_eq!(out[1].pipeline, "b");
}

#[test]
fn sort_is_newest_first_and_stable() {
    let out = sort_newest_first(vec![
        flow("a", 10, ""),
        flow("b", 30, ""),
        flow("c", 10, ""),
        flow("d", 20, ""),
        flow("e", 30, ""),
    ]);
    let names: Vec<&str> = out.iter().map(|f| f.pipeline.as_str()).collect();
    assert_eq!(names, vec!["b", "e", "d", "a", "c"]);
}

#[test]
fn sort_orders_by_nanoseconds_within_a_second() {
    let mut early = flow("early", 5, "");
    early.at = ts(5, 1);
    let mut late = flow("late", 5, "");
    late.at = ts(5, 2);
    let out = sort_newest_first(vec![early, late]);
    assert_eq!(out[0].pipeline, "late");
}

#[test]
fn detail_lines_lists_fields_and_rendering() {
    let f = Flow {
        pipeline: "http-gateway".to_string(),
        direction: "OUTBOUND".to_string(),
        at: ts(1789682950, 448920208),
        format: "compact".to_string(),
        rendered: "body".to_string(),
    };
    assert_eq!(
        detail_lines(&f),
        "pipeline: http-gateway\ndirection: OUTBOUND\nat:        2026-09-17T22:09:10.448920208+00:00\nformat:    compact\n\nbody"
    );
}

#[test]
fn timestamp_rejects_out_of_range_instants() {
    assert!(Timestamp::from_parts(i64::MAX, 0).is_none());
    assert!(Timestamp::from_parts(0, 2_000_000_000).is_none());
    assert!(Timestamp::from_parts(0, 0).is_some());
}

#[test]
fn clock_text_has_milliseconds() {
    assert_eq!(ts(1704164645, 987_654_321).clock_millis(), "03:04:05.987");
}

#[test]
fn clock_text_counts_a_leap_second_as_sixty() {
    assert_eq!(ts(59, 1_500_000_000).clock_millis(), "00:00:60.500");
}

#[test]
fn clock_text_before_the_epoch_wraps_into_the_previous_day() {
    assert_eq!(ts(-1, 5_000_000).clock_millis(), "23:59:59.005");
}

#[test]
fn timestamp_range_ends_where_chrono_dates_end() {
    assert!(Timestamp::from_parts(-8_334_601_228_800, 0).is_some());
    assert!(Timestamp::from_parts(-8_334_601_228_801, 0).is_none());
    assert!(Timestamp::from_parts(8_210_266_876_799, 999_999_999).is_some());
    assert!(Timestamp::from_parts(8_210_266_876_800, 0).is_none());
}

#[test]
fn timestamp_accepts_a_leap_second_only_at_a_minute_end() {
    assert!(Timestamp::from_parts(59, 1_000_000_000).is_some());
    assert!(Timestamp::from_parts(58, 1_000_000_000).is_none());
    assert!(Timestamp::from_parts(-1, 1_999_999_999).is_some());
}
