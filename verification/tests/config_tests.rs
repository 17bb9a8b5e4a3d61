use wf_echo::config::{
    config_candidates, expand_home, first_existing, is_json_config, join_path, parse_args,
    resolve_capture_log_path, ArgMode, ResolveError,
};

#[test]
fn arguments() {
    assert_eq!(parse_args(None), Ok(ArgMode::Tui));
    assert_eq!(parse_args(Some("--list")), Ok(ArgMode::List));
    assert_eq!(parse_args(Some("-h")), Ok(ArgMode::Help));
    assert_eq!(parse_args(Some("--help")), Ok(ArgMode::Help));
    assert_eq!(
        parse_args(Some("--bogus")),
        Err("wf-echo: unrecognized argument '--bogus'\nRun `wf-echo --help` for usage.".to_string())
    );
}

#[test]
fn joining_paths() {
    assert_eq!(join_path("/home/u", ".config"), "/home/u/.config");
    assert_eq!(join_path("/home/u/", ".config"), "/home/u/.config");
    assert_eq!(join_path("", "x"), "x");
    assert_eq!(join_path("/a", "/etc"), "/etc");
    assert_eq!(join_path("/a", ""), "/a/");
}

#[test]
fn candidates_in_lookup_order() {
    let c = config_candidates(Some("/xdg".to_string()), Some("/home/u".to_string())).unwrap();
    assert_eq!(c, vec!["/xdg/wraithflow/config.toml".to_string(), "config.toml".to_string(), "config.json".to_string()]);
    let c = config_candidates(None, Some("/home/u".to_string())).unwrap();
    assert_eq!(c[0], "/home/u/.config/wraithflow/config.toml");
    assert!(config_candidates(None, None).is_none());
}

#[test]
fn first_existing_candidate_wins() {
    let c = vec!["a".to_string(), "b".to_string(), "c".to_string()];
    assert_eq!(first_existing(&c, &vec![false, true, true]), Some("b".to_string()));
    assert_eq!(first_existing(&c, &vec![false, false, false]), None);
}

#[test]
fn home_expansion() {
    assert_eq!(
        expand_home("~/.local/state/wraithflow/captures.jsonl", Some("/home/u")),
        "/home/u/.local/state/wraithflow/captures.jsonl"
    );
    assert_eq!(expand_home("~/x", None), "~/x");
    assert_eq!(expand_home("/abs/x", Some("/home/u")), "/abs/x");
    assert_eq!(expand_home("~x", Some("/home/u")), "~x");
}

#[test]
fn resolving_the_capture_log() {
    assert!(matches!(resolve_capture_log_path(None, Some("x".to_string())), Err(ResolveError::NoConfig)));
    assert_eq!(
        resolve_capture_log_path(Some("cfg".to_string()), Some("/log".to_string())).ok(),
        Some("/log".to_string())
    );
    let e = resolve_capture_log_path(Some("/etc/wf.toml".to_string()), None).unwrap_err();
    assert!(e.message().starts_with("WraithFlow config at /etc/wf.toml has no `capture_log` set"));
    assert!(ResolveError::NoConfig.message().starts_with("no WraithFlow config found"));
}

#[test]
fn json_config_is_told_by_its_extension() {
    assert!(is_json_config("/home/u/.config/wraithflow/config.json"));
    assert!(is_json_config("config.json"));
    assert!(!is_json_config("config.toml"));
    assert!(!is_json_config("config.JSON"));
    assert!(!is_json_config(".json"));
    assert!(!is_json_config("settings.json/config"));
}

#[test]
fn json_config_looks_at_the_last_real_component() {
    assert!(is_json_config("conf/wraithflow.json/"));
    assert!(is_json_config("conf/wraithflow.json/."));
    assert!(is_json_config("conf//x.tar.json"));
    assert!(!is_json_config("conf/x.json/.."));
    assert!(!is_json_config("conf/.json"));
    assert!(is_json_config("conf/..json"));
    assert!(!is_json_config("json"));
    assert!(!is_json_config("x.json."));
}
