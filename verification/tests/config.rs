use watchlite::config::alert::{parse_alert, threshold_text, AlertSpec};
use watchlite::config::args::{read_args, Environment, Request, Settings};
use watchlite::config::paths::{resolve_history_file, StatePlaces};
use watchlite::config::{basic_auth_value, failure_text, Config, Readings, USAGE};

fn alert(spec: &str) -> Result<AlertSpec, String> {
    let reading = threshold_text(spec)
        .and_then(|t| t.parse::<f64>().ok())
        .map(f64::to_bits);
    parse_alert(spec, reading)
}

fn no_env() -> Environment {
    Environment {
        bind: None,
        interval: None,
        top: None,
        auth: None,
        history: None,
        history_file: None,
        container_socket: None,
        webhook: None,
        image_gc: None,
    }
}

fn no_places() -> StatePlaces {
    StatePlaces { state_directory: None, state_home: None, home: None }
}

fn strings(list: &[&str]) -> Vec<String> {
    list.iter().map(|s| s.to_string()).collect()
}

fn settings(args: &[&str]) -> Settings {
    match read_args(&no_env(), &strings(args)) {
        Request::Run(s) => s,
        other => panic!("{:?}", other),
    }
}

fn config(args: &[&str]) -> Result<Config, String> {
    let s = settings(args);
    let readings = Readings {
        bind: s.bind.contains(':'),
        interval: s.interval.parse::<f64>().ok().map(f64::to_bits),
        thresholds: s
            .alerts
            .iter()
            .map(|a| threshold_text(a).and_then(|t| t.parse::<f64>().ok()).map(f64::to_bits))
            .collect(),
    };
    Config::from_args(s, &no_places(), &readings)
}

#[test]
fn alert_spec_parsing() {
    let a = alert("cpu>90").unwrap();
    assert_eq!(a.metric, "cpu");
    assert_eq!(a.target, None);
    assert_eq!(f64::from_bits(a.threshold), 90.0);

    let d = alert("disk:/data>85").unwrap();
    assert_eq!(d.metric, "disk");
    assert_eq!(d.target.as_deref(), Some("/data"));
    assert_eq!(f64::from_bits(d.threshold), 85.0);

    // temp accepts thresholds above 100 (degrees, not percent)
    let t = alert("temp:Package>105").unwrap();
    assert_eq!(t.metric, "temp");
    assert_eq!(t.target.as_deref(), Some("Package"));
    assert_eq!(f64::from_bits(t.threshold), 105.0);
}

#[test]
fn alert_errors() {
    assert_eq!(alert("cpu").unwrap_err(), "invalid alert spec (want metric>threshold): cpu");
    assert_eq!(
        alert("gpu>1").unwrap_err(),
        "unknown alert metric (cpu, mem, swap, disk, temp): gpu"
    );
    assert_eq!(alert("cpu:0>1").unwrap_err(), "alert metric 'cpu' takes no :target: cpu:0>1");
    assert_eq!(alert("disk:>1").unwrap_err(), "empty alert :target in disk:>1");
    assert_eq!(alert("cpu>x").unwrap_err(), "invalid alert threshold (0-100): cpu>x");
    assert_eq!(alert("temp>200").unwrap_err(), "invalid alert threshold (0-200): temp>200");
}

#[test]
fn thresholds_lie_strictly_between_their_limits() {
    for t in ["0", "-0", "-1", "100", "100.1", "inf", "-inf", "nan", "NaN", "1e300", ""] {
        assert!(alert(&format!("mem>{}", t)).is_err());
    }
    for t in ["5e-324", "0.1", "99.99999999999999", "+50", "1e1"] {
        assert!(alert(&format!("mem>{}", t)).is_ok());
    }
    assert!(alert("temp>199.9").is_ok());
}

#[test]
fn alert_targets_may_hold_colons() {
    let a = alert("temp:a:b>1").unwrap();
    assert_eq!(a.target.as_deref(), Some("a:b"));
    assert!(alert("disk:a>b>1").is_err());
}

#[test]
fn defaults() {
    let c = config(&[]).unwrap();
    assert_eq!(c.bind, "127.0.0.1:8077");
    assert_eq!(f64::from_bits(c.interval), 2.0);
    assert_eq!(c.top_n, 0);
    assert!(c.docker);
    assert_eq!(c.auth, None);
    assert_eq!(c.history, 3600);
    assert_eq!(c.history_file, None);
    assert_eq!(c.container_socket, None);
    assert_eq!(c.image_gc_interval, None);
    assert!(c.alerts.is_empty());
    assert_eq!(c.webhook, None);
    assert!(!c.once);
}

#[test]
fn every_flag() {
    let c = config(&[
        "--bind", "0.0.0.0:80", "--interval", "0.5", "--top", "+25", "--auth", "admin:secret",
        "--history", "60", "--history-file", "/h", "--container-socket", "/s", "--image-gc", "60",
        "--alert", "cpu>90", "--webhook", "http://x", "--no-docker", "--once", "--alert", "temp>80",
    ])
    .unwrap();
    assert_eq!(c.bind, "0.0.0.0:80");
    assert_eq!(f64::from_bits(c.interval), 0.5);
    assert_eq!(c.top_n, 25);
    assert_eq!(c.auth.as_deref(), Some("Basic YWRtaW46c2VjcmV0"));
    assert_eq!(c.history, 60);
    assert_eq!(c.history_file.as_deref(), Some("/h"));
    assert_eq!(c.container_socket.as_deref(), Some("/s"));
    assert_eq!(c.image_gc_interval, Some(60));
    assert_eq!(c.alerts.len(), 2);
    assert_eq!(c.alerts[0].metric, "cpu");
    assert_eq!(c.alerts[1].metric, "temp");
    assert_eq!(c.webhook.as_deref(), Some("http://x"));
    assert!(!c.docker);
    assert!(c.once);
}

#[test]
fn flags_win_over_the_environment() {
    let mut env = no_env();
    env.bind = Some("1.1.1.1:1".to_string());
    env.top = Some("7".to_string());
    match read_args(&env, &strings(&["--bind", "2.2.2.2:2", "--bind", "3.3.3.3:3"])) {
        Request::Run(s) => {
            assert_eq!(s.bind, "3.3.3.3:3");
            assert_eq!(s.top, "7");
        }
        other => panic!("{:?}", other),
    }
}

#[test]
fn given_flag_hides_its_variable() {
    for variable in [None, Some("5".to_string()), Some("nonsense".to_string())] {
        let env = Environment { top: variable, ..no_env() };
        let args = strings(&["--once", "--top", "7", "--bind", "--top"]);
        match read_args(&env, &args) {
            Request::Run(s) => {
                assert_eq!(s.top, "7");
                assert_eq!(s.bind, "--top");
                assert!(s.once && s.docker);
            }
            other => panic!("{:?}", other),
        }
    }
}

#[test]
fn action_flags_end_the_reading() {
    assert!(matches!(read_args(&no_env(), &strings(&["--once", "-V", "--bad"])), Request::Version));
    assert!(matches!(read_args(&no_env(), &strings(&["--version"])), Request::Version));
    assert!(matches!(read_args(&no_env(), &strings(&["-h"])), Request::Help));
    assert!(matches!(read_args(&no_env(), &strings(&["--help", "--bind"])), Request::Help));
    assert!(matches!(read_args(&no_env(), &strings(&["--check-update"])), Request::CheckUpdate));
}

#[test]
fn unreadable_command_lines() {
    match read_args(&no_env(), &strings(&["--top"])) {
        Request::Refused(why) => assert_eq!(why, "--top requires a value"),
        other => panic!("{:?}", other),
    }
    match read_args(&no_env(), &strings(&["--once", "stray"])) {
        Request::Refused(why) => assert_eq!(why, "unknown flag: stray"),
        other => panic!("{:?}", other),
    }
}

#[test]
fn settings_out_of_range() {
    assert_eq!(config(&["--bind", "x"]).unwrap_err(), "invalid bind address: x");
    for i in ["0.4", "3600.1", "nan", "x", "-1"] {
        assert_eq!(
            config(&["--interval", i]).unwrap_err(),
            format!("invalid interval (0.5-3600): {}", i)
        );
    }
    assert!(config(&["--interval", "3600"]).is_ok());
    assert_eq!(
        config(&["--top", "10001"]).unwrap_err(),
        "invalid top count (0-10000, 0=all): 10001"
    );
    assert!(config(&["--top", "10000"]).is_ok());
    assert_eq!(config(&["--auth", "admin"]).unwrap_err(), "--auth must be in USER:PASS form");
    for h in ["59", "86401", "", "99999999999999999999"] {
        assert_eq!(
            config(&["--history", h]).unwrap_err(),
            format!("invalid history seconds (60-86400): {}", h)
        );
    }
    assert_eq!(
        config(&["--alert", "cpu>1", "--alert", "bad", "--alert", "worse"]).unwrap_err(),
        "invalid alert spec (want metric>threshold): bad"
    );
}

#[test]
fn first_problem_is_told() {
    assert_eq!(
        config(&["--alert", "bad", "--history", "1", "--top", "x"]).unwrap_err(),
        "invalid top count (0-10000, 0=all): x"
    );
}

#[test]
fn image_gc_is_off_unless_it_makes_sense() {
    for s in ["", "0", "59", "2592001", "x", "-60"] {
        assert_eq!(config(&["--image-gc", s]).unwrap().image_gc_interval, None);
    }
    assert_eq!(config(&["--image-gc", "2592000"]).unwrap().image_gc_interval, Some(2_592_000));
}

#[test]
fn empty_container_socket_is_none() {
    assert_eq!(config(&["--container-socket", ""]).unwrap().container_socket, None);
}

#[test]
fn missing_threshold_readings_count_as_none() {
    let s = settings(&["--alert", "cpu>90"]);
    let readings =
        Readings { bind: true, interval: Some(2.0f64.to_bits()), thresholds: Vec::new() };
    assert_eq!(
        Config::from_args(s, &no_places(), &readings).unwrap_err(),
        "invalid alert threshold (0-100): cpu>90"
    );
}

#[test]
fn history_file_places() {
    let place = |s: &str| Some(s.to_string());
    let all = StatePlaces {
        state_directory: place("/var/lib/watchlite:/other"),
        state_home: place("/x/"),
        home: place("/home/me"),
    };
    assert_eq!(resolve_history_file(place("/mine"), &all).as_deref(), Some("/mine"));
    assert_eq!(resolve_history_file(place("none"), &all), None);
    assert_eq!(resolve_history_file(place(""), &all), None);
    assert_eq!(
        resolve_history_file(None, &all).as_deref(),
        Some("/var/lib/watchlite/history.json")
    );
    let state = StatePlaces {
        state_directory: place(":/other"),
        state_home: place("/x/"),
        home: place("/home/me"),
    };
    assert_eq!(resolve_history_file(None, &state).as_deref(), Some("/x/watchlite/history.json"));
    let home =
        StatePlaces { state_directory: None, state_home: place(""), home: place("/home/me") };
    assert_eq!(
        resolve_history_file(None, &home).as_deref(),
        Some("/home/me/.local/state/watchlite/history.json")
    );
    assert_eq!(resolve_history_file(None, &no_places()), None);
}

#[test]
fn paths_join_as_std_joins_them() {
    for dir in ["/a", "/a/", "a", "/", "/\u{e9}"] {
        assert_eq!(
            watchlite::config::paths::join_path(dir, "b/c"),
            std::path::Path::new(dir).join("b/c").to_str().unwrap()
        );
    }
}

#[test]
fn credentials_have_their_own_header() {
    assert_eq!(basic_auth_value("admin:secret"), "Basic YWRtaW46c2VjcmV0");
    assert_eq!(basic_auth_value("\u{e9}:"), "Basic w6k6");
    assert_ne!(basic_auth_value("a:b"), basic_auth_value("a:c"));
}

#[test]
fn failures_show_the_usage() {
    let text = failure_text("no");
    assert!(text.starts_with("error: no\n\nwatchlite - ultra-lightweight server monitor\n"));
    assert!(text.ends_with(USAGE));
}
