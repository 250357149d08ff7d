use meeting_minutes_automator::burn_in::{
    burn_in_has_issues, default_log_path, frame_plan, parse_u64_text, python_main_path, BurnInCommand,
    BurnInConfig, EventStats,
};
use meeting_minutes_automator::logger::LogLevel;
use meeting_minutes_automator::python_sidecar::{PythonSidecarError, PythonSidecarManager};
use meeting_minutes_automator::sidecar::{
    frame_request_id, try_recv_error, try_send_error, Event, SidecarCmd, SidecarError, TryRecvFailure,
    TrySendFailure,
};
use meeting_minutes_automator::websocket::{message_id, next_port, verify_origin, MessageCounter, FIRST_PORT};
use std::path::Path;

fn args(v: &[&str]) -> Vec<String> {
    v.iter().map(|s| s.to_string()).collect()
}

#[test]
fn test_sidecar_cmd_builder() {
    let cmd = SidecarCmd::new("python3".to_string()).arg("-m".to_string()).arg("main".to_string());
    assert_eq!(cmd.program, "python3");
    assert_eq!(cmd.args, vec!["-m".to_string(), "main".to_string()]);
}

#[test]
fn sidecar_error_messages() {
    assert_eq!(SidecarError::SpawnFailed("x".to_string()).message(), "Failed to spawn sidecar process: x");
    assert_eq!(SidecarError::ChannelClosed.message(), "Channel closed");
    assert_eq!(SidecarError::ProcessTerminated.message(), "Sidecar process terminated unexpectedly");
    assert_eq!(
        try_send_error(TrySendFailure::Full),
        SidecarError::SendFailed("Channel full (backpressure)".to_string())
    );
    assert_eq!(try_send_error(TrySendFailure::Closed), SidecarError::ChannelClosed);
    assert_eq!(
        try_recv_error(TryRecvFailure::Empty),
        SidecarError::ReceiveFailed("No events available".to_string())
    );
    assert_eq!(
        try_recv_error(TryRecvFailure::Lagged(7)),
        SidecarError::ReceiveFailed("Lagged by 7 events".to_string())
    );
    assert_eq!(frame_request_id(12), "burnin-12");
}

#[test]
fn python_sidecar_errors() {
    let _m = PythonSidecarManager::new();
    assert_eq!(
        PythonSidecarError::StartupFailed("no python".to_string()).message(),
        "Failed to start Python process: no python"
    );
    assert_eq!(PythonSidecarError::ProcessNotRunning.message(), "Python process not running");
}

#[test]
fn log_level_names() {
    assert_eq!(LogLevel::Debug.as_str(), "debug");
    assert_eq!(LogLevel::Info.as_str(), "info");
    assert_eq!(LogLevel::Warn.as_str(), "warn");
    assert_eq!(LogLevel::Error.as_str(), "error");
}

#[test]
fn origin_policy() {
    assert!(verify_origin("", false));
    assert!(verify_origin("http://localhost:3000", false));
    assert!(verify_origin("https://127.0.0.1", false));
    assert!(verify_origin("https://meet.google.com/abc", false));
    assert!(verify_origin("chrome-extension://abcdef", true));
    assert!(!verify_origin("chrome-extension://abcdef", false));
    assert!(!verify_origin("https://evil.example", true));
    assert!(!verify_origin("http://localhos", true));
}

#[test]
fn ports_and_message_ids() {
    assert_eq!(FIRST_PORT, 9001);
    assert_eq!(next_port(9001), Some(9002));
    assert_eq!(next_port(9100), None);
    assert_eq!(message_id(0), "ws-0");
    let mut c = MessageCounter::new();
    assert_eq!(c.next_id(), "ws-0");
    assert_eq!(c.next_id(), "ws-1");
}

#[test]
fn burn_in_defaults_and_options() {
    match BurnInConfig::parse(&args(&[])).unwrap() {
        BurnInCommand::Run(c) => {
            assert_eq!(c.duration_secs, 1800);
            assert_eq!(c.frame_interval_ms, 10);
            assert_eq!(c.log_interval_secs, 60);
            assert!(c.python_path.is_none());
            assert!(c.log_file.is_none());
        }
        BurnInCommand::Help => panic!("unexpected help"),
    }
    match BurnInConfig::parse(&args(&[
        "--duration-secs",
        "60",
        "--frame-interval-ms",
        "20",
        "--log-interval-secs",
        "5",
        "--python",
        "/usr/bin/python3",
        "--log-file",
        "out.log",
        "--duration-secs",
        "+7",
    ]))
    .unwrap()
    {
        BurnInCommand::Run(c) => {
            assert_eq!(c.duration_secs, 7);
            assert_eq!(c.frame_interval_ms, 20);
            assert_eq!(c.log_interval_secs, 5);
            assert_eq!(c.python_path.as_deref(), Some("/usr/bin/python3"));
            assert_eq!(c.log_file.as_deref(), Some("out.log"));
        }
        BurnInCommand::Help => panic!("unexpected help"),
    }
    assert!(matches!(BurnInConfig::parse(&args(&["-h", "--bogus"])).unwrap(), BurnInCommand::Help));
}

#[test]
fn burn_in_errors() {
    let e = |v: &[&str]| BurnInConfig::parse(&args(v)).unwrap_err();
    assert_eq!(e(&["--duration-secs"]), "--duration-secs requires a value");
    assert_eq!(e(&["--duration-secs", "x"]), "Failed to parse --duration-secs");
    assert_eq!(e(&["--duration-secs", "0"]), "--duration-secs must be greater than zero");
    assert_eq!(e(&["--frame-interval-ms", "30"]), "--frame-interval-ms must be a divisor of 1000 (e.g. 10, 20, 25, 40)");
    assert_eq!(e(&["--frame-interval-ms", "0"]), "--frame-interval-ms must be a divisor of 1000 (e.g. 10, 20, 25, 40)");
    assert_eq!(e(&["--log-interval-secs", "0"]), "--log-interval-secs must be greater than zero");
    assert_eq!(e(&["--python"]), "--python requires a value");
    assert_eq!(e(&["--log-file"]), "--log-file requires a value");
    assert_eq!(e(&["--verbose"]), "Unknown argument: --verbose");
}

#[test]
fn u64_parsing_matches_std() {
    for s in ["0", "+1", "18446744073709551615", "18446744073709551616", "", "+", "-1", " 1", "12a", "007"] {
        assert_eq!(parse_u64_text(s), s.parse::<u64>().ok(), "{:?}", s);
    }
}

#[test]
fn burn_in_frame_plan_and_paths() {
    let cfg = BurnInConfig { duration_secs: 60, frame_interval_ms: 10, log_interval_secs: 60, python_path: None, log_file: None };
    assert_eq!(frame_plan(&cfg), (100, 160, 6000));
    let cfg = BurnInConfig { frame_interval_ms: 25, ..cfg };
    assert_eq!(frame_plan(&cfg), (40, 400, 2400));
    assert_eq!(default_log_path("/ws", 42), Path::new("/ws").join("logs/platform/42-burnin.log").to_string_lossy());
    assert_eq!(python_main_path("/ws"), Path::new("/ws").join("python-stt/main.py").to_string_lossy());
}

#[test]
fn burn_in_event_tally() {
    let mut s = EventStats::after_ready();
    s.record(&Event::Stream { event_type: "partial_text".to_string(), data: serde_json::Value::Null });
    s.record(&Event::LegacyPartial { text: "x".to_string() });
    s.record(&Event::Stream { event_type: "final_text".to_string(), data: serde_json::Value::Null });
    s.record(&Event::LegacyNoSpeech);
    s.record(&Event::Error { message: "m".to_string() });
    s.record(&Event::Unknown);
    s.record(&Event::Stream { event_type: "speech_start".to_string(), data: serde_json::Value::Null });
    assert!(s.ready_observed);
    assert_eq!(s.partial_text, 2);
    assert_eq!(s.final_text, 1);
    assert_eq!(s.no_speech, 1);
    assert_eq!(s.error_events, 1);
    assert!(burn_in_has_issues(false, 0, s.error_events));
    assert!(!burn_in_has_issues(false, 0, 0));
    assert!(burn_in_has_issues(false, 1, 0));
}
