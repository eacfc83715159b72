use migi::observer::log_observer::{line_is_readable, parse_severity, parse_timestamp, LogObserver};
use migi::observer::metrics_observer::{MetricsData, MetricsObserver};
use migi::observer::{instant_from_epoch, now, EventTally, EventType, HostEvent, Payload, PayloadValue, Severity, Timestamp};
use migi::MigiError;

#[test]
fn test_parse_severity_debug() {
    assert_eq!(parse_severity("DEBUG"), Severity::Debug);
    assert_eq!(parse_severity("TRACE"), Severity::Debug);
}

#[test]
fn test_parse_severity_info() {
    assert_eq!(parse_severity("INFO"), Severity::Info);
    assert_eq!(parse_severity("UNKNOWN"), Severity::Info);
}

#[test]
fn test_parse_severity_warning() {
    assert_eq!(parse_severity("WARN"), Severity::Warning);
    assert_eq!(parse_severity("WARNING"), Severity::Warning);
}

#[test]
fn test_parse_severity_error() {
    assert_eq!(parse_severity("ERROR"), Severity::Error);
    assert_eq!(parse_severity("ERR"), Severity::Error);
    assert_eq!(parse_severity("FATAL"), Severity::Error);
}

#[test]
fn test_parse_severity_critical() {
    assert_eq!(parse_severity("CRITICAL"), Severity::Critical);
    assert_eq!(parse_severity("CRIT"), Severity::Critical);
}

#[test]
fn test_parse_severity_case_insensitive() {
    assert_eq!(parse_severity("error"), Severity::Error);
    assert_eq!(parse_severity("Error"), Severity::Error);
    assert_eq!(parse_severity("warn"), Severity::Warning);
}

#[test]
fn test_parse_log_line_full() {
    let line = "2024-01-15T10:30:00Z ERROR auth Failed to authenticate user";
    let event = LogObserver::parse_log_line(line).expect("should parse");
    assert_eq!(event.source, "auth");
    assert_eq!(event.severity, Severity::Error);
    assert!(matches!(event.event_type, EventType::Error));
}

#[test]
fn test_parse_log_line_info() {
    let line = "2024-01-15T10:30:00Z INFO api Request received";
    let event = LogObserver::parse_log_line(line).expect("should parse");
    assert_eq!(event.source, "api");
    assert_eq!(event.severity, Severity::Info);
}

#[test]
fn test_parse_log_line_warning() {
    let line = "2024-01-15T10:30:00Z WARN db Connection pool low";
    let event = LogObserver::parse_log_line(line).expect("should parse");
    assert_eq!(event.severity, Severity::Warning);
    assert!(matches!(event.event_type, EventType::ResourceAlert));
}

#[test]
fn test_parse_log_line_empty() {
    assert!(LogObserver::parse_log_line("").is_none());
    assert!(LogObserver::parse_log_line("   ").is_none());
}

#[test]
fn test_parse_log_line_short() {
    let event = LogObserver::parse_log_line("hello world").expect("should parse as fallback");
    assert_eq!(event.severity, Severity::Info);
}

#[test]
fn test_parse_timestamp_iso() {
    let ts = parse_timestamp("2024-01-15T10:30:00Z");
    assert!(ts.is_some());
}

#[test]
fn test_parse_timestamp_unix() {
    let ts = parse_timestamp("1705312200");
    assert!(ts.is_some());
}

#[test]
fn test_parse_timestamp_invalid() {
    let ts = parse_timestamp("not-a-timestamp");
    assert!(ts.is_none());
}

#[test]
fn test_log_observer_name() {
    let obs = LogObserver::new("/tmp/test.log");
    assert_eq!(obs.name(), "LogObserver");
}

#[test]
fn timestamps_give_exact_instants() {
    let iso = parse_timestamp("2024-01-15T10:30:00Z").unwrap();
    assert_eq!((iso.secs, iso.nanos), (1705314600, 0));
    let unix = parse_timestamp("1705312200").unwrap();
    assert_eq!((unix.secs, unix.nanos), (1705312200, 0));
    let naive = parse_timestamp("2024-01-15 10:30:00").unwrap();
    assert_eq!(naive.secs, 1705314600);
    let t = parse_timestamp("2024-01-15T10:30:00").unwrap();
    assert_eq!(t.secs, 1705314600);
    let offset = parse_timestamp("2024-01-15T12:30:00.5+02:00").unwrap();
    assert_eq!((offset.secs, offset.nanos), (1705314600, 500_000_000));
}

#[test]
fn log_line_message_and_kind() {
    let e = LogObserver::parse_log_line("  1705312200 info api request in progress  ").unwrap();
    assert_eq!(e.source, "api");
    assert_eq!(e.timestamp.secs, 1705312200);
    assert!(matches!(e.event_type, EventType::RequestIn));
    match e.payload.get("message") {
        Some(PayloadValue::Text(m)) => assert_eq!(m, "request in progress"),
        other => panic!("unexpected message {:?}", other),
    }
    let status = LogObserver::parse_log_line("x INFO api status ok").unwrap();
    assert!(matches!(status.event_type, EventType::StateChange));
    let change = LogObserver::parse_log_line("x DEBUG api a state change").unwrap();
    assert!(matches!(change.event_type, EventType::StateChange));
    assert_eq!(change.severity, Severity::Debug);
    let crit = LogObserver::parse_log_line("x CRIT core meltdown").unwrap();
    assert_eq!(crit.severity, Severity::Critical);
    assert!(matches!(crit.event_type, EventType::Error));
    let three = LogObserver::parse_log_line("x DEBUG core").unwrap();
    assert!(matches!(three.event_type, EventType::RequestIn));
    match three.payload.get("message") {
        Some(PayloadValue::Text(m)) => assert_eq!(m, ""),
        other => panic!("unexpected message {:?}", other),
    }
}

#[test]
fn short_line_is_a_custom_event_from_unknown() {
    let e = LogObserver::parse_log_line("  hello world ").unwrap();
    assert_eq!(e.source, "unknown");
    assert!(matches!(&e.event_type, EventType::Custom(n) if n == "log_line"));
    match e.payload.get("message") {
        Some(PayloadValue::Text(m)) => assert_eq!(m, "hello world"),
        other => panic!("unexpected message {:?}", other),
    }
}

#[test]
fn log_observer_runs_and_stops() {
    let mut obs = LogObserver::new("/var/log/app.log");
    assert!(!obs.running());
    obs.set_running(true);
    assert!(obs.running());
    assert_eq!(obs.file_path(), "/var/log/app.log");
}

fn reading(cpu: i64, mem: i64) -> MetricsData {
    MetricsData { cpu_percent: cpu * 1_000_000, memory_percent: mem * 1_000_000, extra: "{}".to_string() }
}

#[test]
fn test_parse_metrics_response_normal() {
    let event = MetricsObserver::event_from_metrics(&reading(45, 60), 80_000_000);
    assert_eq!(event.severity, Severity::Info);
    assert!(matches!(event.event_type, EventType::StateChange));
    assert_eq!(event.source, "metrics");
}

#[test]
fn test_parse_metrics_response_warning() {
    let event = MetricsObserver::event_from_metrics(&reading(85, 60), 80_000_000);
    assert_eq!(event.severity, Severity::Warning);
    assert!(matches!(event.event_type, EventType::ResourceAlert));
}

#[test]
fn test_parse_metrics_response_error() {
    let event = MetricsObserver::event_from_metrics(&reading(95, 60), 60_000_000);
    assert_eq!(event.severity, Severity::Error);
    assert!(matches!(event.event_type, EventType::ResourceAlert));
}

#[test]
fn test_parse_metrics_response_memory_exceeded() {
    let event = MetricsObserver::event_from_metrics(&reading(30, 90), 80_000_000);
    assert_eq!(event.severity, Severity::Warning);
    assert!(matches!(event.event_type, EventType::ResourceAlert));
}

#[test]
fn test_parse_metrics_response_with_extra() {
    let mut data = reading(50, 40);
    data.extra = r#"{"disk_io":120}"#.to_string();
    let event = MetricsObserver::event_from_metrics(&data, 80_000_000);
    assert_eq!(event.severity, Severity::Info);
    assert!(event.payload.get("extra").is_some());
}

#[test]
fn test_metrics_observer_name() {
    let obs = MetricsObserver::new("http://localhost:9090/metrics", 30, 80_000_000);
    assert_eq!(obs.name(), "MetricsObserver");
}

#[test]
fn test_threshold_boundary() {
    let event = MetricsObserver::event_from_metrics(&reading(80, 50), 80_000_000);
    assert_eq!(event.severity, Severity::Info);
    assert!(matches!(event.event_type, EventType::StateChange));
}

#[test]
fn metrics_payload_repeats_the_reading() {
    let event = MetricsObserver::event_from_metrics(&reading(85, 60), 80_000_000);
    assert!(matches!(event.payload.get("exceeded"), Some(PayloadValue::Bool(true))));
    assert!(matches!(event.payload.get("cpu_percent"), Some(PayloadValue::Fixed(85_000_000))));
    assert!(matches!(event.payload.get("memory_percent"), Some(PayloadValue::Fixed(60_000_000))));
    assert!(matches!(event.payload.get("threshold"), Some(PayloadValue::Fixed(80_000_000))));
    // One and a half times the threshold exactly is still only a warning.
    let edge = MetricsObserver::event_from_metrics(&reading(90, 0), 60_000_000);
    assert_eq!(edge.severity, Severity::Warning);
}

#[test]
fn failed_poll_is_a_warning_event() {
    let obs = MetricsObserver::new("http://localhost:9090/metrics", 30, 80_000_000);
    let event = obs.poll_failed_event("connection refused");
    assert_eq!(event.source, "metrics");
    assert!(matches!(event.event_type, EventType::Error));
    assert_eq!(event.severity, Severity::Warning);
    match event.payload.get("endpoint") {
        Some(PayloadValue::Text(e)) => assert_eq!(e, "http://localhost:9090/metrics"),
        other => panic!("unexpected endpoint {:?}", other),
    }
}

#[test]
fn severity_ignores_ascii_case() {
    for (a, b) in [("critical", "CRITICAL"), ("Warning", "WARNING"), ("fAtAl", "FATAL"), ("trace", "TRACE")] {
        assert_eq!(parse_severity(a), parse_severity(b));
        assert_eq!(parse_severity(a), parse_severity(&a.to_uppercase()));
    }
}

#[test]
fn the_tally_counts_events_and_stops_at_an_error() {
    let ev = || HostEvent {
        timestamp: Timestamp { secs: 0, nanos: 0 },
        source: "api".to_string(),
        event_type: EventType::RequestIn,
        payload: Payload::new(),
        severity: Severity::Info,
    };
    let mut tally = EventTally::new();
    let mut events = Vec::new();
    assert!(tally.take(Ok(Some(ev())), &mut events).is_ok());
    assert!(tally.take(Ok(None), &mut events).is_ok());
    assert!(tally.take(Err(MigiError::Observer("read failed".into())), &mut events).is_err());
    assert_eq!(events.len(), 1);
    assert_eq!(tally.event_count(), 1);
}

#[test]
fn instant_after_the_epoch_keeps_its_fields() {
    assert_eq!(instant_from_epoch(false, 5, 7), Timestamp { secs: 5, nanos: 7 });
    assert_eq!(instant_from_epoch(false, 0, 0), Timestamp { secs: 0, nanos: 0 });
}

#[test]
fn instant_before_the_epoch_rounds_seconds_down() {
    assert_eq!(instant_from_epoch(true, 5, 0), Timestamp { secs: -5, nanos: 0 });
    assert_eq!(instant_from_epoch(true, 5, 250_000_000), Timestamp { secs: -6, nanos: 750_000_000 });
    assert_eq!(instant_from_epoch(true, 0, 1), Timestamp { secs: -1, nanos: 999_999_999 });
}

#[test]
fn instant_beyond_i64_is_held_at_its_bounds() {
    assert_eq!(instant_from_epoch(false, u64::MAX, 3), Timestamp { secs: i64::MAX, nanos: 3 });
    assert_eq!(instant_from_epoch(true, u64::MAX, 0), Timestamp { secs: i64::MIN, nanos: 0 });
    assert_eq!(instant_from_epoch(true, 1 << 63, 0), Timestamp { secs: i64::MIN, nanos: 0 });
    assert_eq!(instant_from_epoch(true, (1 << 63) - 1, 1), Timestamp { secs: i64::MIN, nanos: 999_999_999 });
}

#[test]
fn now_reads_the_clock() {
    let t = now();
    assert!(t.nanos < 1_000_000_000);
    assert!(t.secs > 1_600_000_000);
}

#[test]
fn line_with_negative_unix_time_is_not_readable() {
    assert!(!line_is_readable("-5 ERROR api failed"));
    assert!(!line_is_readable("  -1 INFO db"));
}

#[test]
fn other_lines_are_readable() {
    assert!(line_is_readable(""));
    assert!(line_is_readable("   "));
    assert!(line_is_readable("-5 ERROR"));
    assert!(line_is_readable("0 INFO api started"));
    assert!(line_is_readable("1705312200 INFO api started"));
    assert!(line_is_readable("2024-01-15T10:30:00Z ERROR api failed"));
    assert!(line_is_readable("-x INFO api"));
}
