use migi::fixed::SCALE;
use migi::observer::{EventType, Severity};
use migi::sandbox::{
    generate_anomaly_events, sim_reading, generate_normal_events, generate_recovery_events, generate_transition_events,
    Sandbox, Scenario, SimLogChannel, SimMetricsChannel, SimPhase,
};
use std::sync::atomic::AtomicU64;
use std::sync::Arc;

/// The learner's accuracy after `n` events: `ln n / max(ln n, 10)`,
/// capped at one, in millionths.
fn accuracy_curve(n: u64) -> u64 {
    let l = (n as f64).ln();
    ((l / l.max(10.0)).min(1.0) * SCALE as f64) as u64
}

#[test]
fn test_baseline_scenario_runs() {
    let sandbox = Sandbox::new("test-baseline", 50_000).with_log_channel(&Scenario::baseline());
    let result = sandbox.run_scenario(&Scenario::baseline(), &accuracy_curve).unwrap();
    assert!(result.rounds_completed > 0);
    assert!(result.total_events_processed > 0);
}

#[test]
fn test_anomaly_scenario_runs() {
    let sandbox = Sandbox::new("test-anomaly", 50_000)
        .with_log_channel(&Scenario::anomaly_detection())
        .with_metrics_channel();
    let result = sandbox.run_scenario(&Scenario::anomaly_detection(), &accuracy_curve).unwrap();
    assert!(result.rounds_completed > 0);
    assert!(result.total_events_processed > 0);
}

#[test]
fn test_phase_transition_scenario() {
    let sandbox = Sandbox::new("test-transition", 50_000)
        .with_log_channel(&Scenario::phase_transition())
        .with_shell_strategy();
    let result = sandbox.run_scenario(&Scenario::phase_transition(), &accuracy_curve).unwrap();
    assert!(result.rounds_completed > 0);
}

#[test]
fn test_full_lifecycle_scenario() {
    let sandbox = Sandbox::new("test-lifecycle", 50_000)
        .with_log_channel(&Scenario::full_lifecycle())
        .with_metrics_channel()
        .with_shell_strategy();
    let result = sandbox.run_scenario(&Scenario::full_lifecycle(), &accuracy_curve).unwrap();
    assert!(result.rounds_completed > 0);
    assert!(result.total_events_processed >= 200);
}

#[test]
fn test_normal_events_have_valid_structure() {
    let events = generate_normal_events(10, 0);
    assert_eq!(events.len(), 10);
    for e in &events {
        assert!(!e.source.is_empty());
        assert!(e.payload.get("latency_ms").is_some());
    }
}

#[test]
fn test_anomaly_events_have_high_latency() {
    let events = generate_anomaly_events(5);
    for e in &events {
        let latency = e.payload.get("latency_ms").and_then(|v| v.as_i64()).unwrap_or(0);
        assert!(latency >= 5000, "anomaly latency should be high, got {}", latency);
    }
}

#[test]
fn test_recovery_events_mark_recovered() {
    let events = generate_recovery_events(10);
    for e in &events {
        let recovered = e.payload.get("recovered").and_then(|v| v.as_bool()).unwrap_or(false);
        assert!(recovered, "recovery events should be marked recovered");
    }
}

#[test]
fn scenarios_have_their_rounds() {
    let b = Scenario::baseline();
    assert_eq!(b.name, "baseline");
    assert_eq!(b.rounds.len(), 20);
    assert_eq!(b.rounds[0].event_count, 20);
    assert_eq!(b.rounds[1].event_count, 25);
    assert_eq!(b.rounds[2].event_count, 30);
    assert_eq!(b.rounds[19].name, "normal-round-20");
    assert_eq!(Scenario::phase_transition().rounds.len(), 30);
    let f = Scenario::full_lifecycle();
    assert_eq!(f.rounds.len(), 28);
    assert!(matches!(f.rounds[15].phase, SimPhase::Anomaly));
    assert_eq!(f.rounds[15].name, "crisis-1");
    let total: usize = f.rounds.iter().map(|r| r.event_count).sum();
    assert!(total >= 200);
}

#[test]
fn anomaly_events_are_alerts_or_errors() {
    let events = generate_anomaly_events(4);
    assert_eq!(events.len(), 4);
    for e in &events {
        assert!(matches!(e.event_type, EventType::Error) || matches!(e.event_type, EventType::ResourceAlert));
        assert!(e.severity == Severity::Error || e.severity == Severity::Critical || e.severity == Severity::Warning);
    }
    let t = generate_transition_events(6, 3);
    assert_eq!(t.len(), 6);
}

#[test]
fn baseline_earns_assistance_with_enough_data() {
    let sandbox = Sandbox::new("b", 50_000).with_log_channel(&Scenario::baseline());
    let result = sandbox.run_scenario(&Scenario::baseline(), &accuracy_curve).unwrap();
    assert_eq!(result.rounds_completed, 20);
    assert_eq!(result.total_events_processed, 495);
    assert_eq!(result.logs.len(), 20);
    assert!(result.final_model_accuracy <= SCALE);
    // The phases reached are counted as transitions.
    let ranks = ["Observation", "Assistance", "LocalTakeover", "ControlledTransition"];
    let rank = ranks.iter().position(|p| *p == result.final_phase).unwrap();
    assert_eq!(result.phase_transitions, rank);
}

#[test]
fn report_rows_pick_first_middle_last() {
    let sandbox = Sandbox::new("b", 50_000).with_log_channel(&Scenario::baseline());
    let result = sandbox.run_scenario(&Scenario::baseline(), &accuracy_curve).unwrap();
    assert_eq!(result.report_rows(), vec![0, 1, 2, 3, 4, 10, 16, 17, 18, 19]);
}

#[test]
fn sim_log_channel_streams_every_round() {
    let scenario = Scenario::anomaly_detection();
    let mut channel = SimLogChannel::new("sim", &scenario);
    assert!(channel.next_event().is_none());
    channel.start();
    let expected: usize = scenario.rounds.iter().map(|r| r.event_count).sum();
    let mut n = 0;
    let mut pauses = 0;
    while channel.progress().0 < scenario.rounds.len() {
        match channel.next_event() {
            Some(_) => n += 1,
            None => pauses += 1,
        }
    }
    // Each round ends with one poll that yields nothing.
    assert_eq!(pauses, scenario.rounds.len());
    assert_eq!(n, expected);
    assert_eq!(channel.round_name(), "done");
    assert_eq!(channel.progress(), (scenario.rounds.len(), scenario.rounds.len()));
}

#[test]
fn sim_metrics_follow_the_published_phase() {
    let tracker = Arc::new(AtomicU64::new(1));
    let mut channel = SimMetricsChannel::new("metrics", tracker);
    assert!(channel.next_event().is_none());
    channel.start();
    let e = channel.next_event().unwrap();
    assert_eq!(e.severity, Severity::Error);
    assert!(matches!(e.event_type, EventType::ResourceAlert));
    channel.stop();
    assert!(channel.next_event().is_none());
    assert_eq!(channel.name(), "metrics");
}

#[test]
fn built_in_scenarios_fit_a_fresh_sandbox() {
    assert!(Scenario::baseline().fits());
    assert!(Scenario::anomaly_detection().fits());
    assert!(Scenario::phase_transition().fits());
    assert!(Scenario::full_lifecycle().fits());
    let mut huge = Scenario::baseline();
    huge.rounds[0].event_count = usize::MAX / 2;
    assert!(!huge.fits());
}

#[test]
fn sim_readings_follow_the_code() {
    assert_eq!(sim_reading(1, 1).severity, Severity::Error);
    assert!(matches!(sim_reading(2, 1).event_type, EventType::StateChange));
    assert!(matches!(sim_reading(3, 1).payload.get("cpu_percent"), Some(migi::observer::PayloadValue::Fixed(30_000_000))));
    assert!(matches!(sim_reading(0, 7).payload.get("cpu_percent"), Some(migi::observer::PayloadValue::Fixed(42_000_000))));
}

#[test]
fn the_result_repeats_the_last_round() {
    let sandbox = Sandbox::new("a", 50_000)
        .with_log_channel(&Scenario::anomaly_detection())
        .with_metrics_channel()
        .with_shell_strategy();
    let result = sandbox.run_scenario(&Scenario::anomaly_detection(), &accuracy_curve).unwrap();
    let last = result.logs.last().unwrap();
    assert_eq!(result.final_phase, last.phase);
    assert_eq!(result.final_trust_score, last.trust_score);
    assert_eq!(result.final_model_accuracy, last.model_accuracy);
    assert_eq!(result.interventions, last.interventions_attempted);
    assert!(result.logs.iter().all(|l| l.anomaly_prob <= SCALE));
}
