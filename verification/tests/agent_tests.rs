use migi::agent::{Agent, CycleStep};
use migi::config::SymbiosisPhase;
use migi::fixed::SCALE;
use migi::observer::{EventType, HostEvent, Payload, Severity, Timestamp};

fn accuracy_curve(n: u64) -> u64 {
    let l = (n as f64).ln();
    ((l / l.max(10.0)).min(1.0) * SCALE as f64) as u64
}

fn always_accurate(_n: u64) -> u64 {
    SCALE
}

fn events(n: usize) -> Vec<HostEvent> {
    (0..n)
        .map(|i| HostEvent {
            timestamp: Timestamp { secs: i as i64, nanos: 0 },
            source: if i % 2 == 0 { "api".to_string() } else { "db".to_string() },
            event_type: EventType::RequestIn,
            payload: Payload::new(),
            severity: Severity::Info,
        })
        .collect()
}

#[test]
fn a_cycle_without_events_does_nothing() {
    let mut agent = Agent::new(SymbiosisPhase::Observation, 50_000, vec![]);
    assert!(agent.cycle(&[], &accuracy_curve, 1).is_none());
    assert_eq!(agent.observed(), 0);
    assert_eq!(agent.learner().get_model().version, 0);
}

#[test]
fn cycles_count_events_and_schedule_saves() {
    let mut agent = Agent::new(SymbiosisPhase::Observation, 50_000, vec![]);
    let mut saves = Vec::new();
    let mut snapshots = Vec::new();
    for _ in 0..10 {
        let plan = agent.cycle(&events(20), &accuracy_curve, 7).unwrap();
        assert!(matches!(plan.step, CycleStep::Idle));
        saves.push(plan.save_trust);
        snapshots.push(plan.take_snapshot);
    }
    assert_eq!(agent.observed(), 200);
    assert_eq!(agent.learner().get_model().observed_events, 200);
    assert_eq!(agent.learner().get_model().identified_patterns, 2);
    // 100 and 200 events observed after the fifth and tenth cycles.
    assert_eq!(saves, vec![false, false, false, false, true, false, false, false, false, true]);
    assert_eq!(snapshots, saves);
}

#[test]
fn an_accurate_model_earns_assistance_after_a_hundred_events() {
    let mut agent = Agent::new(SymbiosisPhase::Observation, 50_000, vec![]);
    let plan = agent.cycle(&events(99), &always_accurate, 1).unwrap();
    assert_eq!(plan.new_phase, None);
    let plan = agent.cycle(&events(1), &always_accurate, 2).unwrap();
    assert_eq!(plan.new_phase, Some(SymbiosisPhase::Assistance));
    assert_eq!(agent.trust().state().phase, SymbiosisPhase::Assistance);
    // Without interventions there is no trust to climb further.
    let plan = agent.cycle(&events(50), &always_accurate, 3).unwrap();
    assert_eq!(plan.new_phase, None);
}

#[test]
fn snapshots_go_into_the_history() {
    let mut agent = Agent::new(SymbiosisPhase::Assistance, 50_000, vec!["db".to_string()]);
    agent.cycle(&events(4), &accuracy_curve, 1).unwrap();
    let snap = agent.record_snapshot(1_705_312_200, 30);
    assert_eq!(snap.phase, "Assistance");
    assert_eq!(snap.observed_events, 4);
    assert_eq!(snap.timestamp, 1_705_312_200);
    assert_eq!(snap.uptime_secs, 30);
    for i in 0..150 {
        agent.record_snapshot(i, i);
    }
    assert_eq!(agent.history().snapshots.len(), 100);
    assert_eq!(agent.history().snapshots[99].uptime_secs, 149);
    assert_eq!(agent.history().snapshots[0].uptime_secs, 50);
}

#[test]
fn has_room_guards_the_counters() {
    let agent = Agent::new(SymbiosisPhase::Observation, 50_000, vec![]);
    assert!(agent.has_room(1000));
}

#[test]
fn a_batch_of_new_patterns_asks_for_a_diagnosis() {
    let mut agent = Agent::new(SymbiosisPhase::Observation, 50_000, vec![]);
    agent.cycle(&events(10), &accuracy_curve, 1).unwrap();
    let strange: Vec<HostEvent> = (0..4)
        .map(|i| HostEvent {
            timestamp: Timestamp { secs: i, nanos: 0 },
            source: "kernel".to_string(),
            event_type: EventType::Error,
            payload: Payload::new(),
            severity: Severity::Critical,
        })
        .collect();
    let plan = agent.cycle(&strange, &accuracy_curve, 42).unwrap();
    match plan.step {
        CycleStep::Intervene(i) => {
            assert_eq!(i.id, 42);
            assert_eq!(i.target, "system");
        }
        other => panic!("expected a diagnosis, got {:?}", other),
    }
    let mut refusing = Agent::new(SymbiosisPhase::Observation, 50_000, vec!["db".to_string()]);
    refusing.cycle(&events(10), &accuracy_curve, 1).unwrap();
    let plan = refusing.cycle(&strange, &accuracy_curve, 43).unwrap();
    assert!(matches!(plan.step, CycleStep::Refused(_)));
}

#[test]
fn snapshots_name_the_subsystems() {
    let mut agent = Agent::new(SymbiosisPhase::Observation, 50_000, vec![]);
    agent.cycle(&events(4), &accuracy_curve, 1).unwrap();
    let snap = agent.record_snapshot(5, 6);
    assert_eq!(snap.subsystems, vec!["api".to_string(), "db".to_string()]);
    assert_eq!(agent.history().snapshots.last().unwrap().subsystems, snap.subsystems);
    assert_eq!(agent.history().snapshots.last().unwrap().timestamp, 5);
}
