use migi::fixed::{Fraction, SCALE};
use migi::learner::{Learner, StatisticalLearner, SystemModel};
use migi::observer::{EventType, HostEvent, Payload, Severity, Timestamp};

fn accuracy_curve(n: u64) -> u64 {
    let l = (n as f64).ln();
    ((l / l.max(10.0)).min(1.0) * SCALE as f64) as u64
}

fn event(source: &str, event_type: EventType) -> HostEvent {
    HostEvent {
        timestamp: Timestamp { secs: 0, nanos: 0 },
        source: source.to_string(),
        event_type,
        payload: Payload::new(),
        severity: Severity::Info,
    }
}

#[test]
fn counts_events_per_pattern() {
    let mut l = StatisticalLearner::new();
    let events = vec![
        event("api", EventType::RequestIn),
        event("api", EventType::RequestIn),
        event("db", EventType::Error),
        event("api", EventType::Error),
    ];
    l.process_events(&events, &accuracy_curve).unwrap();
    let m = *l.get_model();
    assert_eq!(m.observed_events, 4);
    assert_eq!(m.version, 1);
    assert_eq!(m.identified_patterns, 3);
    assert_eq!(m.prediction_accuracy, accuracy_curve(4));
    assert_eq!(m.model_entropy, SCALE - m.prediction_accuracy);
    let p = l.predict().unwrap();
    assert_eq!(p.anomaly_probability, 0);
    assert_eq!(p.confidence, m.prediction_accuracy);
    assert_eq!(p.event_distribution.len(), 3);
    let (first, share) = &p.event_distribution[0];
    assert_eq!(first.source, "api");
    assert_eq!(*share, Fraction { num: 2, den: 4 });
    assert_eq!(m.identified_subsystems, 2);
    assert_eq!(l.subsystem_names(), &vec!["api".to_string(), "db".to_string()]);
}

#[test]
fn accuracy_reaches_one_after_many_events() {
    let mut l = StatisticalLearner::new();
    let events: Vec<HostEvent> = (0..30_000).map(|_| event("api", EventType::RequestIn)).collect();
    l.process_events(&events, &accuracy_curve).unwrap();
    assert_eq!(l.get_model().prediction_accuracy, SCALE);
    assert_eq!(l.get_model().model_entropy, 0);
    assert!(l.get_model().is_reliable(50_000));
}

#[test]
fn an_empty_batch_only_bumps_the_version() {
    let mut l = StatisticalLearner::new();
    l.process_events(&[], &accuracy_curve).unwrap();
    assert_eq!(l.get_model().version, 1);
    assert_eq!(l.get_model().observed_events, 0);
    assert_eq!(l.get_model().prediction_accuracy, 0);
    assert_eq!(*l.get_model(), SystemModel { version: 1, ..SystemModel::new() });
}

#[test]
fn reliability_compares_with_one_minus_threshold() {
    let mut m = SystemModel::default();
    m.prediction_accuracy = 950_000;
    assert!(m.is_reliable(50_000));
    assert!(!m.is_reliable(49_999));
    assert!(m.is_reliable(2_000_000));
    assert!(!m.is_reliable(-1));
}

#[test]
fn shares_add_up_to_one_within_rounding() {
    let mut l = StatisticalLearner::new();
    let events = vec![
        event("a", EventType::RequestIn),
        event("b", EventType::RequestIn),
        event("c", EventType::RequestIn),
    ];
    l.process_events(&events, &accuracy_curve).unwrap();
    let p = l.predict().unwrap();
    let sum: u64 = p.event_distribution.iter().map(|(_, s)| s.num).sum();
    assert!(p.event_distribution.iter().all(|(_, s)| s.den == 3 && s.num == 1));
    assert_eq!(sum, 3);
}

#[test]
fn no_data_gives_an_empty_prediction() {
    let l = StatisticalLearner::new();
    let p = l.predict().unwrap();
    assert!(p.event_distribution.is_empty());
    assert_eq!(p.confidence, 0);
}

#[test]
fn a_rare_pattern_keeps_a_share_above_zero() {
    let mut l = StatisticalLearner::new();
    let mut events: Vec<HostEvent> = (0..2_000_000).map(|_| event("api", EventType::RequestIn)).collect();
    events.push(event("db", EventType::Error));
    l.process_events(&events, &accuracy_curve).unwrap();
    let p = l.predict().unwrap();
    assert_eq!(p.event_distribution[1].1, Fraction { num: 1, den: 2_000_001 });
}

#[test]
fn a_new_pattern_raises_the_anomaly_probability() {
    let mut l = StatisticalLearner::new();
    let base = vec![event("api", EventType::RequestIn), event("api", EventType::RequestIn)];
    l.process_events(&base, &accuracy_curve).unwrap();
    // The first batch has nothing to compare with.
    assert_eq!(l.predict().unwrap().anomaly_probability, 0);
    l.process_events(&base, &accuracy_curve).unwrap();
    assert_eq!(l.predict().unwrap().anomaly_probability, 0);
    let batch = vec![
        event("api", EventType::RequestIn),
        event("api", EventType::RequestIn),
        event("db", EventType::Error),
    ];
    l.process_events(&batch, &accuracy_curve).unwrap();
    let p = l.predict().unwrap();
    // One event of three is new: a third, rounded up.
    assert_eq!(p.anomaly_probability, 333_334);
    assert!(p.anomaly_probability <= SCALE);
    assert_eq!(l.get_model().identified_subsystems, 2);
}

#[test]
fn repeated_patterns_are_counted_once() {
    let mut l = StatisticalLearner::new();
    let first = vec![
        event("api", EventType::RequestIn),
        event("api", EventType::RequestIn),
        event("db", EventType::Error),
    ];
    let second = vec![
        event("db", EventType::Error),
        event("api", EventType::RequestIn),
        event("db", EventType::Custom("slow".to_string())),
    ];
    l.process_events(&first, &accuracy_curve).unwrap();
    l.process_events(&second, &accuracy_curve).unwrap();
    let m = *l.get_model();
    assert_eq!(m.observed_events, 6);
    assert_eq!(m.identified_patterns, 3);
    assert_eq!(m.identified_subsystems, 2);
    let p = l.predict().unwrap();
    assert_eq!(p.event_distribution.len(), 3);
    for i in 0..p.event_distribution.len() {
        for j in (i + 1)..p.event_distribution.len() {
            let (a, b) = (&p.event_distribution[i].0, &p.event_distribution[j].0);
            assert!(a.source != b.source || !a.event_type.same_kind(&b.event_type));
        }
    }
    let total: u64 = p.event_distribution.iter().map(|(_, f)| f.num).sum();
    assert_eq!(total, 6);
}

fn feed<L: Learner>(learner: &mut L, events: &[HostEvent]) -> (u64, u64) {
    learner.process_events(events, &accuracy_curve).unwrap();
    let m = *learner.get_model();
    let p = learner.predict().unwrap();
    assert_eq!(p.confidence, m.prediction_accuracy);
    (m.version, m.observed_events)
}

#[test]
fn statistical_learner_serves_as_a_learner() {
    let mut l = StatisticalLearner::new();
    let events = vec![event("api", EventType::RequestIn), event("db", EventType::Error)];
    assert_eq!(feed(&mut l, &events), (1, 2));
    assert_eq!(feed(&mut l, &events), (2, 4));
}

#[test]
fn a_shift_in_frequencies_raises_the_anomaly_probability() {
    let mut l = StatisticalLearner::new();
    let base = vec![
        event("api", EventType::RequestIn),
        event("api", EventType::RequestIn),
        event("db", EventType::Error),
        event("db", EventType::Error),
    ];
    l.process_events(&base, &accuracy_curve).unwrap();
    l.process_events(&base, &accuracy_curve).unwrap();
    // Same patterns in the same proportions: nothing deviates.
    assert_eq!(l.predict().unwrap().anomaly_probability, 0);
    let shifted = vec![event("api", EventType::RequestIn); 4];
    l.process_events(&shifted, &accuracy_curve).unwrap();
    // Shares moved from 1/2 and 1/2 to 1 and 0: half the summed gaps.
    assert_eq!(l.predict().unwrap().anomaly_probability, 500_000);
    // An empty batch measures nothing.
    l.process_events(&[], &accuracy_curve).unwrap();
    assert_eq!(l.predict().unwrap().anomaly_probability, 0);
}
