use migi::config::SymbiosisPhase;
use migi::fixed::Fraction;
use migi::learner::SystemModel;
use migi::monitor::{MigiSnapshot, MonitorHistory};
use migi::trust::TrustState;

fn snapshot(phase: SymbiosisPhase, uptime: u64) -> MigiSnapshot {
    let model = SystemModel::default();
    let trust = TrustState::new(phase);
    MigiSnapshot::take(phase, &trust, &model, &vec![], 1_705_312_200, uptime)
}

#[test]
fn test_summary_format() {
    let snap = snapshot(SymbiosisPhase::Observation, 0);
    let summary = snap.summary();
    assert!(summary.contains("Observation"));
    assert!(summary.contains("events="));
    assert!(summary.contains("trust="));
}

#[test]
fn summary_is_exact() {
    let mut snap = snapshot(SymbiosisPhase::Assistance, 42);
    snap.observed_events = 1500;
    snap.model_accuracy = 850_000;
    snap.trust_score = Fraction { num: 2, den: 3 };
    snap.identified_patterns = 12;
    snap.identified_subsystems = 3;
    assert_eq!(
        snap.summary(),
        "[     42s] Assistance | events=1500 | acc=0.850 | trust=0.667 | patterns=12 | subsys=3"
    );
    snap.uptime_secs = 123_456_789;
    snap.model_accuracy = 1_000_000;
    snap.trust_score = Fraction { num: 1, den: 16 };
    assert!(snap.summary().starts_with("[123456789s] Assistance"));
    // 1/16 = 0.0625 lies halfway and rounds to the even 0.062, as `{:.3}` does.
    assert!(snap.summary().contains("acc=1.000 | trust=0.062"));
    snap.trust_score = Fraction { num: 3, den: 16 };
    assert!(snap.summary().contains("trust=0.188"));
}

#[test]
fn take_copies_the_state() {
    let mut trust = TrustState::new(SymbiosisPhase::Assistance);
    trust.record_success();
    let mut model = SystemModel::default();
    model.version = 5;
    model.observed_events = 1500;
    let names = vec!["api".to_string(), "db".to_string(), "cache".to_string()];
    let snap = MigiSnapshot::take(SymbiosisPhase::Assistance, &trust, &model, &names, 7, 9);
    assert!(snap.subsystems.contains(&"api".to_string()));
    assert_eq!(snap.subsystems.len(), 3);
    assert_eq!(snap.phase, "Assistance");
    assert_eq!(snap.observed_events, 1500);
    assert_eq!(snap.model_version, 5);
    assert_eq!(snap.successful_interventions, 1);
    assert_eq!(snap.trust_score, Fraction { num: 1, den: 1 });
    assert_eq!((snap.timestamp, snap.uptime_secs), (7, 9));
}

#[test]
fn history_is_capped_at_capacity() {
    let mut hist = MonitorHistory::new(3);
    for i in 0..5 {
        hist.push(snapshot(SymbiosisPhase::Observation, i));
    }
    assert_eq!(hist.snapshots.len(), 3);
    assert_eq!(hist.capacity, 3);
    let uptimes: Vec<u64> = hist.snapshots.iter().map(|s| s.uptime_secs).collect();
    assert_eq!(uptimes, vec![2, 3, 4]);
}

#[test]
fn status_box_is_exact() {
    let mut snap = snapshot(SymbiosisPhase::Assistance, 42);
    snap.observed_events = 1500;
    snap.model_accuracy = 850_000;
    snap.model_entropy = 150_000;
    snap.identified_patterns = 12;
    snap.identified_subsystems = 3;
    snap.subsystems = vec!["api".to_string(), "db".to_string(), "cache".to_string()];
    snap.model_version = 7;
    snap.trust_score = Fraction { num: 2, den: 3 };
    snap.successful_interventions = 2;
    snap.failed_interventions = 1;
    assert_eq!(snap.format(), "╔══════════════════════════════════════╗\n║         🦁 Migi Status            ║\n╠══════════════════════════════════════╣\n║  Phase:        Assistance           ║\n║  Uptime:            42s              ║\n║  Snapshot:     1705312200s ago      ║\n╠══════════════════════════════════════╣\n║  📊 Model                            ║\n║    Events:           1500              ║\n║    Accuracy:    0.850                 ║\n║    Entropy:     0.150                 ║\n║    Patterns:        12                ║\n║    Subsystems:   3 (api, db, cache)   ║\n║    Version:             7              ║\n╠══════════════════════════════════════╣\n║  🛡️ Trust                            ║\n║    Score:       0.667                 ║\n║    Successes:           2              ║\n║    Failures:            1              ║\n╚══════════════════════════════════════╝");
}

#[test]
fn status_box_lists_five_subsystems_at_most() {
    let mut snap = snapshot(SymbiosisPhase::Observation, 0);
    snap.subsystems = ["a", "b", "c", "d", "e", "f", "g"].iter().map(|s| s.to_string()).collect();
    snap.identified_subsystems = 7;
    assert!(snap.format().contains("║    Subsystems:   7 (a, b, c, d, e...)   ║"));
    snap.subsystems.truncate(5);
    assert!(snap.format().contains("(a, b, c, d, e)   ║"));
    snap.subsystems.clear();
    assert!(snap.format().contains("Subsystems:   7 ()   ║"));
    assert!(snap.format().contains("║  Phase:        Observation          ║"));
    assert!(snap.format().contains("║  Snapshot:     1705312200s ago      ║"));
}
