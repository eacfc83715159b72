use migi::config::SymbiosisPhase;
use migi::fixed::Fraction;
use migi::intervener::{Action, Intervention, InterventionTrigger};
use migi::learner::SystemModel;
use migi::trust::{TrustManager, TrustState};
use migi::MigiError;

fn make_intervention(action: Action, target: &str) -> Intervention {
    Intervention {
        id: migi::intervener::new_intervention_id(),
        trigger: InterventionTrigger::Manual("test".into()),
        target: target.to_string(),
        action,
        executed: false,
        rollbackable: false,
        rollback_action: None,
    }
}

fn score(state: &TrustState) -> f64 {
    if state.trust_score.den == 0 {
        0.0
    } else {
        state.trust_score.num as f64 / state.trust_score.den as f64
    }
}

fn model(observed_events: u64, prediction_accuracy: u64) -> SystemModel {
    let mut m = SystemModel::new();
    m.observed_events = observed_events;
    m.prediction_accuracy = prediction_accuracy;
    m
}

#[test]
fn test_trust_state_initial() {
    let state = TrustState::new(SymbiosisPhase::Observation);
    assert_eq!(score(&state), 0.0);
    assert_eq!(state.successful_interventions, 0);
    assert_eq!(state.consecutive_successes, 0);
}

#[test]
fn test_trust_state_success_updates_score() {
    let mut state = TrustState::new(SymbiosisPhase::Observation);
    state.record_success();
    assert_eq!(score(&state), 1.0);
    assert_eq!(state.consecutive_successes, 1);

    state.record_success();
    assert_eq!(score(&state), 1.0);
    assert_eq!(state.consecutive_successes, 2);
}

#[test]
fn test_trust_state_failure_resets_streak() {
    let mut state = TrustState::new(SymbiosisPhase::Observation);
    state.record_success();
    state.record_success();
    state.record_failure();
    assert_eq!(state.consecutive_successes, 0);
    assert!((score(&state) - 0.6667).abs() < 0.001);
}

#[test]
fn test_authorize_diagnose_always_allowed() {
    let manager = TrustManager::new(SymbiosisPhase::Observation, 50_000, vec![]);
    let intervention = make_intervention(Action::Diagnose { command: "echo hi".into() }, "any");
    assert!(manager.authorize(&intervention).is_ok());
}

#[test]
fn test_authorize_suggest_observation_rejected() {
    let manager = TrustManager::new(SymbiosisPhase::Observation, 50_000, vec![]);
    let intervention = make_intervention(Action::Suggest { suggestion: "restart service".into() }, "api");
    assert!(manager.authorize(&intervention).is_err());
}

#[test]
fn test_authorize_suggest_assistance_allowed() {
    let manager = TrustManager::new(SymbiosisPhase::Assistance, 50_000, vec!["api".to_string()]);
    let intervention = make_intervention(Action::Suggest { suggestion: "restart service".into() }, "api");
    assert!(manager.authorize(&intervention).is_ok());
}

#[test]
fn test_authorize_hotfix_observation_rejected() {
    let manager = TrustManager::new(SymbiosisPhase::Observation, 50_000, vec!["db".to_string()]);
    let intervention = make_intervention(Action::Hotfix { patch: "fix".into() }, "db");
    assert!(manager.authorize(&intervention).is_err());
}

#[test]
fn test_authorize_hotfix_local_takeover_allowed() {
    let manager = TrustManager::new(SymbiosisPhase::LocalTakeover, 50_000, vec!["db".to_string()]);
    let intervention = make_intervention(Action::Hotfix { patch: "fix".into() }, "db");
    assert!(manager.authorize(&intervention).is_ok());
}

#[test]
fn test_authorize_blocked_target() {
    let mut manager = TrustManager::new(SymbiosisPhase::LocalTakeover, 50_000, vec!["db".to_string()]);
    manager.add_blocked_target("auth");
    let intervention = make_intervention(Action::Hotfix { patch: "fix".into() }, "auth");
    assert!(manager.authorize(&intervention).is_err());
}

#[test]
fn test_authorize_target_not_in_whitelist() {
    let manager = TrustManager::new(SymbiosisPhase::LocalTakeover, 50_000, vec!["db".to_string()]);
    let intervention = make_intervention(Action::Hotfix { patch: "fix".into() }, "cache");
    assert!(manager.authorize(&intervention).is_err());
}

#[test]
fn test_transition_observation_to_assistance() {
    let manager = TrustManager::new(SymbiosisPhase::Observation, 50_000, vec![]);
    let result = manager.evaluate_transition(&model(100, 960_000)).unwrap();
    assert_eq!(result, Some(SymbiosisPhase::Assistance));
}

#[test]
fn test_transition_not_enough_data() {
    let manager = TrustManager::new(SymbiosisPhase::Observation, 50_000, vec![]);
    let result = manager.evaluate_transition(&model(50, 960_000)).unwrap();
    assert_eq!(result, None);
}

#[test]
fn test_transition_assistance_to_local_takeover() {
    let mut manager = TrustManager::new(SymbiosisPhase::Assistance, 50_000, vec!["db".to_string()]);
    for _ in 0..10 {
        manager.state_mut().record_success();
    }
    let result = manager.evaluate_transition(&model(200, 960_000)).unwrap();
    assert_eq!(result, Some(SymbiosisPhase::LocalTakeover));
}

#[test]
fn test_transition_local_takeover_to_controlled() {
    let mut manager = TrustManager::new(SymbiosisPhase::LocalTakeover, 50_000, vec!["db".to_string()]);
    for _ in 0..10 {
        manager.state_mut().record_success();
    }
    let result = manager.evaluate_transition(&model(500, 960_000)).unwrap();
    assert_eq!(result, Some(SymbiosisPhase::ControlledTransition));
}

#[test]
fn test_no_transition_from_controlled() {
    let mut manager = TrustManager::new(SymbiosisPhase::ControlledTransition, 50_000, vec![]);
    for _ in 0..100 {
        manager.state_mut().record_success();
    }
    let result = manager.evaluate_transition(&model(1000, 990_000)).unwrap();
    assert_eq!(result, None);
}

#[test]
fn test_transition_resets_consecutive_successes() {
    let mut manager = TrustManager::new(SymbiosisPhase::Observation, 50_000, vec![]);
    for _ in 0..5 {
        manager.state_mut().record_success();
    }
    assert_eq!(manager.state().consecutive_successes, 5);
    manager.transition(SymbiosisPhase::Assistance).unwrap();
    assert_eq!(manager.state().consecutive_successes, 0);
    assert_eq!(manager.state().phase, SymbiosisPhase::Assistance);
}

#[test]
fn test_failure_does_not_downgrade_phase() {
    let mut manager = TrustManager::new(SymbiosisPhase::LocalTakeover, 50_000, vec!["db".to_string()]);
    manager.state_mut().record_failure();
    let result = manager.evaluate_transition(&SystemModel::new()).unwrap();
    assert_eq!(result, None);
    assert_eq!(manager.state().phase, SymbiosisPhase::LocalTakeover);
}

#[test]
fn test_state_persistence() {
    let mut manager = TrustManager::with_persistence(
        SymbiosisPhase::Assistance,
        50_000,
        vec!["db".to_string()],
        "migi_test_trust_state.json",
        None,
    );
    manager.state_mut().record_success();
    let saved = *manager.state();

    let reloaded = TrustManager::with_persistence(
        SymbiosisPhase::Observation,
        50_000,
        vec!["db".to_string()],
        "migi_test_trust_state.json",
        Some(saved),
    );
    assert_eq!(reloaded.state().phase, SymbiosisPhase::Assistance);
    assert_eq!(reloaded.state().successful_interventions, 1);
    assert_eq!(reloaded.state_file().map(|s| s.as_str()), Some("migi_test_trust_state.json"));
}

#[test]
fn score_is_the_exact_share() {
    let mut state = TrustState::new(SymbiosisPhase::Observation);
    for _ in 0..4 {
        state.record_success();
    }
    state.record_failure();
    assert_eq!(state.trust_score, Fraction { num: 4, den: 5 });
    state.record_rejection();
    assert_eq!(state.rejected_attempts, 1);
    assert_eq!(state.trust_score, Fraction { num: 4, den: 5 });
}

#[test]
fn high_trust_is_needed_beyond_assistance() {
    let mut manager = TrustManager::new(SymbiosisPhase::Assistance, 50_000, vec![]);
    for _ in 0..10 {
        manager.state_mut().record_success();
    }
    for _ in 0..3 {
        manager.state_mut().record_failure();
    }
    for _ in 0..10 {
        manager.state_mut().record_success();
    }
    // 20 of 23 succeeded: 0.869..., above 0.8 with a streak of ten.
    assert_eq!(manager.evaluate_transition(&model(200, 960_000)).unwrap(), Some(SymbiosisPhase::LocalTakeover));
    for _ in 0..3 {
        manager.state_mut().record_failure();
    }
    for _ in 0..10 {
        manager.state_mut().record_success();
    }
    // 30 of 36: 0.833..., still enough; then the model is not reliable.
    assert_eq!(manager.evaluate_transition(&model(200, 940_000)).unwrap(), None);
}

#[test]
fn authorize_errors_name_the_reason() {
    let mut manager = TrustManager::new(SymbiosisPhase::Observation, 50_000, vec!["db".to_string()]);
    manager.add_blocked_target("auth");
    let blocked = make_intervention(Action::Hotfix { patch: "fix".into() }, "auth");
    match manager.authorize(&blocked) {
        Err(MigiError::TrustViolation(m)) => assert!(m.contains("auth")),
        other => panic!("expected a trust violation, got {:?}", other),
    }
    let suggest = make_intervention(Action::Suggest { suggestion: "s".into() }, "db");
    assert!(matches!(manager.authorize(&suggest), Err(MigiError::TrustViolation(_))));
}

#[test]
fn blocked_targets_are_listed_once() {
    let mut manager = TrustManager::new(SymbiosisPhase::Observation, 50_000, vec![]);
    manager.add_blocked_target("auth");
    manager.add_blocked_target("auth");
    assert_eq!(manager.blocked_targets().len(), 1);
    manager.set_blocked_targets(vec!["a".to_string(), "b".to_string()]);
    assert_eq!(manager.blocked_targets().len(), 2);
    assert_eq!(*manager.phase(), SymbiosisPhase::Observation);
    assert!(manager.allowed_targets().is_empty());
}

#[test]
fn a_failure_after_a_success_always_lowers_the_score() {
    let mut state = TrustState::new(SymbiosisPhase::LocalTakeover);
    state.record_success();
    state.successful_interventions = 1;
    state.failed_interventions = 10_000_000;
    state.trust_score = Fraction { num: 1, den: 10_000_001 };
    let before = state.trust_score;
    state.record_failure();
    assert_eq!(state.trust_score, Fraction { num: 1, den: 10_000_002 });
    // 1/10000002 < 1/10000001
    assert!((state.trust_score.num as u128) * (before.den as u128) < (before.num as u128) * (state.trust_score.den as u128));
    assert_eq!(state.phase, SymbiosisPhase::LocalTakeover);
}
