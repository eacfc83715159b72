use migi::config::{MigiConfig, SymbiosisPhase};
use migi::fixed::SCALE;
use migi::MigiError;

#[test]
fn test_default_config() {
    let config = MigiConfig::default();
    assert_eq!(config.name, "migi");
    assert_eq!(config.phase, SymbiosisPhase::Observation);
    assert!(config.host_observation_endpoints.is_empty());
    assert!(config.allowed_intervention_targets.is_empty());
    assert_eq!(config.trust_threshold, 50_000);
    assert_eq!(config.max_concurrent_interventions, 1);
}

#[test]
fn test_load_or_default_missing_file() {
    let loaded = Err(MigiError::Config("failed to read config: not found".to_string()));
    let config = MigiConfig::load_or_default(loaded);
    assert_eq!(config.name, "migi");
    assert_eq!(config.phase, SymbiosisPhase::Observation);
}

#[test]
fn load_or_default_keeps_a_loaded_config() {
    let mut custom = MigiConfig::default();
    custom.name = "test-migi".to_string();
    custom.phase = SymbiosisPhase::Assistance;
    custom.trust_threshold = 100_000;
    custom.max_concurrent_interventions = 3;
    let config = MigiConfig::load_or_default(Ok(custom));
    assert_eq!(config.name, "test-migi");
    assert_eq!(config.phase, SymbiosisPhase::Assistance);
    assert_eq!(config.trust_threshold, 100_000);
    assert_eq!(config.max_concurrent_interventions, 3);
}

#[test]
fn phase_permissions_follow_the_phase_table() {
    let phases = [
        SymbiosisPhase::Observation,
        SymbiosisPhase::Assistance,
        SymbiosisPhase::LocalTakeover,
        SymbiosisPhase::ControlledTransition,
    ];
    let expected = [
        (true, false, false, false),
        (true, true, false, false),
        (true, true, true, false),
        (true, true, true, true),
    ];
    for (p, e) in phases.iter().zip(expected.iter()) {
        assert_eq!((p.can_read(), p.can_suggest(), p.can_write_isolated(), p.can_takeover()), *e);
    }
    assert_eq!(SymbiosisPhase::default(), SymbiosisPhase::Observation);
}

#[test]
fn default_threshold_is_five_hundredths() {
    assert_eq!(MigiConfig::default().trust_threshold as u64 * 20, SCALE);
}
