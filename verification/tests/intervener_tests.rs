use migi::intervener::{
    choose_strategy, new_intervention_id, Action, HttpInterventionStrategy, Intervention, InterventionTrigger,
    ShellInterventionStrategy, ShellStep,
};
use migi::MigiError;

fn make_test_intervention(action: Action) -> Intervention {
    Intervention {
        id: new_intervention_id(),
        trigger: InterventionTrigger::Manual("test".into()),
        target: "test-target".to_string(),
        action,
        executed: false,
        rollbackable: false,
        rollback_action: None,
    }
}

#[test]
fn test_action_needs_rollback() {
    assert!(!Action::Diagnose { command: "x".into() }.needs_rollback());
    assert!(!Action::Suggest { suggestion: "x".into() }.needs_rollback());
    assert!(Action::Hotfix { patch: "x".into() }.needs_rollback());
    assert!(Action::Isolate { target: "x".into() }.needs_rollback());
    assert!(Action::Reconfigure { key: "x".into(), value: "y".into() }.needs_rollback());
    assert!(Action::EmergencyBlock { reason: "x".into() }.needs_rollback());
}

#[test]
fn test_intervener_no_strategies() {
    let result = choose_strategy(0);
    assert!(result.is_err());
    match result {
        Err(MigiError::Intervener(m)) => assert_eq!(m, "no intervention strategies registered"),
        other => panic!("unexpected {:?}", other),
    }
    assert_eq!(choose_strategy(2).unwrap(), 0);
}

#[test]
fn shell_plan_builds_the_command() {
    let mut s = ShellInterventionStrategy::new();
    let mut run = |a: Action| match s.plan(&make_test_intervention(a)) {
        ShellStep::Run(c) => c,
        other => panic!("expected a command, got {:?}", other),
    };
    assert_eq!(run(Action::Diagnose { command: "echo hello".into() }), "echo hello");
    assert_eq!(run(Action::Hotfix { patch: "echo patched".into() }), "echo patched");
    assert_eq!(run(Action::Isolate { target: "db".into() }), "echo 'Isolating: db'");
    assert_eq!(run(Action::Reconfigure { key: "pool".into(), value: "8".into() }), "echo 'Setting pool=8'");
    assert_eq!(
        run(Action::EmergencyBlock { reason: "security breach".into() }),
        "echo 'EMERGENCY BLOCK: security breach'"
    );
}

#[test]
fn shell_suggestion_is_answered_at_once() {
    let mut s = ShellInterventionStrategy::new();
    let i = make_test_intervention(Action::Suggest { suggestion: "restart db".into() });
    match s.plan(&i) {
        ShellStep::Respond(r) => {
            assert!(r.success);
            assert!(!r.rollback_needed);
            assert_eq!(r.output, "Suggestion: restart db");
            assert_eq!(r.intervention_id, i.id);
        }
        other => panic!("expected an answer, got {:?}", other),
    }
    assert_eq!(s.history().len(), 1);
    assert_eq!(s.history()[0].output, "Suggestion: restart db");
}

#[test]
fn shell_record_keeps_history() {
    let mut s = ShellInterventionStrategy::new();
    let hotfix = make_test_intervention(Action::Hotfix { patch: "echo patched".into() });
    let ok = s.record(&hotfix, true, "patched\n", "");
    assert!(ok.success);
    assert!(ok.rollback_needed);
    assert_eq!(ok.output, "patched\n");
    let bad = s.record(&hotfix, false, "", "boom");
    assert!(!bad.success);
    assert!(!bad.rollback_needed);
    assert_eq!(bad.output, "stderr: boom");
    assert_eq!(s.history().len(), 2);
    assert_eq!(s.history()[1].output, "stderr: boom");
}

#[test]
fn http_url_and_results() {
    let mut h = HttpInterventionStrategy::new();
    let mut i = make_test_intervention(Action::Diagnose { command: "x".into() });
    assert_eq!(h.url(&i), "http://test-target/api/intervene");
    i.target = "https://host/x".to_string();
    assert_eq!(h.url(&i), "https://host/x");
    let r = h.record_response(&i, "200 OK", "done", true);
    assert_eq!(r.output, "200 OK: done");
    assert!(r.success);
    assert!(!r.rollback_needed);
    assert_eq!(h.history().len(), 1);
    let f = h.request_failed(&i, "connection refused");
    assert!(!f.success);
    assert_eq!(f.output, "HTTP request failed: connection refused");
    assert_eq!(h.history().len(), 2);
    assert!(!h.history()[1].success);
}

#[test]
fn intervention_ids_are_version_four_uuids() {
    let id = new_intervention_id();
    assert_eq!((id >> 76) & 0xf, 4);
    assert_eq!((id >> 62) & 0x3, 2);
    assert_ne!(new_intervention_id(), id);
}
