//! Sandbox — runs the agent against a simulated host.
//!
//! A scenario is a list of rounds; each round emits a batch of synthetic
//! events of one kind (normal traffic, an anomaly, recovery, or the quiet
//! traffic that tests a phase transition). The sandbox feeds each batch
//! to the learner, asks the trust layer whether to intervene and whether
//! the agent has earned the next phase, and logs the outcome.

use vstd::prelude::*;
use std::sync::Arc;
use std::sync::atomic::AtomicU64;
use crate::config::{SymbiosisPhase, phase_rank};
use crate::error::{MigiError, MigiResult};
use crate::fixed::{Fraction, SCALE};
use crate::intervener::{Action, Intervention, InterventionTrigger, ShellInterventionStrategy, new_intervention_id};
use crate::learner::{StatisticalLearner, SystemModel, Predictions};
use crate::observer::{EventKind, EventType, HostEvent, Payload, PayloadValue, PayloadValueView, Severity, now};
use crate::text::{decimal, with_number};
use crate::trust::{TrustManager, TrustState, may_diagnose, next_phase};

verus! {

// ─── Scenarios ───────────────────────────────────────────────────────

/// What a simulated round does to the host.
#[derive(Debug, Clone, Copy, PartialEq, Eq, Structural)]
pub enum SimPhase {
    /// Normal traffic: requests and responses.
    Normal,
    /// An anomaly: errors and resource alerts.
    Anomaly,
    /// The host recovering.
    Recovery,
    /// Quiet traffic that drives a phase transition.
    TransitionTest,
}

/// One round of a scenario: its kind, how many events it emits, its name.
#[derive(Debug)]
pub struct SimRound {
    pub phase: SimPhase,
    pub event_count: usize,
    pub name: String,
}

impl View for SimRound {
    type V = (SimPhase, nat, Seq<char>);

    open spec fn view(&self) -> (SimPhase, nat, Seq<char>) {
        (self.phase, self.event_count as nat, self.name@)
    }
}

impl Clone for SimRound {
    fn clone(&self) -> (r: Self)
        ensures
            r@ == self@,
    {
        SimRound { phase: self.phase, event_count: self.event_count, name: self.name.clone() }
    }
}

/// A named scenario: its rounds, in order.
#[derive(Debug)]
pub struct Scenario {
    pub name: String,
    pub description: String,
    pub rounds: Vec<SimRound>,
}

/// The views of a scenario's rounds.
pub open spec fn rounds_view(rounds: Seq<SimRound>) -> Seq<(SimPhase, nat, Seq<char>)> {
    rounds.map_values(|r: SimRound| r@)
}

fn round(phase: SimPhase, event_count: usize, name: &str) -> (r: SimRound)
    ensures
        r@ == (phase, event_count as nat, name@),
{
    SimRound { phase, event_count, name: String::from_str(name) }
}

/// The rounds of the anomaly-detection scenario.
pub open spec fn anomaly_detection_rounds() -> Seq<(SimPhase, nat, Seq<char>)> {
    seq![
        (SimPhase::Normal, 25nat, "normal-1"@),
        (SimPhase::Normal, 30nat, "normal-2"@),
        (SimPhase::Normal, 20nat, "normal-3"@),
        (SimPhase::Normal, 28nat, "normal-4"@),
        (SimPhase::Normal, 22nat, "normal-5"@),
        (SimPhase::Normal, 25nat, "normal-6"@),
        (SimPhase::Normal, 30nat, "normal-7"@),
        (SimPhase::Normal, 20nat, "normal-8"@),
        (SimPhase::Normal, 28nat, "normal-9"@),
        (SimPhase::Normal, 22nat, "normal-10"@),
        (SimPhase::Anomaly, 60nat, "anomaly-spike-1"@),
        (SimPhase::Anomaly, 80nat, "anomaly-spike-2"@),
        (SimPhase::Anomaly, 50nat, "anomaly-spike-3"@),
        (SimPhase::Recovery, 25nat, "recovery-1"@),
        (SimPhase::Recovery, 22nat, "recovery-2"@),
        (SimPhase::Recovery, 20nat, "recovery-3"@),
        (SimPhase::Recovery, 25nat, "recovery-4"@),
        (SimPhase::Recovery, 28nat, "recovery-5"@),
    ]
}

impl Scenario {
    /// Twenty rounds of normal traffic that build the model's baseline:
    /// round `i` (from 0) emits `20 + 5 * (i % 3)` events and is named
    /// `normal-round-<i + 1>`.
    pub fn baseline() -> (r: Self)
        ensures
            r.name@ == "baseline"@,
            r.description@ == "正常业务流量，建立系统基线"@,
            r.rounds@.len() == 20,
            forall|i: int| 0 <= i < 20 ==> #[trigger] r.rounds@[i]@
                == (SimPhase::Normal, (20 + (i % 3) * 5) as nat, "normal-round-"@ + decimal((i + 1) as nat)),
    {
        let mut rounds: Vec<SimRound> = Vec::new();
        let mut i: usize = 0;
        while i < 20
            invariant
                0 <= i <= 20,
                rounds@.len() == i,
                forall|j: int| 0 <= j < i ==> #[trigger] rounds@[j]@
                    == (SimPhase::Normal, (20 + (j % 3) * 5) as nat, "normal-round-"@ + decimal((j + 1) as nat)),
            decreases 20 - i,
        {
            rounds.push(SimRound {
                phase: SimPhase::Normal,
                event_count: 20 + (i % 3) * 5,
                name: with_number("normal-round-", i + 1),
            });
            i = i + 1;
        }
        Scenario {
            name: String::from_str("baseline"),
            description: String::from_str("正常业务流量，建立系统基线"),
            rounds,
        }
    }

    /// Ten rounds of normal traffic, three of anomaly spikes and five of
    /// recovery (see [`anomaly_detection_rounds`]).
    pub fn anomaly_detection() -> (r: Self)
        ensures
            r.name@ == "anomaly-detection"@,
            r.description@ == "模拟异常突发，测试异常检测能力"@,
            rounds_view(r.rounds@) == anomaly_detection_rounds(),
    {
        let rounds = vec![
            round(SimPhase::Normal, 25, "normal-1"),
            round(SimPhase::Normal, 30, "normal-2"),
            round(SimPhase::Normal, 20, "normal-3"),
            round(SimPhase::Normal, 28, "normal-4"),
            round(SimPhase::Normal, 22, "normal-5"),
            round(SimPhase::Normal, 25, "normal-6"),
            round(SimPhase::Normal, 30, "normal-7"),
            round(SimPhase::Normal, 20, "normal-8"),
            round(SimPhase::Normal, 28, "normal-9"),
            round(SimPhase::Normal, 22, "normal-10"),
            round(SimPhase::Anomaly, 60, "anomaly-spike-1"),
            round(SimPhase::Anomaly, 80, "anomaly-spike-2"),
            round(SimPhase::Anomaly, 50, "anomaly-spike-3"),
            round(SimPhase::Recovery, 25, "recovery-1"),
            round(SimPhase::Recovery, 22, "recovery-2"),
            round(SimPhase::Recovery, 20, "recovery-3"),
            round(SimPhase::Recovery, 25, "recovery-4"),
            round(SimPhase::Recovery, 28, "recovery-5"),
        ];
        assert(rounds_view(rounds@) =~= anomaly_detection_rounds());
        Scenario {
            name: String::from_str("anomaly-detection"),
            description: String::from_str("模拟异常突发，测试异常检测能力"),
            rounds,
        }
    }

    /// Thirty rounds: twenty of normal traffic, then ten of transition
    /// tests; round `i` emits `30 + (5 * i) % 40` events and is named
    /// `transition-round-<i + 1>`.
    pub fn phase_transition() -> (r: Self)
        ensures
            r.name@ == "phase-transition"@,
            r.description@ == "模拟大量正常交互，触发信任积累和相变"@,
            r.rounds@.len() == 30,
            forall|i: int| 0 <= i < 30 ==> #[trigger] r.rounds@[i]@ == (
                if i < 20 { SimPhase::Normal } else { SimPhase::TransitionTest },
                (30 + (i * 5) % 40) as nat,
                "transition-round-"@ + decimal((i + 1) as nat),
            ),
    {
        let mut rounds: Vec<SimRound> = Vec::new();
        let mut i: usize = 0;
        while i < 30
            invariant
                0 <= i <= 30,
                rounds@.len() == i,
                forall|j: int| 0 <= j < i ==> #[trigger] rounds@[j]@ == (
                    if j < 20 { SimPhase::Normal } else { SimPhase::TransitionTest },
                    (30 + (j * 5) % 40) as nat,
                    "transition-round-"@ + decimal((j + 1) as nat),
                ),
            decreases 30 - i,
        {
            rounds.push(SimRound {
                phase: if i < 20 { SimPhase::Normal } else { SimPhase::TransitionTest },
                event_count: 30 + (i * 5) % 40,
                name: with_number("transition-round-", i + 1),
            });
            i = i + 1;
        }
        Scenario {
            name: String::from_str("phase-transition"),
            description: String::from_str("模拟大量正常交互，触发信任积累和相变"),
            rounds,
        }
    }

    /// The whole life of the agent: fifteen rounds of observation
    /// (`observe-<i + 1>`, `25 + 5 * (i % 3)` events), three of crisis
    /// (70, 90 and 60 anomalous events), five of recovery (25 events
    /// each) and five of transition tests (35 events each).
    pub fn full_lifecycle() -> (r: Self)
        ensures
            r.name@ == "full-lifecycle"@,
            r.description@ == "完整的 Migi 生命周期：观察 → 学习 → 介入 → 教育 → 休眠"@,
            r.rounds@.len() == 28,
            forall|i: int| 0 <= i < 15 ==> #[trigger] r.rounds@[i]@
                == (SimPhase::Normal, (25 + (i % 3) * 5) as nat, "observe-"@ + decimal((i + 1) as nat)),
            r.rounds@[15]@ == (SimPhase::Anomaly, 70nat, "crisis-1"@),
            r.rounds@[16]@ == (SimPhase::Anomaly, 90nat, "crisis-2"@),
            r.rounds@[17]@ == (SimPhase::Anomaly, 60nat, "crisis-3"@),
            forall|i: int| 18 <= i < 23 ==> #[trigger] r.rounds@[i]@
                == (SimPhase::Recovery, 25nat, "recover-"@ + decimal((i - 17) as nat)),
            forall|i: int| 23 <= i < 28 ==> #[trigger] r.rounds@[i]@
                == (SimPhase::TransitionTest, 35nat, "transition-"@ + decimal((i - 22) as nat)),
    {
        let mut r: Vec<SimRound> = Vec::new();
        let mut i: usize = 0;
        while i < 15
            invariant
                0 <= i <= 15,
                r@.len() == i,
                forall|j: int| 0 <= j < i ==> #[trigger] r@[j]@
                    == (SimPhase::Normal, (25 + (j % 3) * 5) as nat, "observe-"@ + decimal((j + 1) as nat)),
            decreases 15 - i,
        {
            r.push(SimRound {
                phase: SimPhase::Normal,
                event_count: 25 + (i % 3) * 5,
                name: with_number("observe-", i + 1),
            });
            i = i + 1;
        }
        r.push(round(SimPhase::Anomaly, 70, "crisis-1"));
        r.push(round(SimPhase::Anomaly, 90, "crisis-2"));
        r.push(round(SimPhase::Anomaly, 60, "crisis-3"));
        let mut i: usize = 0;
        while i < 5
            invariant
                0 <= i <= 5,
                r@.len() == 18 + i,
                forall|j: int| 0 <= j < 15 ==> #[trigger] r@[j]@
                    == (SimPhase::Normal, (25 + (j % 3) * 5) as nat, "observe-"@ + decimal((j + 1) as nat)),
                r@[15]@ == (SimPhase::Anomaly, 70nat, "crisis-1"@),
                r@[16]@ == (SimPhase::Anomaly, 90nat, "crisis-2"@),
                r@[17]@ == (SimPhase::Anomaly, 60nat, "crisis-3"@),
                forall|j: int| 18 <= j < 18 + i ==> #[trigger] r@[j]@
                    == (SimPhase::Recovery, 25nat, "recover-"@ + decimal((j - 17) as nat)),
            decreases 5 - i,
        {
            r.push(SimRound { phase: SimPhase::Recovery, event_count: 25, name: with_number("recover-", i + 1) });
            i = i + 1;
        }
        let mut i: usize = 0;
        while i < 5
            invariant
                0 <= i <= 5,
                r@.len() == 23 + i,
                forall|j: int| 0 <= j < 15 ==> #[trigger] r@[j]@
                    == (SimPhase::Normal, (25 + (j % 3) * 5) as nat, "observe-"@ + decimal((j + 1) as nat)),
                r@[15]@ == (SimPhase::Anomaly, 70nat, "crisis-1"@),
                r@[16]@ == (SimPhase::Anomaly, 90nat, "crisis-2"@),
                r@[17]@ == (SimPhase::Anomaly, 60nat, "crisis-3"@),
                forall|j: int| 18 <= j < 23 ==> #[trigger] r@[j]@
                    == (SimPhase::Recovery, 25nat, "recover-"@ + decimal((j - 17) as nat)),
                forall|j: int| 23 <= j < 23 + i ==> #[trigger] r@[j]@
                    == (SimPhase::TransitionTest, 35nat, "transition-"@ + decimal((j - 22) as nat)),
            decreases 5 - i,
        {
            r.push(SimRound {
                phase: SimPhase::TransitionTest,
                event_count: 35,
                name: with_number("transition-", i + 1),
            });
            i = i + 1;
        }
        Scenario {
            name: String::from_str("full-lifecycle"),
            description: String::from_str("完整的 Migi 生命周期：观察 → 学习 → 介入 → 教育 → 休眠"),
            rounds: r,
        }
    }
}

} // verus!

verus! {

// ─── Event generators ────────────────────────────────────────────────

/// The simulated subsystems, by index.
pub open spec fn sim_source(k: int) -> Seq<char> {
    if k == 0 {
        "api-gateway"@
    } else if k == 1 {
        "auth-service"@
    } else if k == 2 {
        "database"@
    } else if k == 3 {
        "cache"@
    } else {
        "worker"@
    }
}

fn sim_source_name(k: usize) -> (r: &'static str)
    requires
        k < 5,
    ensures
        r@ == sim_source(k as int),
{
    if k == 0 {
        "api-gateway"
    } else if k == 1 {
        "auth-service"
    } else if k == 2 {
        "database"
    } else if k == 3 {
        "cache"
    } else {
        "worker"
    }
}

/// The kinds of normal traffic, by index.
pub open spec fn normal_kind(k: int) -> EventKind {
    if k == 0 {
        EventKind::RequestIn
    } else if k == 1 {
        EventKind::RequestComplete
    } else {
        EventKind::StateChange
    }
}

/// The severities of normal traffic, by index.
pub open spec fn normal_severity(k: int) -> Severity {
    if k == 0 {
        Severity::Debug
    } else if k == 4 {
        Severity::Warning
    } else {
        Severity::Info
    }
}

/// Event `i` of a normal round with seed `seed`.
pub open spec fn normal_event_ok(e: HostEvent, seed: int, i: int) -> bool {
    &&& e.source@ == sim_source((seed + i) % 5)
    &&& e.event_type@ == normal_kind((seed + i * 3) % 3)
    &&& e.severity == normal_severity((seed + i) % 5)
    &&& e.payload@ == seq![
        ("latency_ms"@, PayloadValueView::Int(10 + (seed * 7 + i * 3) % 100)),
        ("status"@, PayloadValueView::Int(200)),
    ]
}

/// The severities of an anomaly, by index.
pub open spec fn anomaly_severity(k: int) -> Severity {
    if k == 1 {
        Severity::Critical
    } else if k == 2 {
        Severity::Warning
    } else {
        Severity::Error
    }
}

/// The error that an anomalous event reports for its severity.
pub open spec fn anomaly_error(s: Severity) -> Seq<char> {
    match s {
        Severity::Critical => "out_of_memory"@,
        Severity::Error => "connection_timeout"@,
        _ => "high_latency"@,
    }
}

/// Event `i` of an anomalous round.
pub open spec fn anomaly_event_ok(e: HostEvent, i: int) -> bool {
    &&& e.source@ == sim_source(2 * (i % 3))
    &&& e.event_type@ == (if i % 3 == 1 { EventKind::ResourceAlert } else { EventKind::Error })
    &&& e.severity == anomaly_severity(i % 4)
    &&& e.payload@ == seq![
        ("error"@, PayloadValueView::Text(anomaly_error(anomaly_severity(i % 4)))),
        ("latency_ms"@, PayloadValueView::Int(5000 + (i * 100) % 30000)),
    ]
}

/// Event `i` of a recovery round.
pub open spec fn recovery_event_ok(e: HostEvent, i: int) -> bool {
    &&& e.source@ == sim_source(i % 5)
    &&& e.event_type@ == (if i % 5 == 0 { EventKind::StateChange } else { EventKind::RequestComplete })
    &&& e.severity == (if i % 3 == 2 { Severity::Warning } else { Severity::Info })
    &&& e.payload@ == seq![
        ("latency_ms"@, PayloadValueView::Int(20 + (i * 3) % 50)),
        ("recovered"@, PayloadValueView::Bool(true)),
        ("status"@, PayloadValueView::Int(200)),
    ]
}

/// Event `i` of a transition-test round with seed `seed`.
pub open spec fn transition_event_ok(e: HostEvent, seed: int, i: int) -> bool {
    &&& e.source@ == sim_source((seed + i) % 5)
    &&& e.event_type@ == EventKind::RequestComplete
    &&& e.severity == (if (seed + i) % 2 == 0 { Severity::Info } else { Severity::Debug })
    &&& e.payload@ == seq![
        ("latency_ms"@, PayloadValueView::Int(5 + (i * 2) % 30)),
        ("status"@, PayloadValueView::Int(200)),
    ]
}

/// Event `i` of a round of kind `phase` with seed `seed`.
pub open spec fn round_event_ok(phase: SimPhase, e: HostEvent, seed: int, i: int) -> bool {
    match phase {
        SimPhase::Normal => normal_event_ok(e, seed, i),
        SimPhase::Anomaly => anomaly_event_ok(e, i),
        SimPhase::Recovery => recovery_event_ok(e, i),
        SimPhase::TransitionTest => transition_event_ok(e, seed, i),
    }
}

/// Whether `evs` are the events of a round of `phase` with `count`
/// events, played as round `round_index`.
pub open spec fn round_batch(evs: Seq<HostEvent>, phase: SimPhase, count: nat, round_index: int) -> bool {
    &&& evs.len() == count
    &&& forall|i: int| 0 <= i < count ==> round_event_ok(phase, #[trigger] evs[i], round_index, i)
}

/// Whether a round's events can be computed in `usize` arithmetic.
pub open spec fn round_fits(phase: SimPhase, count: nat, seed: nat) -> bool {
    match phase {
        SimPhase::Normal => seed * 7 + count * 3 <= usize::MAX,
        SimPhase::Anomaly => count * 100 <= usize::MAX,
        SimPhase::Recovery => count * 3 <= usize::MAX,
        SimPhase::TransitionTest => seed + count * 2 <= usize::MAX,
    }
}

/// `count` events of normal traffic.
pub fn generate_normal_events(count: usize, seed: usize) -> (r: Vec<HostEvent>)
    requires
        seed * 7 + count * 3 <= usize::MAX,
    ensures
        r@.len() == count,
        forall|i: int| 0 <= i < count ==> normal_event_ok(#[trigger] r@[i], seed as int, i),
{
    let mut r: Vec<HostEvent> = Vec::new();
    let mut i: usize = 0;
    while i < count
        invariant
            seed * 7 + count * 3 <= usize::MAX,
            0 <= i <= count,
            r@.len() == i,
            forall|j: int| 0 <= j < i ==> normal_event_ok(#[trigger] r@[j], seed as int, j),
        decreases count - i,
    {
        let source = sim_source_name((seed + i) % 5);
        let event_type = match (seed + i * 3) % 3 {
            0 => EventType::RequestIn,
            1 => EventType::RequestComplete,
            _ => EventType::StateChange,
        };
        let k = (seed + i) % 5;
        let severity = if k == 0 {
            Severity::Debug
        } else if k == 4 {
            Severity::Warning
        } else {
            Severity::Info
        };
        let latency = (10 + (seed * 7 + i * 3) % 100) as i64;
        let payload = Payload::new()
            .with("latency_ms", PayloadValue::Int(latency))
            .with("status", PayloadValue::Int(200));
        let e = HostEvent { timestamp: now(), source: String::from_str(source), event_type, payload, severity };
        assert(e.payload@ =~= seq![
            ("latency_ms"@, PayloadValueView::Int(10 + (seed * 7 + i * 3) % 100)),
            ("status"@, PayloadValueView::Int(200)),
        ]);
        r.push(e);
        i = i + 1;
    }
    r
}

/// `count` events of an anomaly.
pub fn generate_anomaly_events(count: usize) -> (r: Vec<HostEvent>)
    requires
        count * 100 <= usize::MAX,
    ensures
        r@.len() == count,
        forall|i: int| 0 <= i < count ==> anomaly_event_ok(#[trigger] r@[i], i),
{
    let mut r: Vec<HostEvent> = Vec::new();
    let mut i: usize = 0;
    while i < count
        invariant
            count * 100 <= usize::MAX,
            0 <= i <= count,
            r@.len() == i,
            forall|j: int| 0 <= j < i ==> anomaly_event_ok(#[trigger] r@[j], j),
        decreases count - i,
    {
        let source = sim_source_name(2 * (i % 3));
        let event_type = if i % 3 == 1 { EventType::ResourceAlert } else { EventType::Error };
        let k = i % 4;
        let severity = if k == 1 {
            Severity::Critical
        } else if k == 2 {
            Severity::Warning
        } else {
            Severity::Error
        };
        let error = match severity {
            Severity::Critical => "out_of_memory",
            Severity::Error => "connection_timeout",
            _ => "high_latency",
        };
        let latency = (5000 + (i * 100) % 30000) as i64;
        let payload = Payload::new()
            .with("error", PayloadValue::Text(String::from_str(error)))
            .with("latency_ms", PayloadValue::Int(latency));
        let e = HostEvent { timestamp: now(), source: String::from_str(source), event_type, payload, severity };
        assert(e.payload@ =~= seq![
            ("error"@, PayloadValueView::Text(anomaly_error(anomaly_severity((i % 4) as int)))),
            ("latency_ms"@, PayloadValueView::Int(5000 + (i * 100) % 30000)),
        ]);
        r.push(e);
        i = i + 1;
    }
    r
}

/// `count` events of the host recovering.
pub fn generate_recovery_events(count: usize) -> (r: Vec<HostEvent>)
    requires
        count * 3 <= usize::MAX,
    ensures
        r@.len() == count,
        forall|i: int| 0 <= i < count ==> recovery_event_ok(#[trigger] r@[i], i),
{
    let mut r: Vec<HostEvent> = Vec::new();
    let mut i: usize = 0;
    while i < count
        invariant
            count * 3 <= usize::MAX,
            0 <= i <= count,
            r@.len() == i,
            forall|j: int| 0 <= j < i ==> recovery_event_ok(#[trigger] r@[j], j),
        decreases count - i,
    {
        let source = sim_source_name(i % 5);
        let event_type = if i % 5 == 0 { EventType::StateChange } else { EventType::RequestComplete };
        let severity = if i % 3 == 2 { Severity::Warning } else { Severity::Info };
        let latency = (20 + (i * 3) % 50) as i64;
        let payload = Payload::new()
            .with("latency_ms", PayloadValue::Int(latency))
            .with("recovered", PayloadValue::Bool(true))
            .with("status", PayloadValue::Int(200));
        let e = HostEvent { timestamp: now(), source: String::from_str(source), event_type, payload, severity };
        assert(e.payload@ =~= seq![
            ("latency_ms"@, PayloadValueView::Int(20 + (i * 3) % 50)),
            ("recovered"@, PayloadValueView::Bool(true)),
            ("status"@, PayloadValueView::Int(200)),
        ]);
        r.push(e);
        i = i + 1;
    }
    r
}

/// `count` events of quiet traffic.
pub fn generate_transition_events(count: usize, seed: usize) -> (r: Vec<HostEvent>)
    requires
        seed + count * 2 <= usize::MAX,
    ensures
        r@.len() == count,
        forall|i: int| 0 <= i < count ==> transition_event_ok(#[trigger] r@[i], seed as int, i),
{
    let mut r: Vec<HostEvent> = Vec::new();
    let mut i: usize = 0;
    while i < count
        invariant
            seed + count * 2 <= usize::MAX,
            0 <= i <= count,
            r@.len() == i,
            forall|j: int| 0 <= j < i ==> transition_event_ok(#[trigger] r@[j], seed as int, j),
        decreases count - i,
    {
        let source = sim_source_name((seed + i) % 5);
        let severity = if (seed + i) % 2 == 0 { Severity::Info } else { Severity::Debug };
        let latency = (5 + (i * 2) % 30) as i64;
        let payload = Payload::new()
            .with("latency_ms", PayloadValue::Int(latency))
            .with("status", PayloadValue::Int(200));
        let e = HostEvent {
            timestamp: now(),
            source: String::from_str(source),
            event_type: EventType::RequestComplete,
            payload,
            severity,
        };
        assert(e.payload@ =~= seq![
            ("latency_ms"@, PayloadValueView::Int(5 + (i * 2) % 30)),
            ("status"@, PayloadValueView::Int(200)),
        ]);
        r.push(e);
        i = i + 1;
    }
    r
}

impl SimRound {
    /// The events of this round, as the `round_index`-th of its scenario
    /// (the index seeds normal and transition-test traffic).
    pub fn events(&self, round_index: usize) -> (r: Vec<HostEvent>)
        requires
            round_fits(self.phase, self.event_count as nat, round_index as nat),
        ensures
            r@.len() == self.event_count,
            forall|i: int| 0 <= i < self.event_count ==> round_event_ok(self.phase, #[trigger] r@[i], round_index as int, i),
    {
        match self.phase {
            SimPhase::Normal => generate_normal_events(self.event_count, round_index),
            SimPhase::Anomaly => generate_anomaly_events(self.event_count),
            SimPhase::Recovery => generate_recovery_events(self.event_count),
            SimPhase::TransitionTest => generate_transition_events(self.event_count, round_index),
        }
    }
}

} // verus!

verus! {

// ─── Simulated observation channels ──────────────────────────────────

/// A simulated log stream that plays a scenario's rounds, one event per
/// poll; a poll past the end of a round moves to the next round and
/// yields nothing.
#[derive(Debug)]
pub struct SimLogChannel {
    name: String,
    rounds: Vec<SimRound>,
    round_index: usize,
    event_index: usize,
    total_events: u64,
    running: bool,
}

impl SimLogChannel {
    /// The rounds played.
    pub closed spec fn rounds_spec(&self) -> Seq<(SimPhase, nat, Seq<char>)> {
        rounds_view(self.rounds@)
    }

    /// The round being played.
    pub closed spec fn round_index_spec(&self) -> nat {
        self.round_index as nat
    }

    /// The next event's index within the round.
    pub closed spec fn event_index_spec(&self) -> nat {
        self.event_index as nat
    }

    /// Events yielded since the start.
    pub closed spec fn total_spec(&self) -> nat {
        self.total_events as nat
    }

    /// Whether the channel is running.
    pub closed spec fn is_running(&self) -> bool {
        self.running
    }

    /// The channel's name.
    pub closed spec fn name_spec(&self) -> Seq<char> {
        self.name@
    }

    /// A stopped channel named `name` over the rounds of `scenario`, at
    /// the first event of the first round.
    pub fn new(name: &str, scenario: &Scenario) -> (r: Self)
        ensures
            r.name_spec() == name@,
            r.rounds_spec() == rounds_view(scenario.rounds@),
            r.round_index_spec() == 0,
            r.event_index_spec() == 0,
            r.total_spec() == 0,
            !r.is_running(),
    {
        let mut rounds: Vec<SimRound> = Vec::new();
        let mut i: usize = 0;
        while i < scenario.rounds.len()
            invariant
                0 <= i <= scenario.rounds@.len(),
                rounds@.len() == i,
                forall|j: int| 0 <= j < i ==> #[trigger] rounds@[j]@ == scenario.rounds@[j]@,
            decreases scenario.rounds@.len() - i,
        {
            rounds.push(scenario.rounds[i].clone());
            i = i + 1;
        }
        assert(rounds_view(rounds@) =~= rounds_view(scenario.rounds@));
        SimLogChannel {
            name: String::from_str(name),
            rounds,
            round_index: 0,
            event_index: 0,
            total_events: 0,
            running: false,
        }
    }

    /// The channel's name.
    pub fn name(&self) -> (r: &str)
        ensures
            r@ == self.name_spec(),
    {
        self.name.as_str()
    }

    /// The name of the round being played, or `done` after the last one.
    pub fn round_name(&self) -> (r: &str)
        ensures
            self.round_index_spec() < self.rounds_spec().len() ==> r@ == self.rounds_spec()[self.round_index_spec() as int].2,
            self.round_index_spec() >= self.rounds_spec().len() ==> r@ == "done"@,
    {
        if self.round_index < self.rounds.len() {
            self.rounds[self.round_index].name.as_str()
        } else {
            "done"
        }
    }

    /// The round being played and the number of rounds; the cursor never
    /// passes the last round (after it, the round is `done` and every
    /// poll gives nothing).
    pub fn progress(&self) -> (r: (usize, usize))
        ensures
            r.0 == self.round_index_spec(),
            r.1 == self.rounds_spec().len(),
            r.0 <= r.1,
    {
        proof {
            use_type_invariant(self);
        }
        (self.round_index, self.rounds.len())
    }

    /// The cursor stays within the rounds.
    #[verifier::type_invariant]
    closed spec fn cursor_within_rounds(&self) -> bool {
        self.round_index <= self.rounds@.len()
    }

    /// Starts (or restarts) the stream from its first event.
    pub fn start(&mut self)
        ensures
            final(self).is_running(),
            final(self).round_index_spec() == 0,
            final(self).event_index_spec() == 0,
            final(self).total_spec() == 0,
            final(self).rounds_spec() == old(self).rounds_spec(),
            final(self).name_spec() == old(self).name_spec(),
    {
        self.round_index = 0;
        self.running = true;
        self.event_index = 0;
        self.total_events = 0;
    }

    /// Stops the stream.
    pub fn stop(&mut self)
        ensures
            !final(self).is_running(),
            final(self).round_index_spec() == old(self).round_index_spec(),
            final(self).event_index_spec() == old(self).event_index_spec(),
            final(self).total_spec() == old(self).total_spec(),
            final(self).rounds_spec() == old(self).rounds_spec(),
            final(self).name_spec() == old(self).name_spec(),
    {
        proof {
            use_type_invariant(&*self);
        }
        self.running = false;
    }

    /// Polls the stream: nothing when stopped or past the last round;
    /// nothing, and on to the next round, past the end of a round;
    /// otherwise the round's next event.
    pub fn next_event(&mut self) -> (r: Option<HostEvent>)
        requires
            old(self).is_running() && old(self).round_index_spec() < old(self).rounds_spec().len() ==> {
                let rd = old(self).rounds_spec()[old(self).round_index_spec() as int];
                &&& round_fits(rd.0, rd.1, old(self).round_index_spec())
                &&& old(self).total_spec() < u64::MAX
            },
        ensures
            final(self).rounds_spec() == old(self).rounds_spec(),
            final(self).name_spec() == old(self).name_spec(),
            final(self).is_running() == old(self).is_running(),
            !old(self).is_running() || old(self).round_index_spec() >= old(self).rounds_spec().len() ==> {
                &&& r is None
                &&& final(self).round_index_spec() == old(self).round_index_spec()
                &&& final(self).event_index_spec() == old(self).event_index_spec()
                &&& final(self).total_spec() == old(self).total_spec()
            },
            old(self).is_running() && old(self).round_index_spec() < old(self).rounds_spec().len() ==> {
                let rd = old(self).rounds_spec()[old(self).round_index_spec() as int];
                if old(self).event_index_spec() >= rd.1 {
                    &&& r is None
                    &&& final(self).round_index_spec() == old(self).round_index_spec() + 1
                    &&& final(self).event_index_spec() == 0
                    &&& final(self).total_spec() == old(self).total_spec()
                } else {
                    &&& r matches Some(e) && round_event_ok(rd.0, e, old(self).round_index_spec() as int,
                        old(self).event_index_spec() as int)
                    &&& final(self).round_index_spec() == old(self).round_index_spec()
                    &&& final(self).event_index_spec() == old(self).event_index_spec() + 1
                    &&& final(self).total_spec() == old(self).total_spec() + 1
                }
            },
    {
        if !self.running || self.round_index >= self.rounds.len() {
            return None;
        }
        let ri = self.round_index;
        assert(self.rounds@[ri as int]@ == self.rounds_spec()[ri as int]);
        let mut events = self.rounds[ri].events(ri);
        if self.event_index >= events.len() {
            self.round_index = ri + 1;
            self.event_index = 0;
            return None;
        }
        let event = events.remove(self.event_index);
        self.event_index = self.event_index + 1;
        self.total_events = self.total_events + 1;
        Some(event)
    }
}

/// Reads the shared simulation phase code (relaxed ordering; nothing is
/// known of the value another thread stored).
fn load_phase_code(tracker: &AtomicU64) -> u64 {
    tracker.load(std::sync::atomic::Ordering::Relaxed)
}

/// Publishes the simulation phase code.
fn store_phase_code(tracker: &AtomicU64, code: u64) {
    tracker.store(code, std::sync::atomic::Ordering::Relaxed)
}

/// The CPU and memory use (millionths of a percent) that the simulated
/// metrics report at poll `poll` under phase code `code`: 92 and 88 in
/// an anomaly (code 1), 55 and 60 in recovery (code 2), 30 and 45 in a
/// transition test (code 3), and `35 + poll % 20` and `50 + poll % 10`
/// otherwise.
pub open spec fn sim_metrics(code: u64, poll: nat) -> (int, int) {
    if code == 1 {
        (92 * SCALE, 88 * SCALE)
    } else if code == 2 {
        (55 * SCALE, 60 * SCALE)
    } else if code == 3 {
        (30 * SCALE, 45 * SCALE)
    } else {
        ((35 + poll % 20) * SCALE, (50 + poll % 10) * SCALE)
    }
}

/// The simulated metrics event for these readings, against the fixed
/// threshold of 80 %: an alert above it (an error above 90 % CPU).
pub open spec fn sim_metrics_event_ok(e: HostEvent, cpu: int, mem: int) -> bool {
    let over = cpu > 80 * SCALE || mem > 80 * SCALE;
    &&& e.source@ == "metrics"@
    &&& e.event_type@ == (if over { EventKind::ResourceAlert } else { EventKind::StateChange })
    &&& e.severity == (if over { if cpu > 90 * SCALE { Severity::Error } else { Severity::Warning } } else { Severity::Info })
    &&& e.payload@ == seq![
        ("cpu_percent"@, PayloadValueView::Fixed(cpu)),
        ("exceeded"@, PayloadValueView::Bool(over)),
        ("memory_percent"@, PayloadValueView::Fixed(mem)),
        ("threshold"@, PayloadValueView::Fixed(80 * SCALE)),
    ]
}

/// The simulated metrics event at poll `poll` under phase code `code`.
pub open spec fn sim_reading_ok(e: HostEvent, code: u64, poll: nat) -> bool {
    sim_metrics_event_ok(e, sim_metrics(code, poll).0, sim_metrics(code, poll).1)
}

/// The simulated metrics event at poll `poll` under phase code `code`
/// (see [`sim_metrics`]).
pub fn sim_reading(code: u64, poll: u64) -> (e: HostEvent)
    ensures
        sim_reading_ok(e, code, poll as nat),
{
    let p = poll;
    let (cpu, mem): (i64, i64) = if code == 1 {
        (92_000_000, 88_000_000)
    } else if code == 2 {
        (55_000_000, 60_000_000)
    } else if code == 3 {
        (30_000_000, 45_000_000)
    } else {
        (((35 + p % 20) * 1_000_000) as i64, ((50 + p % 10) * 1_000_000) as i64)
    };
    let over = cpu > 80_000_000 || mem > 80_000_000;
    let payload = Payload::new()
        .with("cpu_percent", PayloadValue::Fixed(cpu))
        .with("exceeded", PayloadValue::Bool(over))
        .with("memory_percent", PayloadValue::Fixed(mem))
        .with("threshold", PayloadValue::Fixed(80_000_000));
    let e = HostEvent {
        timestamp: now(),
        source: String::from_str("metrics"),
        event_type: if over { EventType::ResourceAlert } else { EventType::StateChange },
        payload,
        severity: if over {
            if cpu > 90_000_000 { Severity::Error } else { Severity::Warning }
        } else {
            Severity::Info
        },
    };
    assert(e.payload@ =~= seq![
        ("cpu_percent"@, PayloadValueView::Fixed(cpu as int)),
        ("exceeded"@, PayloadValueView::Bool(over)),
        ("memory_percent"@, PayloadValueView::Fixed(mem as int)),
        ("threshold"@, PayloadValueView::Fixed(80 * SCALE)),
    ]);
    assert(sim_metrics(code, poll as nat) == (cpu as int, mem as int));
    e
}

/// A simulated metrics endpoint whose readings follow the phase that the
/// sandbox publishes.
#[derive(Debug)]
pub struct SimMetricsChannel {
    name: String,
    phase: Arc<AtomicU64>,
    poll_count: u64,
    running: bool,
}

impl SimMetricsChannel {
    /// Polls so far.
    pub closed spec fn polls(&self) -> nat {
        self.poll_count as nat
    }

    /// Whether the channel is running.
    pub closed spec fn is_running(&self) -> bool {
        self.running
    }

    /// The channel's name.
    pub closed spec fn name_spec(&self) -> Seq<char> {
        self.name@
    }

    /// A stopped channel named `name` that reads the phase from
    /// `phase_tracker`.
    pub fn new(name: &str, phase_tracker: Arc<AtomicU64>) -> (r: Self)
        ensures
            r.name_spec() == name@,
            r.polls() == 0,
            !r.is_running(),
    {
        SimMetricsChannel { name: String::from_str(name), phase: phase_tracker, poll_count: 0, running: false }
    }

    /// The channel's name.
    pub fn name(&self) -> (r: &str)
        ensures
            r@ == self.name_spec(),
    {
        self.name.as_str()
    }

    /// Starts the channel, counting polls from zero.
    pub fn start(&mut self)
        ensures
            final(self).is_running(),
            final(self).polls() == 0,
            final(self).name_spec() == old(self).name_spec(),
    {
        self.running = true;
        self.poll_count = 0;
    }

    /// Stops the channel.
    pub fn stop(&mut self)
        ensures
            !final(self).is_running(),
            final(self).polls() == old(self).polls(),
            final(self).name_spec() == old(self).name_spec(),
    {
        self.running = false;
    }

    /// Polls the endpoint: nothing when stopped; otherwise one more poll
    /// and the reading for the published phase (see [`sim_metrics`]).
    pub fn next_event(&mut self) -> (r: Option<HostEvent>)
        requires
            old(self).polls() < u64::MAX,
        ensures
            final(self).name_spec() == old(self).name_spec(),
            final(self).is_running() == old(self).is_running(),
            !old(self).is_running() ==> r is None && final(self).polls() == old(self).polls(),
            old(self).is_running() ==> final(self).polls() == old(self).polls() + 1
                && (r matches Some(e) && exists|code: u64| #[trigger] sim_reading_ok(e, code, final(self).polls())),
    {
        if !self.running {
            return None;
        }
        self.poll_count = self.poll_count + 1;
        let code = load_phase_code(&self.phase);
        Some(sim_reading(code, self.poll_count))
    }
}

} // verus!

verus! {

// ─── The sandbox ─────────────────────────────────────────────────────

/// The name that `{:?}` prints for a phase.
pub open spec fn phase_name_spec(p: SymbiosisPhase) -> Seq<char> {
    match p {
        SymbiosisPhase::Observation => "Observation"@,
        SymbiosisPhase::Assistance => "Assistance"@,
        SymbiosisPhase::LocalTakeover => "LocalTakeover"@,
        SymbiosisPhase::ControlledTransition => "ControlledTransition"@,
    }
}

/// The name of a phase, as `{:?}` prints it.
pub fn phase_name(p: SymbiosisPhase) -> (r: String)
    ensures
        r@ == phase_name_spec(p),
{
    match p {
        SymbiosisPhase::Observation => String::from_str("Observation"),
        SymbiosisPhase::Assistance => String::from_str("Assistance"),
        SymbiosisPhase::LocalTakeover => String::from_str("LocalTakeover"),
        SymbiosisPhase::ControlledTransition => String::from_str("ControlledTransition"),
    }
}

/// A channel registered with the sandbox's observer.
#[derive(Debug)]
pub enum SimChannel {
    Log(SimLogChannel),
    Metrics(SimMetricsChannel),
}

/// What one round of a simulation did. Accuracy and anomaly probability
/// are in millionths; the trust score is the exact share of successes.
#[derive(Debug, Clone)]
pub struct SimLog {
    pub round: usize,
    pub round_name: String,
    pub events_in_round: usize,
    pub total_events: u64,
    pub phase: String,
    pub model_version: u64,
    pub model_accuracy: u64,
    pub anomaly_prob: u64,
    pub trust_score: Fraction,
    pub consecutive_successes: u64,
    pub interventions_attempted: u64,
}

/// What a whole simulation did.
#[derive(Debug, Clone)]
pub struct SimResult {
    pub scenario_name: String,
    pub scenario_description: String,
    pub rounds_completed: usize,
    pub total_events_processed: u64,
    pub final_phase: String,
    pub final_trust_score: Fraction,
    pub final_model_accuracy: u64,
    pub phase_transitions: usize,
    pub interventions: u64,
    pub logs: Vec<SimLog>,
}

/// The rounds that a report of `total` rounds shows, by index: all of
/// them when there are at most ten, else the first five, the middle one
/// and the last four.
pub open spec fn report_rows_spec(total: int) -> Seq<int> {
    if total <= 10 {
        Seq::new(total as nat, |i: int| i)
    } else {
        Seq::new(5, |i: int| i) + seq![total / 2] + Seq::new(4, |i: int| total - 4 + i)
    }
}

impl SimResult {
    /// The indices of the round logs that the report shows (see
    /// [`report_rows_spec`]).
    pub fn report_rows(&self) -> (r: Vec<usize>)
        ensures
            r@.len() == report_rows_spec(self.logs@.len() as int).len(),
            forall|i: int| 0 <= i < r@.len() ==> r@[i] == report_rows_spec(self.logs@.len() as int)[i],
            forall|i: int| 0 <= i < r@.len() ==> r@[i] < self.logs@.len(),
    {
        let total = self.logs.len();
        let mut r: Vec<usize> = Vec::new();
        if total <= 10 {
            let mut i: usize = 0;
            while i < total
                invariant
                    i <= total,
                    r@.len() == i,
                    forall|j: int| 0 <= j < i ==> r@[j] == j,
                decreases total - i,
            {
                r.push(i);
                i = i + 1;
            }
        } else {
            let mut i: usize = 0;
            while i < 5
                invariant
                    i <= 5,
                    r@.len() == i,
                    forall|j: int| 0 <= j < i ==> r@[j] == j,
                decreases 5 - i,
            {
                r.push(i);
                i = i + 1;
            }
            r.push(total / 2);
            let mut k: usize = 0;
            while k < 4
                invariant
                    total > 10,
                    k <= 4,
                    r@.len() == 6 + k,
                    forall|j: int| 0 <= j < 5 ==> r@[j] == j,
                    r@[5] == total / 2,
                    forall|j: int| 6 <= j < 6 + k ==> r@[j] == total - 10 + j,
                decreases 4 - k,
            {
                r.push(total - 4 + k);
                k = k + 1;
            }
        }
        r
    }
}

/// Whether a fresh sandbox can play these rounds: their events are
/// counted in `u64` and generated in `usize` arithmetic.
pub open spec fn scenario_fits(rounds: Seq<SimRound>) -> bool {
    &&& total_count(rounds_view(rounds)) <= u64::MAX
    &&& rounds.len() < usize::MAX
    &&& forall|i: int| 0 <= i < rounds.len() ==> round_fits(
        #[trigger] rounds[i].phase,
        rounds[i].event_count as nat,
        i as nat,
    )
}

impl Scenario {
    /// Whether a fresh sandbox can play this scenario (see
    /// [`scenario_fits`]).
    pub fn fits(&self) -> (r: bool)
        ensures
            r == scenario_fits(self.rounds@),
    {
        let n = self.rounds.len();
        if n == usize::MAX {
            return false;
        }
        let ghost rv = rounds_view(self.rounds@);
        let mut total: u64 = 0;
        let mut i: usize = 0;
        while i < n
            invariant
                n == self.rounds@.len() < usize::MAX,
                rv == rounds_view(self.rounds@),
                0 <= i <= n,
                total == total_count(rv.take(i as int)),
                forall|j: int| 0 <= j < i ==> round_fits(
                    #[trigger] self.rounds@[j].phase,
                    self.rounds@[j].event_count as nat,
                    j as nat,
                ),
            decreases n - i,
        {
            let r = &self.rounds[i];
            let count = r.event_count as u128;
            let seed = i as u128;
            let limit = usize::MAX as u128;
            let ok = match r.phase {
                SimPhase::Normal => seed * 7 + count * 3 <= limit,
                SimPhase::Anomaly => count * 100 <= limit,
                SimPhase::Recovery => count * 3 <= limit,
                SimPhase::TransitionTest => seed + count * 2 <= limit,
            };
            proof {
                assert(rv.take(i as int + 1).drop_last() =~= rv.take(i as int));
                assert(rv.take(i as int + 1).last() == self.rounds@[i as int]@);
            }
            if !ok {
                return false;
            }
            if total > u64::MAX - (r.event_count as u64) {
                proof {
                    lemma_total_count_prefix(rv, i as int + 1);
                }
                return false;
            }
            total = total + r.event_count as u64;
            i = i + 1;
        }
        assert(rv.take(n as int) =~= rv);
        true
    }
}

/// The standing after a round: one phase up, with a new streak, when the
/// agent earned it, else unchanged.
pub open spec fn standing_after(before: TrustState, threshold: int, model: SystemModel) -> TrustState {
    match next_phase(before, threshold, model) {
        Some(p) => TrustState { phase: p, consecutive_successes: 0, ..before },
        None => before,
    }
}

/// The number of events that these rounds emit.
pub open spec fn total_count(rounds: Seq<(SimPhase, nat, Seq<char>)>) -> nat
    decreases rounds.len(),
{
    if rounds.len() == 0 {
        0
    } else {
        total_count(rounds.drop_last()) + rounds.last().1
    }
}

/// A prefix of the rounds emits no more than all of them.
pub proof fn lemma_total_count_prefix(rounds: Seq<(SimPhase, nat, Seq<char>)>, i: int)
    requires
        0 <= i <= rounds.len(),
    ensures
        total_count(rounds.take(i)) <= total_count(rounds),
    decreases rounds.len(),
{
    if i == rounds.len() {
        assert(rounds.take(i) =~= rounds);
    } else {
        assert(rounds.drop_last().take(i) =~= rounds.take(i));
        lemma_total_count_prefix(rounds.drop_last(), i);
    }
}

/// The agent run against a simulated host: a learner, a trust layer
/// that starts in `Observation` and allows only the target `system`, and
/// the registered simulated channels and shell strategies.
#[derive(Debug)]
pub struct Sandbox {
    channels: Vec<SimChannel>,
    strategies: Vec<ShellInterventionStrategy>,
    learner: StatisticalLearner,
    trust: TrustManager,
    phase_tracker: Arc<AtomicU64>,
    intervention_count: u64,
    phase_transitions: usize,
}

impl Sandbox {
    /// The learner.
    pub closed spec fn learner_spec(&self) -> StatisticalLearner {
        self.learner
    }

    /// The trust layer.
    pub closed spec fn trust_spec(&self) -> TrustManager {
        self.trust
    }

    /// Interventions authorized so far.
    pub closed spec fn interventions_spec(&self) -> nat {
        self.intervention_count as nat
    }

    /// Phase transitions so far.
    pub closed spec fn transitions_spec(&self) -> nat {
        self.phase_transitions as nat
    }

    /// The number of registered channels and of registered strategies.
    pub closed spec fn registered(&self) -> (nat, nat) {
        (self.channels@.len(), self.strategies@.len())
    }

    /// A fresh sandbox: nothing learned, `Observation`, only `system` as
    /// a target, the given model reliability threshold (millionths).
    pub fn new(_name: &str, trust_threshold: i64) -> (r: Self)
        ensures
            r.learner_spec().wf(),
            r.learner_spec().total() == 0,
            r.learner_spec().model_view() == crate::learner::empty_model(),
            r.trust_spec().standing() == crate::trust::fresh_state(SymbiosisPhase::Observation),
            r.trust_spec().threshold() == trust_threshold,
            r.trust_spec().allowed() == seq!["system"@],
            r.trust_spec().blocked().len() == 0,
            r.interventions_spec() == 0,
            r.transitions_spec() == 0,
            r.registered() == (0nat, 0nat),
    {
        let mut allowed: Vec<String> = Vec::new();
        allowed.push(String::from_str("system"));
        let trust = TrustManager::new(SymbiosisPhase::Observation, trust_threshold, allowed);
        assert(crate::text::views(allowed@) =~= seq!["system"@]);
        Sandbox {
            channels: Vec::new(),
            strategies: Vec::new(),
            learner: StatisticalLearner::new(),
            trust,
            phase_tracker: Arc::new(AtomicU64::new(0)),
            intervention_count: 0,
            phase_transitions: 0,
        }
    }

    /// Registers a simulated log channel named `sim-log` that plays
    /// `scenario`.
    pub fn with_log_channel(self, scenario: &Scenario) -> (r: Self)
        ensures
            r.registered() == (self.registered().0 + 1, self.registered().1),
            r.learner_spec() == self.learner_spec(),
            r.trust_spec() == self.trust_spec(),
            r.interventions_spec() == self.interventions_spec(),
            r.transitions_spec() == self.transitions_spec(),
    {
        let mut s = self;
        s.channels.push(SimChannel::Log(SimLogChannel::new("sim-log", scenario)));
        s
    }

    /// Registers a simulated metrics channel named `sim-metrics` that
    /// follows the sandbox's phase.
    pub fn with_metrics_channel(self) -> (r: Self)
        ensures
            r.registered() == (self.registered().0 + 1, self.registered().1),
            r.learner_spec() == self.learner_spec(),
            r.trust_spec() == self.trust_spec(),
            r.interventions_spec() == self.interventions_spec(),
            r.transitions_spec() == self.transitions_spec(),
    {
        let mut s = self;
        let tracker = s.phase_tracker.clone();
        s.channels.push(SimChannel::Metrics(SimMetricsChannel::new("sim-metrics", tracker)));
        s
    }

    /// Registers a shell intervention strategy.
    pub fn with_shell_strategy(self) -> (r: Self)
        ensures
            r.registered() == (self.registered().0, self.registered().1 + 1),
            r.learner_spec() == self.learner_spec(),
            r.trust_spec() == self.trust_spec(),
            r.interventions_spec() == self.interventions_spec(),
            r.transitions_spec() == self.transitions_spec(),
    {
        let mut s = self;
        s.strategies.push(ShellInterventionStrategy::new());
        s
    }

    /// The learner.
    pub fn learner(&self) -> (r: &StatisticalLearner)
        ensures
            *r == self.learner_spec(),
    {
        &self.learner
    }

    /// The trust layer.
    pub fn trust(&self) -> (r: &TrustManager)
        ensures
            *r == self.trust_spec(),
    {
        &self.trust
    }

    fn update_phase_tracker(&self, phase: SimPhase) {
        let code: u64 = match phase {
            SimPhase::Normal => 0,
            SimPhase::Anomaly => 1,
            SimPhase::Recovery => 2,
            SimPhase::TransitionTest => 3,
        };
        store_phase_code(&self.phase_tracker, code);
    }

    /// Runs one round: publishes its phase to the metrics channel, feeds
    /// its events to the learner (when there are any), authorizes a
    /// diagnosis when an anomaly is likely, moves the agent up a phase
    /// when it has earned it, and logs the outcome.
    pub fn run_round<F: Fn(u64) -> u64>(&mut self, round: &SimRound, round_index: usize, accuracy_curve: &F) -> (r: MigiResult<SimLog>)
        requires
            old(self).learner_spec().wf(),
            old(self).learner_spec().total() + round.event_count <= u64::MAX,
            old(self).learner_spec().model_view().version < u64::MAX,
            round_fits(round.phase, round.event_count as nat, round_index as nat),
            round_index < usize::MAX,
            old(self).interventions_spec() < u64::MAX,
            old(self).transitions_spec() < usize::MAX,
            forall|n: u64| accuracy_curve.requires((n,)),
        ensures
            final(self).learner_spec().wf(),
            final(self).learner_spec().total() == old(self).learner_spec().total() + round.event_count,
            round.event_count == 0 ==> final(self).learner_spec().model_view() == old(self).learner_spec().model_view(),
            round.event_count > 0 ==> final(self).learner_spec().model_view().version
                == old(self).learner_spec().model_view().version + 1,
            exists|evs: Seq<HostEvent>| #[trigger] round_batch(evs, round.phase, round.event_count as nat, round_index as int)
                && forall|k: (Seq<char>, EventKind)| #[trigger] final(self).learner_spec().count(k)
                    == old(self).learner_spec().count(k) + crate::learner::occurrences(evs, k),
            final(self).trust_spec().standing() == standing_after(
                old(self).trust_spec().standing(),
                old(self).trust_spec().threshold(),
                final(self).learner_spec().model_view(),
            ),
            final(self).trust_spec().threshold() == old(self).trust_spec().threshold(),
            final(self).trust_spec().allowed() == old(self).trust_spec().allowed(),
            final(self).trust_spec().blocked() == old(self).trust_spec().blocked(),
            final(self).transitions_spec() == old(self).transitions_spec()
                + if next_phase(old(self).trust_spec().standing(), old(self).trust_spec().threshold(),
                    final(self).learner_spec().model_view()) is Some { 1nat } else { 0nat },
            final(self).interventions_spec() == old(self).interventions_spec()
                + if final(self).learner_spec().novelty_view() > SCALE / 2
                    && may_diagnose(old(self).trust_spec().allowed(), old(self).trust_spec().blocked(), "system"@)
                { 1nat } else { 0nat },
            final(self).registered() == old(self).registered(),
            r matches Ok(log) && {
                let model = final(self).learner_spec().model_view();
                let standing = final(self).trust_spec().standing();
                &&& log.round == round_index + 1
                &&& log.round_name@ == round.name@
                &&& log.events_in_round == round.event_count
                &&& log.total_events == model.observed_events
                &&& log.phase@ == phase_name_spec(standing.phase)
                &&& log.model_version == model.version
                &&& log.model_accuracy == model.prediction_accuracy
                &&& log.anomaly_prob == final(self).learner_spec().novelty_view()
                &&& log.trust_score == standing.trust_score
                &&& log.consecutive_successes == standing.consecutive_successes
                &&& log.interventions_attempted == final(self).interventions_spec()
            },
    {
        self.update_phase_tracker(round.phase);
        let round_events = round.events(round_index);
        if round_events.len() > 0 {
            let processed = self.learner.process_events(round_events.as_slice(), accuracy_curve);
            assert(processed is Ok);
        }
        assert(round_batch(round_events@, round.phase, round.event_count as nat, round_index as int));
        let predictions = match self.learner.predict() {
            Ok(p) => p,
            Err(_) => Predictions { event_distribution: Vec::new(), anomaly_probability: 0, confidence: 0 },
        };
        let model = *self.learner.get_model();
        if predictions.anomaly_probability > SCALE / 2 {
            let trigger = if predictions.anomaly_probability > SCALE * 7 / 10 {
                InterventionTrigger::PredictedAnomaly
            } else {
                InterventionTrigger::DetectedAnomaly
            };
            let intervention = Intervention {
                id: new_intervention_id(),
                trigger,
                target: String::from_str("system"),
                action: Action::Diagnose { command: with_number("simulate diagnostic for round ", round_index + 1) },
                executed: false,
                rollbackable: false,
                rollback_action: None,
            };
            if self.trust.authorize(&intervention).is_ok() {
                self.intervention_count = self.intervention_count + 1;
            }
        }
        if let Ok(Some(new_phase)) = self.trust.evaluate_transition(&model) {
            if self.trust.transition(new_phase).is_ok() {
                self.phase_transitions = self.phase_transitions + 1;
            }
        }
        let standing = self.trust.state();
        Ok(SimLog {
            round: round_index + 1,
            round_name: round.name.clone(),
            events_in_round: round_events.len(),
            total_events: model.observed_events,
            phase: phase_name(standing.phase),
            model_version: model.version,
            model_accuracy: model.prediction_accuracy,
            anomaly_prob: predictions.anomaly_probability,
            trust_score: standing.trust_score,
            consecutive_successes: standing.consecutive_successes,
            interventions_attempted: self.intervention_count,
        })
    }

    /// Runs every round of `scenario` in order and sums up: the agent
    /// never loses a phase, and the number of phase transitions is the
    /// number of phases it climbed.
    pub fn run_scenario<F: Fn(u64) -> u64>(self, scenario: &Scenario, accuracy_curve: &F) -> (r: MigiResult<SimResult>)
        requires
            self.learner_spec().wf(),
            self.learner_spec().total() + total_count(rounds_view(scenario.rounds@)) <= u64::MAX,
            self.learner_spec().model_view().version + scenario.rounds@.len() <= u64::MAX,
            forall|i: int| 0 <= i < scenario.rounds@.len() ==> round_fits(
                #[trigger] scenario.rounds@[i].phase,
                scenario.rounds@[i].event_count as nat,
                i as nat,
            ),
            scenario.rounds@.len() < usize::MAX,
            self.transitions_spec() + scenario.rounds@.len() <= usize::MAX,
            self.interventions_spec() + scenario.rounds@.len() < u64::MAX,
            forall|n: u64| accuracy_curve.requires((n,)),
        ensures
            r matches Ok(res) && {
                &&& res.scenario_name@ == scenario.name@
                &&& res.scenario_description@ == scenario.description@
                &&& res.rounds_completed == scenario.rounds@.len()
                &&& res.logs@.len() == scenario.rounds@.len()
                &&& res.total_events_processed == self.learner_spec().total() + total_count(rounds_view(scenario.rounds@))
                &&& self.interventions_spec() <= res.interventions <= self.interventions_spec() + scenario.rounds@.len()
                &&& scenario.rounds@.len() > 0 ==> {
                    let last = res.logs@[scenario.rounds@.len() - 1];
                    &&& res.final_phase@ == last.phase@
                    &&& res.final_trust_score == last.trust_score
                    &&& res.final_model_accuracy == last.model_accuracy
                    &&& res.total_events_processed == last.total_events
                    &&& res.interventions == last.interventions_attempted
                }
                &&& scenario.rounds@.len() == 0 ==> {
                    &&& res.final_phase@ == phase_name_spec(self.trust_spec().standing().phase)
                    &&& res.final_trust_score == self.trust_spec().standing().trust_score
                    &&& res.final_model_accuracy == self.learner_spec().model_view().prediction_accuracy
                    &&& res.interventions == self.interventions_spec()
                }
                &&& exists|p: SymbiosisPhase| {
                    &&& #[trigger] phase_rank(p) >= phase_rank(self.trust_spec().standing().phase)
                    &&& res.final_phase@ == phase_name_spec(p)
                    &&& res.phase_transitions == self.transitions_spec() + phase_rank(p)
                        - phase_rank(self.trust_spec().standing().phase)
                }
                &&& forall|i: int| 0 <= i < scenario.rounds@.len() ==> {
                    &&& (#[trigger] res.logs@[i]).round == i + 1
                    &&& res.logs@[i].round_name@ == scenario.rounds@[i].name@
                    &&& res.logs@[i].events_in_round == scenario.rounds@[i].event_count
                    &&& res.logs@[i].total_events == self.learner_spec().total()
                        + total_count(rounds_view(scenario.rounds@).take(i + 1))
                }
            },
    {
        let ghost init = self;
        let ghost rv = rounds_view(scenario.rounds@);
        let mut sandbox = self;
        let mut logs: Vec<SimLog> = Vec::new();
        let n = scenario.rounds.len();
        let mut i: usize = 0;
        while i < n
            invariant
                n == scenario.rounds@.len(),
                rv == rounds_view(scenario.rounds@),
                0 <= i <= n,
                sandbox.learner_spec().wf(),
                sandbox.learner_spec().total() == init.learner_spec().total() + total_count(rv.take(i as int)),
                init.learner_spec().total() + total_count(rv) <= u64::MAX,
                sandbox.learner_spec().model_view().version <= init.learner_spec().model_view().version + i,
                init.learner_spec().model_view().version + n <= u64::MAX,
                forall|k: int| 0 <= k < n ==> round_fits(
                    #[trigger] scenario.rounds@[k].phase,
                    scenario.rounds@[k].event_count as nat,
                    k as nat,
                ),
                n < usize::MAX,
                init.transitions_spec() + n <= usize::MAX,
                init.interventions_spec() <= sandbox.interventions_spec() <= init.interventions_spec() + i,
                init.interventions_spec() + n < u64::MAX,
                i == 0 ==> sandbox.trust_spec().standing() == init.trust_spec().standing()
                    && sandbox.learner_spec().model_view() == init.learner_spec().model_view()
                    && sandbox.interventions_spec() == init.interventions_spec(),
                i > 0 ==> {
                    let l = logs@[i - 1];
                    &&& l.phase@ == phase_name_spec(sandbox.trust_spec().standing().phase)
                    &&& l.trust_score == sandbox.trust_spec().standing().trust_score
                    &&& l.model_accuracy == sandbox.learner_spec().model_view().prediction_accuracy
                    &&& l.total_events == sandbox.learner_spec().model_view().observed_events
                    &&& l.interventions_attempted == sandbox.interventions_spec()
                },
                forall|m: u64| accuracy_curve.requires((m,)),
                sandbox.transitions_spec() <= init.transitions_spec() + i,
                phase_rank(sandbox.trust_spec().standing().phase) >= phase_rank(init.trust_spec().standing().phase),
                sandbox.transitions_spec() == init.transitions_spec() + phase_rank(sandbox.trust_spec().standing().phase)
                    - phase_rank(init.trust_spec().standing().phase),
                logs@.len() == i,
                forall|k: int| 0 <= k < i ==> {
                    &&& (#[trigger] logs@[k]).round == k + 1
                    &&& logs@[k].round_name@ == scenario.rounds@[k].name@
                    &&& logs@[k].events_in_round == scenario.rounds@[k].event_count
                    &&& logs@[k].total_events == init.learner_spec().total() + total_count(rv.take(k + 1))
                },
            decreases n - i,
        {
            proof {
                assert(rv.take(i as int + 1).drop_last() =~= rv.take(i as int));
                assert(rv.take(i as int + 1).last() == rv[i as int]);
                assert(rv[i as int] == scenario.rounds@[i as int]@);
                lemma_total_count_prefix(rv, i as int + 1);
                assert(round_fits(scenario.rounds@[i as int].phase, scenario.rounds@[i as int].event_count as nat, i as nat));
            }
            let ghost before = sandbox;
            let log = sandbox.run_round(&scenario.rounds[i], i, accuracy_curve);
            proof {
                crate::trust::law_transitions_step_up(
                    before.trust_spec().standing(),
                    before.trust_spec().threshold(),
                    sandbox.learner_spec().model_view(),
                );
            }
            proof {
                sandbox.learner_spec().lemma_model_agrees();
            }
            match log {
                Ok(l) => logs.push(l),
                Err(e) => return Err(e),
            }
            i = i + 1;
        }
        proof {
            assert(rv.take(n as int) =~= rv);
        }
        let standing = sandbox.trust.state();
        let model = sandbox.learner.get_model();
        let res = SimResult {
            scenario_name: scenario.name.clone(),
            scenario_description: scenario.description.clone(),
            rounds_completed: logs.len(),
            total_events_processed: model.observed_events,
            final_phase: phase_name(standing.phase),
            final_trust_score: standing.trust_score,
            final_model_accuracy: model.prediction_accuracy,
            phase_transitions: sandbox.phase_transitions,
            interventions: sandbox.intervention_count,
            logs,
        };
        proof {
            sandbox.learner_spec().lemma_model_agrees();
        }
        assert(phase_rank(standing.phase) >= phase_rank(init.trust_spec().standing().phase));
        Ok(res)
    }
}

} // verus!
