//! Agent — what the agent decides in each cycle of its main loop.
//!
//! Polling the channels, running an intervention, saving state and
//! reading the clock are the caller's part. Each cycle hands the events
//! polled to [`Agent::cycle`], which feeds them to the learner, decides
//! whether to intervene, moves the agent up a phase when it has earned
//! it, and says what to save.

use vstd::prelude::*;
use crate::config::SymbiosisPhase;
use crate::error::MigiError;
use crate::intervener::{Action, Intervention, InterventionTrigger};
use crate::learner::{Predictions, StatisticalLearner, occurrences};
use crate::monitor::{MigiSnapshot, MonitorHistory, pushed, snapshot_of};
use crate::observer::{EventKind, HostEvent};
use crate::sandbox::standing_after;
use crate::trust::{Denial, TrustManager, denial_message, may_diagnose, next_phase};

verus! {

/// How many snapshots the agent keeps.
pub const HISTORY_CAPACITY: usize = 100;

/// The anomaly probability above which the agent intervenes: 0.7.
pub const INTERVENTION_THRESHOLD: u64 = 700_000;

/// What the caller does after a cycle.
#[derive(Debug)]
pub enum CycleStep {
    /// Run this intervention, which the trust layer authorized.
    Intervene(Intervention),
    /// The trust layer refused the intervention that the agent wanted.
    Refused(MigiError),
    /// Nothing to run.
    Idle,
}

/// The outcome of a cycle.
#[derive(Debug)]
pub struct CyclePlan {
    pub step: CycleStep,
    /// The phase that the agent moved up to, if it did.
    pub new_phase: Option<SymbiosisPhase>,
    /// Whether the trust state is due to be saved.
    pub save_trust: bool,
    /// Whether a snapshot is due.
    pub take_snapshot: bool,
}

/// The agent's cognitive and trust layers and its counters.
#[derive(Debug)]
pub struct Agent {
    learner: StatisticalLearner,
    trust: TrustManager,
    history: MonitorHistory,
    observed: u64,
    cycles: u64,
}

impl Agent {
    /// The learner.
    pub closed spec fn learner_spec(&self) -> StatisticalLearner {
        self.learner
    }

    /// The trust layer.
    pub closed spec fn trust_spec(&self) -> TrustManager {
        self.trust
    }

    /// The snapshots kept.
    pub closed spec fn history_spec(&self) -> Seq<MigiSnapshot> {
        self.history.snapshots@
    }

    /// Events observed so far.
    pub closed spec fn observed_spec(&self) -> nat {
        self.observed as nat
    }

    /// Cycles that saw events.
    pub closed spec fn cycles_spec(&self) -> nat {
        self.cycles as nat
    }

    /// The agent's invariant.
    pub closed spec fn wf(&self) -> bool {
        &&& self.learner.wf()
        &&& self.history.capacity == HISTORY_CAPACITY
    }

    /// A fresh agent in `phase`, with the model reliability `threshold`
    /// (millionths) and the targets it may act on.
    pub fn new(phase: SymbiosisPhase, threshold: i64, allowed_targets: Vec<String>) -> (r: Self)
        ensures
            r.wf(),
            r.learner_spec().total() == 0,
            r.learner_spec().model_view() == crate::learner::empty_model(),
            r.trust_spec().standing() == crate::trust::fresh_state(phase),
            r.trust_spec().threshold() == threshold,
            r.trust_spec().allowed() == crate::text::views(allowed_targets@),
            r.trust_spec().blocked().len() == 0,
            r.history_spec().len() == 0,
            r.observed_spec() == 0,
            r.cycles_spec() == 0,
    {
        Agent {
            learner: StatisticalLearner::new(),
            trust: TrustManager::new(phase, threshold, allowed_targets),
            history: MonitorHistory::new(HISTORY_CAPACITY),
            observed: 0,
            cycles: 0,
        }
    }

    /// The learner.
    pub fn learner(&self) -> (r: &StatisticalLearner)
        ensures
            *r == self.learner_spec(),
    {
        &self.learner
    }

    /// The trust layer.
    pub fn trust(&self) -> (r: &TrustManager)
        ensures
            *r == self.trust_spec(),
    {
        &self.trust
    }

    /// The snapshots kept, oldest first.
    pub fn history(&self) -> (r: &MonitorHistory)
        requires
            self.wf(),
        ensures
            r.snapshots@ == self.history_spec(),
            r.capacity == HISTORY_CAPACITY,
    {
        &self.history
    }

    /// Events observed so far.
    pub fn observed(&self) -> (r: u64)
        ensures
            r == self.observed_spec(),
    {
        self.observed
    }

    /// Whether `n` more events can be counted.
    pub fn has_room(&self, n: usize) -> (r: bool)
        ensures
            r == (self.observed_spec() + n <= u64::MAX && self.learner_spec().total() + n <= u64::MAX
                && self.learner_spec().model_view().version < u64::MAX && self.cycles_spec() < u64::MAX),
    {
        let n64 = n as u64;
        self.observed <= u64::MAX - n64
            && self.learner.total_events() <= u64::MAX - n64
            && self.learner.get_model().version < u64::MAX
            && self.cycles < u64::MAX
    }

    /// One cycle of the main loop with the events polled. Without events
    /// nothing happens. Otherwise the learner takes them; when an anomaly
    /// is likely (above 0.7) the agent asks to diagnose the system with an
    /// intervention of id `intervention_id`; it moves up a phase when it
    /// has earned it; the trust state is due to be saved whenever the
    /// events observed reach a multiple of 100, and a snapshot every fifth
    /// cycle.
    pub fn cycle<F: Fn(u64) -> u64>(&mut self, events: &[HostEvent], accuracy_curve: &F, intervention_id: u128) -> (r: Option<CyclePlan>)
        requires
            old(self).wf(),
            old(self).observed_spec() + events@.len() <= u64::MAX,
            old(self).learner_spec().total() + events@.len() <= u64::MAX,
            old(self).learner_spec().model_view().version < u64::MAX,
            old(self).cycles_spec() < u64::MAX,
            forall|n: u64| accuracy_curve.requires((n,)),
        ensures
            final(self).wf(),
            events@.len() == 0 ==> r is None && *final(self) == *old(self),
            events@.len() > 0 ==> (r matches Some(plan) && {
                let model = final(self).learner_spec().model_view();
                let earned = next_phase(old(self).trust_spec().standing(), old(self).trust_spec().threshold(), model);
                &&& final(self).learner_spec().total() == old(self).learner_spec().total() + events@.len()
                &&& forall|k: (Seq<char>, EventKind)| #[trigger] final(self).learner_spec().count(k)
                    == old(self).learner_spec().count(k) + occurrences(events@, k)
                &&& model.version == old(self).learner_spec().model_view().version + 1
                &&& final(self).trust_spec().standing() == standing_after(
                    old(self).trust_spec().standing(), old(self).trust_spec().threshold(), model)
                &&& final(self).trust_spec().threshold() == old(self).trust_spec().threshold()
                &&& final(self).trust_spec().allowed() == old(self).trust_spec().allowed()
                &&& final(self).trust_spec().blocked() == old(self).trust_spec().blocked()
                &&& plan.new_phase == earned
                &&& final(self).learner_spec().novelty_view() <= INTERVENTION_THRESHOLD ==> plan.step is Idle
                &&& final(self).learner_spec().novelty_view() > INTERVENTION_THRESHOLD ==> if may_diagnose(
                    old(self).trust_spec().allowed(), old(self).trust_spec().blocked(), "system"@) {
                    &&& plan.step matches CycleStep::Intervene(i)
                    &&& i.id == intervention_id
                    &&& i.target@ == "system"@
                    &&& i.trigger is PredictedAnomaly
                    &&& i.action matches Action::Diagnose { command } && command@ == "echo 'diagnosing anomaly'"@
                    &&& !i.executed && !i.rollbackable && i.rollback_action is None
                } else {
                    &&& plan.step matches CycleStep::Refused(MigiError::TrustViolation(m))
                    &&& m@ == denial_message(
                        if old(self).trust_spec().blocked().contains("system"@) { Denial::Blocked } else { Denial::NotAllowed },
                        "system"@,
                    )
                }
                &&& final(self).observed_spec() == old(self).observed_spec() + events@.len()
                &&& plan.save_trust == (final(self).observed_spec() % 100 == 0)
                &&& final(self).cycles_spec() == old(self).cycles_spec() + 1
                &&& plan.take_snapshot == (final(self).cycles_spec() % 5 == 0)
                &&& final(self).history_spec() == old(self).history_spec()
            }),
    {
        if events.len() == 0 {
            return None;
        }
        self.observed = self.observed + events.len() as u64;
        let processed = self.learner.process_events(events, accuracy_curve);
        assert(processed is Ok);
        let model = *self.learner.get_model();
        let predictions = match self.learner.predict() {
            Ok(p) => p,
            Err(_) => Predictions { event_distribution: Vec::new(), anomaly_probability: 0, confidence: 0 },
        };
        let mut step = CycleStep::Idle;
        if predictions.anomaly_probability > INTERVENTION_THRESHOLD {
            let intervention = Intervention {
                id: intervention_id,
                trigger: InterventionTrigger::PredictedAnomaly,
                target: String::from_str("system"),
                action: Action::Diagnose { command: String::from_str("echo 'diagnosing anomaly'") },
                executed: false,
                rollbackable: false,
                rollback_action: None,
            };
            step = match self.trust.authorize(&intervention) {
                Ok(()) => CycleStep::Intervene(intervention),
                Err(e) => CycleStep::Refused(e),
            };
        }
        let mut new_phase: Option<SymbiosisPhase> = None;
        if let Ok(Some(p)) = self.trust.evaluate_transition(&model) {
            if self.trust.transition(p).is_ok() {
                new_phase = Some(p);
            }
        }
        self.cycles = self.cycles + 1;
        Some(CyclePlan {
            step,
            new_phase,
            save_trust: self.observed % 100 == 0,
            take_snapshot: self.cycles % 5 == 0,
        })
    }

    /// Takes a snapshot of the agent at `timestamp` (Unix seconds),
    /// `uptime_secs` after it started, and keeps it in the history,
    /// dropping the oldest one when the history is full.
    pub fn record_snapshot(&mut self, timestamp: u64, uptime_secs: u64) -> (r: MigiSnapshot)
        requires
            old(self).wf(),
        ensures
            final(self).wf(),
            snapshot_of(
                r,
                old(self).trust_spec().standing().phase,
                old(self).trust_spec().standing(),
                old(self).learner_spec().model_view(),
                old(self).learner_spec().sources_view(),
                timestamp,
                uptime_secs,
            ),
            final(self).history_spec().len() > 0,
            snapshot_of(
                final(self).history_spec().last(),
                old(self).trust_spec().standing().phase,
                old(self).trust_spec().standing(),
                old(self).learner_spec().model_view(),
                old(self).learner_spec().sources_view(),
                timestamp,
                uptime_secs,
            ),
            final(self).history_spec() == pushed(
                old(self).history_spec(),
                HISTORY_CAPACITY as nat,
                final(self).history_spec().last(),
            ),
            final(self).learner_spec() == old(self).learner_spec(),
            final(self).trust_spec() == old(self).trust_spec(),
            final(self).observed_spec() == old(self).observed_spec(),
            final(self).cycles_spec() == old(self).cycles_spec(),
    {
        let phase = *self.trust.phase();
        let names = self.learner.subsystem_names();
        let kept = MigiSnapshot::take(phase, self.trust.state(), self.learner.get_model(), names, timestamp, uptime_secs);
        let snap = MigiSnapshot::take(phase, self.trust.state(), self.learner.get_model(), names, timestamp, uptime_secs);
        self.history.push(kept);
        snap
    }
}

} // verus!
