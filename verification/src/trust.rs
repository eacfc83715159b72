//! Trust — the boundary layer: who may do what, and when the agent has
//! earned the next phase.
//!
//! The trust score is the share of successful interventions among all
//! recorded ones, kept as the exact fraction of the two counts.
//! Thresholds compare exactly: a score of at least 0.8 means at least
//! four successes for every five recorded interventions.

use vstd::prelude::*;
use crate::config::{SymbiosisPhase, phase_rank};
use crate::error::{MigiError, MigiResult};
use crate::fixed::{Fraction, SCALE, frac_at_least, frac_den, frac_le, frac_lt, frac_num};
use crate::intervener::{Action, Intervention};
use crate::learner::{SystemModel, reliable};
use crate::text::{concat3, contains_string, views};

verus! {

/// The agent's standing: its phase, trust score and the counters behind
/// it.
#[derive(Debug, Clone, Copy, PartialEq, Eq, Structural)]
pub struct TrustState {
    pub phase: SymbiosisPhase,
    pub trust_score: Fraction,
    pub successful_interventions: u64,
    pub failed_interventions: u64,
    pub rejected_attempts: u64,
    pub consecutive_successes: u64,
}

/// The trust score of these counters: successes over all recorded
/// interventions (zero when none was recorded).
pub open spec fn score_of(successes: nat, failures: nat) -> Fraction {
    Fraction { num: successes as u64, den: (successes + failures) as u64 }
}

/// A score of at least 0.8.
pub open spec fn high_trust(score: Fraction) -> bool {
    frac_at_least(score, 4, 5)
}

/// The standing at the start of `phase`: nothing recorded, score zero.
pub open spec fn fresh_state(phase: SymbiosisPhase) -> TrustState {
    TrustState {
        phase,
        trust_score: Fraction { num: 0, den: 0 },
        successful_interventions: 0,
        failed_interventions: 0,
        rejected_attempts: 0,
        consecutive_successes: 0,
    }
}

impl TrustState {
    /// The standing at the start of a phase: nothing recorded, score zero.
    pub fn new(phase: SymbiosisPhase) -> (r: Self)
        ensures
            r == fresh_state(phase),
    {
        TrustState {
            phase,
            trust_score: Fraction { num: 0, den: 0 },
            successful_interventions: 0,
            failed_interventions: 0,
            rejected_attempts: 0,
            consecutive_successes: 0,
        }
    }

    fn update_score(&mut self)
        requires
            old(self).successful_interventions + old(self).failed_interventions <= u64::MAX,
        ensures
            *final(self) == (TrustState { trust_score: final(self).trust_score, ..*old(self) }),
            final(self).trust_score == score_of(
                old(self).successful_interventions as nat,
                old(self).failed_interventions as nat,
            ),
    {
        let total = self.successful_interventions + self.failed_interventions;
        self.trust_score = Fraction { num: self.successful_interventions, den: total };
    }

    /// Records a successful intervention: one more success, one more in
    /// the streak, and the score recomputed.
    pub fn record_success(&mut self)
        requires
            old(self).successful_interventions + old(self).failed_interventions < u64::MAX,
            old(self).consecutive_successes < u64::MAX,
        ensures
            final(self).successful_interventions == old(self).successful_interventions + 1,
            final(self).consecutive_successes == old(self).consecutive_successes + 1,
            final(self).trust_score == score_of(
                final(self).successful_interventions as nat,
                final(self).failed_interventions as nat,
            ),
            final(self).phase == old(self).phase,
            final(self).failed_interventions == old(self).failed_interventions,
            final(self).rejected_attempts == old(self).rejected_attempts,
    {
        self.successful_interventions = self.successful_interventions + 1;
        self.consecutive_successes = self.consecutive_successes + 1;
        self.update_score();
    }

    /// Records a failed intervention: one more failure, the streak reset,
    /// and the score recomputed.
    pub fn record_failure(&mut self)
        requires
            old(self).successful_interventions + old(self).failed_interventions < u64::MAX,
        ensures
            final(self).failed_interventions == old(self).failed_interventions + 1,
            final(self).consecutive_successes == 0,
            final(self).trust_score == score_of(
                final(self).successful_interventions as nat,
                final(self).failed_interventions as nat,
            ),
            old(self).trust_score == score_of(old(self).successful_interventions as nat, old(self).failed_interventions as nat)
                ==> frac_le(final(self).trust_score, old(self).trust_score)
                && (old(self).successful_interventions > 0 ==> frac_lt(final(self).trust_score, old(self).trust_score)),
            final(self).phase == old(self).phase,
            final(self).successful_interventions == old(self).successful_interventions,
            final(self).rejected_attempts == old(self).rejected_attempts,
    {
        let ghost before = *self;
        self.failed_interventions = self.failed_interventions + 1;
        self.consecutive_successes = 0;
        self.update_score();
        proof {
            let s = before.successful_interventions as nat;
            let t = s + before.failed_interventions as nat;
            if t > 0 {
                assert(s * t <= s * (t + 1)) by (nonlinear_arith);
                assert(s > 0 ==> s * t < s * (t + 1)) by (nonlinear_arith);
            }
        }
    }

    /// Records a rejected attempt; nothing else changes.
    pub fn record_rejection(&mut self)
        requires
            old(self).rejected_attempts < u64::MAX,
        ensures
            *final(self) == (TrustState {
                rejected_attempts: (old(self).rejected_attempts + 1) as u64,
                ..*old(self)
            }),
    {
        self.rejected_attempts = self.rejected_attempts + 1;
    }
}

/// Why an intervention is refused.
pub ghost enum Denial {
    Blocked,
    NotAllowed,
    NoSuggestions,
    NoWrites,
    NoEmergencyBlocks,
}

/// Whether a diagnosis on `target` passes the target lists: it is not
/// blocked, and the allowed list is empty or names it.
pub open spec fn may_diagnose(allowed: Seq<Seq<char>>, blocked: Seq<Seq<char>>, target: Seq<char>) -> bool {
    !blocked.contains(target) && (allowed.len() == 0 || allowed.contains(target))
}

/// The reason to refuse an intervention on `target` with `action` in
/// `phase`, or `None` when it is authorized: the blocked list comes
/// first, then the allowed list (an empty one allows every target), then
/// what the phase permits for the action.
pub open spec fn denial(
    phase: SymbiosisPhase,
    allowed: Seq<Seq<char>>,
    blocked: Seq<Seq<char>>,
    target: Seq<char>,
    action: Action,
) -> Option<Denial> {
    if blocked.contains(target) {
        Some(Denial::Blocked)
    } else if allowed.len() > 0 && !allowed.contains(target) {
        Some(Denial::NotAllowed)
    } else {
        match action {
            Action::Diagnose { .. } => None,
            Action::Suggest { .. } => if phase_rank(phase) >= 1 { None } else { Some(Denial::NoSuggestions) },
            Action::Hotfix { .. } | Action::Isolate { .. } | Action::Reconfigure { .. } =>
                if phase_rank(phase) >= 2 { None } else { Some(Denial::NoWrites) },
            Action::EmergencyBlock { .. } =>
                if phase_rank(phase) >= 3 { None } else { Some(Denial::NoEmergencyBlocks) },
        }
    }
}

/// The message of a refusal.
pub open spec fn denial_message(d: Denial, target: Seq<char>) -> Seq<char> {
    match d {
        Denial::Blocked => "target '"@ + target + "' is in the blocked intervention targets list"@,
        Denial::NotAllowed => "target '"@ + target + "' not in allowed intervention targets"@,
        Denial::NoSuggestions => "current phase does not allow suggestions"@,
        Denial::NoWrites => "current phase does not allow write operations"@,
        Denial::NoEmergencyBlocks => "current phase does not allow emergency blocks"@,
    }
}

/// The phase that the agent has earned, if any: one step up from its
/// current phase, when the model, the score and the streak allow it.
///
/// - Observation to Assistance: a reliable model and at least 100 events.
/// - Assistance to LocalTakeover: a score of at least 0.8, at least 10
///   consecutive successes and a reliable model.
/// - LocalTakeover to ControlledTransition: a score of at least 0.8, at
///   least 10 consecutive successes and an accuracy of at least 0.95.
/// - ControlledTransition is the last phase.
pub open spec fn next_phase(state: TrustState, threshold: int, model: SystemModel) -> Option<SymbiosisPhase> {
    let model_reliable = reliable(model.prediction_accuracy as int, threshold);
    let enough_data = model.observed_events >= 100;
    let trusted = high_trust(state.trust_score);
    let streak = state.consecutive_successes >= 10;
    match state.phase {
        SymbiosisPhase::Observation =>
            if model_reliable && enough_data { Some(SymbiosisPhase::Assistance) } else { None },
        SymbiosisPhase::Assistance =>
            if trusted && streak && model_reliable { Some(SymbiosisPhase::LocalTakeover) } else { None },
        SymbiosisPhase::LocalTakeover =>
            if trusted && streak && model.prediction_accuracy >= SCALE * 95 / 100 {
                Some(SymbiosisPhase::ControlledTransition)
            } else {
                None
            },
        SymbiosisPhase::ControlledTransition => None,
    }
}

/// Holds the agent's standing and decides what it may do. The threshold
/// is in millionths.
#[derive(Debug)]
pub struct TrustManager {
    state: TrustState,
    trust_threshold: i64,
    allowed_targets: Vec<String>,
    blocked_targets: Vec<String>,
    state_file: Option<String>,
}

impl TrustManager {
    /// The current standing.
    pub closed spec fn standing(&self) -> TrustState {
        self.state
    }

    /// The model reliability threshold, in millionths.
    pub closed spec fn threshold(&self) -> int {
        self.trust_threshold as int
    }

    /// The allowed targets (empty: every target).
    pub closed spec fn allowed(&self) -> Seq<Seq<char>> {
        views(self.allowed_targets@)
    }

    /// The blocked targets.
    pub closed spec fn blocked(&self) -> Seq<Seq<char>> {
        views(self.blocked_targets@)
    }

    /// Where the standing is persisted, if anywhere.
    pub closed spec fn state_file_view(&self) -> Option<Seq<char>> {
        match self.state_file {
            Some(s) => Some(s@),
            None => None,
        }
    }

    /// A manager starting fresh in `phase`, with no blocked targets and
    /// no persistence.
    pub fn new(phase: SymbiosisPhase, threshold: i64, allowed_targets: Vec<String>) -> (r: Self)
        ensures
            r.standing() == fresh_state(phase),
            r.threshold() == threshold,
            r.allowed() == views(allowed_targets@),
            r.blocked().len() == 0,
            r.state_file_view() is None,
    {
        let r = TrustManager {
            state: TrustState::new(phase),
            trust_threshold: threshold,
            allowed_targets,
            blocked_targets: Vec::new(),
            state_file: None,
        };
        assert(r.blocked() =~= Seq::<Seq<char>>::empty());
        r
    }

    /// A manager persisted to `state_file`: it resumes the standing read
    /// from that file when there was one, else starts fresh in `phase`.
    pub fn with_persistence(
        phase: SymbiosisPhase,
        threshold: i64,
        allowed_targets: Vec<String>,
        state_file: &str,
        persisted: Option<TrustState>,
    ) -> (r: Self)
        ensures
            r.standing() == (match persisted {
                Some(s) => s,
                None => fresh_state(phase),
            }),
            r.threshold() == threshold,
            r.allowed() == views(allowed_targets@),
            r.blocked().len() == 0,
            r.state_file_view() == Some(state_file@),
    {
        let mut manager = TrustManager::new(phase, threshold, allowed_targets);
        manager.state_file = Some(String::from_str(state_file));
        if let Some(loaded) = persisted {
            manager.state = loaded;
        }
        manager
    }

    /// Where the standing is persisted, if anywhere.
    pub fn state_file(&self) -> (r: Option<&String>)
        ensures
            match r {
                Some(s) => self.state_file_view() == Some(s@),
                None => self.state_file_view() is None,
            },
    {
        match &self.state_file {
            Some(s) => Some(s),
            None => None,
        }
    }

    /// Replaces the blocked targets.
    pub fn set_blocked_targets(&mut self, targets: Vec<String>)
        ensures
            final(self).blocked() == views(targets@),
            final(self).allowed() == old(self).allowed(),
            final(self).standing() == old(self).standing(),
            final(self).threshold() == old(self).threshold(),
            final(self).state_file_view() == old(self).state_file_view(),
    {
        self.blocked_targets = targets;
    }

    /// Blocks one more target, unless it is blocked already.
    pub fn add_blocked_target(&mut self, target: &str)
        ensures
            final(self).blocked() == (if old(self).blocked().contains(target@) {
                old(self).blocked()
            } else {
                old(self).blocked().push(target@)
            }),
            final(self).allowed() == old(self).allowed(),
            final(self).standing() == old(self).standing(),
            final(self).threshold() == old(self).threshold(),
            final(self).state_file_view() == old(self).state_file_view(),
    {
        let t = String::from_str(target);
        if !contains_string(&self.blocked_targets, &t) {
            self.blocked_targets.push(t);
            assert(views(self.blocked_targets@) =~= views(old(self).blocked_targets@).push(target@));
        }
    }

    /// Decides whether an intervention may go ahead. It is refused, with
    /// a trust violation saying why, exactly when [`denial`] gives a reason.
    pub fn authorize(&self, intervention: &Intervention) -> (r: MigiResult<()>)
        ensures
            match denial(self.standing().phase, self.allowed(), self.blocked(), intervention.target@, intervention.action) {
                None => r is Ok,
                Some(d) => r matches Err(MigiError::TrustViolation(m))
                    && m@ == denial_message(d, intervention.target@),
            },
    {
        let target = &intervention.target;
        if contains_string(&self.blocked_targets, target) {
            return Err(MigiError::TrustViolation(concat3(
                "target '",
                target.as_str(),
                "' is in the blocked intervention targets list",
            )));
        }
        if self.allowed_targets.len() > 0 && !contains_string(&self.allowed_targets, target) {
            return Err(MigiError::TrustViolation(concat3(
                "target '",
                target.as_str(),
                "' not in allowed intervention targets",
            )));
        }
        match &intervention.action {
            Action::Diagnose { .. } => Ok(()),
            Action::Suggest { .. } => {
                if self.state.phase.can_suggest() {
                    Ok(())
                } else {
                    Err(MigiError::TrustViolation(String::from_str("current phase does not allow suggestions")))
                }
            },
            Action::Hotfix { .. } | Action::Isolate { .. } | Action::Reconfigure { .. } => {
                if self.state.phase.can_write_isolated() {
                    Ok(())
                } else {
                    Err(MigiError::TrustViolation(
                        String::from_str("current phase does not allow write operations"),
                    ))
                }
            },
            Action::EmergencyBlock { .. } => {
                if self.state.phase.can_takeover() {
                    Ok(())
                } else {
                    Err(MigiError::TrustViolation(
                        String::from_str("current phase does not allow emergency blocks"),
                    ))
                }
            },
        }
    }

    /// The phase the agent has earned, if any (see [`next_phase`]).
    pub fn evaluate_transition(&self, model: &SystemModel) -> (r: MigiResult<Option<SymbiosisPhase>>)
        ensures
            r == Ok::<Option<SymbiosisPhase>, MigiError>(next_phase(self.standing(), self.threshold(), *model)),
    {
        let current = self.state.phase;
        let model_reliable = model.is_reliable(self.trust_threshold);
        let enough_data = model.observed_events >= 100;
        let score = self.state.trust_score;
        let high_trust = score.den > 0 && 5 * (score.num as u128) >= 4 * (score.den as u128);
        let streak = self.state.consecutive_successes >= 10;
        let next = match current {
            SymbiosisPhase::Observation => {
                if model_reliable && enough_data { Some(SymbiosisPhase::Assistance) } else { None }
            },
            SymbiosisPhase::Assistance => {
                if high_trust && streak && model_reliable { Some(SymbiosisPhase::LocalTakeover) } else { None }
            },
            SymbiosisPhase::LocalTakeover => {
                if high_trust && streak && model.prediction_accuracy >= SCALE * 95 / 100 {
                    Some(SymbiosisPhase::ControlledTransition)
                } else {
                    None
                }
            },
            SymbiosisPhase::ControlledTransition => None,
        };
        Ok(next)
    }

    /// Moves to `new_phase` and starts a new streak; nothing else changes.
    pub fn transition(&mut self, new_phase: SymbiosisPhase) -> (r: MigiResult<()>)
        ensures
            r is Ok,
            final(self).standing() == (TrustState { phase: new_phase, consecutive_successes: 0, ..old(self).standing() }),
            final(self).allowed() == old(self).allowed(),
            final(self).blocked() == old(self).blocked(),
            final(self).threshold() == old(self).threshold(),
            final(self).state_file_view() == old(self).state_file_view(),
    {
        self.state.phase = new_phase;
        self.state.consecutive_successes = 0;
        Ok(())
    }

    /// The current standing.
    pub fn state(&self) -> (r: &TrustState)
        ensures
            *r == self.standing(),
    {
        &self.state
    }

    /// The standing, to be updated in place (for instance by recording an
    /// outcome); what is written through it becomes the standing, and
    /// nothing else of the manager changes.
    pub fn state_mut(&mut self) -> (r: &mut TrustState)
        ensures
            *r == old(self).standing(),
            final(self).standing() == *final(r),
            final(self).threshold() == old(self).threshold(),
            final(self).allowed() == old(self).allowed(),
            final(self).blocked() == old(self).blocked(),
            final(self).state_file_view() == old(self).state_file_view(),
    {
        &mut self.state
    }

    /// The current phase.
    pub fn phase(&self) -> (r: &SymbiosisPhase)
        ensures
            *r == self.standing().phase,
    {
        &self.state.phase
    }

    /// The allowed targets.
    pub fn allowed_targets(&self) -> (r: &[String])
        ensures
            views(r@) == self.allowed(),
    {
        self.allowed_targets.as_slice()
    }

    /// The blocked targets.
    pub fn blocked_targets(&self) -> (r: &[String])
        ensures
            views(r@) == self.blocked(),
    {
        self.blocked_targets.as_slice()
    }
}

} // verus!

verus! {

/// Phases only go up, one step at a time: whatever the standing, the
/// model and the threshold, the phase that the agent has earned is the
/// one right above its current phase, and from `ControlledTransition`
/// there is none.
pub proof fn law_transitions_step_up(state: TrustState, threshold: int, model: SystemModel)
    ensures
        next_phase(state, threshold, model) matches Some(p) ==> phase_rank(p) == phase_rank(state.phase) + 1,
        state.phase == SymbiosisPhase::ControlledTransition ==> next_phase(state, threshold, model) is None,
{
}

/// The trust score is the share of successes: zero with nothing
/// recorded, one with no failure, never above one, and at least 0.8
/// exactly when at least four of every five recorded interventions
/// succeeded.
pub proof fn law_score_is_share_of_successes(successes: nat, failures: nat)
    requires
        successes + failures <= u64::MAX,
    ensures
        frac_le(score_of(0, 0), score_of(successes, failures)),
        frac_le(score_of(successes, failures), score_of(1, 0)),
        successes + failures > 0 ==> (high_trust(score_of(successes, failures))
            <==> 5 * successes >= 4 * (successes + failures)),
        failures == 0 && successes > 0 ==> !frac_lt(score_of(successes, failures), score_of(1, 0)),
        successes == 0 ==> !frac_lt(score_of(0, 0), score_of(successes, failures)),
{
    let f = score_of(successes, failures);
    let one = score_of(1, 0);
    assert(f.num == successes && f.den == successes + failures);
    assert(one.num == 1 && one.den == 1);
    assert(frac_num(one) == 1 && frac_den(one) == 1);
    assert(frac_num(f) <= frac_den(f));
    assert(frac_num(f) * frac_den(one) == frac_num(f));
    assert(frac_num(one) * frac_den(f) == frac_den(f));
}

/// A failure never helps and a success never hurts: a failure after at
/// least one success strictly lowers the score, a success after at least
/// one failure strictly raises it, and neither ever moves it the other
/// way; what the agent can earn next is always above its phase, never
/// below.
pub proof fn law_failure_never_downgrades(
    successes: nat,
    failures: nat,
    state: TrustState,
    threshold: int,
    model: SystemModel,
)
    requires
        successes + failures < u64::MAX,
    ensures
        frac_le(score_of(successes, failures + 1), score_of(successes, failures)),
        successes > 0 ==> frac_lt(score_of(successes, failures + 1), score_of(successes, failures)),
        frac_le(score_of(successes, failures), score_of(successes + 1, failures)),
        failures > 0 ==> frac_lt(score_of(successes, failures), score_of(successes + 1, failures)),
        next_phase(state, threshold, model) matches Some(p) ==> phase_rank(p) > phase_rank(state.phase),
{
    let t = successes + failures;
    if t > 0 {
        assert(successes * t <= successes * (t + 1)) by (nonlinear_arith);
        assert(successes > 0 ==> successes * t < successes * (t + 1)) by (nonlinear_arith);
        assert(successes * (t + 1) <= (successes + 1) * t) by (nonlinear_arith)
            requires
                successes <= t,
        ;
        assert(failures > 0 ==> successes * (t + 1) < (successes + 1) * t) by (nonlinear_arith)
            requires
                t == successes + failures,
        ;
    }
}

/// Permissions grow with the phase: an intervention authorized in one
/// phase is authorized in every later phase, with the same targets.
pub proof fn law_authorization_grows_with_phase(
    p: SymbiosisPhase,
    q: SymbiosisPhase,
    allowed: Seq<Seq<char>>,
    blocked: Seq<Seq<char>>,
    target: Seq<char>,
    action: Action,
)
    requires
        phase_rank(p) <= phase_rank(q),
        denial(p, allowed, blocked, target, action) is None,
    ensures
        denial(q, allowed, blocked, target, action) is None,
{
}

/// The target lists decide before the phase: a blocked target is always
/// refused; with a non-empty allowed list, a target not in it is always
/// refused; and a diagnosis on a permitted target is always authorized,
/// whatever the phase.
pub proof fn law_target_lists_come_first(
    phase: SymbiosisPhase,
    allowed: Seq<Seq<char>>,
    blocked: Seq<Seq<char>>,
    target: Seq<char>,
    action: Action,
)
    ensures
        blocked.contains(target) ==> denial(phase, allowed, blocked, target, action) == Some(Denial::Blocked),
        !blocked.contains(target) && allowed.len() > 0 && !allowed.contains(target)
            ==> denial(phase, allowed, blocked, target, action) == Some(Denial::NotAllowed),
        action is Diagnose && !blocked.contains(target) && (allowed.len() == 0 || allowed.contains(target))
            ==> denial(phase, allowed, blocked, target, action) is None,
{
}

/// Promotion follows the phase table: from Observation only to Assistance
/// and only with at least 100 events seen and a reliable model (accuracy
/// plus threshold at least one); from Assistance only to LocalTakeover and
/// only with a reliable model and a streak of at least 10 successes; from
/// LocalTakeover only to ControlledTransition and only with an accuracy of
/// at least 0.95 and such a streak. Past Observation the score must also
/// be at least 0.8. Whenever these qualify, the step is earned.
pub proof fn law_promotion_needs_a_reliable_model(state: TrustState, threshold: int, model: SystemModel)
    ensures
        state.phase == SymbiosisPhase::Observation && next_phase(state, threshold, model) is Some ==> {
            &&& next_phase(state, threshold, model) == Some(SymbiosisPhase::Assistance)
            &&& model.prediction_accuracy + threshold >= 1_000_000
            &&& model.observed_events >= 100
        },
        state.phase == SymbiosisPhase::Observation && model.prediction_accuracy + threshold >= 1_000_000
            && model.observed_events >= 100 ==> next_phase(state, threshold, model) == Some(SymbiosisPhase::Assistance),
        state.phase == SymbiosisPhase::Assistance && next_phase(state, threshold, model) is Some ==> {
            &&& next_phase(state, threshold, model) == Some(SymbiosisPhase::LocalTakeover)
            &&& model.prediction_accuracy + threshold >= 1_000_000
            &&& state.consecutive_successes >= 10
        },
        state.phase == SymbiosisPhase::LocalTakeover && next_phase(state, threshold, model) is Some ==> {
            &&& next_phase(state, threshold, model) == Some(SymbiosisPhase::ControlledTransition)
            &&& model.prediction_accuracy >= 950_000
            &&& state.consecutive_successes >= 10
        },
        state.phase == SymbiosisPhase::ControlledTransition ==> next_phase(state, threshold, model) is None,
        model.prediction_accuracy + threshold < 1_000_000 && state.phase != SymbiosisPhase::LocalTakeover
            ==> next_phase(state, threshold, model) is None,
        (state.phase == SymbiosisPhase::Assistance || state.phase == SymbiosisPhase::LocalTakeover)
            && next_phase(state, threshold, model) is Some
            ==> state.trust_score.den > 0 && 5 * state.trust_score.num >= 4 * state.trust_score.den,
        state.phase == SymbiosisPhase::Assistance && model.prediction_accuracy + threshold >= 1_000_000
            && state.consecutive_successes >= 10 && state.trust_score.den > 0
            && 5 * state.trust_score.num >= 4 * state.trust_score.den
            ==> next_phase(state, threshold, model) == Some(SymbiosisPhase::LocalTakeover),
        state.phase == SymbiosisPhase::LocalTakeover && model.prediction_accuracy >= 950_000
            && state.consecutive_successes >= 10 && state.trust_score.den > 0
            && 5 * state.trust_score.num >= 4 * state.trust_score.den
            ==> next_phase(state, threshold, model) == Some(SymbiosisPhase::ControlledTransition),
{
}

/// What each phase may do to a permitted target: a diagnosis always; a
/// suggestion from Assistance on; a write (hotfix, isolation,
/// reconfiguration) only in LocalTakeover and ControlledTransition; an
/// emergency block only in ControlledTransition. A refused write says
/// that the phase does not allow writes.
pub proof fn law_phase_permissions(
    phase: SymbiosisPhase,
    allowed: Seq<Seq<char>>,
    blocked: Seq<Seq<char>>,
    target: Seq<char>,
    action: Action,
)
    requires
        !blocked.contains(target),
        allowed.len() == 0 || allowed.contains(target),
    ensures
        action is Suggest ==> (denial(phase, allowed, blocked, target, action) is None
            <==> phase != SymbiosisPhase::Observation),
        action is Hotfix || action is Isolate || action is Reconfigure ==> {
            &&& denial(phase, allowed, blocked, target, action) is None
                <==> (phase == SymbiosisPhase::LocalTakeover || phase == SymbiosisPhase::ControlledTransition)
            &&& (phase == SymbiosisPhase::Observation || phase == SymbiosisPhase::Assistance)
                ==> denial(phase, allowed, blocked, target, action) == Some(Denial::NoWrites)
        },
        action is Suggest && phase == SymbiosisPhase::Observation
            ==> denial(phase, allowed, blocked, target, action) == Some(Denial::NoSuggestions),
        action is EmergencyBlock ==> (denial(phase, allowed, blocked, target, action) is None
            <==> phase == SymbiosisPhase::ControlledTransition),
        action is EmergencyBlock && phase != SymbiosisPhase::ControlledTransition
            ==> denial(phase, allowed, blocked, target, action) == Some(Denial::NoEmergencyBlocks),
        action is Diagnose ==> denial(phase, allowed, blocked, target, action) is None,
{
}

} // verus!
