//! Configuration: the symbiosis phases and the agent's settings.

use vstd::prelude::*;
use crate::fixed::SCALE;

verus! {

/// The four phases of symbiosis; each one grants more than the last.
#[derive(Debug, Clone, Copy, PartialEq, Eq, Structural)]
pub enum SymbiosisPhase {
    Observation,
    Assistance,
    LocalTakeover,
    ControlledTransition,
}

/// The rank of a phase, from 0 (`Observation`) to 3 (`ControlledTransition`).
pub open spec fn phase_rank(p: SymbiosisPhase) -> int {
    match p {
        SymbiosisPhase::Observation => 0,
        SymbiosisPhase::Assistance => 1,
        SymbiosisPhase::LocalTakeover => 2,
        SymbiosisPhase::ControlledTransition => 3,
    }
}

impl SymbiosisPhase {
    /// Reading the host is allowed in every phase.
    pub fn can_read(&self) -> (r: bool)
        ensures
            r,
    {
        true
    }

    /// Suggestions are allowed from `Assistance` on.
    pub fn can_suggest(&self) -> (r: bool)
        ensures
            r == (phase_rank(*self) >= 1),
    {
        match self {
            SymbiosisPhase::Assistance | SymbiosisPhase::LocalTakeover
            | SymbiosisPhase::ControlledTransition => true,
            SymbiosisPhase::Observation => false,
        }
    }

    /// Isolated writes are allowed from `LocalTakeover` on.
    pub fn can_write_isolated(&self) -> (r: bool)
        ensures
            r == (phase_rank(*self) >= 2),
    {
        match self {
            SymbiosisPhase::LocalTakeover | SymbiosisPhase::ControlledTransition => true,
            _ => false,
        }
    }

    /// Emergency takeover is allowed only in `ControlledTransition`.
    pub fn can_takeover(&self) -> (r: bool)
        ensures
            r == (phase_rank(*self) >= 3),
    {
        match self {
            SymbiosisPhase::ControlledTransition => true,
            _ => false,
        }
    }
}

impl Default for SymbiosisPhase {
    fn default() -> (r: Self)
        ensures
            r == SymbiosisPhase::Observation,
    {
        SymbiosisPhase::Observation
    }
}

/// The agent's configuration. `trust_threshold` is in millionths.
#[derive(Debug, Clone)]
pub struct MigiConfig {
    pub name: String,
    pub phase: SymbiosisPhase,
    pub host_observation_endpoints: Vec<String>,
    pub allowed_intervention_targets: Vec<String>,
    pub trust_threshold: i64,
    pub max_concurrent_interventions: usize,
}

impl Default for MigiConfig {
    /// The configuration used when no file is given: named "migi",
    /// observing, with no endpoints, no allowed targets, a threshold of
    /// 0.05 and one intervention at a time.
    fn default() -> (r: Self)
        ensures
            r.name@ == "migi"@,
            r.phase == SymbiosisPhase::Observation,
            r.host_observation_endpoints@.len() == 0,
            r.allowed_intervention_targets@.len() == 0,
            r.trust_threshold == SCALE / 20,
            r.max_concurrent_interventions == 1,
    {
        MigiConfig {
            name: String::from_str("migi"),
            phase: SymbiosisPhase::Observation,
            host_observation_endpoints: Vec::new(),
            allowed_intervention_targets: Vec::new(),
            trust_threshold: (SCALE / 20) as i64,
            max_concurrent_interventions: 1,
        }
    }
}

impl MigiConfig {
    /// The configuration to run with, given the outcome of loading the
    /// configuration file: the loaded one, or the default when loading failed.
    pub fn load_or_default(loaded: crate::error::MigiResult<MigiConfig>) -> (r: MigiConfig)
        ensures
            loaded is Ok ==> r == loaded->Ok_0,
            loaded is Err ==> r.name@ == "migi"@ && r.phase == SymbiosisPhase::Observation
                && r.host_observation_endpoints@.len() == 0
                && r.allowed_intervention_targets@.len() == 0
                && r.trust_threshold == SCALE / 20 && r.max_concurrent_interventions == 1,
    {
        match loaded {
            Ok(config) => config,
            Err(_) => MigiConfig::default(),
        }
    }
}

} // verus!
